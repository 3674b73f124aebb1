//! User settings, and the themes that they choose among.
use vstd::prelude::*;
use crate::layout;
use crate::layout::Layout;
use crate::text;
use crate::text::{chars_of, is_text, string_of};
use crate::theme;
use crate::theme::{Theme, ThemeModel};

verus! {

// ---- the configuration ----
/// User-editable settings as the configuration file has them. All are optional,
/// so that files of earlier versions keep loading; what is missing falls back
/// to the defaults of [`Settings`].
#[derive(Debug)]
pub struct Config {
    /// Path of the chosen monospace font. `None` lets the app pick one.
    pub font_path: Option<String>,
    /// Pixel size of the font.
    pub font_size: Option<u32>,
    /// Name of the theme.
    pub theme_name: Option<String>,
    /// Rows of history per pane; 0 for no limit.
    pub scrollback_lines: Option<usize>,
    /// Whether the cursor blinks. `None` means enabled.
    pub cursor_blink: Option<bool>,
    /// Whether double-click selects a word and triple-click the whole line.
    /// `None` means enabled.
    pub click_word_select: Option<bool>,
    /// Whether making a selection copies it to the clipboard. `None` means
    /// disabled.
    pub copy_on_select: Option<bool>,
    /// Maximum number of tabs. `None` means 20.
    pub tab_max_number: Option<u32>,
    /// Prompt before closing a tab. `None` means enabled.
    pub confirm_tab_close: Option<bool>,
    /// Prompt before closing a pane. `None` means enabled.
    pub confirm_pane_close: Option<bool>,
    /// Prompt before closing the window. `None` means enabled.
    pub confirm_window_close: Option<bool>,
    /// Show the floating toolbar on split panes. `None` means enabled.
    pub show_pane_toolbar: Option<bool>,
    /// Name of the layout that new tabs start with. `None` means a single pane.
    pub default_layout: Option<String>,
}

impl Default for Config {
    fn default() -> (c: Config)
        ensures
            c.font_path is None,
            c.font_size is None,
            c.theme_name is None,
            c.scrollback_lines is None,
            c.cursor_blink is None,
            c.click_word_select is None,
            c.copy_on_select is None,
            c.tab_max_number is None,
            c.confirm_tab_close is None,
            c.confirm_pane_close is None,
            c.confirm_window_close is None,
            c.show_pane_toolbar is None,
            c.default_layout is None,
    {
        Config {
            font_path: None,
            font_size: None,
            theme_name: None,
            scrollback_lines: None,
            cursor_blink: None,
            click_word_select: None,
            copy_on_select: None,
            tab_max_number: None,
            confirm_tab_close: None,
            confirm_pane_close: None,
            confirm_window_close: None,
            show_pane_toolbar: None,
            default_layout: None,
        }
    }
}

/// The settings that a window goes by.
#[derive(Clone, Copy, Debug, PartialEq, Eq, Structural)]
pub struct Settings {
    pub cursor_blink: bool,
    pub click_word_select: bool,
    pub copy_on_select: bool,
    pub tab_max: u32,
    pub confirm_tab_close: bool,
    pub confirm_pane_close: bool,
    pub confirm_window_close: bool,
    pub show_pane_toolbar: bool,
    pub layout: Layout,
}

/// A setting, or its default.
pub open spec fn or_else<T>(value: Option<T>, default: T) -> T {
    match value {
        Some(v) => v,
        None => default,
    }
}

/// The settings of a configuration.
pub open spec fn settings_of(c: Config) -> Settings {
    Settings {
        cursor_blink: or_else(c.cursor_blink, true),
        click_word_select: or_else(c.click_word_select, true),
        copy_on_select: or_else(c.copy_on_select, false),
        tab_max: or_else(c.tab_max_number, 20),
        confirm_tab_close: or_else(c.confirm_tab_close, true),
        confirm_pane_close: or_else(c.confirm_pane_close, true),
        confirm_window_close: or_else(c.confirm_window_close, true),
        show_pane_toolbar: or_else(c.show_pane_toolbar, true),
        layout: match c.default_layout {
            Some(name) => layout::layout_named(name@),
            None => Layout::Single,
        },
    }
}

/// What a pane tells of the settings that panes have of their own.
#[derive(Clone, Copy, Debug, PartialEq, Eq, Structural)]
pub struct PaneSettings {
    pub font_size: u32,
    pub scrollback_lines: usize,
}

impl Config {
    /// The settings, with defaults for what is missing.
    pub fn settings(&self) -> (s: Settings)
        ensures
            s == settings_of(*self),
    {
        Settings {
            cursor_blink: flag(self.cursor_blink, true),
            click_word_select: flag(self.click_word_select, true),
            copy_on_select: flag(self.copy_on_select, false),
            tab_max: match self.tab_max_number {
                Some(n) => n,
                None => 20,
            },
            confirm_tab_close: flag(self.confirm_tab_close, true),
            confirm_pane_close: flag(self.confirm_pane_close, true),
            confirm_window_close: flag(self.confirm_window_close, true),
            show_pane_toolbar: flag(self.show_pane_toolbar, true),
            layout: match &self.default_layout {
                Some(name) => Layout::from_name(name.as_str()),
                None => Layout::Single,
            },
        }
    }

    /// A configuration to write back: the window's settings, its font and
    /// theme, and what the focused pane has, if there is one.
    pub fn from_settings(
        s: Settings,
        font_path: String,
        theme_name: String,
        pane: Option<PaneSettings>,
    ) -> (c: Config)
        ensures
            settings_of(c) == s,
            c.font_path == Some(font_path),
            c.theme_name == Some(theme_name),
            match pane {
                Some(p) => c.font_size == Some(p.font_size) && c.scrollback_lines == Some(
                    p.scrollback_lines,
                ),
                None => c.font_size is None && c.scrollback_lines is None,
            },
    {
        proof {
            layout::law_layout_names_read_back(s.layout);
        }
        Config {
            font_path: Some(font_path),
            font_size: match pane {
                Some(p) => Some(p.font_size),
                None => None,
            },
            theme_name: Some(theme_name),
            scrollback_lines: match pane {
                Some(p) => Some(p.scrollback_lines),
                None => None,
            },
            cursor_blink: Some(s.cursor_blink),
            click_word_select: Some(s.click_word_select),
            copy_on_select: Some(s.copy_on_select),
            tab_max_number: Some(s.tab_max),
            confirm_tab_close: Some(s.confirm_tab_close),
            confirm_pane_close: Some(s.confirm_pane_close),
            confirm_window_close: Some(s.confirm_window_close),
            show_pane_toolbar: Some(s.show_pane_toolbar),
            default_layout: Some(s.layout.name().to_string()),
        }
    }
}

fn flag(value: Option<bool>, default: bool) -> (b: bool)
    ensures
        b == or_else(value, default),
{
    match value {
        Some(v) => v,
        None => default,
    }
}

// ---- choosing a theme ----
/// The place of the first theme of this name, or the number of themes.
pub open spec fn theme_index(themes: Seq<ThemeModel>, name: Seq<char>) -> int
    decreases themes.len(),
{
    if themes.len() == 0 || themes[0].name == name {
        0
    } else {
        1 + theme_index(themes.skip(1), name)
    }
}

/// The place of the first theme of this name.
pub fn find_theme(themes: &Vec<Theme>, name: &str) -> (found: Option<usize>)
    ensures
        match found {
            Some(i) => {
                &&& i == theme_index(theme::models_of(themes@), name@)
                &&& i < themes@.len()
                &&& themes@[i as int]@.name == name@
            },
            None => theme_index(theme::models_of(themes@), name@) == themes@.len(),
        },
{
    let ghost models = theme::models_of(themes@);
    let chars = chars_of(name);
    let mut i: usize = 0;
    assert(models.skip(0) =~= models);
    while i < themes.len()
        invariant
            i <= themes@.len(),
            chars@ == name@,
            models == theme::models_of(themes@),
            i + theme_index(models.skip(i as int), name@) == theme_index(models, name@),
        decreases themes@.len() - i,
    {
        assert(models[i as int] == themes@[i as int]@);
        if is_text(chars.as_slice(), themes[i].name.as_str()) {
            return Some(i);
        }
        assert(models.skip(i as int).skip(1) =~= models.skip(i + 1));
        i = i + 1;
    }
    None
}

/// The theme that a window starts with: the configured one if there is such a
/// theme, else the default.
pub fn initial_theme(themes: &Vec<Theme>, name: &Option<String>) -> (chosen: Theme)
    ensures
        chosen@ == match *name {
            Some(n) => {
                let i = theme_index(theme::models_of(themes@), n@);
                if i < themes@.len() {
                    theme::models_of(themes@)[i]
                } else {
                    theme::skyterm_blue_model()
                }
            },
            None => theme::skyterm_blue_model(),
        },
{
    match name {
        Some(n) => match find_theme(themes, n.as_str()) {
            Some(i) => themes[i].clone(),
            None => Theme::default(),
        },
        None => Theme::default(),
    }
}

/// The theme before or after number `at` of `n`, around the ends.
pub open spec fn neighbor(at: int, n: int, forward: bool) -> int {
    if forward {
        if at + 1 < n {
            at + 1
        } else {
            0
        }
    } else if at > 0 {
        at - 1
    } else {
        n - 1
    }
}

/// Step through the themes from the one named `current`, around the ends. A
/// name that no theme has counts as the first. None without themes.
pub fn cycle_theme(themes: &Vec<Theme>, current: &str, forward: bool) -> (next: Option<usize>)
    ensures
        match next {
            Some(i) => {
                let models = theme::models_of(themes@);
                let at = theme_index(models, current@);
                &&& themes@.len() > 0
                &&& i == neighbor(
                    if at < models.len() {
                        at
                    } else {
                        0
                    },
                    models.len() as int,
                    forward,
                )
            },
            None => themes@.len() == 0,
        },
{
    let n: usize = themes.len();
    if n == 0 {
        return None;
    }
    let at: usize = match find_theme(themes, current) {
        Some(i) => i,
        None => 0,
    };
    if forward {
        if at < n - 1 {
            Some(at + 1)
        } else {
            Some(0)
        }
    } else if at > 0 {
        Some(at - 1)
    } else {
        Some(n - 1)
    }
}

/// One step forward and one back leads to where one was.
pub proof fn law_theme_steps_undo_each_other(at: int, n: int)
    requires
        0 <= at < n,
    ensures
        neighbor(neighbor(at, n, true), n, false) == at,
        neighbor(neighbor(at, n, false), n, true) == at,
{
}

// ---- lists of themes ----
/// The list that a theme is shown in.
#[derive(Clone, Copy, Debug, PartialEq, Eq, Structural)]
pub enum Bucket {
    Dark,
    Light,
    /// Themes from the user's folder, dark or light.
    Custom,
}

/// The names as the model has them.
pub open spec fn names_of(names: Seq<String>) -> Seq<Seq<char>> {
    names.map_values(|n: String| n@)
}

/// The list that a theme is shown in.
pub open spec fn bucket_of(theme: ThemeModel, user_names: Seq<Seq<char>>) -> Bucket {
    if user_names.contains(theme.name) {
        Bucket::Custom
    } else if theme.is_dark() {
        Bucket::Dark
    } else {
        Bucket::Light
    }
}

/// Executable [`bucket_of`].
pub fn bucket(theme: &Theme, user_names: &Vec<String>) -> (b: Bucket)
    ensures
        b == bucket_of(theme@, names_of(user_names@)),
{
    let ghost names = names_of(user_names@);
    let chars = chars_of(theme.name.as_str());
    let mut i: usize = 0;
    while i < user_names.len()
        invariant
            i <= user_names@.len(),
            chars@ == theme@.name,
            names == names_of(user_names@),
            forall|k: int| 0 <= k < i ==> names[k] != theme@.name,
        decreases user_names@.len() - i,
    {
        if is_text(chars.as_slice(), user_names[i].as_str()) {
            assert(names[i as int] == theme@.name);
            return Bucket::Custom;
        }
        i = i + 1;
    }
    assert(!names.contains(theme@.name));
    if theme.is_dark() {
        Bucket::Dark
    } else {
        Bucket::Light
    }
}

/// The places of the themes that are shown in list `b`, among the first `n`.
pub open spec fn members(
    themes: Seq<ThemeModel>,
    user_names: Seq<Seq<char>>,
    b: Bucket,
    n: int,
) -> Seq<int>
    decreases n,
{
    if n <= 0 {
        Seq::empty()
    } else if bucket_of(themes[n - 1], user_names) == b {
        members(themes, user_names, b, n - 1).push(n - 1)
    } else {
        members(themes, user_names, b, n - 1)
    }
}

/// The places of the themes that are shown in list `b`, in order.
pub fn bucket_members(themes: &Vec<Theme>, user_names: &Vec<String>, b: Bucket) -> (places: Vec<
    usize,
>)
    ensures
        places@.map_values(|i: usize| i as int) == members(
            theme::models_of(themes@),
            names_of(user_names@),
            b,
            themes@.len() as int,
        ),
{
    let ghost models = theme::models_of(themes@);
    let ghost names = names_of(user_names@);
    let mut places: Vec<usize> = Vec::new();
    let mut i: usize = 0;
    assert(places@.map_values(|i: usize| i as int) =~= Seq::<int>::empty());
    while i < themes.len()
        invariant
            i <= themes@.len(),
            models == theme::models_of(themes@),
            names == names_of(user_names@),
            places@.map_values(|i: usize| i as int) == members(models, names, b, i as int),
        decreases themes@.len() - i,
    {
        assert(models[i as int] == themes@[i as int]@);
        if bucket(&themes[i], user_names) == b {
            let ghost before = places@.map_values(|i: usize| i as int);
            places.push(i);
            assert(places@.map_values(|i: usize| i as int) =~= before.push(i as int));
        }
        i = i + 1;
    }
    places
}

/// Every theme is shown in just one list.
pub proof fn law_every_theme_is_in_one_list(
    themes: Seq<ThemeModel>,
    user_names: Seq<Seq<char>>,
    b: Bucket,
    n: int,
    i: int,
)
    requires
        0 <= i < n,
    ensures
        members(themes, user_names, b, n).contains(i) <==> bucket_of(themes[i], user_names) == b,
    decreases n,
{
    let shorter = members(themes, user_names, b, n - 1);
    if i == n - 1 {
        lemma_members_below(themes, user_names, b, n - 1);
        if bucket_of(themes[i], user_names) == b {
            assert(shorter.push(i)[shorter.len() as int] == i);
        }
    } else {
        law_every_theme_is_in_one_list(themes, user_names, b, n - 1, i);
        if shorter.contains(i) {
            let k = choose|k: int| 0 <= k < shorter.len() && shorter[k] == i;
            assert(shorter.push(n - 1)[k] == i);
        }
        if members(themes, user_names, b, n).contains(i) && !shorter.contains(i) {
            let all = members(themes, user_names, b, n);
            let k = choose|k: int| 0 <= k < all.len() && all[k] == i;
            if k < shorter.len() {
                assert(shorter[k] == i);
            }
        }
    }
}

proof fn lemma_members_below(
    themes: Seq<ThemeModel>,
    user_names: Seq<Seq<char>>,
    b: Bucket,
    n: int,
)
    ensures
        forall|k: int|
            0 <= k < members(themes, user_names, b, n).len() ==> #[trigger] members(
                themes,
                user_names,
                b,
                n,
            )[k] < n,
    decreases n,
{
    if n > 0 {
        lemma_members_below(themes, user_names, b, n - 1);
        let all = members(themes, user_names, b, n);
        let shorter = members(themes, user_names, b, n - 1);
        assert forall|k: int| 0 <= k < all.len() implies #[trigger] all[k] < n by {
            if k < shorter.len() {
                assert(all[k] == shorter[k]);
            }
        }
    }
}

// ---- sorting by name ----
/// What `str::to_lowercase` makes of a text.
pub uninterp spec fn lowercase(s: Seq<char>) -> Seq<char>;

/// `str::to_lowercase`: Unicode's lower case. What that is for each character
/// is not said here.
#[verifier::external_body]
fn to_lowercase(s: &str) -> (lower: String)
    ensures
        lower@ == lowercase(s@),
{
    s.to_lowercase()
}

/// `a` does not come after `b` in the order of characters.
pub open spec fn text_not_after(a: Seq<char>, b: Seq<char>) -> bool
    decreases a.len(),
{
    if a.len() == 0 {
        true
    } else if b.len() == 0 {
        false
    } else if a[0] != b[0] {
        a[0] < b[0]
    } else {
        text_not_after(a.skip(1), b.skip(1))
    }
}

/// Executable [`text_not_after`].
pub fn in_order(a: &Vec<char>, b: &Vec<char>) -> (yes: bool)
    ensures
        yes == text_not_after(a@, b@),
{
    let mut i: usize = 0;
    assert(a@.skip(0) =~= a@);
    assert(b@.skip(0) =~= b@);
    while i < a.len() && i < b.len()
        invariant
            i <= a@.len(),
            i <= b@.len(),
            text_not_after(a@.skip(i as int), b@.skip(i as int)) == text_not_after(a@, b@),
        decreases a@.len() - i,
    {
        if a[i] != b[i] {
            return a[i] < b[i];
        }
        assert(a@.skip(i as int).skip(1) =~= a@.skip(i + 1));
        assert(b@.skip(i as int).skip(1) =~= b@.skip(i + 1));
        i = i + 1;
    }
    i >= a.len()
}

proof fn lemma_text_order_is_total(a: Seq<char>, b: Seq<char>)
    ensures
        text_not_after(a, b) || text_not_after(b, a),
    decreases a.len(),
{
    if a.len() > 0 && b.len() > 0 && a[0] == b[0] {
        lemma_text_order_is_total(a.skip(1), b.skip(1));
    }
}

proof fn lemma_text_order_is_transitive(a: Seq<char>, b: Seq<char>, c: Seq<char>)
    requires
        text_not_after(a, b),
        text_not_after(b, c),
    ensures
        text_not_after(a, c),
    decreases a.len(),
{
    if a.len() > 0 && b.len() > 0 && c.len() > 0 && a[0] == b[0] && b[0] == c[0] {
        lemma_text_order_is_transitive(a.skip(1), b.skip(1), c.skip(1));
    }
}

/// Where an item goes among the first `n` places of an order: behind all whose
/// keys are not after its own.
pub open spec fn insertion_point(
    order: Seq<int>,
    keys: Seq<Seq<char>>,
    key: Seq<char>,
    n: int,
) -> int
    decreases n,
{
    if n <= 0 || text_not_after(keys[order[n - 1]], key) {
        n
    } else {
        insertion_point(order, keys, key, n - 1)
    }
}

/// The order that sorting the first `n` items by these keys gives, as places in
/// the list.
pub open spec fn sorted_order(keys: Seq<Seq<char>>, n: int) -> Seq<int>
    decreases n,
{
    if n <= 0 {
        Seq::empty()
    } else {
        let order = sorted_order(keys, n - 1);
        order.insert(
            insertion_point(order, keys, keys[n - 1], order.len() as int),
            n - 1,
        )
    }
}

proof fn lemma_insertion_point(
    order: Seq<int>,
    keys: Seq<Seq<char>>,
    key: Seq<char>,
    n: int,
)
    requires
        0 <= n <= order.len(),
    ensures
        ({
            let p = insertion_point(order, keys, key, n);
            &&& 0 <= p <= n
            &&& p > 0 ==> text_not_after(keys[order[p - 1]], key)
            &&& forall|k: int| p <= k < n ==> !text_not_after(#[trigger] keys[order[k]], key)
        }),
    decreases n,
{
    if n > 0 && !text_not_after(keys[order[n - 1]], key) {
        lemma_insertion_point(order, keys, key, n - 1);
    }
}

/// Sorting leaves out nothing and repeats nothing.
pub proof fn law_sorting_keeps_every_item(keys: Seq<Seq<char>>, n: int)
    requires
        0 <= n,
    ensures
        sorted_order(keys, n).len() == n,
        sorted_order(keys, n).no_duplicates(),
        forall|k: int| 0 <= k < n ==> 0 <= #[trigger] sorted_order(keys, n)[k] < n,
    decreases n,
{
    if n > 0 {
        law_sorting_keeps_every_item(keys, n - 1);
        let order = sorted_order(keys, n - 1);
        lemma_insertion_point(order, keys, keys[n - 1], order.len() as int);
        let p = insertion_point(order, keys, keys[n - 1], order.len() as int);
        let all = sorted_order(keys, n);
        assert forall|k: int| 0 <= k < n implies 0 <= #[trigger] all[k] < n by {
            if k < p {
                assert(all[k] == order[k]);
            } else if k > p {
                assert(all[k] == order[k - 1]);
            }
        }
        assert forall|a: int, b: int| 0 <= a < n && 0 <= b < n && a != b implies all[a]
            != all[b] by {
            let x = if a < p { a } else { a - 1 };
            let y = if b < p { b } else { b - 1 };
            if a != p {
                assert(all[a] == order[x]);
            }
            if b != p {
                assert(all[b] == order[y]);
            }
        }
    }
}

/// Sorting puts the keys in order, and items with the same key stay in the
/// order that they were in.
pub proof fn law_sorting_sorts(keys: Seq<Seq<char>>, n: int, a: int, b: int)
    requires
        0 <= a < b < n,
    ensures
        text_not_after(keys[sorted_order(keys, n)[a]], keys[sorted_order(keys, n)[b]]),
        keys[sorted_order(keys, n)[a]] == keys[sorted_order(keys, n)[b]] ==> sorted_order(
            keys,
            n,
        )[a] < sorted_order(keys, n)[b],
    decreases n,
{
    let order = sorted_order(keys, n - 1);
    let key = keys[n - 1];
    let all = sorted_order(keys, n);
    law_sorting_keeps_every_item(keys, n - 1);
    lemma_insertion_point(order, keys, key, order.len() as int);
    let p = insertion_point(order, keys, key, order.len() as int);
    let x = if a < p { a } else { a - 1 };
    let y = if b < p { b } else { b - 1 };
    if a == p {
        // Behind the new item all keys are after its own.
        assert(all[b] == order[y]);
        lemma_text_order_is_total(key, keys[order[y]]);
        lemma_text_order_is_reflexive(key);
    } else if b == p {
        // Before it none is.
        assert(all[a] == order[x]);
        if x < p - 1 {
            law_sorting_sorts(keys, n - 1, x, p - 1);
            lemma_text_order_is_transitive(keys[order[x]], keys[order[p - 1]], key);
        }
    } else {
        assert(all[a] == order[x]);
        assert(all[b] == order[y]);
        law_sorting_sorts(keys, n - 1, x, y);
    }
}

proof fn lemma_text_order_is_reflexive(a: Seq<char>)
    ensures
        text_not_after(a, a),
    decreases a.len(),
{
    if a.len() > 0 {
        lemma_text_order_is_reflexive(a.skip(1));
    }
}

/// The order that sorting by these keys gives, as places in the list.
pub fn sort_order(keys: &Vec<Vec<char>>) -> (order: Vec<usize>)
    ensures
        order@.map_values(|i: usize| i as int) == sorted_order(
            text::parts_of(keys@),
            keys@.len() as int,
        ),
{
    let ghost all = text::parts_of(keys@);
    let mut order: Vec<usize> = Vec::new();
    let mut n: usize = 0;
    assert(order@.map_values(|i: usize| i as int) =~= Seq::<int>::empty());
    while n < keys.len()
        invariant
            n <= keys@.len(),
            all == text::parts_of(keys@),
            order@.len() == n,
            order@.map_values(|i: usize| i as int) == sorted_order(all, n as int),
        decreases keys@.len() - n,
    {
        let ghost before = order@.map_values(|i: usize| i as int);
        proof {
            law_sorting_keeps_every_item(all, n as int);
        }
        let mut p: usize = n;
        let ghost point = insertion_point(before, all, all[n as int], n as int);
        loop
            invariant_except_break
                insertion_point(before, all, all[n as int], p as int) == point,
            invariant
                p <= n < keys@.len(),
                all == text::parts_of(keys@),
                order@.len() == n,
                before == order@.map_values(|i: usize| i as int),
                forall|k: int| 0 <= k < n ==> 0 <= #[trigger] before[k] < n,
            ensures
                p == point,
            decreases p,
        {
            if p == 0 {
                break;
            }
            let at: usize = order[p - 1];
            assert(before[p - 1] == at);
            assert(all[at as int] == keys@[at as int]@);
            if in_order(&keys[at], &keys[n]) {
                break;
            }
            p = p - 1;
        }
        order.insert(p, n);
        assert(order@.map_values(|i: usize| i as int) =~= before.insert(p as int, n as int));
        n = n + 1;
    }
    order
}

/// The lower-case names of themes.
pub open spec fn name_keys(themes: Seq<ThemeModel>) -> Seq<Seq<char>> {
    themes.map_values(|t: ThemeModel| lowercase(t.name))
}

/// The themes sorted by name, without regard to case, for a stable menu.
pub fn sort_themes(themes: &Vec<Theme>) -> (sorted: Vec<Theme>)
    ensures
        ({
            let models = theme::models_of(themes@);
            let order = sorted_order(name_keys(models), models.len() as int);
            theme::models_of(sorted@) == order.map_values(|i: int| models[i])
        }),
{
    let ghost models = theme::models_of(themes@);
    let mut keys: Vec<Vec<char>> = Vec::new();
    let mut i: usize = 0;
    while i < themes.len()
        invariant
            i <= themes@.len(),
            models == theme::models_of(themes@),
            text::parts_of(keys@) == name_keys(models).take(i as int),
        decreases themes@.len() - i,
    {
        let lower = to_lowercase(themes[i].name.as_str());
        let ghost before = text::parts_of(keys@);
        assert(models[i as int] == themes@[i as int]@);
        keys.push(chars_of(lower.as_str()));
        assert(text::parts_of(keys@) =~= before.push(lower@));
        assert(name_keys(models).take(i + 1) =~= before.push(lower@));
        i = i + 1;
    }
    assert(name_keys(models).take(i as int) =~= name_keys(models));
    let order = sort_order(&keys);
    let ghost places = sorted_order(name_keys(models), models.len() as int);
    proof {
        law_sorting_keeps_every_item(name_keys(models), models.len() as int);
    }
    let mut sorted: Vec<Theme> = Vec::new();
    let mut k: usize = 0;
    while k < order.len()
        invariant
            k <= order@.len(),
            models == theme::models_of(themes@),
            places == order@.map_values(|i: usize| i as int),
            places.len() == order@.len() == models.len(),
            forall|j: int| 0 <= j < places.len() ==> 0 <= #[trigger] places[j] < models.len(),
            theme::models_of(sorted@) == places.take(k as int).map_values(|i: int| models[i]),
        decreases order@.len() - k,
    {
        let at: usize = order[k];
        assert(places[k as int] == at);
        let theme = themes[at].clone();
        let ghost before = theme::models_of(sorted@);
        let ghost model = theme@;
        assert(model == models[at as int]);
        sorted.push(theme);
        assert(theme::models_of(sorted@) =~= before.push(model));
        assert(places.take(k + 1).map_values(|i: int| models[i]) =~= before.push(model));
        k = k + 1;
    }
    assert(places.take(k as int) =~= places);
    sorted
}

// ---- style sheets ----
/// The text with every `what` in it, from the left, replaced by `by`.
pub open spec fn replaced(s: Seq<char>, what: Seq<char>, by: Seq<char>) -> Seq<char>
    decreases s.len(),
{
    if s.len() == 0 || what.len() == 0 {
        s
    } else if s.len() >= what.len() && s.take(what.len() as int) == what {
        by + replaced(s.skip(what.len() as int), what, by)
    } else {
        seq![s[0]] + replaced(s.skip(1), what, by)
    }
}

/// Executable [`replaced`].
pub fn replace_text(s: &Vec<char>, what: &Vec<char>, by: &Vec<char>) -> (out: Vec<char>)
    ensures
        out@ == replaced(s@, what@, by@),
{
    let mut out: Vec<char> = Vec::new();
    if what.len() == 0 {
        out.extend_from_slice(s.as_slice());
        assert(out@ =~= s@);
        return out;
    }
    let mut i: usize = 0;
    assert(s@.skip(0) =~= s@);
    assert(out@ + replaced(s@, what@, by@) =~= replaced(s@, what@, by@));
    while i < s.len()
        invariant
            i <= s@.len(),
            what@.len() > 0,
            out@ + replaced(s@.skip(i as int), what@, by@) == replaced(s@, what@, by@),
        decreases s@.len() - i,
    {
        let ghost rest = s@.skip(i as int);
        let ghost before = out@;
        if starts_at(s, i, what) {
            out.extend_from_slice(by.as_slice());
            proof {
                let more = replaced(rest.skip(what@.len() as int), what@, by@);
                assert(rest.skip(what@.len() as int) =~= s@.skip(i + what@.len()));
                assert((before + by@) + more =~= before + (by@ + more));
            }
            i = i + what.len();
        } else {
            out.push(s[i]);
            proof {
                let more = replaced(rest.skip(1), what@, by@);
                assert(rest.skip(1) =~= s@.skip(i + 1));
                assert(before.push(s@[i as int]) + more =~= before + (seq![rest[0]] + more));
            }
            i = i + 1;
        }
    }
    assert(s@.skip(i as int) =~= Seq::<char>::empty());
    assert(out@ + Seq::<char>::empty() =~= out@);
    out
}

fn starts_at(s: &Vec<char>, at: usize, what: &Vec<char>) -> (yes: bool)
    requires
        at <= s@.len(),
    ensures
        yes == (s@.skip(at as int).len() >= what@.len() && s@.skip(at as int).take(
            what@.len() as int,
        ) == what@),
{
    let len: usize = s.len();
    if len - at < what.len() {
        return false;
    }
    let ghost head = s@.skip(at as int).take(what@.len() as int);
    let mut i: usize = 0;
    while i < what.len()
        invariant
            i <= what@.len(),
            at + what@.len() <= len == s@.len(),
            head == s@.skip(at as int).take(what@.len() as int),
            forall|k: int| 0 <= k < i ==> head[k] == what@[k],
        decreases what@.len() - i,
    {
        assert(head[i as int] == s@[at + i]);
        if s[at + i] != what[i] {
            return false;
        }
        i = i + 1;
    }
    assert(head =~= what@);
    true
}

/// The text without any `c`.
pub open spec fn without_char(s: Seq<char>, c: char) -> Seq<char>
    decreases s.len(),
{
    if s.len() == 0 {
        s
    } else if s.last() == c {
        without_char(s.drop_last(), c)
    } else {
        without_char(s.drop_last(), c).push(s.last())
    }
}

/// A style sheet for a font family: the family's name in quotes, without any
/// of its own, in place of each `__FONT_FAMILY__`.
pub open spec fn css_for(template: Seq<char>, family: Seq<char>) -> Seq<char> {
    replaced(
        template,
        "__FONT_FAMILY__"@,
        seq!['"'] + without_char(family, '"') + seq!['"'],
    )
}

/// Substitute the terminal font's family name into a style sheet, so that menus
/// and banners render in the same face as the grid.
pub fn build_css(template: &str, family: &str) -> (css: String)
    ensures
        css@ == css_for(template@, family@),
{
    let name = chars_of(family);
    let mut quoted: Vec<char> = Vec::new();
    quoted.push('"');
    let mut i: usize = 0;
    assert(quoted@ =~= seq!['"'] + without_char(name@.take(0), '"'));
    while i < name.len()
        invariant
            i <= name@.len(),
            quoted@ == seq!['"'] + without_char(name@.take(i as int), '"'),
        decreases name@.len() - i,
    {
        assert(name@.take(i + 1).drop_last() =~= name@.take(i as int));
        if name[i] != '"' {
            quoted.push(name[i]);
        }
        i = i + 1;
        assert(quoted@ =~= seq!['"'] + without_char(name@.take(i as int), '"'));
    }
    assert(name@.take(i as int) =~= name@);
    quoted.push('"');
    assert(quoted@ =~= seq!['"'] + without_char(family@, '"') + seq!['"']);
    let css = replace_text(&chars_of(template), &chars_of("__FONT_FAMILY__"), &quoted);
    string_of(css.as_slice())
}

// ---- laws ----
/// A setting that the file has counts. What it leaves out is on, but for copying
/// on selection, and twenty tabs are allowed.
pub proof fn law_settings_and_their_defaults(c: Config)
    ensures
        ({
            let s = settings_of(c);
            &&& s.cursor_blink == (c.cursor_blink != Some(false))
            &&& s.click_word_select == (c.click_word_select != Some(false))
            &&& s.copy_on_select == (c.copy_on_select == Some(true))
            &&& s.confirm_tab_close == (c.confirm_tab_close != Some(false))
            &&& s.confirm_pane_close == (c.confirm_pane_close != Some(false))
            &&& s.confirm_window_close == (c.confirm_window_close != Some(false))
            &&& s.show_pane_toolbar == (c.show_pane_toolbar != Some(false))
            &&& c.tab_max_number is Some ==> Some(s.tab_max) == c.tab_max_number
            &&& c.tab_max_number is None ==> s.tab_max == 20
            &&& c.default_layout is None ==> s.layout == Layout::Single
            &&& c.default_layout is Some ==> s.layout == layout::layout_named(
                c.default_layout->0@,
            )
        }),
{
}

/// The theme that a name finds is the first of that name.
pub proof fn law_first_theme_of_a_name(themes: Seq<ThemeModel>, name: Seq<char>)
    ensures
        ({
            let i = theme_index(themes, name);
            &&& 0 <= i <= themes.len()
            &&& i < themes.len() ==> themes[i].name == name
            &&& forall|k: int| 0 <= k < i ==> (#[trigger] themes[k]).name != name
        }),
    decreases themes.len(),
{
    if themes.len() > 0 && themes[0].name != name {
        law_first_theme_of_a_name(themes.skip(1), name);
        assert forall|k: int| 0 <= k < theme_index(themes, name) implies (
        #[trigger] themes[k]).name != name by {
            if k > 0 {
                assert(themes.skip(1)[k - 1] == themes[k]);
            }
        }
    }
}

/// Stepping through the themes visits each in turn: forward is the next number
/// and back the one before, over the ends.
pub proof fn law_theme_steps(at: int, n: int)
    requires
        0 <= at < n,
    ensures
        0 <= neighbor(at, n, true) < n,
        0 <= neighbor(at, n, false) < n,
        at < n - 1 ==> neighbor(at, n, true) == at + 1,
        at == n - 1 ==> neighbor(at, n, true) == 0,
        at > 0 ==> neighbor(at, n, false) == at - 1,
        at == 0 ==> neighbor(at, n, false) == n - 1,
{
}

/// Themes from the user's folder are in a list of their own, the others in that
/// of the dark or of the light ones.
pub proof fn law_lists_of_themes(t: ThemeModel, user_names: Seq<Seq<char>>)
    ensures
        bucket_of(t, user_names) == Bucket::Custom <==> user_names.contains(t.name),
        !user_names.contains(t.name) ==> (bucket_of(t, user_names) == Bucket::Dark
            <==> t.is_dark()),
        !user_names.contains(t.name) ==> (bucket_of(t, user_names) == Bucket::Light
            <==> !t.is_dark()),
{
}

/// Texts are in order by the first character in which they differ, and a text
/// comes before one that it is the start of.
pub proof fn law_text_order(a: Seq<char>, b: Seq<char>, k: int)
    requires
        0 <= k <= a.len(),
        k <= b.len(),
        a.take(k) == b.take(k),
    ensures
        k < a.len() && k < b.len() && a[k] != b[k] ==> (text_not_after(a, b) <==> a[k] < b[k]),
        k == a.len() ==> text_not_after(a, b),
        k == b.len() && k < a.len() ==> !text_not_after(a, b),
    decreases a.len(),
{
    if k > 0 {
        assert(a.take(k)[0] == a[0] && b.take(k)[0] == b[0]);
        assert(a.skip(1).take(k - 1) =~= a.take(k).skip(1));
        assert(b.skip(1).take(k - 1) =~= b.take(k).skip(1));
        law_text_order(a.skip(1), b.skip(1), k - 1);
    }
}

/// The text has `what` at place `i`.
pub open spec fn occurs_at(s: Seq<char>, what: Seq<char>, i: int) -> bool {
    0 <= i && i + what.len() <= s.len() && s.subrange(i, i + what.len()) == what
}

/// Replacing goes from the left: what comes before the first occurrence stays,
/// the occurrence is replaced, and the rest is treated in the same way. A text
/// without any stays as it is.
pub proof fn law_replacing(s: Seq<char>, what: Seq<char>, by: Seq<char>, i: int)
    requires
        what.len() > 0,
        0 <= i <= s.len(),
        forall|k: int| 0 <= k < i ==> !#[trigger] occurs_at(s, what, k),
    ensures
        occurs_at(s, what, i) ==> replaced(s, what, by) == s.take(i) + by + replaced(
            s.skip(i + what.len()),
            what,
            by,
        ),
        i == s.len() ==> replaced(s, what, by) == s,
    decreases s.len(),
{
    if s.len() > 0 {
        assert(s.subrange(0, what.len() as int) =~= s.take(what.len() as int) || what.len()
            > s.len());
        if i == 0 {
            if occurs_at(s, what, 0) {
                assert(s.take(0) + by + replaced(s.skip(what.len() as int), what, by) =~= by
                    + replaced(s.skip(what.len() as int), what, by));
            }
        } else {
            assert(!occurs_at(s, what, 0));
            let t = s.skip(1);
            assert forall|k: int| 0 <= k < i - 1 implies !#[trigger] occurs_at(t, what, k) by {
                if occurs_at(t, what, k) {
                    assert(t.subrange(k, k + what.len()) =~= s.subrange(
                        k + 1,
                        k + 1 + what.len(),
                    ));
                    assert(occurs_at(s, what, k + 1));
                }
            }
            law_replacing(t, what, by, i - 1);
            if occurs_at(s, what, i) {
                assert(t.subrange(i - 1, i - 1 + what.len()) =~= s.subrange(i, i + what.len()));
                assert(occurs_at(t, what, i - 1));
                assert(t.skip(i - 1 + what.len()) =~= s.skip(i + what.len()));
                assert(seq![s[0]] + (t.take(i - 1) + by + replaced(
                    s.skip(i + what.len()),
                    what,
                    by,
                )) =~= s.take(i) + by + replaced(s.skip(i + what.len()), what, by));
            }
            if i == s.len() {
                assert(seq![s[0]] + t =~= s);
            }
        }
    }
}

/// Leaving out a character leaves out all of them and nothing else, in order.
pub proof fn law_character_is_left_out(a: Seq<char>, b: Seq<char>, c: char, x: char)
    ensures
        without_char(a + b, c) == without_char(a, c) + without_char(b, c),
        without_char(seq![x], c) == if x == c {
            Seq::<char>::empty()
        } else {
            seq![x]
        },
    decreases b.len(),
{
    reveal_with_fuel(without_char, 2);
    assert(seq![x].drop_last() =~= Seq::<char>::empty());
    assert(without_char(seq![x], c) =~= if x == c {
        Seq::<char>::empty()
    } else {
        seq![x]
    });
    if b.len() == 0 {
        assert(a + b =~= a);
        assert(without_char(a, c) + without_char(b, c) =~= without_char(a, c));
    } else {
        law_character_is_left_out(a, b.drop_last(), c, x);
        assert((a + b).drop_last() =~= a + b.drop_last());
        assert((a + b).last() == b.last());
        assert(without_char(a + b, c) =~= without_char(a, c) + without_char(b, c));
    }
}

/// A style sheet gets the family's name in double quotes, without any of its
/// own, and is otherwise as it was.
pub proof fn law_style_sheet(before: Seq<char>, after: Seq<char>, family: Seq<char>)
    requires
        forall|k: int|
            0 <= k < before.len() ==> !#[trigger] occurs_at(
                before + "__FONT_FAMILY__"@ + after,
                "__FONT_FAMILY__"@,
                k,
            ),
        forall|k: int|
            0 <= k <= after.len() ==> !#[trigger] occurs_at(after, "__FONT_FAMILY__"@, k),
        !family.contains('"'),
    ensures
        css_for(before + "__FONT_FAMILY__"@ + after, family) == before + seq!['"'] + family + seq![
            '"',
        ] + after,
{
    reveal_strlit("__FONT_FAMILY__");
    let what = "__FONT_FAMILY__"@;
    let s = before + what + after;
    let i = before.len() as int;
    assert(s.subrange(i, i + what.len()) =~= what);
    assert(occurs_at(s, what, i));
    lemma_no_such_char(family, '"');
    let by = seq!['"'] + without_char(family, '"') + seq!['"'];
    law_replacing(s, what, by, i);
    assert(s.skip(i + what.len()) =~= after);
    law_replacing(after, what, by, after.len() as int);
    assert(s.take(i) =~= before);
    assert(before + by + after =~= before + seq!['"'] + family + seq!['"'] + after);
}

proof fn lemma_no_such_char(s: Seq<char>, c: char)
    requires
        !s.contains(c),
    ensures
        without_char(s, c) == s,
    decreases s.len(),
{
    if s.len() > 0 {
        assert(s.contains(s.last())) by {
            assert(s[s.len() - 1] == s.last());
        }
        assert(!s.drop_last().contains(c)) by {
            if s.drop_last().contains(c) {
                let k = choose|k: int| 0 <= k < s.len() - 1 && s.drop_last()[k] == c;
                assert(s[k] == c);
            }
        }
        lemma_no_such_char(s.drop_last(), c);
        assert(s.drop_last().push(s.last()) =~= s);
    }
}

} // verus!
