//! Theme files in TOML: a table for each theme, under `themes`.
use vstd::prelude::*;
use crate::color::Color;
use crate::text::{chars_of, is_text};
use crate::theme;
use crate::theme::{Theme, ThemeModel};
use crate::theme_file::{BlockModel, TerminatorBlock};

verus! {

// ---- the toml crate ----
/// `toml::Value`.
#[verifier::external_type_specification]
#[verifier::external_body]
pub struct ExValue(toml::Value);

/// `toml::map::Map`, of which `toml::Table` is an instance.
#[verifier::external_type_specification]
#[verifier::external_body]
#[verifier::reject_recursive_types(K)]
#[verifier::reject_recursive_types(V)]
pub struct ExMap<K, V>(toml::map::Map<K, V>);

/// The table that a text is parsed to, if it is TOML.
pub uninterp spec fn toml_parsed(text: Seq<char>) -> Option<toml::Table>;

/// The keys and values of a table, in the order in which they are walked.
pub uninterp spec fn toml_entries(table: toml::Table) -> Seq<(Seq<char>, toml::Value)>;

/// The table that a value is, if it is one.
pub uninterp spec fn toml_table(value: toml::Value) -> Option<toml::Table>;

/// The string that a value is, if it is one.
pub uninterp spec fn toml_string(value: toml::Value) -> Option<Seq<char>>;

/// The integer that a value is, if it is one.
pub uninterp spec fn toml_integer(value: toml::Value) -> Option<i64>;

/// The parsing of a `toml::Table` from a string.
#[verifier::external_body]
fn parse_toml(text: &str) -> (table: Option<toml::Table>)
    ensures
        table == toml_parsed(text@),
{
    text.parse::<toml::Table>().ok()
}

/// What entries of a table denote.
pub open spec fn entries_of(entries: Seq<(String, toml::Value)>) -> Seq<(Seq<char>, toml::Value)> {
    Seq::new(entries.len(), |i: int| (entries[i].0@, entries[i].1))
}

/// `toml::map::Map::iter`: every key with its value.
#[verifier::external_body]
fn list_entries(table: &toml::Table) -> (entries: Vec<(String, toml::Value)>)
    ensures
        entries_of(entries@) == toml_entries(*table),
{
    table.iter().map(|(key, value)| (key.clone(), value.clone())).collect()
}

/// `toml::Value::as_table`.
#[verifier::external_body]
fn as_table(value: &toml::Value) -> (table: Option<toml::Table>)
    ensures
        table == toml_table(*value),
{
    value.as_table().cloned()
}

/// `toml::Value::as_str`.
#[verifier::external_body]
fn as_string(value: &toml::Value) -> (text: Option<String>)
    ensures
        match text {
            Some(s) => toml_string(*value) == Some(s@),
            None => toml_string(*value) is None,
        },
{
    value.as_str().map(|s| s.to_string())
}

/// `toml::Value::as_integer`.
#[verifier::external_body]
fn as_integer(value: &toml::Value) -> (n: Option<i64>)
    ensures
        n == toml_integer(*value),
{
    value.as_integer()
}

// ---- the themes in it ----
/// The value of a theme's key.
#[derive(Debug)]
pub enum Setting {
    Text(String),
    Number(i64),
    /// Any other kind of value.
    Other,
}

/// What a [`Setting`] denotes.
pub enum SettingModel {
    Text(Seq<char>),
    Number(i64),
    Other,
}

impl View for Setting {
    type V = SettingModel;

    open spec fn view(&self) -> SettingModel {
        match *self {
            Setting::Text(text) => SettingModel::Text(text@),
            Setting::Number(n) => SettingModel::Number(n),
            Setting::Other => SettingModel::Other,
        }
    }
}

/// What a list of keys and values denotes.
pub open spec fn settings_view(settings: Seq<(String, Setting)>) -> Seq<(Seq<char>, SettingModel)> {
    Seq::new(settings.len(), |i: int| (settings[i].0@, settings[i].1@))
}

/// A block with one more key: a font file or size, or a color or palette. What
/// is not known, or not of the right kind, changes nothing.
pub open spec fn with_setting(block: BlockModel, key: Seq<char>, value: SettingModel) -> BlockModel {
    match value {
        SettingModel::Text(text) => if key == "font_path"@ {
            BlockModel { font_path: Some(text), ..block }
        } else {
            block.set(key, text)
        },
        SettingModel::Number(n) => if key == "font_size"@ && 0 <= n <= u32::MAX {
            BlockModel { font_size: Some(n as u32), ..block }
        } else {
            block
        },
        SettingModel::Other => block,
    }
}

/// A block with the first `n` keys of a list.
pub open spec fn with_settings(
    name: Seq<char>,
    settings: Seq<(Seq<char>, SettingModel)>,
    n: int,
) -> BlockModel
    decreases n,
{
    if n <= 0 {
        BlockModel::new(name)
    } else {
        with_setting(with_settings(name, settings, n - 1), settings[n - 1].0, settings[n - 1].1)
    }
}

/// The theme of a table with these keys, if it has a foreground. Where it has no
/// background it gets the default one.
pub open spec fn table_theme(
    name: Seq<char>,
    settings: Seq<(Seq<char>, SettingModel)>,
) -> Option<ThemeModel> {
    with_settings(name, settings, settings.len() as int).with_background(
        Color::default_bg(),
    ).theme()
}

/// Executable [`table_theme`].
pub fn theme_of_table(name: String, settings: &Vec<(String, Setting)>) -> (theme: Option<Theme>)
    ensures
        match theme {
            Some(t) => table_theme(name@, settings_view(settings@)) == Some(t@),
            None => table_theme(name@, settings_view(settings@)) is None,
        },
{
    let ghost list = settings_view(settings@);
    let mut block = TerminatorBlock::new(name);
    let mut i: usize = 0;
    while i < settings.len()
        invariant
            i <= settings@.len(),
            list == settings_view(settings@),
            block@ == with_settings(name@, list, i as int),
        decreases settings@.len() - i,
    {
        let (key, value) = &settings[i];
        assert(list[i as int] == (key@, value@));
        let chars = chars_of(key.as_str());
        match value {
            Setting::Text(text) => {
                if is_text(chars.as_slice(), "font_path") {
                    block.set_font_path(text.clone());
                } else {
                    block.set_key(key.as_str(), text.as_str());
                }
            },
            Setting::Number(n) => {
                if is_text(chars.as_slice(), "font_size") && 0 <= *n && *n <= 0xffff_ffff {
                    block.set_font_size(*n as u32);
                }
            },
            Setting::Other => {},
        }
        i = i + 1;
    }
    block.default_background(Color::default_bg());
    block.into_theme()
}

/// The kind of a value: a string, an integer, or something else.
pub open spec fn setting_model(value: toml::Value) -> SettingModel {
    match (toml_string(value), toml_integer(value)) {
        (Some(text), _) => SettingModel::Text(text),
        (None, Some(n)) => SettingModel::Number(n),
        (None, None) => SettingModel::Other,
    }
}

/// The keys and values of a table.
pub open spec fn table_settings(table: toml::Table) -> Seq<(Seq<char>, SettingModel)> {
    Seq::new(
        toml_entries(table).len(),
        |i: int| (toml_entries(table)[i].0, setting_model(toml_entries(table)[i].1)),
    )
}

fn read_settings(table: &toml::Table) -> (settings: Vec<(String, Setting)>)
    ensures
        settings_view(settings@) == table_settings(*table),
{
    let entries = list_entries(table);
    let ghost listed = toml_entries(*table);
    assert(entries_of(entries@).len() == listed.len());
    let mut settings: Vec<(String, Setting)> = Vec::new();
    let mut i: usize = 0;
    while i < entries.len()
        invariant
            i <= entries@.len() == listed.len(),
            listed == toml_entries(*table),
            listed == entries_of(entries@),
            settings@.len() == i,
            forall|k: int|
                0 <= k < i ==> (#[trigger] settings@[k]).0@ == listed[k].0 && settings@[k].1@
                    == setting_model(listed[k].1),
        decreases entries@.len() - i,
    {
        let (key, value) = &entries[i];
        assert(listed[i as int] == (key@, *value));
        let setting = match as_string(value) {
            Some(text) => Setting::Text(text),
            None => match as_integer(value) {
                Some(n) => Setting::Number(n),
                None => Setting::Other,
            },
        };
        settings.push((key.clone(), setting));
        i = i + 1;
    }
    assert(settings_view(settings@) =~= table_settings(*table));
    settings
}

/// The themes of the first `n` entries of a table: those that are tables
/// themselves and complete.
pub open spec fn entry_themes(entries: Seq<(Seq<char>, toml::Value)>, n: int) -> Seq<ThemeModel>
    decreases n,
{
    if n <= 0 {
        seq![]
    } else {
        let before = entry_themes(entries, n - 1);
        match toml_table(entries[n - 1].1) {
            Some(table) => match table_theme(entries[n - 1].0, table_settings(table)) {
                Some(theme) => before.push(theme),
                None => before,
            },
            None => before,
        }
    }
}

fn themes_of_entries(entries: &Vec<(String, toml::Value)>) -> (themes: Vec<Theme>)
    ensures
        theme::models_of(themes@) == entry_themes(entries_of(entries@), entries@.len() as int),
{
    let ghost listed = entries_of(entries@);
    let mut themes: Vec<Theme> = Vec::new();
    assert(theme::models_of(themes@) =~= seq![]);
    let mut i: usize = 0;
    while i < entries.len()
        invariant
            i <= entries@.len(),
            listed == entries_of(entries@),
            theme::models_of(themes@) == entry_themes(listed, i as int),
        decreases entries@.len() - i,
    {
        let (name, value) = &entries[i];
        assert(listed[i as int] == (name@, *value));
        if let Some(table) = as_table(value) {
            let settings = read_settings(&table);
            if let Some(theme) = theme_of_table(name.clone(), &settings) {
                let ghost before = themes@;
                themes.push(theme);
                assert(theme::models_of(themes@) =~= theme::models_of(before).push(theme@));
            }
        }
        i = i + 1;
    }
    themes
}

/// The place of the first entry with a key, or the number of entries.
pub open spec fn entry_index(entries: Seq<(Seq<char>, toml::Value)>, key: Seq<char>) -> int
    decreases entries.len(),
{
    if entries.len() == 0 || entries[0].0 == key {
        0
    } else {
        1 + entry_index(entries.skip(1), key)
    }
}

/// The themes of a document: those in its table `themes`.
pub open spec fn document_themes(document: Option<toml::Table>) -> Seq<ThemeModel> {
    match document {
        Some(root) => {
            let entries = toml_entries(root);
            let i = entry_index(entries, "themes"@);
            if i < entries.len() {
                match toml_table(entries[i].1) {
                    Some(table) => entry_themes(
                        toml_entries(table),
                        toml_entries(table).len() as int,
                    ),
                    None => seq![],
                }
            } else {
                seq![]
            }
        },
        None => seq![],
    }
}

fn find_entry(entries: &Vec<(String, toml::Value)>, key: &str) -> (at: usize)
    ensures
        at == entry_index(entries_of(entries@), key@),
        at <= entries@.len(),
{
    let ghost listed = entries_of(entries@);
    let wanted = chars_of(key);
    let mut i: usize = 0;
    assert(listed.skip(0) =~= listed);
    while i < entries.len()
        invariant
            i <= entries@.len(),
            listed == entries_of(entries@),
            wanted@ == key@,
            i + entry_index(listed.skip(i as int), key@) == entry_index(listed, key@),
        decreases entries@.len() - i,
    {
        assert(listed.skip(i as int)[0] == listed[i as int]);
        assert(listed.skip(i as int).skip(1) =~= listed.skip(i + 1));
        assert(listed[i as int].0 == entries@[i as int].0@);
        if is_text(wanted.as_slice(), entries[i].0.as_str()) {
            return i;
        }
        i = i + 1;
    }
    i
}

/// Parse theme definitions from a TOML file. Nothing comes of a text that is not
/// TOML, or that has no themes.
pub fn parse_toml_themes(text: &str) -> (themes: Vec<Theme>)
    ensures
        theme::models_of(themes@) == document_themes(toml_parsed(text@)),
{
    let none: Vec<Theme> = Vec::new();
    assert(theme::models_of(none@) =~= seq![]);
    let root = match parse_toml(text) {
        Some(root) => root,
        None => {
            return none;
        },
    };
    let entries = list_entries(&root);
    assert(entries_of(entries@).len() == entries@.len());
    let i: usize = find_entry(&entries, "themes");
    if i >= entries.len() {
        return none;
    }
    assert(toml_entries(root)[i as int].1 == entries@[i as int].1);
    match as_table(&entries[i].1) {
        Some(table) => {
            let inner = list_entries(&table);
            assert(entries_of(inner@).len() == inner@.len());
            themes_of_entries(&inner)
        },
        None => none,
    }
}

// ---- laws ----
/// A theme has its table's name.
pub proof fn law_theme_is_named_by_its_table(
    name: Seq<char>,
    settings: Seq<(Seq<char>, SettingModel)>,
    n: int,
)
    ensures
        with_settings(name, settings, n).name == name,
        n == settings.len() && table_theme(name, settings) is Some ==> table_theme(
            name,
            settings,
        )->0.name == name,
    decreases n,
{
    if n > 0 {
        law_theme_is_named_by_its_table(name, settings, n - 1);
    }
}

/// A font's file and size are taken from the keys for them, where they are of
/// the right kind; every other text is a key of the block, and other values are
/// passed over.
pub proof fn law_settings_of_a_table(
    block: BlockModel,
    key: Seq<char>,
    text: Seq<char>,
    n: i64,
)
    ensures
        with_setting(block, "font_path"@, SettingModel::Text(text)) == (BlockModel {
            font_path: Some(text),
            ..block
        }),
        key != "font_path"@ ==> with_setting(block, key, SettingModel::Text(text)) == block.set(
            key,
            text,
        ),
        0 <= n <= u32::MAX ==> with_setting(block, "font_size"@, SettingModel::Number(n)) == (
        BlockModel { font_size: Some(n as u32), ..block }),
        n < 0 || n > u32::MAX || key != "font_size"@ ==> with_setting(
            block,
            key,
            SettingModel::Number(n),
        ) == block,
        with_setting(block, key, SettingModel::Other) == block,
{
}

/// A table is a theme when it has a foreground. Where it has no background, it
/// gets the one that is used without a theme.
pub proof fn law_tables_with_a_foreground_are_themes(
    name: Seq<char>,
    settings: Seq<(Seq<char>, SettingModel)>,
)
    ensures
        ({
            let block = with_settings(name, settings, settings.len() as int);
            let theme = table_theme(name, settings);
            &&& theme is Some <==> block.fg is Some
            &&& theme is Some ==> theme->0.fg == block.fg->0
            &&& theme is Some && block.bg is Some ==> theme->0.bg == block.bg->0
            &&& theme is Some && block.bg is None ==> theme->0.bg == Color {
                r: 0x10,
                g: 0x10,
                b: 0x14,
                a: 255,
            }
        }),
{
}

/// A string is text and an integer a number; any other value is neither.
pub proof fn law_kinds_of_values(value: toml::Value)
    ensures
        toml_string(value) is Some ==> setting_model(value) == SettingModel::Text(
            toml_string(value)->0,
        ),
        toml_string(value) is None && toml_integer(value) is Some ==> setting_model(value)
            == SettingModel::Number(toml_integer(value)->0),
        toml_string(value) is None && toml_integer(value) is None ==> setting_model(value)
            == SettingModel::Other,
{
}

/// The keys of a table are all read, in the order in which they are walked, and
/// each acts on what those before it left.
pub proof fn law_keys_of_a_table_act_in_turn(name: Seq<char>, table: toml::Table, n: int)
    requires
        0 <= n < toml_entries(table).len(),
    ensures
        ({
            let settings = table_settings(table);
            let (key, value) = toml_entries(table)[n];
            &&& settings.len() == toml_entries(table).len()
            &&& with_settings(name, settings, 0) == BlockModel::new(name)
            &&& with_settings(name, settings, n + 1) == with_setting(
                with_settings(name, settings, n),
                key,
                setting_model(value),
            )
        }),
{
}

/// Each entry that is a table and a complete theme adds that theme, under the
/// entry's name, after those of the entries before it. Other entries add none.
pub proof fn law_entries_add_their_themes(entries: Seq<(Seq<char>, toml::Value)>, n: int)
    requires
        0 <= n < entries.len(),
    ensures
        ({
            let before = entry_themes(entries, n);
            let after = entry_themes(entries, n + 1);
            let table = toml_table(entries[n].1);
            let theme = table_theme(entries[n].0, table_settings(table->0));
            &&& entry_themes(entries, 0).len() == 0
            &&& after.take(before.len() as int) == before
            &&& after.len() == before.len() + if table is Some && theme is Some {
                1int
            } else {
                0
            }
            &&& table is Some && theme is Some ==> after[before.len() as int] == theme->0
        }),
{
    let before = entry_themes(entries, n);
    assert(entry_themes(entries, n + 1).take(before.len() as int) =~= before);
}

/// The themes of a document are those of its table `themes`. There are none
/// without that table, nor where the text is no document.
pub proof fn law_themes_are_in_their_table(root: toml::Table, i: int)
    requires
        0 <= i < toml_entries(root).len(),
        toml_entries(root)[i].0 == "themes"@,
        forall|k: int| 0 <= k < i ==> (#[trigger] toml_entries(root)[k]).0 != "themes"@,
    ensures
        toml_table(toml_entries(root)[i].1) matches Some(table) ==> document_themes(Some(root))
            == entry_themes(toml_entries(table), toml_entries(table).len() as int),
        toml_table(toml_entries(root)[i].1) is None ==> document_themes(Some(root)).len() == 0,
{
    lemma_first_entry(toml_entries(root), "themes"@, i);
}

/// A document without a table `themes` has no themes.
pub proof fn law_no_table_no_themes(root: toml::Table)
    requires
        forall|k: int|
            0 <= k < toml_entries(root).len() ==> (#[trigger] toml_entries(root)[k]).0
                != "themes"@,
    ensures
        document_themes(Some(root)).len() == 0,
        document_themes(None).len() == 0,
{
    lemma_first_entry(toml_entries(root), "themes"@, toml_entries(root).len() as int);
}

proof fn lemma_first_entry(entries: Seq<(Seq<char>, toml::Value)>, key: Seq<char>, i: int)
    requires
        0 <= i <= entries.len(),
        i < entries.len() ==> entries[i].0 == key,
        forall|k: int| 0 <= k < i ==> (#[trigger] entries[k]).0 != key,
    ensures
        entry_index(entries, key) == i,
    decreases entries.len(),
{
    if i > 0 {
        let rest = entries.skip(1);
        assert(entries[0].0 != key);
        assert forall|k: int| 0 <= k < i - 1 implies (#[trigger] rest[k]).0 != key by {
            assert(rest[k] == entries[k + 1]);
        }
        lemma_first_entry(rest, key, i - 1);
    }
}

} // verus!
