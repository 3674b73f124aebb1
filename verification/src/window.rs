//! The tabs and panes of a window: which there are, which one has the focus,
//! and what opening, splitting, moving and closing does to them.
use vstd::prelude::*;
use crate::commands::SplitDir;
use crate::text;
use crate::text::{chars_of, push_decimal, string_of, stripped, Strip};
use crate::tree;
use crate::tree::Tree;

verus! {

/// What a [`Tab`] denotes. `panes` has its panes in the order in which they
/// came, `tree` how they divide its space.
#[verifier::ext_equal]
pub struct TabModel {
    pub panes: Seq<u64>,
    pub focused: u64,
    pub tree: Tree,
    pub title: Seq<char>,
}

/// What a [`Window`] denotes.
#[verifier::ext_equal]
pub struct WindowModel {
    pub tabs: Seq<TabModel>,
    /// The pane that the context menu was opened on.
    pub menu_target: Option<u64>,
    /// The number of the next tab.
    pub next_number: int,
    pub tab_max: int,
}

/// The label that a tab starts with.
pub open spec fn first_title(number: nat) -> Seq<char> {
    "Tab "@ + text::decimal(number).map_values(|b: u8| b as char)
}

impl TabModel {
    /// No pane occurs twice, the tree divides the space among just the tab's
    /// panes, and one of them has the focus.
    pub open spec fn wf(self) -> bool {
        &&& self.panes.no_duplicates()
        &&& self.panes.contains(self.focused)
        &&& tree::leaves(self.tree).no_duplicates()
        &&& forall|p: u64| #[trigger]
            self.panes.contains(p) <==> tree::leaves(self.tree).contains(p)
    }

    /// A tab with one pane.
    pub open spec fn new(pane: u64, number: nat) -> TabModel {
        TabModel {
            panes: seq![pane],
            focused: pane,
            tree: Tree::Leaf(pane),
            title: first_title(number),
        }
    }

    /// With `new` next to `at`.
    pub open spec fn with_pane(self, at: u64, new: u64, dir: SplitDir) -> TabModel {
        TabModel {
            panes: self.panes.push(new),
            focused: new,
            tree: tree::with_pane(self.tree, at, new, dir),
            ..self
        }
    }

    /// Without a pane that is not the only one. The first of the others gets
    /// the focus if that pane had it.
    pub open spec fn without_pane(self, gone: u64) -> TabModel {
        TabModel {
            panes: tree::minus(self.panes, gone),
            focused: if self.focused == gone {
                tree::minus(self.panes, gone)[0]
            } else {
                self.focused
            },
            tree: tree::without_pane(self.tree, gone)->0,
            ..self
        }
    }

    /// The pane is the only one.
    pub open spec fn is_only(self, pane: u64) -> bool {
        tree::without_pane(self.tree, pane) is None
    }
}

/// The number of the first tab that has the pane, or the number of tabs.
pub open spec fn tab_of(tabs: Seq<TabModel>, pane: u64) -> int
    decreases tabs.len(),
{
    if tabs.len() == 0 || tabs[0].panes.contains(pane) {
        0
    } else {
        1 + tab_of(tabs.skip(1), pane)
    }
}

/// Tab `i` has the pane.
pub open spec fn has(tabs: Seq<TabModel>, i: int, pane: u64) -> bool {
    0 <= i < tabs.len() && tabs[i].panes.contains(pane)
}

impl WindowModel {
    /// Some tab has the pane.
    pub open spec fn holds(self, pane: u64) -> bool {
        exists|i: int| #[trigger] has(self.tabs, i, pane)
    }

    /// Every tab is sound, no pane is in two of them, and the context menu's
    /// pane is in one.
    pub open spec fn wf(self) -> bool {
        &&& forall|i: int| 0 <= i < self.tabs.len() ==> (#[trigger] self.tabs[i]).wf()
        &&& forall|i: int, j: int, p: u64|
            #[trigger] has(self.tabs, i, p) && #[trigger] has(self.tabs, j, p) ==> i == j
        &&& self.menu_target matches Some(p) ==> self.holds(p)
        &&& 0 <= self.next_number <= u32::MAX
        &&& 0 <= self.tab_max <= u32::MAX
    }

    /// A window without tabs yet. The first one will be number 1.
    pub open spec fn new(tab_max: int) -> WindowModel {
        WindowModel { tabs: Seq::empty(), menu_target: None, next_number: 1, tab_max }
    }

    /// Another tab would be one too many.
    pub open spec fn is_full(self) -> bool {
        self.tabs.len() >= self.tab_max
    }

    pub open spec fn open_tab(self, pane: u64) -> WindowModel {
        WindowModel {
            tabs: self.tabs.push(TabModel::new(pane, self.next_number as nat)),
            next_number: self.next_number + 1,
            ..self
        }
    }

    /// The focused pane of the tab on page `page`.
    pub open spec fn focused_pane(self, page: Option<usize>) -> Option<u64> {
        match page {
            Some(i) => if i < self.tabs.len() {
                Some(self.tabs[i as int].focused)
            } else {
                None
            },
            None => None,
        }
    }

    /// The pane that a menu item or a shortcut acts on: the one that the menu
    /// was opened on, else the focused one.
    pub open spec fn action_target(self, page: Option<usize>) -> Option<u64> {
        match self.menu_target {
            Some(p) => Some(p),
            None => self.focused_pane(page),
        }
    }

    /// Tab `i` changed.
    pub open spec fn with_tab(self, i: int, tab: TabModel) -> WindowModel {
        WindowModel { tabs: self.tabs.update(i, tab), ..self }
    }

    pub open spec fn focus(self, pane: u64) -> WindowModel {
        let i = tab_of(self.tabs, pane);
        if i < self.tabs.len() {
            self.with_tab(i, TabModel { focused: pane, ..self.tabs[i] })
        } else {
            self
        }
    }

    pub open spec fn split(self, at: u64, new: u64, dir: SplitDir) -> WindowModel {
        let i = tab_of(self.tabs, at);
        if i < self.tabs.len() {
            self.with_tab(i, self.tabs[i].with_pane(at, new, dir))
        } else {
            self
        }
    }

    /// Tab `i` closed, with all its panes.
    pub open spec fn close_tab(self, i: int) -> WindowModel {
        WindowModel {
            tabs: self.tabs.remove(i),
            menu_target: match self.menu_target {
                Some(p) => if self.tabs[i].panes.contains(p) {
                    None
                } else {
                    Some(p)
                },
                None => None,
            },
            ..self
        }
    }

    /// A pane closed. What it shared a split with takes its space; the tab goes
    /// with its last pane.
    pub open spec fn close_pane(self, pane: u64) -> WindowModel {
        let i = tab_of(self.tabs, pane);
        if i >= self.tabs.len() {
            self
        } else if self.tabs[i].is_only(pane) {
            self.close_tab(i)
        } else {
            WindowModel {
                menu_target: if self.menu_target == Some(pane) {
                    None
                } else {
                    self.menu_target
                },
                ..self.with_tab(i, self.tabs[i].without_pane(pane))
            }
        }
    }

    /// `src` moved next to `dst`, in the same tab or another. A tab that is
    /// left without panes is closed.
    pub open spec fn rearrange(self, src: u64, dst: u64, dir: SplitDir) -> WindowModel {
        let i = tab_of(self.tabs, src);
        let j = tab_of(self.tabs, dst);
        if src == dst || i >= self.tabs.len() || j >= self.tabs.len() {
            self
        } else if i == j {
            let tab = self.tabs[i];
            self.with_tab(
                i,
                TabModel {
                    tree: tree::with_pane(
                        tree::without_pane(tab.tree, src)->0,
                        dst,
                        src,
                        dir,
                    ),
                    focused: src,
                    ..tab
                },
            )
        } else {
            let moved = self.with_tab(j, self.tabs[j].with_pane(dst, src, dir));
            if self.tabs[i].is_only(src) {
                WindowModel { tabs: moved.tabs.remove(i), ..moved }
            } else {
                moved.with_tab(i, self.tabs[i].without_pane(src))
            }
        }
    }

    /// The tab at `from` moved to `to` in the order of tabs.
    pub open spec fn move_tab(self, from: int, to: int) -> WindowModel {
        WindowModel { tabs: self.tabs.remove(from).insert(to, self.tabs[from]), ..self }
    }

    /// The next pane of the tab on page `page` after its focused one, over the
    /// end; none if the tab has no other.
    pub open spec fn next_focus(self, page: Option<usize>) -> Option<u64> {
        match page {
            Some(i) => if i < self.tabs.len() && self.tabs[i as int].panes.len() > 1 {
                let panes = self.tabs[i as int].panes;
                let at = panes.index_of(self.tabs[i as int].focused);
                Some(
                    panes[if at + 1 < panes.len() {
                        at + 1
                    } else {
                        0
                    }],
                )
            } else {
                None
            },
            None => None,
        }
    }

    /// The panes of tab `i` show their toolbars: not if there is nowhere to
    /// drag a pane to, nor if the user does not want them.
    pub open spec fn shows_toolbars(self, i: int, wanted: bool) -> bool {
        wanted && (self.tabs[i].panes.len() > 1 || self.tabs.len() > 1)
    }

    /// There is somewhere to drag a pane of tab `i` to.
    pub open spec fn can_drag(self, i: int) -> bool {
        self.tabs[i].panes.len() > 1 || self.tabs.len() > 1
    }
}

// ---- lemmas ----
proof fn lemma_tab_of(tabs: Seq<TabModel>, pane: u64)
    ensures
        0 <= tab_of(tabs, pane) <= tabs.len(),
        tab_of(tabs, pane) < tabs.len() ==> has(tabs, tab_of(tabs, pane), pane),
        forall|i: int| #[trigger] has(tabs, i, pane) ==> tab_of(tabs, pane) <= i,
    decreases tabs.len(),
{
    if tabs.len() > 0 && !tabs[0].panes.contains(pane) {
        lemma_tab_of(tabs.skip(1), pane);
        assert forall|i: int| #[trigger] has(tabs, i, pane) implies tab_of(tabs, pane) <= i by {
            if i > 0 {
                assert(has(tabs.skip(1), i - 1, pane));
            }
        }
        if tab_of(tabs, pane) < tabs.len() {
            assert(has(tabs.skip(1), tab_of(tabs.skip(1), pane), pane));
        }
    }
}

proof fn lemma_new_tab(pane: u64, number: nat)
    ensures
        TabModel::new(pane, number).wf(),
{
    let tab = TabModel::new(pane, number);
    assert(tab.panes[0] == pane);
    assert(tree::leaves(tab.tree) =~= tab.panes);
}

proof fn lemma_with_pane(tab: TabModel, at: u64, new: u64, dir: SplitDir)
    requires
        tab.wf(),
        tab.panes.contains(at),
        !tab.panes.contains(new),
    ensures
        tab.with_pane(at, new, dir).wf(),
        forall|p: u64| #[trigger]
            tab.with_pane(at, new, dir).panes.contains(p) <==> tab.panes.contains(p) || p == new,
{
    let after = tab.with_pane(at, new, dir);
    tree::lemma_with_pane_distinct(tab.tree, at, new, dir);
    assert forall|p: u64| #[trigger]
        after.panes.contains(p) <==> tree::leaves(after.tree).contains(p) by {
        tree::law_with_pane_adds_one(tab.tree, at, new, dir, p);
        tree::lemma_push_contains(tab.panes, new, p);
        assert(tab.panes.contains(at));
        assert(tab.panes.contains(p) <==> tree::leaves(tab.tree).contains(p));
    }
    assert forall|p: u64| #[trigger]
        after.panes.contains(p) <==> tab.panes.contains(p) || p == new by {
        tree::lemma_push_contains(tab.panes, new, p);
    }
}

proof fn lemma_without_pane(tab: TabModel, gone: u64)
    requires
        tab.wf(),
        tab.panes.contains(gone),
    ensures
        tab.is_only(gone) <==> tree::minus(tab.panes, gone).len() == 0,
        tab.is_only(gone) ==> forall|p: u64| #[trigger] tab.panes.contains(p) ==> p == gone,
        !tab.is_only(gone) ==> {
            &&& tab.without_pane(gone).wf()
            &&& forall|p: u64| #[trigger]
                tab.without_pane(gone).panes.contains(p) <==> tab.panes.contains(p) && p != gone
        },
{
    tree::law_without_pane_keeps_the_others(tab.tree, gone);
    tree::lemma_minus(tab.panes, gone);
    tree::lemma_minus(tree::leaves(tab.tree), gone);
    let left = tree::leaves_left(tree::without_pane(tab.tree, gone));
    let panes = tree::minus(tab.panes, gone);
    assert forall|p: u64| #[trigger] panes.contains(p) <==> left.contains(p) by {
        assert(panes.contains(p) <==> tab.panes.contains(p) && p != gone);
        assert(left.contains(p) <==> tree::leaves(tab.tree).contains(p) && p != gone);
        assert(tab.panes.contains(p) <==> tree::leaves(tab.tree).contains(p));
    }
    if tab.is_only(gone) {
        if panes.len() > 0 {
            assert(panes.contains(panes[0]));
            assert(left.contains(panes[0]));
        }
        assert forall|p: u64| #[trigger] tab.panes.contains(p) implies p == gone by {
            if p != gone {
                assert(panes.contains(p));
            }
        }
    } else {
        tree::lemma_some_leaf(tree::without_pane(tab.tree, gone)->0);
        assert(left.contains(left[0]));
        assert(panes.contains(left[0]));
        assert(panes.contains(panes[0]));
        assert(panes.contains(tab.without_pane(gone).focused));
    }
}

/// No pane is lost or made by moving one.
pub proof fn law_rearranging_keeps_the_panes(
    w: WindowModel,
    src: u64,
    dst: u64,
    dir: SplitDir,
    pane: u64,
)
    requires
        w.wf(),
    ensures
        w.rearrange(src, dst, dir).wf(),
        w.rearrange(src, dst, dir).holds(pane) <==> w.holds(pane),
{
    let i = tab_of(w.tabs, src);
    let j = tab_of(w.tabs, dst);
    let after = w.rearrange(src, dst, dir);
    lemma_tab_of(w.tabs, src);
    lemma_tab_of(w.tabs, dst);
    if src == dst || i >= w.tabs.len() || j >= w.tabs.len() {
    } else if i == j {
        let tab = w.tabs[i];
        lemma_without_pane(tab, src);
        let rest = tab.without_pane(src);
        assert(tab.panes.contains(dst));
        assert(!tab.is_only(src));
        assert(rest.panes.contains(dst));
        lemma_with_pane(rest, dst, src, dir);
        let moved = after.tabs[i];
        assert(moved.tree == rest.with_pane(dst, src, dir).tree);
        assert forall|p: u64| #[trigger]
            moved.panes.contains(p) <==> tree::leaves(moved.tree).contains(p) by {
            assert(rest.with_pane(dst, src, dir).panes.contains(p) <==> tree::leaves(
                moved.tree,
            ).contains(p));
            assert(rest.panes.contains(p) <==> tab.panes.contains(p) && p != src);
        }
        assert(moved.wf());
        assert(after.tabs.len() == w.tabs.len());
        assert forall|k: int, p: u64| #[trigger] has(after.tabs, k, p) <==> has(w.tabs, k, p) by {}
        lemma_same_panes(w, after);
    } else {
        let from = w.tabs[i];
        let to = w.tabs[j];
        lemma_without_pane(from, src);
        assert(!to.panes.contains(src)) by {
            if to.panes.contains(src) {
                assert(has(w.tabs, j, src));
            }
        }
        lemma_with_pane(to, dst, src, dir);
        let with = w.with_tab(j, to.with_pane(dst, src, dir));
        if from.is_only(src) {
            // Tab `i` is gone; the others have moved up.
            let back = |k: int| if k < i { k } else { k + 1 };
            assert forall|k: int, p: u64| #[trigger] has(after.tabs, k, p) <==> 0 <= k
                < after.tabs.len() && (has(w.tabs, back(k), p) || (back(k) == j && p == src)) by {}
            assert forall|a: int, b: int, p: u64| #[trigger]
                has(after.tabs, a, p) && #[trigger] has(after.tabs, b, p) implies a == b by {
                if p == src {
                    if has(w.tabs, back(a), p) {
                        assert(back(a) == i);
                    }
                    if has(w.tabs, back(b), p) {
                        assert(back(b) == i);
                    }
                }
            }
            assert forall|p: u64| #[trigger] after.holds(p) <==> w.holds(p) by {
                if w.holds(p) {
                    let k = choose|k: int| #[trigger] has(w.tabs, k, p);
                    if k == i {
                        assert(p == src);
                        assert(has(after.tabs, if j < i { j } else { j - 1 }, p));
                    } else {
                        assert(has(after.tabs, if k < i { k } else { k - 1 }, p));
                    }
                }
                if after.holds(p) {
                    let k = choose|k: int| #[trigger] has(after.tabs, k, p);
                    if p == src {
                        assert(has(w.tabs, i, src));
                    } else {
                        assert(has(w.tabs, back(k), p));
                    }
                }
            }
            assert forall|k: int| 0 <= k < after.tabs.len() implies (
            #[trigger] after.tabs[k]).wf() by {
                assert(after.tabs[k] == with.tabs[back(k)]);
            }
        } else {
            assert forall|k: int, p: u64| #[trigger] has(after.tabs, k, p) <==> (has(w.tabs, k, p)
                && !(k == i && p == src)) || (k == j && p == src) by {
                if k == i {
                    assert(after.tabs[i] == from.without_pane(src));
                }
            }
            assert forall|a: int, b: int, p: u64| #[trigger]
                has(after.tabs, a, p) && #[trigger] has(after.tabs, b, p) implies a == b by {
                if p == src {
                    if has(w.tabs, a, p) {
                        assert(a == i);
                    }
                    if has(w.tabs, b, p) {
                        assert(b == i);
                    }
                }
            }
            assert forall|p: u64| #[trigger] after.holds(p) <==> w.holds(p) by {
                if w.holds(p) {
                    let k = choose|k: int| #[trigger] has(w.tabs, k, p);
                    if p == src {
                        assert(has(after.tabs, j, p));
                    } else {
                        assert(has(after.tabs, k, p));
                    }
                }
                if after.holds(p) {
                    let k = choose|k: int| #[trigger] has(after.tabs, k, p);
                    if p == src {
                        assert(has(w.tabs, i, src));
                    } else {
                        assert(has(w.tabs, k, p));
                    }
                }
            }
        }
    }
}

/// Tabs that hold the same panes each keep the window sound.
proof fn lemma_same_panes(w: WindowModel, after: WindowModel)
    requires
        w.wf(),
        after.tabs.len() == w.tabs.len(),
        forall|k: int| 0 <= k < after.tabs.len() ==> (#[trigger] after.tabs[k]).wf(),
        forall|k: int, p: u64| #[trigger] has(after.tabs, k, p) <==> has(w.tabs, k, p),
        after.menu_target == w.menu_target,
        after.next_number == w.next_number,
        after.tab_max == w.tab_max,
    ensures
        after.wf(),
        forall|p: u64| #[trigger] after.holds(p) <==> w.holds(p),
{
    assert forall|p: u64| #[trigger] after.holds(p) <==> w.holds(p) by {
        if w.holds(p) {
            let k = choose|k: int| #[trigger] has(w.tabs, k, p);
            assert(has(after.tabs, k, p));
        }
        if after.holds(p) {
            let k = choose|k: int| #[trigger] has(after.tabs, k, p);
            assert(has(w.tabs, k, p));
        }
    }
}

/// A new tab has the pane that it was opened with, and no other tab changes.
pub proof fn law_open_tab(w: WindowModel, pane: u64, other: u64)
    requires
        w.wf(),
        !w.holds(pane),
        w.next_number < u32::MAX,
    ensures
        w.open_tab(pane).wf(),
        w.open_tab(pane).holds(other) <==> w.holds(other) || other == pane,
        w.open_tab(pane).tabs.drop_last() == w.tabs,
{
    let after = w.open_tab(pane);
    let n = w.tabs.len() as int;
    lemma_new_tab(pane, w.next_number as nat);
    assert forall|k: int, p: u64| #[trigger] has(after.tabs, k, p) <==> has(w.tabs, k, p) || (k == n
        && p == pane) by {
        if k == n && p == pane {
            assert(after.tabs[n].panes[0] == pane);
        }
    }
    assert forall|p: u64| #[trigger] after.holds(p) <==> w.holds(p) || p == pane by {
        if w.holds(p) {
            let k = choose|k: int| #[trigger] has(w.tabs, k, p);
            assert(has(after.tabs, k, p));
        }
        if p == pane {
            assert(has(after.tabs, n, p));
        }
        if after.holds(p) {
            let k = choose|k: int| #[trigger] has(after.tabs, k, p);
            if k < n {
                assert(has(w.tabs, k, p));
            }
        }
    }
    assert forall|a: int, b: int, p: u64| #[trigger]
        has(after.tabs, a, p) && #[trigger] has(after.tabs, b, p) implies a == b by {
        if p == pane {
            if has(w.tabs, a, p) {
                assert(w.holds(p));
            }
            if has(w.tabs, b, p) {
                assert(w.holds(p));
            }
        }
    }
    assert(after.tabs.drop_last() =~= w.tabs);
}

/// A split adds just the new pane.
pub proof fn law_split_adds_one_pane(
    w: WindowModel,
    at: u64,
    new: u64,
    dir: SplitDir,
    other: u64,
)
    requires
        w.wf(),
        w.holds(at),
        !w.holds(new),
    ensures
        w.split(at, new, dir).wf(),
        w.split(at, new, dir).holds(other) <==> w.holds(other) || other == new,
        w.split(at, new, dir).tabs.len() == w.tabs.len(),
{
    let i = tab_of(w.tabs, at);
    let after = w.split(at, new, dir);
    lemma_tab_of(w.tabs, at);
    let k0 = choose|k: int| #[trigger] has(w.tabs, k, at);
    assert(has(w.tabs, k0, at));
    assert(!w.tabs[i].panes.contains(new)) by {
        if w.tabs[i].panes.contains(new) {
            assert(has(w.tabs, i, new));
        }
    }
    lemma_with_pane(w.tabs[i], at, new, dir);
    assert forall|k: int, p: u64| #[trigger] has(after.tabs, k, p) <==> has(w.tabs, k, p) || (k == i
        && p == new) by {}
    assert forall|p: u64| #[trigger] after.holds(p) <==> w.holds(p) || p == new by {
        if w.holds(p) {
            let k = choose|k: int| #[trigger] has(w.tabs, k, p);
            assert(has(after.tabs, k, p));
        }
        if p == new {
            assert(has(after.tabs, i, p));
        }
        if after.holds(p) {
            let k = choose|k: int| #[trigger] has(after.tabs, k, p);
            assert(has(w.tabs, k, p) || p == new);
        }
    }
    assert forall|a: int, b: int, p: u64| #[trigger]
        has(after.tabs, a, p) && #[trigger] has(after.tabs, b, p) implies a == b by {
        if p == new {
            if has(w.tabs, a, p) {
                assert(w.holds(p));
            }
            if has(w.tabs, b, p) {
                assert(w.holds(p));
            }
        }
    }
}

/// Closing a tab closes just its panes.
pub proof fn law_close_tab_closes_its_panes(w: WindowModel, i: int, other: u64)
    requires
        w.wf(),
        0 <= i < w.tabs.len(),
    ensures
        w.close_tab(i).wf(),
        w.close_tab(i).holds(other) <==> w.holds(other) && !w.tabs[i].panes.contains(other),
{
    let after = w.close_tab(i);
    let back = |k: int| if k < i { k } else { k + 1 };
    assert forall|k: int, p: u64| #[trigger] has(after.tabs, k, p) <==> 0 <= k < after.tabs.len()
        && has(w.tabs, back(k), p) by {}
    assert forall|p: u64| #[trigger] after.holds(p) <==> w.holds(p) && !w.tabs[i].panes.contains(
        p,
    ) by {
        if w.holds(p) && !w.tabs[i].panes.contains(p) {
            let k = choose|k: int| #[trigger] has(w.tabs, k, p);
            assert(k != i);
            assert(has(after.tabs, if k < i { k } else { k - 1 }, p));
        }
        if after.holds(p) {
            let k = choose|k: int| #[trigger] has(after.tabs, k, p);
            assert(has(w.tabs, back(k), p));
            if w.tabs[i].panes.contains(p) {
                assert(has(w.tabs, i, p));
            }
        }
    }
    assert forall|k: int| 0 <= k < after.tabs.len() implies (#[trigger] after.tabs[k]).wf() by {
        assert(after.tabs[k] == w.tabs[back(k)]);
    }
}

/// Closing a pane closes just that one.
pub proof fn law_close_pane_closes_one(w: WindowModel, pane: u64, other: u64)
    requires
        w.wf(),
    ensures
        w.close_pane(pane).wf(),
        w.close_pane(pane).holds(other) <==> w.holds(other) && other != pane,
{
    let i = tab_of(w.tabs, pane);
    let after = w.close_pane(pane);
    lemma_tab_of(w.tabs, pane);
    if i >= w.tabs.len() {
        assert(!w.holds(pane)) by {
            if w.holds(pane) {
                let k = choose|k: int| #[trigger] has(w.tabs, k, pane);
                assert(has(w.tabs, k, pane));
            }
        }
    } else {
        lemma_without_pane(w.tabs[i], pane);
        if w.tabs[i].is_only(pane) {
            law_close_tab_closes_its_panes(w, i, other);
            assert(w.tabs[i].panes.contains(other) <==> other == pane);
        } else {
            assert forall|k: int, p: u64| #[trigger] has(after.tabs, k, p) <==> has(w.tabs, k, p)
                && p != pane by {
                if has(w.tabs, k, p) && p == pane {
                    assert(k == i);
                }
            }
            assert forall|p: u64| #[trigger] after.holds(p) <==> w.holds(p) && p != pane by {
                if w.holds(p) && p != pane {
                    let k = choose|k: int| #[trigger] has(w.tabs, k, p);
                    assert(has(after.tabs, k, p));
                }
                if after.holds(p) {
                    let k = choose|k: int| #[trigger] has(after.tabs, k, p);
                    assert(has(w.tabs, k, p));
                }
            }
        }
    }
}

/// Moving the focus moves nothing else.
pub proof fn law_focus_moves_no_pane(w: WindowModel, pane: u64, other: u64)
    requires
        w.wf(),
    ensures
        w.focus(pane).wf(),
        w.focus(pane).holds(other) <==> w.holds(other),
{
    let i = tab_of(w.tabs, pane);
    let after = w.focus(pane);
    lemma_tab_of(w.tabs, pane);
    if i < w.tabs.len() {
        assert(w.tabs[i].panes.contains(pane));
        assert(after.tabs[i].wf()) by {
            assert forall|p: u64| #[trigger]
                after.tabs[i].panes.contains(p) <==> tree::leaves(after.tabs[i].tree).contains(
                    p,
                ) by {
                assert(w.tabs[i].panes.contains(p) <==> tree::leaves(w.tabs[i].tree).contains(p));
            }
        }
        assert forall|k: int, p: u64| #[trigger] has(after.tabs, k, p) <==> has(w.tabs, k, p) by {}
        lemma_same_panes(w, after);
    }
}

/// Changing the order of the tabs changes nothing else.
pub proof fn law_moving_a_tab_moves_no_pane(w: WindowModel, from: int, to: int, other: u64)
    requires
        w.wf(),
        0 <= from < w.tabs.len(),
        0 <= to < w.tabs.len(),
    ensures
        w.move_tab(from, to).wf(),
        w.move_tab(from, to).holds(other) <==> w.holds(other),
{
    let after = w.move_tab(from, to);
    // Where tab `k` of the new order was before.
    let was = |k: int|
        if k == to {
            from
        } else {
            let m = if k < to { k } else { k - 1 };
            if m < from { m } else { m + 1 }
        };
    let now = |k: int|
        if k == from {
            to
        } else {
            let m = if k < from { k } else { k - 1 };
            if m < to { m } else { m + 1 }
        };
    assert(after.tabs.len() == w.tabs.len());
    assert forall|k: int, p: u64| #[trigger] has(after.tabs, k, p) <==> 0 <= k < after.tabs.len()
        && has(w.tabs, was(k), p) by {
        if 0 <= k < after.tabs.len() {
            assert(after.tabs[k] == w.tabs[was(k)]);
        }
    }
    assert forall|p: u64| #[trigger] after.holds(p) <==> w.holds(p) by {
        if w.holds(p) {
            let k = choose|k: int| #[trigger] has(w.tabs, k, p);
            assert(was(now(k)) == k);
            assert(has(after.tabs, now(k), p));
        }
        if after.holds(p) {
            let k = choose|k: int| #[trigger] has(after.tabs, k, p);
            assert(has(w.tabs, was(k), p));
        }
    }
    assert forall|a: int, b: int, p: u64| #[trigger]
        has(after.tabs, a, p) && #[trigger] has(after.tabs, b, p) implies a == b by {
        assert(was(a) == was(b));
    }
    assert forall|k: int| 0 <= k < after.tabs.len() implies (#[trigger] after.tabs[k]).wf() by {
        assert(after.tabs[k] == w.tabs[was(k)]);
    }
}

/// No two tabs start with the same label.
pub proof fn law_first_titles_differ(n: nat, m: nat)
    requires
        n != m,
    ensures
        first_title(n) != first_title(m),
{
    if first_title(n) == first_title(m) {
        let (a, b) = (text::decimal(n), text::decimal(m));
        let prefix = "Tab "@.len() as int;
        assert(first_title(n).len() == prefix + a.len());
        assert(first_title(m).len() == prefix + b.len());
        assert forall|i: int| 0 <= i < a.len() implies a[i] == b[i] by {
            assert(first_title(n)[prefix + i] == a[i] as char);
            assert(first_title(m)[prefix + i] == b[i] as char);
        }
        assert(a =~= b);
        text::law_decimal_is_injective(n, m);
    }
}

// ---- the window ----
/// A tab: its panes in the order in which they came, the one that has or last
/// had the focus, how they divide the tab's space, and its label.
#[derive(Debug)]
pub struct Tab {
    panes: Vec<u64>,
    focused: u64,
    tree: Tree,
    title: String,
}

impl View for Tab {
    type V = TabModel;

    closed spec fn view(&self) -> TabModel {
        TabModel {
            panes: self.panes@,
            focused: self.focused,
            tree: self.tree,
            title: self.title@,
        }
    }
}

/// The tabs of a window, and what goes with them.
#[derive(Debug)]
pub struct Window {
    tabs: Vec<Tab>,
    menu_target: Option<u64>,
    next_number: u32,
    tab_max: u32,
}

/// The tabs as the model has them.
pub closed spec fn tabs_of(tabs: Seq<Tab>) -> Seq<TabModel> {
    tabs.map_values(|t: Tab| t@)
}

impl View for Window {
    type V = WindowModel;

    closed spec fn view(&self) -> WindowModel {
        WindowModel {
            tabs: tabs_of(self.tabs@),
            menu_target: self.menu_target,
            next_number: self.next_number as int,
            tab_max: self.tab_max as int,
        }
    }
}

/// What closing something came to.
#[derive(Clone, Copy, Debug, PartialEq, Eq, Structural)]
pub enum Closed {
    /// There was nothing to close.
    Nothing,
    /// A pane, and the tab goes on with this one focused.
    Pane { focused: u64 },
    /// A whole tab.
    Tab,
    /// The last tab, and the window with it.
    Window,
}

/// Whether the number is among these.
fn contains(numbers: &Vec<u64>, x: u64) -> (found: bool)
    ensures
        found == numbers@.contains(x),
{
    let mut i: usize = 0;
    while i < numbers.len()
        invariant
            i <= numbers@.len(),
            forall|k: int| 0 <= k < i ==> numbers@[k] != x,
        decreases numbers@.len() - i,
    {
        if numbers[i] == x {
            return true;
        }
        i = i + 1;
    }
    false
}

/// The numbers without `x`.
fn all_but(numbers: &Vec<u64>, x: u64) -> (rest: Vec<u64>)
    ensures
        rest@ == tree::minus(numbers@, x),
{
    let mut rest: Vec<u64> = Vec::new();
    let mut i: usize = 0;
    while i < numbers.len()
        invariant
            i <= numbers@.len(),
            rest@ == tree::minus(numbers@.take(i as int), x),
        decreases numbers@.len() - i,
    {
        assert(numbers@.take(i + 1).drop_last() =~= numbers@.take(i as int));
        if numbers[i] != x {
            rest.push(numbers[i]);
        }
        i = i + 1;
    }
    assert(numbers@.take(i as int) =~= numbers@);
    rest
}

/// The label of tab `number`.
fn make_title(number: u32) -> (title: String)
    ensures
        title@ == first_title(number as nat),
{
    let mut digits: Vec<u8> = Vec::new();
    push_decimal(&mut digits, number as usize);
    assert(digits@ =~= text::decimal(number as nat));
    let mut title = "Tab ".to_string();
    let mut i: usize = 0;
    assert(title@ =~= "Tab "@ + digits@.take(0).map_values(|b: u8| b as char));
    while i < digits.len()
        invariant
            i <= digits@.len(),
            title@ == "Tab "@ + digits@.take(i as int).map_values(|b: u8| b as char),
        decreases digits@.len() - i,
    {
        title.push(digits[i] as char);
        i = i + 1;
        assert(title@ =~= "Tab "@ + digits@.take(i as int).map_values(|b: u8| b as char));
    }
    assert(digits@.take(i as int) =~= digits@);
    title
}

impl Tab {
    /// The label.
    pub fn title(&self) -> (title: String)
        ensures
            title@ == self@.title,
    {
        self.title.clone()
    }

    /// The panes, in the order in which they came.
    pub fn panes(&self) -> (panes: &Vec<u64>)
        ensures
            panes@ == self@.panes,
    {
        &self.panes
    }

    /// The pane that has or last had the focus.
    pub fn focused(&self) -> (pane: u64)
        ensures
            pane == self@.focused,
    {
        self.focused
    }

    /// How the panes divide the tab's space.
    pub fn tree(&self) -> (tree: &Tree)
        ensures
            *tree == self@.tree,
    {
        &self.tree
    }

    fn add_pane(&mut self, at: u64, new: u64, dir: SplitDir)
        ensures
            final(self)@ == old(self)@.with_pane(at, new, dir),
    {
        let mut division = Tree::Leaf(0);
        std::mem::swap(&mut self.tree, &mut division);
        self.tree = division.add_pane(at, new, dir);
        self.panes.push(new);
        self.focused = new;
    }
}

impl Window {
    /// The window is sound.
    pub open spec fn wf(&self) -> bool {
        self@.wf()
    }

    /// A window without tabs.
    pub fn new(tab_max: u32) -> (w: Window)
        ensures
            w.wf(),
            w@ == WindowModel::new(tab_max as int),
    {
        let w = Window { tabs: Vec::new(), menu_target: None, next_number: 1, tab_max };
        assert(w@ =~= WindowModel::new(tab_max as int));
        w
    }

    /// How many tabs there are.
    pub fn tab_count(&self) -> (n: usize)
        ensures
            n == self@.tabs.len(),
    {
        self.tabs.len()
    }

    /// Tab `i`.
    pub fn tab(&self, i: usize) -> (tab: &Tab)
        requires
            i < self@.tabs.len(),
        ensures
            tab@ == self@.tabs[i as int],
    {
        &self.tabs[i]
    }

    /// The most tabs that the window may have.
    pub fn tab_max(&self) -> (n: u32)
        ensures
            n == self@.tab_max,
    {
        self.tab_max
    }

    /// Change the most tabs that the window may have.
    pub fn set_tab_max(&mut self, n: u32)
        requires
            old(self).wf(),
        ensures
            final(self).wf(),
            final(self)@ == (WindowModel { tab_max: n as int, ..old(self)@ }),
    {
        self.tab_max = n;
        proof {
            assert(self@.tabs == old(self)@.tabs);
            if let Some(p) = self@.menu_target {
                let k = choose|k: int| #[trigger] has(old(self)@.tabs, k, p);
                assert(has(self@.tabs, k, p));
            }
        }
    }

    /// Whether the limit on tabs is reached.
    pub fn is_full(&self) -> (full: bool)
        ensures
            full == self@.is_full(),
    {
        self.tabs.len() >= self.tab_max as usize
    }

    /// Whether there is a number left for one more tab.
    pub fn has_number(&self) -> (yes: bool)
        ensures
            yes == (self@.next_number < u32::MAX),
    {
        self.next_number < u32::MAX
    }

    /// Whether the strip of tabs is shown: not for a single one.
    pub fn shows_tab_strip(&self) -> (yes: bool)
        ensures
            yes == (self@.tabs.len() > 1),
    {
        self.tabs.len() > 1
    }

    /// The number of the tab that has the pane.
    pub fn tab_of(&self, pane: u64) -> (found: Option<usize>)
        requires
            self.wf(),
        ensures
            match found {
                Some(i) => i == tab_of(self@.tabs, pane) && has(self@.tabs, i as int, pane),
                None => tab_of(self@.tabs, pane) == self@.tabs.len() && !self@.holds(pane),
            },
    {
        let ghost tabs = self@.tabs;
        let mut i: usize = 0;
        assert(tabs.skip(0) =~= tabs);
        while i < self.tabs.len()
            invariant
                i <= tabs.len(),
                tabs == self@.tabs,
                i + tab_of(tabs.skip(i as int), pane) == tab_of(tabs, pane),
            decreases tabs.len() - i,
        {
            assert(tabs[i as int] == self.tabs@[i as int]@);
            if contains(&self.tabs[i].panes, pane) {
                assert(has(tabs, i as int, pane));
                return Some(i);
            }
            assert(tabs.skip(i as int).skip(1) =~= tabs.skip(i + 1));
            i = i + 1;
        }
        proof {
            lemma_tab_of(tabs, pane);
            if self@.holds(pane) {
                let k = choose|k: int| #[trigger] has(tabs, k, pane);
                assert(has(tabs, k, pane));
            }
        }
        None
    }

    /// The pane that the keyboard goes to when page `page` is shown.
    pub fn focused_pane(&self, page: Option<usize>) -> (pane: Option<u64>)
        ensures
            pane == self@.focused_pane(page),
    {
        match page {
            Some(i) => if i < self.tabs.len() {
                Some(self.tabs[i].focused)
            } else {
                None
            },
            None => None,
        }
    }

    /// The pane that a menu item or a shortcut acts on: the one that the menu
    /// was opened on, else the focused one.
    pub fn action_target(&self, page: Option<usize>) -> (pane: Option<u64>)
        ensures
            pane == self@.action_target(page),
    {
        match self.menu_target {
            Some(p) => Some(p),
            None => self.focused_pane(page),
        }
    }

    /// The pane that the context menu was opened on.
    pub fn menu_target(&self) -> (pane: Option<u64>)
        ensures
            pane == self@.menu_target,
    {
        self.menu_target
    }

    /// The context menu was opened on this pane. Panes that no tab has are
    /// ignored.
    pub fn set_menu_target(&mut self, pane: u64)
        requires
            old(self).wf(),
        ensures
            final(self).wf(),
            final(self)@ == if old(self)@.holds(pane) {
                WindowModel { menu_target: Some(pane), ..old(self)@ }
            } else {
                old(self)@
            },
    {
        if let Some(i) = self.tab_of(pane) {
            assert(has(old(self)@.tabs, i as int, pane));
            self.menu_target = Some(pane);
            assert(has(self@.tabs, i as int, pane));
        }
    }

    /// The context menu offers to close the pane: not if that would leave the
    /// window empty.
    pub fn menu_has_close(&self, page: Option<usize>) -> (yes: bool)
        ensures
            yes == (self@.tabs.len() > 1 || (page matches Some(i) && i < self@.tabs.len()
                && self@.tabs[i as int].panes.len() > 1)),
    {
        if self.tabs.len() > 1 {
            return true;
        }
        match page {
            Some(i) => i < self.tabs.len() && self.tabs[i].panes.len() > 1,
            None => false,
        }
    }

    /// Whether the panes of tab `i` show their toolbars. `wanted` is the user's
    /// setting. They are hidden where there is nowhere to drag a pane to: for
    /// one pane in one tab.
    pub fn shows_toolbars(&self, i: usize, wanted: bool) -> (yes: bool)
        requires
            i < self@.tabs.len(),
        ensures
            yes == self@.shows_toolbars(i as int, wanted),
    {
        wanted && (self.tabs[i].panes.len() > 1 || self.tabs.len() > 1)
    }

    /// Whether a pane can be dragged: not if it is the window's only one, nor
    /// if no tab has it.
    pub fn can_drag(&self, pane: u64) -> (yes: bool)
        requires
            self.wf(),
        ensures
            yes == (self@.holds(pane) && self@.can_drag(tab_of(self@.tabs, pane))),
    {
        match self.tab_of(pane) {
            Some(i) => {
                assert(has(self@.tabs, i as int, pane));
                self.tabs[i].panes.len() > 1 || self.tabs.len() > 1
            },
            None => false,
        }
    }

    /// Open a tab with one pane. Its number is handed out once: closing a tab
    /// does not free it.
    pub fn open_tab(&mut self, pane: u64)
        requires
            old(self).wf(),
            !old(self)@.holds(pane),
            old(self)@.next_number < u32::MAX,
        ensures
            final(self).wf(),
            final(self)@ == old(self)@.open_tab(pane),
    {
        let mut panes: Vec<u64> = Vec::new();
        panes.push(pane);
        let tab = Tab {
            panes,
            focused: pane,
            tree: Tree::Leaf(pane),
            title: make_title(self.next_number),
        };
        assert(tab@ =~= TabModel::new(pane, self.next_number as nat));
        self.tabs.push(tab);
        self.next_number = self.next_number + 1;
        proof {
            assert(self@ =~= old(self)@.open_tab(pane));
            law_open_tab(old(self)@, pane, pane);
        }
    }

    /// Open a tab with one pane, unless there are as many tabs as there may be.
    /// Says whether it was opened.
    pub fn new_tab(&mut self, pane: u64) -> (opened: bool)
        requires
            old(self).wf(),
            !old(self)@.holds(pane),
            old(self)@.next_number < u32::MAX,
        ensures
            final(self).wf(),
            opened == !old(self)@.is_full(),
            final(self)@ == if opened {
                old(self)@.open_tab(pane)
            } else {
                old(self)@
            },
            old(self)@.tabs.len() <= old(self)@.tab_max ==> final(self)@.tabs.len()
                <= final(self)@.tab_max,
    {
        if self.is_full() {
            false
        } else {
            self.open_tab(pane);
            true
        }
    }

    /// Give a pane the focus within its tab. Returns the pane that had it
    /// before, if it was another.
    pub fn focus(&mut self, pane: u64) -> (before: Option<u64>)
        requires
            old(self).wf(),
        ensures
            final(self).wf(),
            final(self)@ == old(self)@.focus(pane),
            before == if old(self)@.holds(pane) && old(self)@.tabs[tab_of(
                old(self)@.tabs,
                pane,
            )].focused != pane {
                Some(old(self)@.tabs[tab_of(old(self)@.tabs, pane)].focused)
            } else {
                None
            },
    {
        match self.tab_of(pane) {
            Some(i) => {
                assert(has(old(self)@.tabs, i as int, pane));
                let before: u64 = self.tabs[i].focused;
                self.tabs[i].focused = pane;
                proof {
                    assert(self@ =~~= old(self)@.focus(pane));
                    law_focus_moves_no_pane(old(self)@, pane, pane);
                }
                if before != pane {
                    Some(before)
                } else {
                    None
                }
            },
            None => None,
        }
    }

    /// The pane to focus next on page `page`: the one after the focused one,
    /// over the end. None if the tab has no other.
    pub fn next_focus(&self, page: Option<usize>) -> (pane: Option<u64>)
        requires
            self.wf(),
        ensures
            pane == self@.next_focus(page),
    {
        let i: usize = match page {
            Some(i) => i,
            None => {
                return None;
            },
        };
        if i >= self.tabs.len() {
            return None;
        }
        let ghost tab = self@.tabs[i as int];
        assert(tab.wf());
        let panes = &self.tabs[i].panes;
        let n: usize = panes.len();
        if n <= 1 {
            return None;
        }
        let focused: u64 = self.tabs[i].focused;
        let ghost at = tab.panes.index_of(focused);
        assert(tab.panes.contains(focused));
        let mut k: usize = 0;
        while k < n && panes[k] != focused
            invariant
                n == panes@.len(),
                panes@ == tab.panes,
                0 <= at < n,
                tab.panes[at] == focused,
                k <= at,
            decreases n - k,
        {
            k = k + 1;
        }
        assert(k == at);
        if k + 1 < n {
            Some(panes[k + 1])
        } else {
            Some(panes[0])
        }
    }

    /// Split off a new pane next to `at`. It gets the focus. Nothing happens if
    /// no tab has `at`.
    pub fn split(&mut self, at: u64, new: u64, dir: SplitDir)
        requires
            old(self).wf(),
            !old(self)@.holds(new),
        ensures
            final(self).wf(),
            final(self)@ == old(self)@.split(at, new, dir),
    {
        if let Some(i) = self.tab_of(at) {
            assert(has(old(self)@.tabs, i as int, at));
            self.tabs[i].add_pane(at, new, dir);
            proof {
                assert(self@ =~~= old(self)@.split(at, new, dir));
                law_split_adds_one_pane(old(self)@, at, new, dir, at);
            }
        }
    }

    fn drop_tab(&mut self, i: usize) -> (closed: Closed)
        requires
            i < old(self)@.tabs.len(),
        ensures
            final(self)@ == (WindowModel {
                tabs: old(self)@.tabs.remove(i as int),
                ..old(self)@
            }),
            closed == if final(self)@.tabs.len() == 0 {
                Closed::Window
            } else {
                Closed::Tab
            },
    {
        let _ = self.tabs.remove(i);
        assert(self@.tabs =~= old(self)@.tabs.remove(i as int));
        if self.tabs.len() == 0 {
            Closed::Window
        } else {
            Closed::Tab
        }
    }

    /// Close tab `i` and every pane in it. The window goes with the last tab.
    pub fn close_tab(&mut self, i: usize) -> (closed: Closed)
        requires
            old(self).wf(),
            i < old(self)@.tabs.len(),
        ensures
            final(self).wf(),
            final(self)@ == old(self)@.close_tab(i as int),
            closed == if final(self)@.tabs.len() == 0 {
                Closed::Window
            } else {
                Closed::Tab
            },
    {
        if let Some(p) = self.menu_target {
            if contains(&self.tabs[i].panes, p) {
                self.menu_target = None;
            }
        }
        let closed = self.drop_tab(i);
        proof {
            assert(self@ =~= old(self)@.close_tab(i as int));
            law_close_tab_closes_its_panes(old(self)@, i as int, 0);
        }
        closed
    }

    /// Close a pane. What it shared a split with takes its space, and the first
    /// of the tab's other panes gets the focus if it had it. The tab goes with
    /// its last pane, and the window with its last tab.
    pub fn close_pane(&mut self, pane: u64) -> (closed: Closed)
        requires
            old(self).wf(),
        ensures
            final(self).wf(),
            final(self)@ == old(self)@.close_pane(pane),
            ({
                let i = tab_of(old(self)@.tabs, pane);
                closed == if i >= old(self)@.tabs.len() {
                    Closed::Nothing
                } else if !old(self)@.tabs[i].is_only(pane) {
                    Closed::Pane { focused: final(self)@.tabs[i].focused }
                } else if final(self)@.tabs.len() == 0 {
                    Closed::Window
                } else {
                    Closed::Tab
                }
            }),
    {
        let i: usize = match self.tab_of(pane) {
            Some(i) => i,
            None => {
                return Closed::Nothing;
            },
        };
        proof {
            assert(has(old(self)@.tabs, i as int, pane));
            law_close_pane_closes_one(old(self)@, pane, pane);
            lemma_without_pane(old(self)@.tabs[i as int], pane);
        }
        if self.tabs[i].panes.len() == 1 {
            proof {
                let tab = old(self)@.tabs[i as int];
                assert(tab.panes[0] == pane);
                tree::lemma_minus(tab.panes, pane);
                if tree::minus(tab.panes, pane).len() > 0 {
                    let p = tree::minus(tab.panes, pane)[0];
                    assert(tree::minus(tab.panes, pane).contains(p));
                    assert(tab.panes.contains(p));
                }
            }
            return self.close_tab(i);
        }
        proof {
            // Another pane is left, so the tab goes on.
            let tab = old(self)@.tabs[i as int];
            tree::lemma_minus(tab.panes, pane);
            let other = if tab.panes[0] == pane {
                tab.panes[1]
            } else {
                tab.panes[0]
            };
            assert(tab.panes.contains(other));
            assert(tree::minus(tab.panes, pane).contains(other));
        }
        let mut division = Tree::Leaf(0);
        std::mem::swap(&mut self.tabs[i].tree, &mut division);
        if let Some(rest) = division.remove_pane(pane) {
            self.tabs[i].tree = rest;
        }
        let panes = all_but(&self.tabs[i].panes, pane);
        if self.tabs[i].focused == pane {
            self.tabs[i].focused = panes[0];
        }
        let focused: u64 = self.tabs[i].focused;
        self.tabs[i].panes = panes;
        if let Some(p) = self.menu_target {
            if p == pane {
                self.menu_target = None;
            }
        }
        assert(self@ =~~= old(self)@.close_pane(pane));
        Closed::Pane { focused }
    }

    /// Move `src` so that it becomes a new split on edge `dir` of `dst`, in the
    /// same tab or another. Nothing happens when the two are the same or either
    /// is in no tab. A tab that is left without panes is closed. Says whether
    /// anything was moved.
    pub fn rearrange(&mut self, src: u64, dst: u64, dir: SplitDir) -> (moved: bool)
        requires
            old(self).wf(),
        ensures
            final(self).wf(),
            final(self)@ == old(self)@.rearrange(src, dst, dir),
            moved == (src != dst && old(self)@.holds(src) && old(self)@.holds(dst)),
    {
        proof {
            law_rearranging_keeps_the_panes(old(self)@, src, dst, dir, src);
        }
        if src == dst {
            return false;
        }
        let i: usize = match self.tab_of(src) {
            Some(i) => i,
            None => {
                return false;
            },
        };
        let j: usize = match self.tab_of(dst) {
            Some(j) => j,
            None => {
                return false;
            },
        };
        proof {
            assert(has(old(self)@.tabs, i as int, src));
            assert(has(old(self)@.tabs, j as int, dst));
            lemma_without_pane(old(self)@.tabs[i as int], src);
            assert(!old(self)@.tabs[i as int].is_only(src) || i != j);
        }
        let mut division = Tree::Leaf(0);
        std::mem::swap(&mut self.tabs[i].tree, &mut division);
        let rest = division.remove_pane(src);
        if i == j {
            if let Some(rest) = rest {
                self.tabs[i].tree = rest.add_pane(dst, src, dir);
            }
            self.tabs[i].focused = src;
            assert(self@ =~~= old(self)@.rearrange(src, dst, dir));
            return true;
        }
        self.tabs[j].add_pane(dst, src, dir);
        match rest {
            Some(rest) => {
                let panes = all_but(&self.tabs[i].panes, src);
                self.tabs[i].tree = rest;
                if self.tabs[i].focused == src {
                    self.tabs[i].focused = panes[0];
                }
                self.tabs[i].panes = panes;
                assert(self@ =~~= old(self)@.rearrange(src, dst, dir));
            },
            None => {
                let _ = self.drop_tab(i);
                assert(self@.tabs =~= old(self)@.rearrange(src, dst, dir).tabs);
                assert(self@ =~~= old(self)@.rearrange(src, dst, dir));
            },
        }
        true
    }

    /// The tab at `from` was dragged to `to`.
    pub fn move_tab(&mut self, from: usize, to: usize)
        requires
            old(self).wf(),
            from < old(self)@.tabs.len(),
            to < old(self)@.tabs.len(),
        ensures
            final(self).wf(),
            final(self)@ == old(self)@.move_tab(from as int, to as int),
    {
        let tab = self.tabs.remove(from);
        self.tabs.insert(to, tab);
        proof {
            assert(self@.tabs =~= old(self)@.move_tab(from as int, to as int).tabs);
            law_moving_a_tab_moves_no_pane(old(self)@, from as int, to as int, 0);
        }
    }

    /// Rename tab `i`. White space around the name is dropped, and a name of
    /// nothing else is ignored.
    pub fn rename_tab(&mut self, i: usize, name: &str)
        requires
            old(self).wf(),
            i < old(self)@.tabs.len(),
        ensures
            final(self).wf(),
            final(self)@ == if text::strip(name@, Strip::White).len() == 0 {
                old(self)@
            } else {
                old(self)@.with_tab(
                    i as int,
                    TabModel {
                        title: text::strip(name@, Strip::White),
                        ..old(self)@.tabs[i as int]
                    },
                )
            },
    {
        let chars = chars_of(name);
        let trimmed = stripped(chars.as_slice(), Strip::White);
        if trimmed.len() > 0 {
            self.tabs[i].title = string_of(trimmed);
            proof {
                let renamed = old(self)@.with_tab(
                    i as int,
                    TabModel {
                        title: text::strip(name@, Strip::White),
                        ..old(self)@.tabs[i as int]
                    },
                );
                assert(self@ =~~= renamed);
                let (before, after) = (old(self)@.tabs[i as int], renamed.tabs[i as int]);
                assert(before.wf());
                assert forall|p: u64| #[trigger]
                    after.panes.contains(p) <==> tree::leaves(after.tree).contains(p) by {
                    assert(before.panes.contains(p) <==> tree::leaves(before.tree).contains(p));
                }
                assert forall|k: int, p: u64| #[trigger]
                    has(renamed.tabs, k, p) <==> has(old(self)@.tabs, k, p) by {}
                lemma_same_panes(old(self)@, renamed);
            }
        }
    }
}

// ---- laws of focus and order ----
proof fn lemma_tab_of_is(w: WindowModel, i: int, pane: u64)
    requires
        w.wf(),
        has(w.tabs, i, pane),
    ensures
        tab_of(w.tabs, pane) == i,
{
    lemma_tab_of(w.tabs, pane);
    assert(has(w.tabs, tab_of(w.tabs, pane), pane));
}

/// A window starts without tabs, and its first tab is number 1.
pub proof fn law_new_window(tab_max: int)
    ensures
        WindowModel::new(tab_max).tabs.len() == 0,
        WindowModel::new(tab_max).next_number == 1,
        WindowModel::new(tab_max).tab_max == tab_max,
        WindowModel::new(tab_max).menu_target is None,
{
}

/// There is room for a tab while there are fewer than the limit.
pub proof fn law_tab_limit(w: WindowModel)
    ensures
        w.tabs.len() < w.tab_max <==> !w.is_full(),
{
}

/// A new tab comes last, with one pane that has its focus, and its label is the
/// word `Tab` and a number that no tab before it had.
pub proof fn law_new_tab_comes_last(w: WindowModel, pane: u64)
    requires
        0 <= w.next_number,
    ensures
        ({
            let after = w.open_tab(pane);
            let n = w.tabs.len() as int;
            &&& after.tabs.len() == n + 1
            &&& after.tabs[n].panes == seq![pane] && after.tabs[n].focused == pane
            &&& after.tabs[n].tree == Tree::Leaf(pane)
            &&& after.tabs[n].title.take(4) == seq!['T', 'a', 'b', ' ']
            &&& after.tabs[n].title.skip(4) == text::decimal(w.next_number as nat).map_values(
                |b: u8| b as char,
            )
            &&& after.next_number == w.next_number + 1
            &&& after.menu_target == w.menu_target && after.tab_max == w.tab_max
            &&& forall|k: int| 0 <= k < n ==> after.tabs[k] == w.tabs[k]
        }),
{
    reveal_strlit("Tab ");
    let title = w.open_tab(pane).tabs[w.tabs.len() as int].title;
    let digits = text::decimal(w.next_number as nat).map_values(|b: u8| b as char);
    assert("Tab "@ =~= seq!['T', 'a', 'b', ' ']);
    assert(title.take(4) =~= seq!['T', 'a', 'b', ' ']);
    assert(title.skip(4) =~= digits);
}

/// The pane that is given the focus has it in its tab, and no other tab changes.
pub proof fn law_focus_is_given(w: WindowModel, i: int, pane: u64)
    requires
        w.wf(),
        has(w.tabs, i, pane),
        i <= usize::MAX,
    ensures
        w.focus(pane).focused_pane(Some(i as usize)) == Some(pane),
        w.focus(pane).tabs.len() == w.tabs.len(),
        w.focus(pane).tabs[i].panes == w.tabs[i].panes,
        w.focus(pane).tabs[i].tree == w.tabs[i].tree,
        forall|k: int|
            0 <= k < w.tabs.len() && k != i ==> w.focus(pane).tabs[k] == w.tabs[k],
{
    lemma_tab_of_is(w, i, pane);
}

/// A split gives the focus to the new pane, next to the one that was split in
/// the same tab, and no other tab changes.
pub proof fn law_split_focuses_the_new_pane(
    w: WindowModel,
    i: int,
    at: u64,
    new: u64,
    dir: SplitDir,
)
    requires
        w.wf(),
        has(w.tabs, i, at),
    ensures
        ({
            let after = w.split(at, new, dir);
            &&& after.tabs.len() == w.tabs.len()
            &&& after.tabs[i].focused == new
            &&& after.tabs[i].panes == w.tabs[i].panes.push(new)
            &&& after.tabs[i].title == w.tabs[i].title
            &&& tree::leaves(after.tabs[i].tree) == tree::beside(
                tree::leaves(w.tabs[i].tree),
                at,
                new,
                dir,
            )
            &&& tree::share_a_split(
                after.tabs[i].tree,
                at,
                new,
                dir == SplitDir::Left || dir == SplitDir::Right,
            )
            &&& forall|k: int| 0 <= k < w.tabs.len() && k != i ==> after.tabs[k] == w.tabs[k]
        }),
{
    lemma_tab_of_is(w, i, at);
    assert(w.tabs[i].wf());
    tree::law_new_pane_is_beside(w.tabs[i].tree, at, new, dir);
    tree::law_split_shares_the_space(w.tabs[i].tree, at, new, dir);
}

/// Closing a pane of several: the others of its tab stay, in their order, and
/// the focus stays where it is, or goes to the first of them if the pane had it.
/// No other tab changes.
pub proof fn law_closing_a_pane(w: WindowModel, i: int, pane: u64, other: u64)
    requires
        w.wf(),
        has(w.tabs, i, pane),
        has(w.tabs, i, other),
        other != pane,
    ensures
        ({
            let after = w.close_pane(pane);
            let (was, now) = (w.tabs[i], after.tabs[i]);
            &&& after.tabs.len() == w.tabs.len()
            &&& now.panes == tree::minus(was.panes, pane)
            &&& now.title == was.title
            &&& was.focused != pane ==> now.focused == was.focused
            &&& was.focused == pane ==> now.focused == now.panes[0]
            &&& after.menu_target == if w.menu_target == Some(pane) {
                None
            } else {
                w.menu_target
            }
            &&& forall|k: int| 0 <= k < w.tabs.len() && k != i ==> after.tabs[k] == w.tabs[k]
        }),
{
    lemma_tab_of_is(w, i, pane);
    lemma_without_pane(w.tabs[i], pane);
    assert(w.tabs[i].panes.contains(other));
}

/// Leaving out a number leaves out all of it and nothing else, in order.
pub proof fn law_number_is_left_out(a: Seq<u64>, x: u64, y: u64)
    ensures
        tree::minus(a.push(y), x) == if y == x {
            tree::minus(a, x)
        } else {
            tree::minus(a, x).push(y)
        },
        tree::minus(Seq::empty(), x) == Seq::<u64>::empty(),
{
    assert(a.push(y).drop_last() =~= a);
}

/// Closing a tab's only pane closes the tab.
pub proof fn law_closing_the_only_pane(w: WindowModel, i: int, pane: u64)
    requires
        w.wf(),
        has(w.tabs, i, pane),
        w.tabs[i].panes == seq![pane],
    ensures
        w.close_pane(pane) == w.close_tab(i),
{
    lemma_tab_of_is(w, i, pane);
    lemma_without_pane(w.tabs[i], pane);
    law_number_is_left_out(Seq::empty(), pane, pane);
    assert(Seq::<u64>::empty().push(pane) =~= seq![pane]);
}

/// Closing a tab leaves the others in their order. A menu that was open on one
/// of its panes is forgotten, and no other.
pub proof fn law_closing_a_tab(w: WindowModel, i: int, k: int)
    requires
        0 <= i < w.tabs.len(),
        0 <= k < w.tabs.len(),
        k != i,
    ensures
        ({
            let after = w.close_tab(i);
            &&& after.tabs.len() == w.tabs.len() - 1
            &&& after.tabs[if k < i { k } else { k - 1 }] == w.tabs[k]
            &&& after.next_number == w.next_number && after.tab_max == w.tab_max
            &&& after.menu_target is Some ==> after.menu_target == w.menu_target
            &&& w.menu_target is Some ==> (after.menu_target is None
                <==> w.tabs[i].panes.contains(w.menu_target->0))
        }),
{
}

/// A tab that is moved is where it was moved to, and the others keep their
/// order: moving it back undoes the move.
pub proof fn law_moving_a_tab(w: WindowModel, from: int, to: int)
    requires
        0 <= from < w.tabs.len(),
        0 <= to < w.tabs.len(),
    ensures
        w.move_tab(from, to).tabs.len() == w.tabs.len(),
        w.move_tab(from, to).tabs[to] == w.tabs[from],
        w.move_tab(from, to).tabs.remove(to) == w.tabs.remove(from),
        w.move_tab(from, to).move_tab(to, from).tabs == w.tabs,
        from == to ==> w.move_tab(from, to).tabs == w.tabs,
{
    let after = w.move_tab(from, to);
    assert(after.tabs.remove(to) =~= w.tabs.remove(from));
    assert(after.move_tab(to, from).tabs =~= w.tabs);
    if from == to {
        assert(after.tabs =~= w.tabs);
    }
}

/// The focus moves on in the order in which the panes came, and from the last to
/// the first. A tab with one pane has nowhere to move it.
pub proof fn law_focus_moves_on(w: WindowModel, i: int, k: int)
    requires
        w.wf(),
        0 <= i < w.tabs.len(),
        i <= usize::MAX,
        0 <= k < w.tabs[i].panes.len(),
        w.tabs[i].focused == w.tabs[i].panes[k],
    ensures
        ({
            let panes = w.tabs[i].panes;
            let next = w.next_focus(Some(i as usize));
            &&& panes.len() == 1 ==> next is None
            &&& panes.len() > 1 && k + 1 < panes.len() ==> next == Some(panes[k + 1])
            &&& panes.len() > 1 && k + 1 == panes.len() ==> next == Some(panes[0])
        }),
        w.next_focus(None) is None,
{
    let tab = w.tabs[i];
    assert(tab.wf());
    let at = tab.panes.index_of(tab.focused);
    assert(tab.panes.contains(tab.focused));
    assert(tab.panes[at] == tab.panes[k]);
    assert(at == k);
}

/// An action goes to the pane that the menu was opened on, and without one to
/// the focused pane of the page.
pub proof fn law_action_targets(w: WindowModel, page: Option<usize>)
    ensures
        w.menu_target is Some ==> w.action_target(page) == w.menu_target,
        w.menu_target is None ==> w.action_target(page) == w.focused_pane(page),
        page matches Some(i) ==> (i < w.tabs.len() ==> w.focused_pane(page)
            == Some(w.tabs[i as int].focused)),
        page matches Some(i) ==> (i >= w.tabs.len() ==> w.focused_pane(page) is None),
        page is None ==> w.focused_pane(page) is None,
{
}

/// A pane can be dragged unless it is the only one of the only tab, and just then
/// the toolbars are shown, if they are wanted.
pub proof fn law_dragging(w: WindowModel, i: int, wanted: bool)
    requires
        0 <= i < w.tabs.len(),
        w.tabs[i].panes.len() > 0,
    ensures
        w.can_drag(i) <==> !(w.tabs.len() == 1 && w.tabs[i].panes.len() == 1),
        w.shows_toolbars(i, wanted) <==> wanted && w.can_drag(i),
{
}

/// A pane that is moved within its tab has the focus, next to the pane that it
/// was dropped on, on the side that was asked for; the tab keeps its panes.
pub proof fn law_moving_within_a_tab(
    w: WindowModel,
    i: int,
    src: u64,
    dst: u64,
    dir: SplitDir,
)
    requires
        w.wf(),
        has(w.tabs, i, src),
        has(w.tabs, i, dst),
        src != dst,
    ensures
        ({
            let after = w.rearrange(src, dst, dir);
            &&& after.tabs.len() == w.tabs.len()
            &&& after.tabs[i].focused == src
            &&& after.tabs[i].panes == w.tabs[i].panes
            &&& tree::leaves(after.tabs[i].tree) == tree::beside(
                tree::minus(tree::leaves(w.tabs[i].tree), src),
                dst,
                src,
                dir,
            )
            &&& tree::share_a_split(
                after.tabs[i].tree,
                dst,
                src,
                dir == SplitDir::Left || dir == SplitDir::Right,
            )
        }),
{
    lemma_tab_of_is(w, i, src);
    lemma_tab_of_is(w, i, dst);
    let tab = w.tabs[i];
    assert(tab.wf());
    lemma_without_pane(tab, src);
    assert(tab.panes.contains(dst));
    let rest = tree::without_pane(tab.tree, src)->0;
    tree::law_without_pane_keeps_the_others(tab.tree, src);
    tree::lemma_minus(tree::leaves(tab.tree), src);
    assert(tree::leaves(tab.tree).contains(dst));
    assert(tree::leaves(rest).contains(dst));
    tree::law_new_pane_is_beside(rest, dst, src, dir);
    tree::law_split_shares_the_space(rest, dst, src, dir);
}

/// A pane that is moved to another tab leaves its own and joins that one: next to
/// the pane that it was dropped on, on the side that was asked for, with the
/// focus. Its old tab goes on with the others.
pub proof fn law_moving_to_another_tab(
    w: WindowModel,
    i: int,
    j: int,
    src: u64,
    other: u64,
    dst: u64,
    dir: SplitDir,
)
    requires
        w.wf(),
        has(w.tabs, i, src),
        has(w.tabs, i, other),
        has(w.tabs, j, dst),
        i != j,
        src != other,
    ensures
        ({
            let after = w.rearrange(src, dst, dir);
            &&& after.tabs.len() == w.tabs.len()
            &&& after.tabs[i].panes == tree::minus(w.tabs[i].panes, src)
            &&& after.tabs[j].panes == w.tabs[j].panes.push(src)
            &&& after.tabs[j].focused == src
            &&& tree::share_a_split(
                after.tabs[j].tree,
                dst,
                src,
                dir == SplitDir::Left || dir == SplitDir::Right,
            )
            &&& tree::leaves(after.tabs[j].tree) == tree::beside(
                tree::leaves(w.tabs[j].tree),
                dst,
                src,
                dir,
            )
        }),
{
    if src == dst {
        assert(i == j);
    }
    lemma_tab_of_is(w, i, src);
    lemma_tab_of_is(w, j, dst);
    lemma_without_pane(w.tabs[i], src);
    assert(w.tabs[i].panes.contains(other));
    assert(w.tabs[j].wf());
    tree::law_new_pane_is_beside(w.tabs[j].tree, dst, src, dir);
    tree::law_split_shares_the_space(w.tabs[j].tree, dst, src, dir);
}

} // verus!
