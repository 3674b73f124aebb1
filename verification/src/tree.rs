//! How the panes of a tab divide its space: a binary tree of splits.
use vstd::prelude::*;
use crate::commands::SplitDir;

verus! {

/// A pane, or two parts with a divider between them. Panes are known by number.
#[derive(Debug)]
pub enum Tree {
    Leaf(u64),
    Split {
        /// The parts are side by side, rather than one above the other.
        side_by_side: bool,
        /// The left or upper part.
        start: Box<Tree>,
        /// The right or lower part.
        end: Box<Tree>,
    },
}

/// The panes, from left to right and top to bottom.
pub open spec fn leaves(tree: Tree) -> Seq<u64>
    decreases tree,
{
    match tree {
        Tree::Leaf(pane) => seq![pane],
        Tree::Split { start, end, .. } => leaves(*start) + leaves(*end),
    }
}

/// A split of a pane: the old and the new one, in the order that the direction
/// asks for.
pub open spec fn divided(old_part: Tree, new_part: Tree, dir: SplitDir) -> Tree {
    match dir {
        SplitDir::Left => Tree::Split {
            side_by_side: true,
            start: Box::new(new_part),
            end: Box::new(old_part),
        },
        SplitDir::Right => Tree::Split {
            side_by_side: true,
            start: Box::new(old_part),
            end: Box::new(new_part),
        },
        SplitDir::Up => Tree::Split {
            side_by_side: false,
            start: Box::new(new_part),
            end: Box::new(old_part),
        },
        SplitDir::Down => Tree::Split {
            side_by_side: false,
            start: Box::new(old_part),
            end: Box::new(new_part),
        },
    }
}

/// The tree with pane `new` next to pane `at`, which it shares the space of.
pub open spec fn with_pane(tree: Tree, at: u64, new: u64, dir: SplitDir) -> Tree
    decreases tree,
{
    match tree {
        Tree::Leaf(pane) => if pane == at {
            divided(tree, Tree::Leaf(new), dir)
        } else {
            tree
        },
        Tree::Split { side_by_side, start, end } => Tree::Split {
            side_by_side,
            start: Box::new(with_pane(*start, at, new, dir)),
            end: Box::new(with_pane(*end, at, new, dir)),
        },
    }
}

/// The tree without a pane: what it shared a split with takes its space.
/// Nothing is left of a tree of just that pane.
pub open spec fn without_pane(tree: Tree, gone: u64) -> Option<Tree>
    decreases tree,
{
    match tree {
        Tree::Leaf(pane) => if pane == gone {
            None
        } else {
            Some(tree)
        },
        Tree::Split { side_by_side, start, end } => match (
            without_pane(*start, gone),
            without_pane(*end, gone),
        ) {
            (Some(s), Some(e)) => Some(
                Tree::Split { side_by_side, start: Box::new(s), end: Box::new(e) },
            ),
            (Some(s), None) => Some(s),
            (None, Some(e)) => Some(e),
            (None, None) => None,
        },
    }
}

/// The panes of what is left of a tree.
pub open spec fn leaves_left(tree: Option<Tree>) -> Seq<u64> {
    match tree {
        Some(t) => leaves(t),
        None => Seq::empty(),
    }
}

/// The numbers without `x`.
pub open spec fn minus(s: Seq<u64>, x: u64) -> Seq<u64>
    decreases s.len(),
{
    if s.len() == 0 {
        s
    } else if s.last() == x {
        minus(s.drop_last(), x)
    } else {
        minus(s.drop_last(), x).push(s.last())
    }
}

pub proof fn lemma_minus(s: Seq<u64>, x: u64)
    ensures
        forall|p: u64| #[trigger] minus(s, x).contains(p) <==> s.contains(p) && p != x,
        s.no_duplicates() ==> minus(s, x).no_duplicates(),
        !s.contains(x) ==> minus(s, x) == s,
        minus(s, x).len() <= s.len(),
    decreases s.len(),
{
    if s.len() > 0 {
        let t = s.drop_last();
        lemma_minus(t, x);
        assert(t.push(s.last()) =~= s);
        assert forall|p: u64| #[trigger] minus(s, x).contains(p) <==> s.contains(p) && p != x by {
            lemma_push_contains(t, s.last(), p);
            lemma_push_contains(minus(t, x), s.last(), p);
            assert(minus(t, x).contains(p) <==> t.contains(p) && p != x);
        }
        if s.no_duplicates() {
            assert(!t.contains(s.last()));
            assert(!minus(t, x).contains(s.last()));
        }
        if !s.contains(x) {
            lemma_push_contains(t, s.last(), x);
            assert(s.last() != x);
        }
    }
}

pub proof fn lemma_push_contains(s: Seq<u64>, last: u64, p: u64)
    ensures
        s.push(last).contains(p) <==> s.contains(p) || p == last,
{
    if s.contains(p) {
        let i = choose|i: int| 0 <= i < s.len() && s[i] == p;
        assert(s.push(last)[i] == p);
    }
    if p == last {
        assert(s.push(last)[s.len() as int] == p);
    }
}

pub proof fn lemma_concat_contains(a: Seq<u64>, b: Seq<u64>, p: u64)
    ensures
        (a + b).contains(p) <==> a.contains(p) || b.contains(p),
{
    if a.contains(p) {
        let i = choose|i: int| 0 <= i < a.len() && a[i] == p;
        assert((a + b)[i] == p);
    }
    if b.contains(p) {
        let i = choose|i: int| 0 <= i < b.len() && b[i] == p;
        assert((a + b)[a.len() + i] == p);
    }
    if (a + b).contains(p) {
        let i = choose|i: int| 0 <= i < (a + b).len() && (a + b)[i] == p;
        if i < a.len() {
            assert(a[i] == p);
        } else {
            assert(b[i - a.len()] == p);
        }
    }
}

proof fn lemma_minus_concat(a: Seq<u64>, b: Seq<u64>, x: u64)
    ensures
        minus(a + b, x) == minus(a, x) + minus(b, x),
    decreases b.len(),
{
    if b.len() == 0 {
        assert(a + b =~= a);
        assert(minus(a, x) + minus(b, x) =~= minus(a, x));
    } else {
        lemma_minus_concat(a, b.drop_last(), x);
        assert((a + b).drop_last() =~= a + b.drop_last());
        assert(minus(a + b, x) =~= minus(a, x) + minus(b, x));
    }
}

/// Every tree has a pane.
pub proof fn lemma_some_leaf(tree: Tree)
    ensures
        leaves(tree).len() > 0,
    decreases tree,
{
    match tree {
        Tree::Leaf(_) => {},
        Tree::Split { start, end, .. } => {
            lemma_some_leaf(*start);
            lemma_some_leaf(*end);
        },
    }
}

/// Taking a pane out takes out just that pane; the others keep their order.
pub proof fn law_without_pane_keeps_the_others(tree: Tree, gone: u64)
    ensures
        leaves_left(without_pane(tree, gone)) == minus(leaves(tree), gone),
    decreases tree,
{
    match tree {
        Tree::Leaf(pane) => {
            reveal_with_fuel(minus, 2);
            let one = seq![pane];
            assert(one.drop_last() =~= Seq::<u64>::empty());
            assert(minus(one, gone) =~= leaves_left(without_pane(tree, gone)));
        },
        Tree::Split { start, end, .. } => {
            law_without_pane_keeps_the_others(*start, gone);
            law_without_pane_keeps_the_others(*end, gone);
            lemma_minus_concat(leaves(*start), leaves(*end), gone);
            assert(leaves_left(without_pane(tree, gone)) =~= minus(leaves(*start), gone) + minus(
                leaves(*end),
                gone,
            ));
        },
    }
}

/// A pane that is not there leaves the tree as it is.
pub proof fn lemma_without_absent(tree: Tree, gone: u64)
    requires
        !leaves(tree).contains(gone),
    ensures
        without_pane(tree, gone) == Some(tree),
    decreases tree,
{
    match tree {
        Tree::Leaf(pane) => {
            assert(leaves(tree)[0] == pane);
        },
        Tree::Split { start, end, .. } => {
            lemma_concat_contains(leaves(*start), leaves(*end), gone);
            lemma_without_absent(*start, gone);
            lemma_without_absent(*end, gone);
        },
    }
}

/// Adding a pane adds just that pane, if the one it goes next to is there.
pub proof fn law_with_pane_adds_one(tree: Tree, at: u64, new: u64, dir: SplitDir, p: u64)
    ensures
        leaves(with_pane(tree, at, new, dir)).contains(p) <==> leaves(tree).contains(p) || (p == new
            && leaves(tree).contains(at)),
    decreases tree,
{
    match tree {
        Tree::Leaf(pane) => {
            assert(leaves(tree)[0] == pane);
            if pane == at {
                assert(leaves(Tree::Leaf(new)) =~= seq![new]);
                lemma_concat_contains(seq![pane], seq![new], p);
                lemma_concat_contains(seq![new], seq![pane], p);
                assert(seq![pane].contains(p) <==> p == pane) by {
                    assert(seq![pane][0] == pane);
                }
                assert(seq![new].contains(p) <==> p == new) by {
                    assert(seq![new][0] == new);
                }
            }
        },
        Tree::Split { start, end, .. } => {
            law_with_pane_adds_one(*start, at, new, dir, p);
            law_with_pane_adds_one(*end, at, new, dir, p);
            lemma_concat_contains(leaves(*start), leaves(*end), p);
            lemma_concat_contains(leaves(*start), leaves(*end), at);
            lemma_concat_contains(
                leaves(with_pane(*start, at, new, dir)),
                leaves(with_pane(*end, at, new, dir)),
                p,
            );
        },
    }
}

/// Adding a pane that is not there yet to a tree without repetitions leaves it
/// without repetitions.
pub proof fn lemma_with_pane_distinct(tree: Tree, at: u64, new: u64, dir: SplitDir)
    requires
        leaves(tree).no_duplicates(),
        !leaves(tree).contains(new),
    ensures
        leaves(with_pane(tree, at, new, dir)).no_duplicates(),
    decreases tree,
{
    match tree {
        Tree::Leaf(pane) => {
            reveal_with_fuel(leaves, 2);
            assert(leaves(tree)[0] == pane);
        },
        Tree::Split { start, end, .. } => {
            let (s, e) = (leaves(*start), leaves(*end));
            let (s2, e2) = (
                leaves(with_pane(*start, at, new, dir)),
                leaves(with_pane(*end, at, new, dir)),
            );
            lemma_concat_contains(s, e, new);
            lemma_parts_distinct(s, e);
            lemma_with_pane_distinct(*start, at, new, dir);
            lemma_with_pane_distinct(*end, at, new, dir);
            assert forall|i: int, j: int| 0 <= i < s2.len() && 0 <= j < e2.len() implies s2[i]
                != e2[j] by {
                let p = s2[i];
                assert(s2.contains(p));
                law_with_pane_adds_one(*start, at, new, dir, p);
                law_with_pane_adds_one(*end, at, new, dir, p);
                lemma_concat_contains(s, e, at);
                if e2[j] == p {
                    assert(e2.contains(p));
                    lemma_apart(s, e, p);
                    lemma_apart(s, e, at);
                }
            }
            assert((s2 + e2).no_duplicates());
        },
    }
}

proof fn lemma_parts_distinct(a: Seq<u64>, b: Seq<u64>)
    requires
        (a + b).no_duplicates(),
    ensures
        a.no_duplicates(),
        b.no_duplicates(),
{
    assert forall|i: int, j: int| 0 <= i < a.len() && 0 <= j < a.len() && i != j implies a[i]
        != a[j] by {
        assert((a + b)[i] != (a + b)[j]);
    }
    assert forall|i: int, j: int| 0 <= i < b.len() && 0 <= j < b.len() && i != j implies b[i]
        != b[j] by {
        assert((a + b)[a.len() + i] != (a + b)[a.len() + j]);
    }
}

proof fn lemma_apart(a: Seq<u64>, b: Seq<u64>, p: u64)
    requires
        (a + b).no_duplicates(),
    ensures
        !(a.contains(p) && b.contains(p)),
{
    if a.contains(p) && b.contains(p) {
        let i = choose|i: int| 0 <= i < a.len() && a[i] == p;
        let j = choose|j: int| 0 <= j < b.len() && b[j] == p;
        assert((a + b)[i] == (a + b)[a.len() + j]);
    }
}

/// Closing a pane right after it was split off gives back the division there
/// was before.
pub proof fn law_closing_undoes_a_split(tree: Tree, at: u64, new: u64, dir: SplitDir)
    requires
        !leaves(tree).contains(new),
        at != new,
    ensures
        without_pane(with_pane(tree, at, new, dir), new) == Some(tree),
    decreases tree,
{
    match tree {
        Tree::Leaf(pane) => {
            reveal_with_fuel(without_pane, 2);
            assert(leaves(tree)[0] == pane);
        },
        Tree::Split { start, end, .. } => {
            lemma_concat_contains(leaves(*start), leaves(*end), new);
            law_closing_undoes_a_split(*start, at, new, dir);
            law_closing_undoes_a_split(*end, at, new, dir);
        },
    }
}

impl Tree {
    /// Put pane `new` next to pane `at`.
    pub fn add_pane(self, at: u64, new: u64, dir: SplitDir) -> (tree: Tree)
        ensures
            tree == with_pane(self, at, new, dir),
        decreases self,
    {
        match self {
            Tree::Leaf(pane) => {
                if pane != at {
                    return Tree::Leaf(pane);
                }
                let side_by_side = match dir {
                    SplitDir::Left | SplitDir::Right => true,
                    SplitDir::Up | SplitDir::Down => false,
                };
                match dir {
                    SplitDir::Left | SplitDir::Up => Tree::Split {
                        side_by_side,
                        start: Box::new(Tree::Leaf(new)),
                        end: Box::new(Tree::Leaf(pane)),
                    },
                    SplitDir::Right | SplitDir::Down => Tree::Split {
                        side_by_side,
                        start: Box::new(Tree::Leaf(pane)),
                        end: Box::new(Tree::Leaf(new)),
                    },
                }
            },
            Tree::Split { side_by_side, start, end } => Tree::Split {
                side_by_side,
                start: Box::new((*start).add_pane(at, new, dir)),
                end: Box::new((*end).add_pane(at, new, dir)),
            },
        }
    }

    /// Take a pane out.
    pub fn remove_pane(self, gone: u64) -> (tree: Option<Tree>)
        ensures
            tree == without_pane(self, gone),
        decreases self,
    {
        match self {
            Tree::Leaf(pane) => if pane == gone {
                None
            } else {
                Some(Tree::Leaf(pane))
            },
            Tree::Split { side_by_side, start, end } => {
                let s = (*start).remove_pane(gone);
                let e = (*end).remove_pane(gone);
                match (s, e) {
                    (Some(s), Some(e)) => Some(
                        Tree::Split { side_by_side, start: Box::new(s), end: Box::new(e) },
                    ),
                    (Some(s), None) => Some(s),
                    (None, Some(e)) => Some(e),
                    (None, None) => None,
                }
            },
        }
    }

    /// The panes, from left to right and top to bottom.
    pub fn panes(&self) -> (panes: Vec<u64>)
        ensures
            panes@ == leaves(*self),
        decreases self,
    {
        match self {
            Tree::Leaf(pane) => {
                let mut panes: Vec<u64> = Vec::new();
                panes.push(*pane);
                assert(panes@ =~= seq![*pane]);
                panes
            },
            Tree::Split { start, end, .. } => {
                let mut panes = start.panes();
                let more = end.panes();
                panes.extend_from_slice(more.as_slice());
                assert(panes@ =~= leaves(*self));
                panes
            },
        }
    }
}

/// The panes with `new` beside `at`: before it for left and up, after it for
/// right and down.
pub open spec fn beside(panes: Seq<u64>, at: u64, new: u64, dir: SplitDir) -> Seq<u64>
    decreases panes.len(),
{
    if panes.len() == 0 {
        panes
    } else {
        let before = beside(panes.drop_last(), at, new, dir);
        if panes.last() != at {
            before.push(panes.last())
        } else if dir == SplitDir::Left || dir == SplitDir::Up {
            before.push(new).push(at)
        } else {
            before.push(at).push(new)
        }
    }
}

proof fn lemma_beside_concat(a: Seq<u64>, b: Seq<u64>, at: u64, new: u64, dir: SplitDir)
    ensures
        beside(a + b, at, new, dir) == beside(a, at, new, dir) + beside(b, at, new, dir),
    decreases b.len(),
{
    if b.len() == 0 {
        assert(a + b =~= a);
        assert(beside(a, at, new, dir) + beside(b, at, new, dir) =~= beside(a, at, new, dir));
    } else {
        lemma_beside_concat(a, b.drop_last(), at, new, dir);
        assert((a + b).drop_last() =~= a + b.drop_last());
        assert(beside(a + b, at, new, dir) =~= beside(a, at, new, dir) + beside(b, at, new, dir));
    }
}

/// A new pane is next to the one that was split, on the side that was asked for,
/// and all others keep their order.
pub proof fn law_new_pane_is_beside(tree: Tree, at: u64, new: u64, dir: SplitDir)
    ensures
        leaves(with_pane(tree, at, new, dir)) == beside(leaves(tree), at, new, dir),
    decreases tree,
{
    match tree {
        Tree::Leaf(pane) => {
            reveal_with_fuel(beside, 2);
            reveal_with_fuel(leaves, 3);
            assert(seq![pane].drop_last() =~= Seq::<u64>::empty());
            assert(leaves(with_pane(tree, at, new, dir)) =~= beside(
                leaves(tree),
                at,
                new,
                dir,
            ));
        },
        Tree::Split { start, end, .. } => {
            law_new_pane_is_beside(*start, at, new, dir);
            law_new_pane_is_beside(*end, at, new, dir);
            lemma_beside_concat(leaves(*start), leaves(*end), at, new, dir);
        },
    }
}

/// The two panes share a split, the parts of which are side by side, or one
/// above the other.
pub open spec fn share_a_split(tree: Tree, a: u64, b: u64, side_by_side: bool) -> bool
    decreases tree,
{
    match tree {
        Tree::Leaf(_) => false,
        Tree::Split { side_by_side: how, start, end } => {
            ||| how == side_by_side && ((*start == Tree::Leaf(a) && *end == Tree::Leaf(b)) || (
            *start == Tree::Leaf(b) && *end == Tree::Leaf(a)))
            ||| share_a_split(*start, a, b, side_by_side)
            ||| share_a_split(*end, a, b, side_by_side)
        },
    }
}

/// A pane that is split shares its space with the new one: side by side for left
/// and right, one above the other for up and down.
pub proof fn law_split_shares_the_space(tree: Tree, at: u64, new: u64, dir: SplitDir)
    requires
        leaves(tree).contains(at),
    ensures
        share_a_split(
            with_pane(tree, at, new, dir),
            at,
            new,
            dir == SplitDir::Left || dir == SplitDir::Right,
        ),
    decreases tree,
{
    match tree {
        Tree::Leaf(pane) => {
            assert(leaves(tree)[0] == pane);
            reveal_with_fuel(share_a_split, 2);
        },
        Tree::Split { start, end, .. } => {
            lemma_concat_contains(leaves(*start), leaves(*end), at);
            if leaves(*start).contains(at) {
                law_split_shares_the_space(*start, at, new, dir);
            } else {
                law_split_shares_the_space(*end, at, new, dir);
            }
        },
    }
}

} // verus!
