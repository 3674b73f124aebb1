//! Arrangements of panes that a new tab can start with.
use vstd::prelude::*;
use crate::commands::SplitDir;
use crate::text::{chars_of, is_text};
use crate::tree;
use crate::tree::Tree;

verus! {

/// An arrangement of panes.
#[derive(Clone, Copy, Debug, PartialEq, Eq, Structural)]
pub enum Layout {
    Single,
    /// Two panes side by side.
    TwoVertical,
    /// Two panes, one above the other.
    TwoHorizontal,
    /// Two panes side by side above a third.
    Three,
    /// Two rows of two panes.
    Four,
}

impl Layout {
    /// The name of a layout in the configuration file.
    pub open spec fn named(self) -> Seq<char> {
        match self {
            Layout::Single => "single"@,
            Layout::TwoVertical => "2v"@,
            Layout::TwoHorizontal => "2h"@,
            Layout::Three => "3"@,
            Layout::Four => "4"@,
        }
    }

    /// Executable [`Layout::named`].
    pub fn name(self) -> (name: &'static str)
        ensures
            name@ == self.named(),
    {
        match self {
            Layout::Single => "single",
            Layout::TwoVertical => "2v",
            Layout::TwoHorizontal => "2h",
            Layout::Three => "3",
            Layout::Four => "4",
        }
    }

    /// The layout of a name. A single pane for names that stand for none.
    pub fn from_name(name: &str) -> (layout: Layout)
        ensures
            layout == layout_named(name@),
    {
        let chars = chars_of(name);
        if is_text(chars.as_slice(), "2v") {
            Layout::TwoVertical
        } else if is_text(chars.as_slice(), "2h") {
            Layout::TwoHorizontal
        } else if is_text(chars.as_slice(), "3") {
            Layout::Three
        } else if is_text(chars.as_slice(), "4") {
            Layout::Four
        } else {
            Layout::Single
        }
    }

    /// How the layout is made from a single pane: for each further pane, in the
    /// order of their numbers, which of the panes so far it is split from and
    /// where it goes.
    pub open spec fn steps(self) -> Seq<(usize, SplitDir)> {
        match self {
            Layout::Single => seq![],
            Layout::TwoVertical => seq![(0usize, SplitDir::Right)],
            Layout::TwoHorizontal => seq![(0usize, SplitDir::Down)],
            Layout::Three => seq![(0usize, SplitDir::Down), (0usize, SplitDir::Right)],
            Layout::Four => seq![
                (0usize, SplitDir::Down),
                (0usize, SplitDir::Right),
                (1usize, SplitDir::Right),
            ],
        }
    }

    /// Executable [`Layout::steps`].
    pub fn splits(self) -> (steps: Vec<(usize, SplitDir)>)
        ensures
            steps@ == self.steps(),
    {
        let steps: Vec<(usize, SplitDir)> = match self {
            Layout::Single => Vec::new(),
            Layout::TwoVertical => vec![(0usize, SplitDir::Right)],
            Layout::TwoHorizontal => vec![(0usize, SplitDir::Down)],
            Layout::Three => vec![(0usize, SplitDir::Down), (0usize, SplitDir::Right)],
            Layout::Four => vec![
                (0usize, SplitDir::Down),
                (0usize, SplitDir::Right),
                (1usize, SplitDir::Right),
            ],
        };
        assert(steps@ =~= self.steps());
        steps
    }
}

/// The layout of a name.
pub open spec fn layout_named(name: Seq<char>) -> Layout {
    if name == "2v"@ {
        Layout::TwoVertical
    } else if name == "2h"@ {
        Layout::TwoHorizontal
    } else if name == "3"@ {
        Layout::Three
    } else if name == "4"@ {
        Layout::Four
    } else {
        Layout::Single
    }
}

/// The tree after the first `n` steps of a layout, for panes with these numbers.
pub open spec fn built(panes: Seq<u64>, steps: Seq<(usize, SplitDir)>, n: int) -> Tree
    decreases n,
{
    if n <= 0 {
        Tree::Leaf(panes[0])
    } else {
        tree::with_pane(
            built(panes, steps, n - 1),
            panes[steps[n - 1].0 as int],
            panes[n],
            steps[n - 1].1,
        )
    }
}

/// The picture that a layout makes.
pub open spec fn picture(layout: Layout, panes: Seq<u64>) -> Tree {
    match layout {
        Layout::Single => Tree::Leaf(panes[0]),
        Layout::TwoVertical => beside(Tree::Leaf(panes[0]), Tree::Leaf(panes[1])),
        Layout::TwoHorizontal => above(Tree::Leaf(panes[0]), Tree::Leaf(panes[1])),
        Layout::Three => above(
            beside(Tree::Leaf(panes[0]), Tree::Leaf(panes[2])),
            Tree::Leaf(panes[1]),
        ),
        Layout::Four => above(
            beside(Tree::Leaf(panes[0]), Tree::Leaf(panes[2])),
            beside(Tree::Leaf(panes[1]), Tree::Leaf(panes[3])),
        ),
    }
}

/// Two parts side by side.
pub open spec fn beside(left: Tree, right: Tree) -> Tree {
    Tree::Split { side_by_side: true, start: Box::new(left), end: Box::new(right) }
}

/// Two parts, one above the other.
pub open spec fn above(upper: Tree, lower: Tree) -> Tree {
    Tree::Split { side_by_side: false, start: Box::new(upper), end: Box::new(lower) }
}

/// The steps of a layout make its picture.
pub proof fn law_layout_makes_its_picture(layout: Layout, panes: Seq<u64>)
    requires
        panes.no_duplicates(),
        panes.len() == layout.steps().len() + 1,
    ensures
        built(panes, layout.steps(), layout.steps().len() as int) == picture(layout, panes),
{
    reveal_with_fuel(built, 4);
    reveal_with_fuel(tree::with_pane, 4);
}

/// A layout is known by its name.
pub proof fn law_layout_names_read_back(layout: Layout)
    ensures
        layout_named(layout.named()) == layout,
{
    reveal_strlit("single");
    reveal_strlit("2v");
    reveal_strlit("2h");
    reveal_strlit("3");
    reveal_strlit("4");
    assert(layout.named().len() == 2 ==> layout.named()[1] == 'v' || layout.named()[1] == 'h');
    assert("2v"@[1] == 'v' && "2h"@[1] == 'h');
    assert("3"@[0] == '3' && "4"@[0] == '4');
}

/// What a layout's name says: `single` one pane, `2v` and `2h` two side by side
/// and one above the other, `3` and `4` as many. Another name is one pane.
pub proof fn law_layout_names(name: Seq<char>)
    ensures
        layout_named("single"@) == Layout::Single,
        layout_named("2v"@) == Layout::TwoVertical,
        layout_named("2h"@) == Layout::TwoHorizontal,
        layout_named("3"@) == Layout::Three,
        layout_named("4"@) == Layout::Four,
        name != "2v"@ && name != "2h"@ && name != "3"@ && name != "4"@ ==> layout_named(name)
            == Layout::Single,
{
    law_layout_names_read_back(Layout::Single);
    law_layout_names_read_back(Layout::TwoVertical);
    law_layout_names_read_back(Layout::TwoHorizontal);
    law_layout_names_read_back(Layout::Three);
    law_layout_names_read_back(Layout::Four);
}

/// A layout has as many panes as it says: two are side by side or one above the
/// other, three are two above one, four are two above two.
pub proof fn law_layout_has_its_panes(layout: Layout, panes: Seq<u64>)
    requires
        panes.no_duplicates(),
        panes.len() == layout.steps().len() + 1,
    ensures
        ({
            let made = built(panes, layout.steps(), layout.steps().len() as int);
            &&& layout == Layout::Single ==> panes.len() == 1
            &&& layout == Layout::TwoVertical ==> panes.len() == 2 && tree::share_a_split(
                made,
                panes[0],
                panes[1],
                true,
            )
            &&& layout == Layout::TwoHorizontal ==> panes.len() == 2 && tree::share_a_split(
                made,
                panes[0],
                panes[1],
                false,
            )
            &&& layout == Layout::Three ==> panes.len() == 3 && tree::share_a_split(
                made,
                panes[0],
                panes[2],
                true,
            ) && tree::leaves(made) == seq![panes[0], panes[2], panes[1]]
            &&& layout == Layout::Three || layout == Layout::Four ==> made is Split
                && !made->side_by_side
            &&& layout == Layout::Four ==> panes.len() == 4 && tree::share_a_split(
                made,
                panes[0],
                panes[2],
                true,
            ) && tree::share_a_split(made, panes[1], panes[3], true) && tree::leaves(made)
                == seq![panes[0], panes[2], panes[1], panes[3]]
        }),
{
    law_layout_makes_its_picture(layout, panes);
    reveal_with_fuel(tree::leaves, 4);
    reveal_with_fuel(tree::share_a_split, 4);
    let made = built(panes, layout.steps(), layout.steps().len() as int);
    if layout == Layout::Three {
        assert(tree::leaves(made) =~= seq![panes[0], panes[2], panes[1]]);
    }
    if layout == Layout::Four {
        assert(tree::leaves(made) =~= seq![panes[0], panes[2], panes[1], panes[3]]);
    }
}

} // verus!
