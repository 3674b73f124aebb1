//! Tabs, panes and where they are.
use skyterm::commands::SplitDir;
use skyterm::geometry::{nearest_pane, Bounds};
use skyterm::layout::Layout;
use skyterm::tree::Tree;
use skyterm::window::{Closed, Window};

fn one_tab() -> Window {
    let mut w = Window::new(20);
    w.open_tab(1);
    w
}

#[test]
fn tabs_are_numbered_and_renamed() {
    let mut w = one_tab();
    assert_eq!(w.tab(0).title(), "Tab 1");
    assert!(!w.shows_tab_strip());
    w.open_tab(2);
    assert_eq!(w.tab(1).title(), "Tab 2");
    assert!(w.shows_tab_strip());
    w.rename_tab(1, "build");
    assert_eq!(w.tab(1).title(), "build");
    // Blank names are not taken.
    w.rename_tab(1, "   ");
    assert_eq!(w.tab(1).title(), "build");
    w.close_tab(0);
    w.open_tab(3);
    assert_eq!(w.tab(1).title(), "Tab 3");
}

#[test]
fn there_is_a_limit_on_tabs() {
    let mut w = Window::new(2);
    assert!(!w.is_full());
    assert!(w.has_number());
    w.open_tab(1);
    w.open_tab(2);
    assert!(w.is_full());
    w.set_tab_max(3);
    assert!(!w.is_full());
    assert_eq!(w.tab_max(), 3);
}

#[test]
fn splits_divide_the_pane() {
    let mut w = one_tab();
    w.split(1, 2, SplitDir::Right);
    w.split(1, 3, SplitDir::Up);
    assert_eq!(w.tab(0).panes(), &vec![1, 2, 3]);
    assert_eq!(w.tab(0).tree().panes(), vec![3, 1, 2]);
    match w.tab(0).tree() {
        Tree::Split { side_by_side: true, start, end } => {
            assert!(matches!(**start, Tree::Split { side_by_side: false, .. }));
            assert!(matches!(**end, Tree::Leaf(2)));
        }
        other => panic!("{other:?}"),
    }
}

#[test]
fn focus_cycles_within_the_tab() {
    let mut w = one_tab();
    assert_eq!(w.next_focus(Some(0)), None);
    w.split(1, 2, SplitDir::Right);
    w.focus(1);
    assert_eq!(w.next_focus(Some(0)), Some(2));
    w.focus(2);
    assert_eq!(w.next_focus(Some(0)), Some(1));
    assert_eq!(w.focused_pane(Some(0)), Some(2));
    assert_eq!(w.focused_pane(None), None);
    assert_eq!(w.focused_pane(Some(7)), None);
}

#[test]
fn the_menu_acts_on_its_pane() {
    let mut w = one_tab();
    w.split(1, 2, SplitDir::Right);
    w.focus(1);
    assert_eq!(w.action_target(Some(0)), Some(1));
    w.set_menu_target(2);
    assert_eq!(w.action_target(Some(0)), Some(2));
    assert_eq!(w.menu_target(), Some(2));
    // The target goes with its pane.
    w.close_pane(2);
    assert_eq!(w.menu_target(), None);
    assert_eq!(w.action_target(Some(0)), Some(1));
}

#[test]
fn closing_a_pane_gives_its_space_to_the_other() {
    let mut w = one_tab();
    w.split(1, 2, SplitDir::Right);
    w.split(2, 3, SplitDir::Down);
    w.focus(2);
    assert!(matches!(w.close_pane(2), Closed::Pane { .. }));
    assert_eq!(w.tab(0).tree().panes(), vec![1, 3]);
    assert!(matches!(w.close_pane(9), Closed::Nothing));
    w.open_tab(4);
    assert!(matches!(w.close_pane(4), Closed::Tab));
    w.close_pane(3);
    assert!(matches!(w.close_pane(1), Closed::Window));
    assert_eq!(w.tab_count(), 0);
}

#[test]
fn closing_undoes_a_split() {
    let tree = Tree::Leaf(1).add_pane(1, 2, SplitDir::Left).add_pane(2, 3, SplitDir::Down);
    assert_eq!(tree.panes(), vec![2, 3, 1]);
    let tree = tree.remove_pane(3).unwrap();
    assert_eq!(tree.panes(), vec![2, 1]);
    let tree = tree.remove_pane(2).unwrap();
    assert!(matches!(tree, Tree::Leaf(1)));
    assert!(tree.remove_pane(1).is_none());
}

#[test]
fn panes_move_between_tabs() {
    let mut w = one_tab();
    w.open_tab(2);
    w.split(2, 3, SplitDir::Right);
    assert!(w.rearrange(3, 1, SplitDir::Left));
    assert_eq!(w.tab_of(3), Some(0));
    assert_eq!(w.tab(0).tree().panes(), vec![3, 1]);
    assert_eq!(w.tab(1).tree().panes(), vec![2]);
    // A tab whose last pane moves away is gone.
    assert!(w.rearrange(2, 1, SplitDir::Down));
    assert_eq!(w.tab_count(), 1);
    assert!(!w.rearrange(1, 1, SplitDir::Down));
}

#[test]
fn tabs_can_be_reordered() {
    let mut w = one_tab();
    w.open_tab(2);
    w.open_tab(3);
    w.move_tab(2, 0);
    assert_eq!(w.tab_of(3), Some(0));
    assert_eq!(w.tab_of(1), Some(1));
    assert_eq!(w.tab_of(2), Some(2));
}

#[test]
fn toolbars_show_where_a_pane_can_go_somewhere() {
    let mut w = one_tab();
    assert!(!w.shows_toolbars(0, true));
    w.split(1, 2, SplitDir::Right);
    assert!(w.shows_toolbars(0, true));
    assert!(!w.shows_toolbars(0, false));
}

#[test]
fn layouts_are_made_of_splits() {
    let mut w = one_tab();
    let panes = [1u64, 2, 3, 4];
    for (i, (at, dir)) in Layout::Four.splits().into_iter().enumerate() {
        w.split(panes[at], panes[i + 1], dir);
    }
    assert_eq!(w.tab(0).tree().panes(), vec![1, 3, 2, 4]);
}

#[test]
fn focus_goes_to_the_nearest_pane() {
    let at = |x, y| Bounds { x, y, w: 100, h: 50 };
    let others = vec![Some(at(100, 0)), Some(at(0, 50)), Some(at(100, 50)), None];
    assert_eq!(nearest_pane(SplitDir::Right, at(0, 0), &others), Some(0));
    assert_eq!(nearest_pane(SplitDir::Down, at(0, 0), &others), Some(1));
    assert_eq!(nearest_pane(SplitDir::Left, at(0, 0), &others), None);
    assert_eq!(nearest_pane(SplitDir::Up, at(0, 0), &others), None);
    assert_eq!(nearest_pane(SplitDir::Left, at(200, 0), &others), Some(0));
}

#[test]
fn directions_are_opposite() {
    let a = Bounds { x: 0, y: 0, w: 100, h: 50 };
    let b = Bounds { x: 100, y: 10, w: 60, h: 50 };
    assert_eq!(nearest_pane(SplitDir::Right, a, &vec![Some(b)]), Some(0));
    assert_eq!(nearest_pane(SplitDir::Left, a, &vec![Some(b)]), None);
    assert_eq!(nearest_pane(SplitDir::Left, b, &vec![Some(a)]), Some(0));
}

#[test]
fn no_tab_beyond_the_limit() {
    let mut w = Window::new(1);
    assert!(w.new_tab(1));
    assert!(!w.new_tab(2));
    assert_eq!(w.tab_count(), 1);
    assert_eq!(w.tab_of(2), None);
}
