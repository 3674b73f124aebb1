//! The actions behind the context menu and the keyboard shortcuts, and the
//! questions asked before something is closed.
use vstd::prelude::*;
use crate::commands::SplitDir;

verus! {

/// Something that the menu or a shortcut can ask for.
#[derive(Clone, Copy, Debug, PartialEq, Eq, Structural)]
pub enum Action {
    SplitHorizontal,
    SplitVertical,
    NewTab,
    NewWindow,
    Copy,
    Paste,
    SelectAll,
    SetTheme,
    Settings,
    About,
    Close,
}

impl Action {
    /// The name by which the toolkit knows the action.
    pub open spec fn named(self) -> Seq<char> {
        match self {
            Action::SplitHorizontal => "split-horizontal"@,
            Action::SplitVertical => "split-vertical"@,
            Action::NewTab => "new-tab"@,
            Action::NewWindow => "new-window"@,
            Action::Copy => "copy"@,
            Action::Paste => "paste"@,
            Action::SelectAll => "select-all"@,
            Action::SetTheme => "set-theme"@,
            Action::Settings => "settings"@,
            Action::About => "about"@,
            Action::Close => "close"@,
        }
    }

    /// Executable [`Action::named`].
    pub fn name(self) -> (name: &'static str)
        ensures
            name@ == self.named(),
    {
        match self {
            Action::SplitHorizontal => "split-horizontal",
            Action::SplitVertical => "split-vertical",
            Action::NewTab => "new-tab",
            Action::NewWindow => "new-window",
            Action::Copy => "copy",
            Action::Paste => "paste",
            Action::SelectAll => "select-all",
            Action::SetTheme => "set-theme",
            Action::Settings => "settings",
            Action::About => "about",
            Action::Close => "close",
        }
    }

    /// The letter that runs the action when it is pressed with Control (or the
    /// command key on a Mac) and Shift.
    pub open spec fn letter(self) -> Option<char> {
        match self {
            Action::SplitHorizontal => Some('o'),
            Action::SplitVertical => Some('e'),
            Action::NewTab => Some('t'),
            Action::NewWindow => Some('n'),
            Action::Copy => Some('c'),
            Action::Paste => Some('v'),
            Action::SelectAll => Some('a'),
            Action::Close => Some('w'),
            Action::SetTheme | Action::Settings | Action::About => None,
        }
    }

    /// Executable [`Action::letter`].
    pub fn shortcut(self) -> (letter: Option<char>)
        ensures
            letter == self.letter(),
    {
        match self {
            Action::SplitHorizontal => Some('o'),
            Action::SplitVertical => Some('e'),
            Action::NewTab => Some('t'),
            Action::NewWindow => Some('n'),
            Action::Copy => Some('c'),
            Action::Paste => Some('v'),
            Action::SelectAll => Some('a'),
            Action::Close => Some('w'),
            Action::SetTheme | Action::Settings | Action::About => None,
        }
    }

    /// Where the new pane of a split goes. A horizontal split has a horizontal
    /// divider, so that the new pane is below; a vertical one has it to the
    /// right.
    pub fn split_dir(self) -> (dir: Option<SplitDir>)
        ensures
            dir == match self {
                Action::SplitHorizontal => Some(SplitDir::Down),
                Action::SplitVertical => Some(SplitDir::Right),
                _ => None,
            },
    {
        match self {
            Action::SplitHorizontal => Some(SplitDir::Down),
            Action::SplitVertical => Some(SplitDir::Right),
            _ => None,
        }
    }

    /// Every action.
    pub fn all() -> (actions: Vec<Action>)
        ensures
            actions@ == all_actions(),
    {
        let actions = vec![
            Action::SplitHorizontal,
            Action::SplitVertical,
            Action::NewTab,
            Action::NewWindow,
            Action::Copy,
            Action::Paste,
            Action::SelectAll,
            Action::SetTheme,
            Action::Settings,
            Action::About,
            Action::Close,
        ];
        assert(actions@ =~= all_actions());
        actions
    }
}

/// Every action, in the order of the menu.
pub open spec fn all_actions() -> Seq<Action> {
    seq![
        Action::SplitHorizontal,
        Action::SplitVertical,
        Action::NewTab,
        Action::NewWindow,
        Action::Copy,
        Action::Paste,
        Action::SelectAll,
        Action::SetTheme,
        Action::Settings,
        Action::About,
        Action::Close,
    ]
}

/// The list of actions leaves none out.
pub proof fn law_all_actions_are_listed(a: Action)
    ensures
        all_actions().contains(a),
{
    let all = all_actions();
    let i: int = match a {
        Action::SplitHorizontal => 0,
        Action::SplitVertical => 1,
        Action::NewTab => 2,
        Action::NewWindow => 3,
        Action::Copy => 4,
        Action::Paste => 5,
        Action::SelectAll => 6,
        Action::SetTheme => 7,
        Action::Settings => 8,
        Action::About => 9,
        Action::Close => 10,
    };
    assert(all[i] == a);
}

/// Each shortcut runs one action.
pub proof fn law_shortcuts_differ(a: Action, b: Action)
    requires
        a.letter() is Some,
        a.letter() == b.letter(),
    ensures
        a == b,
{
}

/// Each name stands for one action.
pub proof fn law_action_names_differ(a: Action, b: Action)
    requires
        a.named() == b.named(),
    ensures
        a == b,
{
    reveal_strlit("split-horizontal");
    reveal_strlit("split-vertical");
    reveal_strlit("new-tab");
    reveal_strlit("new-window");
    reveal_strlit("copy");
    reveal_strlit("paste");
    reveal_strlit("select-all");
    reveal_strlit("set-theme");
    reveal_strlit("settings");
    reveal_strlit("about");
    reveal_strlit("close");
    assert("split-horizontal"@.len() == 16);
    assert("split-vertical"@.len() == 14);
    assert("new-tab"@.len() == 7);
    assert("new-window"@.len() == 10);
    assert("copy"@.len() == 4);
    assert("paste"@.len() == 5);
    assert("select-all"@.len() == 10);
    assert("set-theme"@.len() == 9);
    assert("settings"@.len() == 8);
    assert("about"@.len() == 5);
    assert("close"@.len() == 5);
    assert("paste"@[0] == 'p');
    assert("about"@[0] == 'a');
    assert("close"@[0] == 'c');
    assert("new-window"@[0] == 'n');
    assert("select-all"@[0] == 's');
    assert(a.named().len() == b.named().len() && a.named()[0] == b.named()[0]);
}

/// The answer to a request to close a window.
#[derive(Clone, Copy, Debug, PartialEq, Eq, Structural)]
pub enum CloseAnswer {
    Close,
    /// Ask the user first.
    Ask,
}

/// Whether a window may close. `force` is set when the user has already agreed,
/// to this or to closing its last tab or pane; it holds for one request.
pub fn close_window(force: &mut bool, confirm: bool) -> (answer: CloseAnswer)
    ensures
        !*final(force),
        answer == if *old(force) || !confirm {
            CloseAnswer::Close
        } else {
            CloseAnswer::Ask
        },
{
    if *force {
        *force = false;
        CloseAnswer::Close
    } else if confirm {
        CloseAnswer::Ask
    } else {
        CloseAnswer::Close
    }
}

/// The shortcuts, with Control and Shift: `O` and `E` split, `T` and `N` open a
/// tab and a window, `C`, `V` and `A` copy, paste and select all, `W` closes. The
/// other actions have none.
pub proof fn law_shortcut_letters(a: Action)
    ensures
        a.letter() matches Some(c) ==> "oetncvaw"@.contains(c),
        a.letter() == Some('o') <==> a == Action::SplitHorizontal,
        a.letter() == Some('e') <==> a == Action::SplitVertical,
        a.letter() == Some('t') <==> a == Action::NewTab,
        a.letter() == Some('n') <==> a == Action::NewWindow,
        a.letter() == Some('c') <==> a == Action::Copy,
        a.letter() == Some('v') <==> a == Action::Paste,
        a.letter() == Some('a') <==> a == Action::SelectAll,
        a.letter() == Some('w') <==> a == Action::Close,
{
    reveal_strlit("oetncvaw");
    let all = "oetncvaw"@;
    assert(all[0] == 'o' && all[1] == 'e' && all[2] == 't' && all[3] == 'n');
    assert(all[4] == 'c' && all[5] == 'v' && all[6] == 'a' && all[7] == 'w');
}

/// The toolkit knows each action by its words in lower case, with hyphens.
pub proof fn law_action_names(a: Action)
    ensures
        a.named() == "split-horizontal"@ <==> a == Action::SplitHorizontal,
        a.named() == "split-vertical"@ <==> a == Action::SplitVertical,
        a.named() == "new-tab"@ <==> a == Action::NewTab,
        a.named() == "new-window"@ <==> a == Action::NewWindow,
        a.named() == "copy"@ <==> a == Action::Copy,
        a.named() == "paste"@ <==> a == Action::Paste,
        a.named() == "select-all"@ <==> a == Action::SelectAll,
        a.named() == "set-theme"@ <==> a == Action::SetTheme,
        a.named() == "settings"@ <==> a == Action::Settings,
        a.named() == "about"@ <==> a == Action::About,
        a.named() == "close"@ <==> a == Action::Close,
{
    assert forall|b: Action| #[trigger] a.named() == b.named() implies a == b by {
        law_action_names_differ(a, b);
    }
    assert(Action::SplitHorizontal.named() == "split-horizontal"@);
    assert(Action::SplitVertical.named() == "split-vertical"@);
    assert(Action::NewTab.named() == "new-tab"@);
    assert(Action::NewWindow.named() == "new-window"@);
    assert(Action::Copy.named() == "copy"@);
    assert(Action::Paste.named() == "paste"@);
    assert(Action::SelectAll.named() == "select-all"@);
    assert(Action::SetTheme.named() == "set-theme"@);
    assert(Action::Settings.named() == "settings"@);
    assert(Action::About.named() == "about"@);
    assert(Action::Close.named() == "close"@);
}

/// In the menu, splitting comes before opening, that before the clipboard, then
/// what concerns the looks, and closing is last; no action comes twice.
pub proof fn law_menu_order(i: int, j: int)
    requires
        0 <= i < j < all_actions().len(),
    ensures
        all_actions()[i] != all_actions()[j],
        all_actions()[i].letter() is None ==> i >= 7,
        all_actions()[j] == Action::Close ==> j == 10,
        all_actions()[i] is SplitHorizontal ==> i == 0,
        all_actions()[j] is SplitVertical ==> j == 1,
        all_actions()[j] is NewTab ==> j == 2,
        all_actions()[j] is NewWindow ==> j == 3,
        all_actions()[j] is Copy ==> j == 4,
        all_actions()[j] is Paste ==> j == 5,
        all_actions()[j] is SelectAll ==> j == 6,
        all_actions()[j] is SetTheme ==> j == 7,
        all_actions()[j] is Settings ==> j == 8,
{
}

} // verus!
