//! Keys, the mouse, menus and layouts.
use skyterm::commands::{
    chord_armed, encode_mouse, forwards_mouse, key_command, reports_motion, wheel_command, Chord,
    Command, MouseAction, SplitDir, Turn, WheelAction, Zoom,
};
use skyterm::input::{encode_key, encode_paste, Key, Modifiers};
use skyterm::layout::Layout;
use skyterm::menu::{close_window, Action, CloseAnswer};
use skyterm::MouseMode;

const NONE: Modifiers = Modifiers { ctrl: false, shift: false, alt: false, meta: false };
const CTRL: Modifiers = Modifiers { ctrl: true, shift: false, alt: false, meta: false };
const CTRL_SHIFT: Modifiers = Modifiers { ctrl: true, shift: true, alt: false, meta: false };
const META: Modifiers = Modifiers { ctrl: false, shift: false, alt: false, meta: true };

fn key(key: Key, modifiers: Modifiers, armed: bool) -> (Command, Chord) {
    key_command(key, modifiers, false, armed, false)
}

#[test]
fn keys_are_encoded() {
    assert_eq!(encode_key(Key::Enter, NONE, false), b"\r");
    assert_eq!(encode_key(Key::BackSpace, NONE, false), b"\x7f");
    assert_eq!(encode_key(Key::Tab, NONE, false), b"\t");
    assert_eq!(encode_key(Key::Escape, NONE, false), b"\x1b");
    assert_eq!(encode_key(Key::Up, NONE, false), b"\x1b[A");
    assert_eq!(encode_key(Key::Up, NONE, true), b"\x1bOA");
    assert_eq!(encode_key(Key::Left, NONE, true), b"\x1bOD");
    assert_eq!(encode_key(Key::Home, NONE, false), b"\x1b[H");
    assert_eq!(encode_key(Key::PageDown, NONE, false), b"\x1b[6~");
    assert_eq!(encode_key(Key::Delete, NONE, false), b"\x1b[3~");
    assert_eq!(encode_key(Key::Function(1), NONE, false), b"\x1bOP");
    assert_eq!(encode_key(Key::Function(5), NONE, false), b"\x1b[15~");
    assert_eq!(encode_key(Key::Function(12), NONE, false), b"\x1b[24~");
    assert_eq!(encode_key(Key::Char('c'), CTRL, false), b"\x03");
    assert_eq!(encode_key(Key::Char('C'), CTRL, false), b"\x03");
    assert_eq!(encode_key(Key::Char('é'), NONE, false), "é".as_bytes());
    assert!(encode_key(Key::Modifier, NONE, false).is_empty());
    assert!(encode_key(Key::Other, NONE, false).is_empty());
}

#[test]
fn pasted_text_is_bracketed_on_request() {
    assert_eq!(encode_paste("a b", false), b"a b");
    assert_eq!(encode_paste("a b", true), b"\x1b[200~a b\x1b[201~");
}

#[test]
fn the_chord_waits_two_seconds() {
    assert!(chord_armed(Some(0)));
    assert!(chord_armed(Some(1999)));
    assert!(!chord_armed(Some(2000)));
    assert!(!chord_armed(None));
}

#[test]
fn chord_keys() {
    let (command, chord) = key(Key::Char('a'), CTRL, false);
    assert!(matches!(command, Command::Swallow));
    assert_eq!(chord, Chord::Arm);
    assert!(matches!(key(Key::Char('t'), NONE, true), (Command::NewTab, Chord::Disarm)));
    assert!(matches!(key(Key::Char('n'), NONE, true), (Command::NewWindow, Chord::Disarm)));
    assert!(matches!(key(Key::Char('o'), NONE, true), (Command::FocusNext, Chord::Disarm)));
    assert!(matches!(
        key(Key::Char('h'), NONE, true),
        (Command::Focus(SplitDir::Left), Chord::Disarm)
    ));
    assert!(matches!(
        key(Key::Char('k'), NONE, true),
        (Command::Focus(SplitDir::Up), Chord::Disarm)
    ));
    assert!(matches!(key(Key::Up, NONE, true), (Command::Split(SplitDir::Up), Chord::Disarm)));
    assert!(matches!(key(Key::Char('\''), NONE, true), (Command::PreviousTheme, Chord::Arm)));
    assert!(matches!(key(Key::Char('/'), NONE, true), (Command::NextTheme, Chord::Arm)));
    // The prefix twice sends it; a modifier alone keeps the chord waiting.
    assert!(matches!(key(Key::Char('a'), CTRL, true), (Command::SendPrefix, Chord::Disarm)));
    assert!(matches!(key(Key::Modifier, CTRL, true), (Command::Swallow, Chord::Keep)));
    assert!(matches!(key(Key::Char('x'), NONE, true), (Command::Swallow, Chord::Disarm)));
}

#[test]
fn keys_outside_a_chord() {
    assert!(matches!(key(Key::Char('c'), CTRL_SHIFT, false), (Command::Copy, Chord::Keep)));
    assert!(matches!(key(Key::Char('V'), CTRL_SHIFT, false), (Command::Paste, Chord::Keep)));
    assert!(matches!(key(Key::Char('+'), CTRL, false), (Command::Zoom(Zoom::In), Chord::Keep)));
    assert!(matches!(key(Key::Char('-'), CTRL, false), (Command::Zoom(Zoom::Out), Chord::Keep)));
    assert!(matches!(key(Key::Char('0'), CTRL, false), (Command::Zoom(Zoom::Reset), Chord::Keep)));
    match key(Key::Char('x'), NONE, false) {
        (Command::Type(bytes), Chord::Keep) => assert_eq!(bytes, b"x"),
        other => panic!("{other:?}"),
    }
}

#[test]
fn mac_shortcuts() {
    let mac = |key, modifiers, armed| key_command(key, modifiers, true, armed, false);
    assert!(matches!(
        mac(Key::Char('d'), META, false),
        (Command::SplitFocused(SplitDir::Right), Chord::Keep)
    ));
    let shifted = Modifiers { shift: true, ..META };
    assert!(matches!(
        mac(Key::Char('D'), shifted, false),
        (Command::SplitFocused(SplitDir::Down), Chord::Keep)
    ));
    assert!(matches!(mac(Key::Char('a'), META, false), (Command::Swallow, Chord::Arm)));
    assert!(matches!(mac(Key::Char('c'), META, false), (Command::Copy, Chord::Keep)));
    // Elsewhere the key is sent as it is.
    assert!(matches!(key(Key::Char('d'), META, false), (Command::Type(_), Chord::Keep)));
}

#[test]
fn mouse_reports() {
    assert_eq!(encode_mouse(true, 0, MouseAction::Press, 4, 2), b"\x1b[<0;5;3M");
    assert_eq!(encode_mouse(true, 0, MouseAction::Release, 4, 2), b"\x1b[<0;5;3m");
    assert_eq!(encode_mouse(true, 0, MouseAction::Motion, 4, 2), b"\x1b[<32;5;3M");
    assert_eq!(encode_mouse(false, 0, MouseAction::Press, 4, 2), b"\x1b[M %#");
    assert_eq!(encode_mouse(false, 0, MouseAction::Release, 4, 2), b"\x1b[M#%#");
    // A cell past column 223 cannot be told in one byte.
    assert_eq!(encode_mouse(false, 2, MouseAction::Press, 300, 0), [0x1b, 0x5b, 0x4d, 34, 255, 33]);
    assert!(forwards_mouse(MouseMode::Normal, false));
    assert!(!forwards_mouse(MouseMode::Normal, true));
    assert!(!forwards_mouse(MouseMode::Off, false));
    assert!(!reports_motion(MouseMode::Normal));
    assert!(reports_motion(MouseMode::ButtonMotion));
}

#[test]
fn the_wheel_zooms_reports_types_or_scrolls() {
    let wheel = |modifiers, mac, mode, alt| wheel_command(Turn::Up, modifiers, mac, mode, true, alt);
    assert!(matches!(wheel(CTRL, false, MouseMode::Off, false), WheelAction::Zoom(Zoom::In)));
    assert!(matches!(wheel(META, true, MouseMode::Off, false), WheelAction::Zoom(Zoom::Out)));
    match wheel(NONE, false, MouseMode::Normal, true) {
        WheelAction::SendPerNotch(bytes) => assert_eq!(bytes, b"\x1b[<64;1;1M"),
        other => panic!("{other:?}"),
    }
    match wheel_command(Turn::Down, NONE, false, MouseMode::Normal, false, false) {
        WheelAction::SendPerNotch(bytes) => assert_eq!(bytes, [0x1b, 0x5b, 0x4d, 97, 33, 33]),
        other => panic!("{other:?}"),
    }
    match wheel(NONE, false, MouseMode::Off, true) {
        WheelAction::SendPerLine(bytes) => assert_eq!(bytes, b"\x1b[A"),
        other => panic!("{other:?}"),
    }
    assert!(matches!(wheel(NONE, false, MouseMode::Off, false), WheelAction::ScrollView));
    assert!(matches!(
        wheel_command(Turn::Still, CTRL, false, MouseMode::Off, false, false),
        WheelAction::Ignore
    ));
}

#[test]
fn actions_have_names_and_shortcuts() {
    let all = Action::all();
    assert_eq!(all.len(), 11);
    for (i, a) in all.iter().enumerate() {
        for b in &all[i + 1..] {
            assert_ne!(a.name(), b.name());
            assert!(a.shortcut().is_none() || a.shortcut() != b.shortcut());
        }
    }
    assert_eq!(Action::NewWindow.shortcut(), Some('n'));
    assert_eq!(Action::SetTheme.shortcut(), None);
    assert_eq!(Action::SplitHorizontal.name(), "split-horizontal");
    assert_eq!(Action::SplitHorizontal.split_dir(), Some(SplitDir::Down));
    assert_eq!(Action::SplitVertical.split_dir(), Some(SplitDir::Right));
    assert_eq!(Action::Copy.split_dir(), None);
}

#[test]
fn closing_a_window_asks_unless_agreed() {
    let mut force = false;
    assert_eq!(close_window(&mut force, true), CloseAnswer::Ask);
    assert_eq!(close_window(&mut force, false), CloseAnswer::Close);
    force = true;
    assert_eq!(close_window(&mut force, true), CloseAnswer::Close);
    assert!(!force);
}

#[test]
fn layouts_by_name() {
    assert_eq!(Layout::from_name("single"), Layout::Single);
    assert_eq!(Layout::from_name("2v"), Layout::TwoVertical);
    assert_eq!(Layout::from_name("2h"), Layout::TwoHorizontal);
    assert_eq!(Layout::from_name("3"), Layout::Three);
    assert_eq!(Layout::from_name("4"), Layout::Four);
    assert_eq!(Layout::from_name("5"), Layout::Single);
    assert!(Layout::Single.splits().is_empty());
    assert_eq!(Layout::TwoVertical.splits(), vec![(0, SplitDir::Right)]);
    assert_eq!(Layout::Three.splits(), vec![(0, SplitDir::Down), (0, SplitDir::Right)]);
    assert_eq!(Layout::Four.splits().len(), 3);
    assert_eq!(Layout::TwoHorizontal.name(), "2h");
}
