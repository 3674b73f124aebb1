//! What a key press, a turn of the wheel or a menu item asks the terminal to
//! do.
use vstd::prelude::*;
use crate::grid::MouseMode;
use crate::input;
use crate::input::{encode_key, Key, Modifiers};
use crate::text;
use crate::text::push_decimal;

verus! {

/// One of the four edges of a pane.
#[derive(Clone, Copy, Debug, PartialEq, Eq, Structural)]
pub enum SplitDir {
    Left,
    Right,
    Up,
    Down,
}

/// A change of the font size.
#[derive(Clone, Copy, Debug, PartialEq, Eq, Structural)]
pub enum Zoom {
    In,
    Out,
    Reset,
}

/// What a key press does.
#[derive(Debug)]
pub enum Command {
    /// Nothing; the key is used up.
    Swallow,
    /// Send the chord's own prefix to the app.
    SendPrefix,
    NewTab,
    NewWindow,
    /// Move on to the next pane of the tab.
    FocusNext,
    /// Move to the nearest pane in a direction.
    Focus(SplitDir),
    PreviousTheme,
    NextTheme,
    /// Split the pane that the key was pressed in.
    Split(SplitDir),
    /// Split the focused pane.
    SplitFocused(SplitDir),
    Copy,
    Paste,
    Zoom(Zoom),
    /// Send these bytes to the app.
    Type(Vec<u8>),
}

/// What a [`Command`] denotes.
#[verifier::ext_equal]
pub enum CommandModel {
    Swallow,
    SendPrefix,
    NewTab,
    NewWindow,
    FocusNext,
    Focus(SplitDir),
    PreviousTheme,
    NextTheme,
    Split(SplitDir),
    SplitFocused(SplitDir),
    Copy,
    Paste,
    Zoom(Zoom),
    Type(Seq<u8>),
}

impl View for Command {
    type V = CommandModel;

    open spec fn view(&self) -> CommandModel {
        match *self {
            Command::Swallow => CommandModel::Swallow,
            Command::SendPrefix => CommandModel::SendPrefix,
            Command::NewTab => CommandModel::NewTab,
            Command::NewWindow => CommandModel::NewWindow,
            Command::FocusNext => CommandModel::FocusNext,
            Command::Focus(dir) => CommandModel::Focus(dir),
            Command::PreviousTheme => CommandModel::PreviousTheme,
            Command::NextTheme => CommandModel::NextTheme,
            Command::Split(dir) => CommandModel::Split(dir),
            Command::SplitFocused(dir) => CommandModel::SplitFocused(dir),
            Command::Copy => CommandModel::Copy,
            Command::Paste => CommandModel::Paste,
            Command::Zoom(zoom) => CommandModel::Zoom(zoom),
            Command::Type(bytes) => CommandModel::Type(bytes@),
        }
    }
}

/// What becomes of the chord, the prefix key that waits for a second one.
#[derive(Clone, Copy, Debug, PartialEq, Eq, Structural)]
pub enum Chord {
    /// It stays as it is.
    Keep,
    /// It is armed, or armed anew.
    Arm,
    /// It is over.
    Disarm,
}

/// Milliseconds for which an armed chord waits for its second key.
pub const CHORD_TIMEOUT_MS: u64 = 2_000;

/// Whether a chord that was armed this long ago still waits. `None` is a chord
/// that was never armed, or is over.
pub fn chord_armed(elapsed_ms: Option<u64>) -> (armed: bool)
    ensures
        armed == (elapsed_ms matches Some(ms) && ms < 2_000),
{
    match elapsed_ms {
        Some(ms) => ms < CHORD_TIMEOUT_MS,
        None => false,
    }
}

/// The key is the letter `lower`, shifted or not.
pub open spec fn key_is(key: Key, lower: char, upper: char) -> bool {
    key == Key::Char(lower) || key == Key::Char(upper)
}

/// The direction of an arrow key.
pub open spec fn arrow(key: Key) -> Option<SplitDir> {
    match key {
        Key::Up => Some(SplitDir::Up),
        Key::Down => Some(SplitDir::Down),
        Key::Left => Some(SplitDir::Left),
        Key::Right => Some(SplitDir::Right),
        _ => None,
    }
}

/// The direction of `h`, `j`, `k` and `l`.
pub open spec fn home_row(key: Key) -> Option<SplitDir> {
    if key_is(key, 'h', 'H') {
        Some(SplitDir::Left)
    } else if key_is(key, 'j', 'J') {
        Some(SplitDir::Down)
    } else if key_is(key, 'k', 'K') {
        Some(SplitDir::Up)
    } else if key_is(key, 'l', 'L') {
        Some(SplitDir::Right)
    } else {
        None
    }
}

/// The change of font size that a key stands for.
pub open spec fn zoom_of(key: Key) -> Option<Zoom> {
    match key {
        Key::Char('+') | Key::Char('=') | Key::Keypad('+') => Some(Zoom::In),
        Key::Char('-') | Key::Keypad('-') => Some(Zoom::Out),
        Key::Char('0') | Key::Keypad('0') => Some(Zoom::Reset),
        _ => None,
    }
}

/// The shortcuts of a Mac that need no chord: with the command key held, `D`
/// splits to the right, and below with Shift; `T` opens a tab, `O` moves the
/// focus on, an arrow moves it that way with Option; `C` and `V` are the
/// clipboard, and there is the zoom.
pub open spec fn mac_shortcut(key: Key, modifiers: Modifiers) -> Option<CommandModel> {
    if key_is(key, 'd', 'D') {
        Some(
            CommandModel::SplitFocused(
                if modifiers.shift {
                    SplitDir::Down
                } else {
                    SplitDir::Right
                },
            ),
        )
    } else if key_is(key, 't', 'T') {
        Some(CommandModel::NewTab)
    } else if key_is(key, 'o', 'O') {
        Some(CommandModel::FocusNext)
    } else if modifiers.alt && arrow(key) is Some {
        Some(CommandModel::Focus(arrow(key)->0))
    } else if key_is(key, 'c', 'C') {
        Some(CommandModel::Copy)
    } else if key_is(key, 'v', 'V') {
        Some(CommandModel::Paste)
    } else if zoom_of(key) is Some {
        Some(CommandModel::Zoom(zoom_of(key)->0))
    } else {
        None
    }
}

/// What the second key of a chord does. The themes can be stepped through
/// without pressing the prefix again. Unknown keys are swallowed.
pub open spec fn chord_command(key: Key, modifiers: Modifiers) -> (CommandModel, Chord) {
    if key is Modifier {
        (CommandModel::Swallow, Chord::Keep)
    } else if modifiers.ctrl && key_is(key, 'a', 'A') {
        (CommandModel::SendPrefix, Chord::Disarm)
    } else if key_is(key, 't', 'T') {
        (CommandModel::NewTab, Chord::Disarm)
    } else if key_is(key, 'n', 'N') {
        (CommandModel::NewWindow, Chord::Disarm)
    } else if key_is(key, 'o', 'O') {
        (CommandModel::FocusNext, Chord::Disarm)
    } else if home_row(key) is Some {
        (CommandModel::Focus(home_row(key)->0), Chord::Disarm)
    } else if key == Key::Char('\'') {
        (CommandModel::PreviousTheme, Chord::Arm)
    } else if key == Key::Char('/') {
        (CommandModel::NextTheme, Chord::Arm)
    } else if arrow(key) is Some {
        (CommandModel::Split(arrow(key)->0), Chord::Disarm)
    } else {
        (CommandModel::Swallow, Chord::Disarm)
    }
}

/// What a key does outside a chord: it may be the prefix (`A` with Control, or
/// with the command key on a Mac), copy or paste with Control and Shift, zoom
/// with Control, and is sent to the app otherwise.
pub open spec fn plain_command(
    key: Key,
    modifiers: Modifiers,
    mac: bool,
    app_cursor: bool,
) -> (CommandModel, Chord) {
    let chord_modifier = if mac {
        modifiers.meta
    } else {
        modifiers.ctrl
    };
    if chord_modifier && key_is(key, 'a', 'A') {
        (CommandModel::Swallow, Chord::Arm)
    } else if modifiers.ctrl && modifiers.shift && key_is(key, 'c', 'C') {
        (CommandModel::Copy, Chord::Keep)
    } else if modifiers.ctrl && modifiers.shift && key_is(key, 'v', 'V') {
        (CommandModel::Paste, Chord::Keep)
    } else if modifiers.ctrl && zoom_of(key) is Some {
        (CommandModel::Zoom(zoom_of(key)->0), Chord::Keep)
    } else {
        let bytes = input::key_bytes(key, modifiers.ctrl, app_cursor);
        if bytes.len() == 0 {
            (CommandModel::Swallow, Chord::Keep)
        } else {
            (CommandModel::Type(bytes), Chord::Keep)
        }
    }
}

/// What a key does, and what becomes of the chord.
pub open spec fn command_for(
    key: Key,
    modifiers: Modifiers,
    mac: bool,
    armed: bool,
    app_cursor: bool,
) -> (CommandModel, Chord) {
    if mac && modifiers.meta && mac_shortcut(key, modifiers) is Some {
        (mac_shortcut(key, modifiers)->0, Chord::Keep)
    } else if armed {
        chord_command(key, modifiers)
    } else {
        plain_command(key, modifiers, mac, app_cursor)
    }
}

fn is_key(key: Key, lower: char, upper: char) -> (yes: bool)
    ensures
        yes == key_is(key, lower, upper),
{
    match key {
        Key::Char(c) => c == lower || c == upper,
        _ => false,
    }
}

fn arrow_dir(key: Key) -> (dir: Option<SplitDir>)
    ensures
        dir == arrow(key),
{
    match key {
        Key::Up => Some(SplitDir::Up),
        Key::Down => Some(SplitDir::Down),
        Key::Left => Some(SplitDir::Left),
        Key::Right => Some(SplitDir::Right),
        _ => None,
    }
}

fn home_row_dir(key: Key) -> (dir: Option<SplitDir>)
    ensures
        dir == home_row(key),
{
    if is_key(key, 'h', 'H') {
        Some(SplitDir::Left)
    } else if is_key(key, 'j', 'J') {
        Some(SplitDir::Down)
    } else if is_key(key, 'k', 'K') {
        Some(SplitDir::Up)
    } else if is_key(key, 'l', 'L') {
        Some(SplitDir::Right)
    } else {
        None
    }
}

fn key_zoom(key: Key) -> (zoom: Option<Zoom>)
    ensures
        zoom == zoom_of(key),
{
    match key {
        Key::Char('+') | Key::Char('=') | Key::Keypad('+') => Some(Zoom::In),
        Key::Char('-') | Key::Keypad('-') => Some(Zoom::Out),
        Key::Char('0') | Key::Keypad('0') => Some(Zoom::Reset),
        _ => None,
    }
}

fn mac_command(key: Key, modifiers: Modifiers) -> (command: Option<Command>)
    ensures
        match command {
            Some(c) => mac_shortcut(key, modifiers) == Some(c@),
            None => mac_shortcut(key, modifiers) is None,
        },
{
    if is_key(key, 'd', 'D') {
        return Some(
            Command::SplitFocused(
                if modifiers.shift {
                    SplitDir::Down
                } else {
                    SplitDir::Right
                },
            ),
        );
    }
    if is_key(key, 't', 'T') {
        return Some(Command::NewTab);
    }
    if is_key(key, 'o', 'O') {
        return Some(Command::FocusNext);
    }
    if modifiers.alt {
        if let Some(dir) = arrow_dir(key) {
            return Some(Command::Focus(dir));
        }
    }
    if is_key(key, 'c', 'C') {
        return Some(Command::Copy);
    }
    if is_key(key, 'v', 'V') {
        return Some(Command::Paste);
    }
    match key_zoom(key) {
        Some(zoom) => Some(Command::Zoom(zoom)),
        None => None,
    }
}

fn second_key(key: Key, modifiers: Modifiers) -> (decided: (Command, Chord))
    ensures
        (decided.0@, decided.1) == chord_command(key, modifiers),
{
    if let Key::Modifier = key {
        return (Command::Swallow, Chord::Keep);
    }
    if modifiers.ctrl && is_key(key, 'a', 'A') {
        return (Command::SendPrefix, Chord::Disarm);
    }
    if is_key(key, 't', 'T') {
        return (Command::NewTab, Chord::Disarm);
    }
    if is_key(key, 'n', 'N') {
        return (Command::NewWindow, Chord::Disarm);
    }
    if is_key(key, 'o', 'O') {
        return (Command::FocusNext, Chord::Disarm);
    }
    if let Some(dir) = home_row_dir(key) {
        return (Command::Focus(dir), Chord::Disarm);
    }
    if is_key(key, '\'', '\'') {
        return (Command::PreviousTheme, Chord::Arm);
    }
    if is_key(key, '/', '/') {
        return (Command::NextTheme, Chord::Arm);
    }
    match arrow_dir(key) {
        Some(dir) => (Command::Split(dir), Chord::Disarm),
        None => (Command::Swallow, Chord::Disarm),
    }
}

/// Decide what a key press does, and what becomes of the chord.
pub fn key_command(
    key: Key,
    modifiers: Modifiers,
    mac: bool,
    armed: bool,
    app_cursor: bool,
) -> (decided: (Command, Chord))
    ensures
        (decided.0@, decided.1) == command_for(key, modifiers, mac, armed, app_cursor),
{
    if mac && modifiers.meta {
        if let Some(command) = mac_command(key, modifiers) {
            return (command, Chord::Keep);
        }
    }
    if armed {
        return second_key(key, modifiers);
    }
    let chord_modifier = if mac {
        modifiers.meta
    } else {
        modifiers.ctrl
    };
    if chord_modifier && is_key(key, 'a', 'A') {
        return (Command::Swallow, Chord::Arm);
    }
    if modifiers.ctrl && modifiers.shift && is_key(key, 'c', 'C') {
        return (Command::Copy, Chord::Keep);
    }
    if modifiers.ctrl && modifiers.shift && is_key(key, 'v', 'V') {
        return (Command::Paste, Chord::Keep);
    }
    if modifiers.ctrl {
        if let Some(zoom) = key_zoom(key) {
            return (Command::Zoom(zoom), Chord::Keep);
        }
    }
    let bytes = encode_key(key, modifiers, app_cursor);
    if bytes.len() == 0 {
        (Command::Swallow, Chord::Keep)
    } else {
        (Command::Type(bytes), Chord::Keep)
    }
}

/// Nothing typed while a chord is armed reaches the app, except the prefix
/// itself.
pub proof fn law_armed_chord_types_nothing(
    key: Key,
    modifiers: Modifiers,
    mac: bool,
    app_cursor: bool,
)
    ensures
        !(command_for(key, modifiers, mac, true, app_cursor).0 is Type),
{
}

/// A chord ends with its second key, unless that only steps through the themes
/// or is a modifier by itself (or a shortcut of the Mac that needs no chord).
pub proof fn law_chord_is_over_after_a_key(
    key: Key,
    modifiers: Modifiers,
    mac: bool,
    app_cursor: bool,
)
    requires
        !(key is Modifier),
        key != Key::Char('\''),
        key != Key::Char('/'),
        !(mac && modifiers.meta),
    ensures
        command_for(key, modifiers, mac, true, app_cursor).1 == Chord::Disarm,
{
}

/// Away from a Mac, Control and `A` twice sends the prefix to the app once.
pub proof fn law_prefix_twice_sends_it(modifiers: Modifiers, app_cursor: bool, key: Key)
    requires
        modifiers.ctrl,
        key_is(key, 'a', 'A'),
    ensures
        command_for(key, modifiers, false, false, app_cursor) == (
            CommandModel::Swallow,
            Chord::Arm,
        ),
        command_for(key, modifiers, false, true, app_cursor) == (
            CommandModel::SendPrefix,
            Chord::Disarm,
        ),
{
}

// ---- the mouse ----
/// A mouse button event to report to the app.
#[derive(Clone, Copy, Debug, PartialEq, Eq, Structural)]
pub enum MouseAction {
    Press,
    Release,
    /// The pointer moved with the button held.
    Motion,
}

/// Whether a left-button gesture is reported to the app rather than driving
/// local text selection. True when the app enabled mouse reporting and Shift is
/// not held (Shift is the override for local selection).
pub fn forwards_mouse(mode: MouseMode, shift: bool) -> (yes: bool)
    ensures
        yes == (mode != MouseMode::Off && !shift),
{
    mode != MouseMode::Off && !shift
}

/// Whether the app asked for motion while a button is held.
pub fn reports_motion(mode: MouseMode) -> (yes: bool)
    ensures
        yes == (mode == MouseMode::ButtonMotion || mode == MouseMode::AnyMotion),
{
    match mode {
        MouseMode::ButtonMotion | MouseMode::AnyMotion => true,
        _ => false,
    }
}

/// A report in the SGR format: `ESC [ <`, button, column and row in decimal,
/// then `M`, or `m` for a release.
pub open spec fn sgr_report(button: nat, col: nat, row: nat, release: bool) -> Seq<u8> {
    seq![0x1bu8, 0x5b, 0x3c] + text::decimal(button) + seq![0x3bu8] + text::decimal(col) + seq![
        0x3bu8,
    ] + text::decimal(row) + seq![
        if release {
            0x6du8
        } else {
            0x4du8
        },
    ]
}

/// A number in the X10 format: one byte, 32 more than the number, and no more
/// than 255.
pub open spec fn x10_byte(n: int) -> u8 {
    if n + 32 <= 255 {
        (n + 32) as u8
    } else {
        255
    }
}

/// The bytes that report a button event at a cell (from 0). Motion adds 32 to
/// the button; a release in the X10 format is button 3.
pub open spec fn mouse_bytes(sgr: bool, button: u8, action: MouseAction, col: int, row: int) -> Seq<
    u8,
> {
    let motion = if action == MouseAction::Motion {
        32int
    } else {
        0
    };
    if sgr {
        sgr_report(
            (button + motion) as nat,
            (col + 1) as nat,
            (row + 1) as nat,
            action == MouseAction::Release,
        )
    } else {
        let b = if action == MouseAction::Release {
            3int
        } else {
            button as int
        };
        seq![
            0x1bu8,
            0x5b,
            0x4d,
            x10_byte(b + motion),
            x10_byte(col + 1),
            x10_byte(row + 1),
        ]
    }
}

fn push_sgr(button: usize, col: usize, row: usize, release: bool) -> (bytes: Vec<u8>)
    ensures
        bytes@ == sgr_report(button as nat, col as nat, row as nat, release),
{
    let mut bytes: Vec<u8> = Vec::new();
    bytes.push(0x1b);
    bytes.push(0x5b);
    bytes.push(0x3c);
    push_decimal(&mut bytes, button);
    bytes.push(0x3b);
    push_decimal(&mut bytes, col);
    bytes.push(0x3b);
    push_decimal(&mut bytes, row);
    bytes.push(
        if release {
            0x6d
        } else {
            0x4d
        },
    );
    assert(bytes@ =~= sgr_report(button as nat, col as nat, row as nat, release));
    bytes
}

fn to_x10(n: usize) -> (b: u8)
    ensures
        b == x10_byte(n as int),
{
    if n <= 223 {
        n as u8 + 32
    } else {
        255
    }
}

/// Encode a mouse button event in whichever protocol the app enabled. `col` and
/// `row` are 0-based cells of the view. `button` is 0 for left, 1 for middle, 2
/// for right.
pub fn encode_mouse(
    sgr: bool,
    button: u8,
    action: MouseAction,
    col: usize,
    row: usize,
) -> (bytes: Vec<u8>)
    requires
        col < usize::MAX,
        row < usize::MAX,
    ensures
        bytes@ == mouse_bytes(sgr, button, action, col as int, row as int),
{
    let motion: usize = match action {
        MouseAction::Motion => 32,
        _ => 0,
    };
    let release = match action {
        MouseAction::Release => true,
        _ => false,
    };
    if sgr {
        return push_sgr(button as usize + motion, col + 1, row + 1, release);
    }
    let b: usize = if release {
        3
    } else {
        button as usize
    };
    let mut bytes: Vec<u8> = Vec::new();
    bytes.push(0x1b);
    bytes.push(0x5b);
    bytes.push(0x4d);
    bytes.push(to_x10(b + motion));
    bytes.push(to_x10(col + 1));
    bytes.push(to_x10(row + 1));
    assert(bytes@ =~= mouse_bytes(sgr, button, action, col as int, row as int));
    bytes
}

// ---- the wheel ----
/// Which way the wheel was turned.
#[derive(Clone, Copy, Debug, PartialEq, Eq, Structural)]
pub enum Turn {
    Up,
    Down,
    /// Not at all.
    Still,
}

/// What a turn of the wheel does.
#[derive(Debug)]
pub enum WheelAction {
    /// Nothing.
    Ignore,
    /// Change the focused pane's font size.
    Zoom(Zoom),
    /// Send the bytes to the app, once for each notch.
    SendPerNotch(Vec<u8>),
    /// Send the bytes to the app, once for each line.
    SendPerLine(Vec<u8>),
    /// Scroll the view, and drop the selection.
    ScrollView,
}

/// What a [`WheelAction`] denotes.
#[verifier::ext_equal]
pub enum WheelModel {
    Ignore,
    Zoom(Zoom),
    SendPerNotch(Seq<u8>),
    SendPerLine(Seq<u8>),
    ScrollView,
}

impl View for WheelAction {
    type V = WheelModel;

    open spec fn view(&self) -> WheelModel {
        match *self {
            WheelAction::Ignore => WheelModel::Ignore,
            WheelAction::Zoom(zoom) => WheelModel::Zoom(zoom),
            WheelAction::SendPerNotch(bytes) => WheelModel::SendPerNotch(bytes@),
            WheelAction::SendPerLine(bytes) => WheelModel::SendPerLine(bytes@),
            WheelAction::ScrollView => WheelModel::ScrollView,
        }
    }
}

/// The report of a wheel notch: button 64 up and 65 down, at the first cell.
pub open spec fn wheel_report(sgr: bool, up: bool) -> Seq<u8> {
    let button = if up {
        64int
    } else {
        65
    };
    if sgr {
        sgr_report(button as nat, 1, 1, false)
    } else {
        seq![0x1bu8, 0x5b, 0x4d, x10_byte(button), x10_byte(1), x10_byte(1)]
    }
}

/// What a turn of the wheel does. With the zoom modifier (Control, or the
/// command key on a Mac) it changes the font size: up is larger, and on a Mac
/// smaller. Otherwise an app that reports the mouse gets the notches; on the
/// alternate screen it gets arrow keys; and the main screen's view is scrolled.
pub open spec fn wheel_action(
    turn: Turn,
    modifiers: Modifiers,
    mac: bool,
    mode: MouseMode,
    sgr: bool,
    alt_screen: bool,
) -> WheelModel {
    let zooms = if mac {
        modifiers.meta
    } else {
        modifiers.ctrl
    };
    if zooms {
        match turn {
            Turn::Still => WheelModel::Ignore,
            Turn::Up => WheelModel::Zoom(
                if mac {
                    Zoom::Out
                } else {
                    Zoom::In
                },
            ),
            Turn::Down => WheelModel::Zoom(
                if mac {
                    Zoom::In
                } else {
                    Zoom::Out
                },
            ),
        }
    } else if mode != MouseMode::Off {
        WheelModel::SendPerNotch(wheel_report(sgr, turn == Turn::Up))
    } else if alt_screen {
        WheelModel::SendPerLine(
            seq![
                0x1bu8,
                0x5b,
                if turn == Turn::Up {
                    0x41u8
                } else {
                    0x42u8
                },
            ],
        )
    } else {
        WheelModel::ScrollView
    }
}

fn encode_wheel(sgr: bool, up: bool) -> (bytes: Vec<u8>)
    ensures
        bytes@ == wheel_report(sgr, up),
{
    let button: usize = if up {
        64
    } else {
        65
    };
    if sgr {
        return push_sgr(button, 1, 1, false);
    }
    let mut bytes: Vec<u8> = Vec::new();
    bytes.push(0x1b);
    bytes.push(0x5b);
    bytes.push(0x4d);
    bytes.push(to_x10(button));
    bytes.push(to_x10(1));
    bytes.push(to_x10(1));
    assert(bytes@ =~= wheel_report(sgr, up));
    bytes
}

/// Decide what a turn of the wheel does.
pub fn wheel_command(
    turn: Turn,
    modifiers: Modifiers,
    mac: bool,
    mode: MouseMode,
    sgr: bool,
    alt_screen: bool,
) -> (action: WheelAction)
    ensures
        action@ == wheel_action(turn, modifiers, mac, mode, sgr, alt_screen),
{
    let zooms = if mac {
        modifiers.meta
    } else {
        modifiers.ctrl
    };
    if zooms {
        return match turn {
            Turn::Still => WheelAction::Ignore,
            Turn::Up => WheelAction::Zoom(
                if mac {
                    Zoom::Out
                } else {
                    Zoom::In
                },
            ),
            Turn::Down => WheelAction::Zoom(
                if mac {
                    Zoom::In
                } else {
                    Zoom::Out
                },
            ),
        };
    }
    let up = match turn {
        Turn::Up => true,
        _ => false,
    };
    if mode != MouseMode::Off {
        return WheelAction::SendPerNotch(encode_wheel(sgr, up));
    }
    if alt_screen {
        let mut bytes: Vec<u8> = Vec::new();
        bytes.push(0x1b);
        bytes.push(0x5b);
        bytes.push(
            if up {
                0x41
            } else {
                0x42
            },
        );
        proof {
            let last = if up {
                0x41u8
            } else {
                0x42u8
            };
            assert(bytes@ =~= seq![0x1bu8, 0x5b, last]);
        }
        return WheelAction::SendPerLine(bytes);
    }
    WheelAction::ScrollView
}

/// An app that has not asked for the mouse gets no reports of it, and the main
/// screen's own history is scrolled only then.
pub proof fn law_wheel_scrolls_history_only_without_reporting(
    turn: Turn,
    modifiers: Modifiers,
    mac: bool,
    mode: MouseMode,
    sgr: bool,
    alt_screen: bool,
)
    ensures
        ({
            let action = wheel_action(turn, modifiers, mac, mode, sgr, alt_screen);
            &&& action is SendPerNotch ==> mode != MouseMode::Off
            &&& action is ScrollView ==> mode == MouseMode::Off && !alt_screen
        }),
{
}

// ---- laws of keys ----
/// Without Control (or the command key of a Mac), and outside a chord, a key
/// goes to the app: as many bytes as it has, or nothing at all.
pub proof fn law_keys_reach_the_app(key: Key, modifiers: Modifiers, mac: bool, app_cursor: bool)
    requires
        !modifiers.ctrl,
        !modifiers.meta,
    ensures
        ({
            let (command, chord) = command_for(key, modifiers, mac, false, app_cursor);
            let bytes = input::key_bytes(key, false, app_cursor);
            &&& chord == Chord::Keep
            &&& bytes.len() > 0 ==> command == CommandModel::Type(bytes)
            &&& bytes.len() == 0 ==> command == CommandModel::Swallow
        }),
{
}

/// What an armed chord does with each key. Arrows split that way; `h`, `j`, `k`
/// and `l` move the focus left, down, up and right; `t`, `n` and `o` open a tab,
/// open a window and move the focus on; the quote and the slash step through the
/// themes back and forth. Shift makes no difference to letters, and all other
/// keys are swallowed.
pub proof fn law_chord_keys(key: Key, modifiers: Modifiers, mac: bool, app_cursor: bool)
    requires
        !modifiers.ctrl,
        !modifiers.meta,
    ensures
        ({
            let does = |k: Key| command_for(k, modifiers, mac, true, app_cursor).0;
            let letter = |lower: char, upper: char, c: CommandModel|
                does(Key::Char(lower)) == c && does(Key::Char(upper)) == c;
            &&& does(Key::Up) == CommandModel::Split(SplitDir::Up)
            &&& does(Key::Down) == CommandModel::Split(SplitDir::Down)
            &&& does(Key::Left) == CommandModel::Split(SplitDir::Left)
            &&& does(Key::Right) == CommandModel::Split(SplitDir::Right)
            &&& letter('h', 'H', CommandModel::Focus(SplitDir::Left))
            &&& letter('j', 'J', CommandModel::Focus(SplitDir::Down))
            &&& letter('k', 'K', CommandModel::Focus(SplitDir::Up))
            &&& letter('l', 'L', CommandModel::Focus(SplitDir::Right))
            &&& letter('t', 'T', CommandModel::NewTab)
            &&& letter('n', 'N', CommandModel::NewWindow)
            &&& letter('o', 'O', CommandModel::FocusNext)
            &&& does(Key::Char('\'')) == CommandModel::PreviousTheme
            &&& does(Key::Char('/')) == CommandModel::NextTheme
            &&& command_for(Key::Char('\''), modifiers, mac, true, app_cursor).1 == Chord::Arm
            &&& command_for(Key::Char('/'), modifiers, mac, true, app_cursor).1 == Chord::Arm
            &&& does(key) != CommandModel::Swallow ==> (key is Up || key is Down || key is Left
                || key is Right || (key matches Key::Char(c) && "hHjJkKlLtTnNoO'/"@.contains(c)))
            &&& command_for(Key::Modifier, modifiers, mac, true, app_cursor) == (
                CommandModel::Swallow,
                Chord::Keep,
            )
        }),
{
    reveal_strlit("hHjJkKlLtTnNoO'/");
    let all = "hHjJkKlLtTnNoO'/"@;
    assert(all.len() == 16);
    assert(all[0] == 'h' && all[1] == 'H' && all[2] == 'j' && all[3] == 'J');
    assert(all[4] == 'k' && all[5] == 'K' && all[6] == 'l' && all[7] == 'L');
    assert(all[8] == 't' && all[9] == 'T' && all[10] == 'n' && all[11] == 'N');
    assert(all[12] == 'o' && all[13] == 'O' && all[14] == '\'' && all[15] == '/');
}

/// With Control and Shift, `C` copies and `V` pastes, away from a Mac; without
/// Shift they are typed. Control with a plus, an equals sign, a minus or a zero
/// zooms, on the keypad too.
pub proof fn law_control_shortcuts(modifiers: Modifiers, app_cursor: bool)
    requires
        modifiers.ctrl,
    ensures
        ({
            let does = |k: Key| command_for(k, modifiers, false, false, app_cursor).0;
            &&& modifiers.shift ==> does(Key::Char('c')) == CommandModel::Copy
            &&& modifiers.shift ==> does(Key::Char('C')) == CommandModel::Copy
            &&& modifiers.shift ==> does(Key::Char('v')) == CommandModel::Paste
            &&& modifiers.shift ==> does(Key::Char('V')) == CommandModel::Paste
            &&& !modifiers.shift ==> does(Key::Char('c')) == CommandModel::Type(seq![3u8])
            &&& !modifiers.shift ==> does(Key::Char('v')) == CommandModel::Type(seq![22u8])
            &&& does(Key::Char('+')) == CommandModel::Zoom(Zoom::In)
            &&& does(Key::Char('=')) == CommandModel::Zoom(Zoom::In)
            &&& does(Key::Char('-')) == CommandModel::Zoom(Zoom::Out)
            &&& does(Key::Char('0')) == CommandModel::Zoom(Zoom::Reset)
            &&& does(Key::Keypad('+')) == CommandModel::Zoom(Zoom::In)
            &&& does(Key::Keypad('-')) == CommandModel::Zoom(Zoom::Out)
            &&& does(Key::Keypad('0')) == CommandModel::Zoom(Zoom::Reset)
        }),
{
}

/// Control and any letter but the prefix is typed as its control code, unless
/// Shift makes it one of the clipboard's.
pub proof fn law_control_letters_are_typed(c: char, modifiers: Modifiers, app_cursor: bool)
    requires
        modifiers.ctrl,
        'a' <= c <= 'z',
        c != 'a',
        !modifiers.shift || (c != 'c' && c != 'v'),
    ensures
        command_for(Key::Char(c), modifiers, false, false, app_cursor) == (
            CommandModel::Type(seq![(c as u32 - 'a' as u32 + 1) as u8]),
            Chord::Keep,
        ),
{
}

/// On a Mac the command key does the same whether a chord is armed or not, and
/// leaves the chord as it is: `D` splits to the right, with Shift below; `T`, `O`,
/// `C` and `V` open a tab, move the focus on, copy and paste; with Option an
/// arrow moves the focus its way; the zoom keys zoom.
pub proof fn law_mac_shortcuts(modifiers: Modifiers, armed: bool, app_cursor: bool)
    requires
        modifiers.meta,
    ensures
        ({
            let does = |k: Key| command_for(k, modifiers, true, armed, app_cursor);
            let shortcut = |k: Key, c: CommandModel| does(k) == (c, Chord::Keep);
            &&& modifiers.shift ==> shortcut(
                Key::Char('D'),
                CommandModel::SplitFocused(SplitDir::Down),
            )
            &&& !modifiers.shift ==> shortcut(
                Key::Char('d'),
                CommandModel::SplitFocused(SplitDir::Right),
            )
            &&& shortcut(Key::Char('t'), CommandModel::NewTab)
            &&& shortcut(Key::Char('o'), CommandModel::FocusNext)
            &&& shortcut(Key::Char('c'), CommandModel::Copy)
            &&& shortcut(Key::Char('v'), CommandModel::Paste)
            &&& modifiers.alt ==> shortcut(Key::Up, CommandModel::Focus(SplitDir::Up))
            &&& modifiers.alt ==> shortcut(Key::Down, CommandModel::Focus(SplitDir::Down))
            &&& modifiers.alt ==> shortcut(Key::Left, CommandModel::Focus(SplitDir::Left))
            &&& modifiers.alt ==> shortcut(Key::Right, CommandModel::Focus(SplitDir::Right))
            &&& shortcut(Key::Char('+'), CommandModel::Zoom(Zoom::In))
            &&& shortcut(Key::Char('='), CommandModel::Zoom(Zoom::In))
            &&& shortcut(Key::Char('-'), CommandModel::Zoom(Zoom::Out))
            &&& shortcut(Key::Char('0'), CommandModel::Zoom(Zoom::Reset))
            &&& does(Key::Char('T')) == does(Key::Char('t'))
            &&& does(Key::Char('O')) == does(Key::Char('o'))
            &&& does(Key::Char('C')) == does(Key::Char('c'))
            &&& does(Key::Char('V')) == does(Key::Char('v'))
            &&& does(Key::Char('D')) == does(Key::Char('d'))
            &&& !armed ==> does(Key::Char('a')) == (CommandModel::Swallow, Chord::Arm)
            &&& !armed ==> does(Key::Char('A')) == (CommandModel::Swallow, Chord::Arm)
        }),
{
}

// ---- laws of the mouse ----
/// A report in the SGR format has the button, the column and the row in decimal,
/// the latter two counted from 1. A release ends in a small `m`, everything else
/// in a large one; motion adds 32 to the button.
pub proof fn law_sgr_reports(button: u8, col: int, row: int)
    requires
        0 <= col,
        0 <= row,
    ensures
        ({
            let at = |action: MouseAction| mouse_bytes(true, button, action, col, row);
            let place = seq![0x3bu8] + text::decimal((col + 1) as nat) + seq![0x3bu8]
                + text::decimal((row + 1) as nat);
            let start = seq![0x1bu8, 0x5b, 0x3c];
            &&& at(MouseAction::Press) == start + text::decimal(button as nat) + place
                + seq![0x4du8]
            &&& at(MouseAction::Release) == start + text::decimal(button as nat) + place
                + seq![0x6du8]
            &&& at(MouseAction::Motion) == start + text::decimal((button + 32) as nat) + place
                + seq![0x4du8]
        }),
{
    let place = seq![0x3bu8] + text::decimal((col + 1) as nat) + seq![0x3bu8] + text::decimal(
        (row + 1) as nat,
    );
    let start = seq![0x1bu8, 0x5b, 0x3c];
    assert(mouse_bytes(true, button, MouseAction::Press, col, row) =~= start + text::decimal(
        button as nat,
    ) + place + seq![0x4du8]);
    assert(mouse_bytes(true, button, MouseAction::Release, col, row) =~= start + text::decimal(
        button as nat,
    ) + place + seq![0x6du8]);
    assert(mouse_bytes(true, button, MouseAction::Motion, col, row) =~= start + text::decimal(
        (button + 32) as nat,
    ) + place + seq![0x4du8]);
}

/// A report in the X10 format is six bytes: the button, the column and the row,
/// the latter two counted from 1, each 32 more than the number and no more than
/// 255. A release is button 3, motion adds 32.
pub proof fn law_x10_reports(button: u8, col: int, row: int)
    requires
        0 <= col,
        0 <= row,
        button <= 2,
    ensures
        ({
            let at = |action: MouseAction| mouse_bytes(false, button, action, col, row);
            let press = at(MouseAction::Press);
            &&& press.len() == 6 && press[0] == 0x1b && press[1] == 0x5b && press[2] == 0x4d
            &&& press[3] - 32 == button
            &&& col < 222 ==> press[4] - 33 == col
            &&& row < 222 ==> press[5] - 33 == row
            &&& col >= 222 ==> press[4] == 255
            &&& row >= 222 ==> press[5] == 255
            &&& at(MouseAction::Release) == press.update(3, 35u8)
            &&& at(MouseAction::Motion) == press.update(3, (button + 64) as u8)
        }),
{
    let press = mouse_bytes(false, button, MouseAction::Press, col, row);
    assert(mouse_bytes(false, button, MouseAction::Release, col, row) =~= press.update(3, 35u8));
    assert(mouse_bytes(false, button, MouseAction::Motion, col, row) =~= press.update(
        3,
        (button + 64) as u8,
    ));
}

/// The wheel is reported as a press of button 64 upwards and 65 downwards, at
/// the first cell, in either format.
pub proof fn law_wheel_reports(sgr: bool, modifiers: Modifiers, mac: bool, mode: MouseMode, alt: bool)
    requires
        !modifiers.ctrl,
        !modifiers.meta,
        mode != MouseMode::Off,
    ensures
        wheel_action(Turn::Up, modifiers, mac, mode, sgr, alt) == WheelModel::SendPerNotch(
            mouse_bytes(sgr, 64, MouseAction::Press, 0, 0),
        ),
        wheel_action(Turn::Down, modifiers, mac, mode, sgr, alt) == WheelModel::SendPerNotch(
            mouse_bytes(sgr, 65, MouseAction::Press, 0, 0),
        ),
{
}

/// The wheel with the zoom modifier: up enlarges and down reduces, and on a Mac
/// the other way round. Without it, and without reports of the mouse, it sends
/// arrow keys on the alternate screen and scrolls the main one.
pub proof fn law_wheel(modifiers: Modifiers, mac: bool, mode: MouseMode, sgr: bool, alt: bool)
    ensures
        ({
            let does = |turn: Turn| wheel_action(turn, modifiers, mac, mode, sgr, alt);
            let zooms = (mac && modifiers.meta) || (!mac && modifiers.ctrl);
            &&& zooms && !mac ==> does(Turn::Up) == WheelModel::Zoom(Zoom::In) && does(Turn::Down)
                == WheelModel::Zoom(Zoom::Out)
            &&& zooms && mac ==> does(Turn::Up) == WheelModel::Zoom(Zoom::Out) && does(Turn::Down)
                == WheelModel::Zoom(Zoom::In)
            &&& zooms ==> does(Turn::Still) == WheelModel::Ignore
            &&& !zooms && mode == MouseMode::Off && alt ==> {
                &&& does(Turn::Up) == WheelModel::SendPerLine(
                    input::key_bytes(Key::Up, false, false),
                )
                &&& does(Turn::Down) == WheelModel::SendPerLine(
                    input::key_bytes(Key::Down, false, false),
                )
            }
            &&& !zooms && mode == MouseMode::Off && !alt ==> does(Turn::Up)
                == WheelModel::ScrollView && does(Turn::Down) == WheelModel::ScrollView
        }),
{
}

} // verus!
