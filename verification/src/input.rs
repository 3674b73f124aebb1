//! Keys, and the bytes that a key sends to the app.
use vstd::prelude::*;
use vstd::slice::slice_to_vec;
use vstd::utf8;
use crate::screen::Screen;
use crate::text;
use crate::vt;
use crate::vt::Vt;

verus! {

/// A key, as far as the terminal tells keys apart.
#[derive(Clone, Copy, Debug, PartialEq, Eq, Structural)]
pub enum Key {
    /// Return, or Enter on the keypad.
    Enter,
    BackSpace,
    Tab,
    Escape,
    Up,
    Down,
    Right,
    Left,
    Home,
    End,
    PageUp,
    PageDown,
    Insert,
    Delete,
    /// F1 to F12.
    Function(u8),
    /// A key that stands for a character.
    Char(char),
    /// A key of the keypad that stands for a character.
    Keypad(char),
    /// Control, Shift and the like by themselves.
    Modifier,
    /// Any other key.
    Other,
}

/// The modifiers that are held.
#[derive(Clone, Copy, Debug, PartialEq, Eq, Structural)]
pub struct Modifiers {
    pub ctrl: bool,
    pub shift: bool,
    pub alt: bool,
    /// The command key of a Mac.
    pub meta: bool,
}

/// A letter of the English alphabet.
pub open spec fn is_letter(c: char) -> bool {
    'a' <= c <= 'z' || 'A' <= c <= 'Z'
}

/// The number of a letter, from 1.
pub open spec fn letter_number(c: char) -> u8 {
    if 'a' <= c <= 'z' {
        (c as int - 'a' as int + 1) as u8
    } else {
        (c as int - 'A' as int + 1) as u8
    }
}

/// A cursor key: `ESC O` in application mode, `ESC [` in normal mode, and a
/// final byte.
pub open spec fn cursor_bytes(app_cursor: bool, last: u8) -> Seq<u8> {
    if app_cursor {
        seq![0x1bu8, 0x4f, last]
    } else {
        seq![0x1bu8, 0x5b, last]
    }
}

/// A function key, as xterm encodes it: F1 to F4 with `ESC O`, the others with
/// `ESC [`, a number and `~`.
pub open spec fn function_bytes(n: u8) -> Seq<u8> {
    if n == 1 {
        seq![0x1bu8, 0x4f, 0x50]
    } else if n == 2 {
        seq![0x1bu8, 0x4f, 0x51]
    } else if n == 3 {
        seq![0x1bu8, 0x4f, 0x52]
    } else if n == 4 {
        seq![0x1bu8, 0x4f, 0x53]
    } else if n == 5 {
        seq![0x1bu8, 0x5b, 0x31, 0x35, 0x7e]
    } else if n == 6 {
        seq![0x1bu8, 0x5b, 0x31, 0x37, 0x7e]
    } else if n == 7 {
        seq![0x1bu8, 0x5b, 0x31, 0x38, 0x7e]
    } else if n == 8 {
        seq![0x1bu8, 0x5b, 0x31, 0x39, 0x7e]
    } else if n == 9 {
        seq![0x1bu8, 0x5b, 0x32, 0x30, 0x7e]
    } else if n == 10 {
        seq![0x1bu8, 0x5b, 0x32, 0x31, 0x7e]
    } else if n == 11 {
        seq![0x1bu8, 0x5b, 0x32, 0x33, 0x7e]
    } else if n == 12 {
        seq![0x1bu8, 0x5b, 0x32, 0x34, 0x7e]
    } else {
        Seq::empty()
    }
}

/// A character: its control code if Control is held and it is a letter, its
/// UTF-8 encoding otherwise.
pub open spec fn char_bytes(c: char, ctrl: bool) -> Seq<u8> {
    if ctrl && is_letter(c) {
        seq![letter_number(c)]
    } else {
        utf8::encode_utf8(seq![c])
    }
}

/// The bytes that a key sends.
pub open spec fn key_bytes(key: Key, ctrl: bool, app_cursor: bool) -> Seq<u8> {
    match key {
        Key::Enter => seq![0x0du8],
        Key::BackSpace => seq![0x7fu8],
        Key::Tab => seq![0x09u8],
        Key::Escape => seq![0x1bu8],
        Key::Up => cursor_bytes(app_cursor, 0x41),
        Key::Down => cursor_bytes(app_cursor, 0x42),
        Key::Right => cursor_bytes(app_cursor, 0x43),
        Key::Left => cursor_bytes(app_cursor, 0x44),
        Key::Home => cursor_bytes(app_cursor, 0x48),
        Key::End => cursor_bytes(app_cursor, 0x46),
        Key::PageUp => seq![0x1bu8, 0x5b, 0x35, 0x7e],
        Key::PageDown => seq![0x1bu8, 0x5b, 0x36, 0x7e],
        Key::Insert => seq![0x1bu8, 0x5b, 0x32, 0x7e],
        Key::Delete => seq![0x1bu8, 0x5b, 0x33, 0x7e],
        Key::Function(n) => function_bytes(n),
        Key::Char(c) => char_bytes(c, ctrl),
        Key::Keypad(c) => char_bytes(c, ctrl),
        Key::Modifier => Seq::empty(),
        Key::Other => Seq::empty(),
    }
}

fn three(a: u8, b: u8, c: u8) -> (bytes: Vec<u8>)
    ensures
        bytes@ == seq![a, b, c],
{
    let mut bytes: Vec<u8> = Vec::new();
    bytes.push(a);
    bytes.push(b);
    bytes.push(c);
    assert(bytes@ =~= seq![a, b, c]);
    bytes
}

fn one(a: u8) -> (bytes: Vec<u8>)
    ensures
        bytes@ == seq![a],
{
    let mut bytes: Vec<u8> = Vec::new();
    bytes.push(a);
    assert(bytes@ =~= seq![a]);
    bytes
}

/// `ESC [`, one digit and `~`.
fn editing(digit: u8) -> (bytes: Vec<u8>)
    ensures
        bytes@ == seq![0x1bu8, 0x5b, digit, 0x7e],
{
    let mut bytes = three(0x1b, 0x5b, digit);
    bytes.push(0x7e);
    assert(bytes@ =~= seq![0x1bu8, 0x5b, digit, 0x7e]);
    bytes
}

fn encode_cursor(app_cursor: bool, last: u8) -> (bytes: Vec<u8>)
    ensures
        bytes@ == cursor_bytes(app_cursor, last),
{
    three(
        0x1b,
        if app_cursor {
            0x4f
        } else {
            0x5b
        },
        last,
    )
}

/// `ESC [`, two digits and `~`.
fn numbered(tens: u8, units: u8) -> (bytes: Vec<u8>)
    ensures
        bytes@ == seq![0x1bu8, 0x5b, tens, units, 0x7e],
{
    let mut bytes = three(0x1b, 0x5b, tens);
    bytes.push(units);
    bytes.push(0x7e);
    assert(bytes@ =~= seq![0x1bu8, 0x5b, tens, units, 0x7e]);
    bytes
}

fn encode_function(n: u8) -> (bytes: Vec<u8>)
    ensures
        bytes@ == function_bytes(n),
{
    match n {
        1 => three(0x1b, 0x4f, 0x50),
        2 => three(0x1b, 0x4f, 0x51),
        3 => three(0x1b, 0x4f, 0x52),
        4 => three(0x1b, 0x4f, 0x53),
        5 => numbered(0x31, 0x35),
        6 => numbered(0x31, 0x37),
        7 => numbered(0x31, 0x38),
        8 => numbered(0x31, 0x39),
        9 => numbered(0x32, 0x30),
        10 => numbered(0x32, 0x31),
        11 => numbered(0x32, 0x33),
        12 => numbered(0x32, 0x34),
        _ => Vec::new(),
    }
}

fn encode_char(c: char, ctrl: bool) -> (bytes: Vec<u8>)
    ensures
        bytes@ == char_bytes(c, ctrl),
{
    if ctrl && 'a' <= c && c <= 'z' {
        return one((c as u32 - 'a' as u32 + 1) as u8);
    }
    if ctrl && 'A' <= c && c <= 'Z' {
        return one((c as u32 - 'A' as u32 + 1) as u8);
    }
    let mut s = String::new();
    s.push(c);
    assert(s@ =~= seq![c]);
    slice_to_vec(s.as_str().as_bytes())
}

/// Turn a key into bytes for the app. Empty for keys that send nothing.
///
/// `app_cursor` is the grid's DECCKM state: when true the arrow, Home and End
/// keys transmit in application mode (`ESC O x`) rather than normal mode
/// (`ESC [ x`). Apps that enable it don't recognise arrows sent in the wrong
/// mode.
pub fn encode_key(key: Key, modifiers: Modifiers, app_cursor: bool) -> (bytes: Vec<u8>)
    ensures
        bytes@ == key_bytes(key, modifiers.ctrl, app_cursor),
{
    match key {
        Key::Enter => one(0x0d),
        Key::BackSpace => one(0x7f),
        Key::Tab => one(0x09),
        Key::Escape => one(0x1b),
        Key::Up => encode_cursor(app_cursor, 0x41),
        Key::Down => encode_cursor(app_cursor, 0x42),
        Key::Right => encode_cursor(app_cursor, 0x43),
        Key::Left => encode_cursor(app_cursor, 0x44),
        Key::Home => encode_cursor(app_cursor, 0x48),
        Key::End => encode_cursor(app_cursor, 0x46),
        Key::PageUp => editing(0x35),
        Key::PageDown => editing(0x36),
        Key::Insert => editing(0x32),
        Key::Delete => editing(0x33),
        Key::Function(n) => encode_function(n),
        Key::Char(c) => encode_char(c, modifiers.ctrl),
        Key::Keypad(c) => encode_char(c, modifiers.ctrl),
        Key::Modifier => Vec::new(),
        Key::Other => Vec::new(),
    }
}

/// Pasted text as it goes out: between `ESC [200~` and `ESC [201~` if the app
/// has asked for bracketed paste.
pub open spec fn paste_bytes(text: Seq<char>, bracketed: bool) -> Seq<u8> {
    if bracketed {
        seq![0x1bu8, 0x5b, 0x32, 0x30, 0x30, 0x7e] + utf8::encode_utf8(text) + seq![
            0x1bu8,
            0x5b,
            0x32,
            0x30,
            0x31,
            0x7e,
        ]
    } else {
        utf8::encode_utf8(text)
    }
}

/// Executable [`paste_bytes`].
pub fn encode_paste(text: &str, bracketed: bool) -> (bytes: Vec<u8>)
    ensures
        bytes@ == paste_bytes(text@, bracketed),
{
    if !bracketed {
        return slice_to_vec(text.as_bytes());
    }
    let mut bytes = three(0x1b, 0x5b, 0x32);
    bytes.push(0x30);
    bytes.push(0x30);
    bytes.push(0x7e);
    bytes.extend_from_slice(text.as_bytes());
    bytes.push(0x1b);
    bytes.push(0x5b);
    bytes.push(0x32);
    bytes.push(0x30);
    bytes.push(0x31);
    bytes.push(0x7e);
    assert(bytes@ =~= paste_bytes(text@, true));
    bytes
}

// ---- laws ----
/// One of the keys that application mode changes.
pub open spec fn is_cursor_key(key: Key) -> bool {
    key is Up || key is Down || key is Right || key is Left || key is Home || key is End
}

/// In application mode each cursor key sends what it sends in normal mode, with
/// `O` in place of the bracket. No other key depends on the mode, and Control
/// makes no difference to any of them.
pub proof fn law_application_mode_changes_one_byte(key: Key, ctrl: bool)
    ensures
        ({
            let normal = key_bytes(key, ctrl, false);
            let application = key_bytes(key, ctrl, true);
            if is_cursor_key(key) {
                &&& normal.len() == 3 && application.len() == 3
                &&& normal[0] == 0x1b && application[0] == 0x1b
                &&& normal[1] == 0x5b && application[1] == 0x4f
                &&& normal[2] == application[2]
                &&& normal == key_bytes(key, !ctrl, false)
            } else {
                normal == application
            }
        }),
{
}

/// In normal mode an arrow key sends the sequence that moves the cursor its way,
/// and Home the one that moves it to the top left.
pub proof fn law_arrow_keys_send_cursor_movements(s: Screen, ctrl: bool)
    requires
        s.wf(),
        s.rows > 0,
        s.cols > 0,
    ensures
        ({
            let sent = |key: Key|
                vt::screen_csi(s, None, None, key_bytes(key, ctrl, false)[2] as char);
            &&& s.cursor_row > 0 ==> sent(Key::Up).cursor_row == s.cursor_row - 1
            &&& s.cursor_row + 1 < s.rows ==> sent(Key::Down).cursor_row == s.cursor_row + 1
            &&& s.cursor_col > 0 ==> sent(Key::Left).cursor_col == s.cursor_col - 1
            &&& s.cursor_col + 1 < s.cols ==> sent(Key::Right).cursor_col == s.cursor_col + 1
            &&& sent(Key::Up).cursor_col == s.cursor_col
            &&& sent(Key::Down).cursor_col == s.cursor_col
            &&& sent(Key::Left).cursor_row == s.cursor_row
            &&& sent(Key::Right).cursor_row == s.cursor_row
            &&& sent(Key::Home).cursor_row == 0 && sent(Key::Home).cursor_col == 0
        }),
{
}

/// A key with a name of its own: it does not stand for a character.
pub open spec fn is_named(key: Key) -> bool {
    match key {
        Key::Function(n) => 1 <= n <= 12,
        Key::Char(_) | Key::Keypad(_) | Key::Modifier | Key::Other => false,
        _ => true,
    }
}

/// The places where the bytes of two named keys can differ.
spec fn signature(key: Key, app_cursor: bool) -> (nat, u8, u8, u8) {
    let b = key_bytes(key, false, app_cursor);
    (
        b.len(),
        b[0],
        if b.len() > 2 {
            b[2]
        } else {
            0
        },
        if b.len() > 3 {
            b[3]
        } else {
            0
        },
    )
}

/// Different named keys send different bytes, and each sends some.
pub proof fn law_named_keys_differ(a: Key, b: Key, ctrl: bool, app_cursor: bool)
    requires
        is_named(a),
        is_named(b),
        key_bytes(a, ctrl, app_cursor) == key_bytes(b, ctrl, app_cursor),
    ensures
        a == b,
        key_bytes(a, ctrl, app_cursor).len() > 0,
{
    assert(key_bytes(a, ctrl, app_cursor) == key_bytes(a, false, app_cursor));
    assert(key_bytes(b, ctrl, app_cursor) == key_bytes(b, false, app_cursor));
    assert(signature(a, app_cursor) == signature(b, app_cursor));
    assert(key_bytes(a, false, app_cursor)[1] == key_bytes(b, false, app_cursor)[1]);
}

/// The four keys that control the line: Enter sends a carriage return, Tab a
/// tab, Escape an escape and Backspace a delete, one byte each. What Enter and
/// Tab send does what the terminal calls by these names.
pub proof fn law_control_keys(t: Vt, ctrl: bool, app_cursor: bool)
    ensures
        ({
            let sent = |key: Key| key_bytes(key, ctrl, app_cursor);
            &&& sent(Key::Enter).len() == 1 && sent(Key::Tab).len() == 1
            &&& sent(Key::Escape).len() == 1 && sent(Key::BackSpace).len() == 1
            &&& t.execute(sent(Key::Enter)[0]).screen == t.screen.carriage_return()
            &&& t.execute(sent(Key::Tab)[0]).screen == t.screen.tab()
            &&& sent(Key::Escape)[0] == key_bytes(Key::Up, ctrl, app_cursor)[0]
            &&& sent(Key::BackSpace)[0] == 0x7f
        }),
{
}

/// The keys with a number send it between `ESC [` and a tilde: 2 and 3 are
/// Insert and Delete, 5 and 6 the pages; F5 is 15, F6 to F10 are 17 to 21, F11
/// and F12 are 23 and 24. F1 to F4 send `ESC O` and `P` to `S`. There are no
/// others.
pub proof fn law_numbered_keys(n: u8, ctrl: bool, app_cursor: bool)
    ensures
        ({
            let sent = |key: Key| key_bytes(key, ctrl, app_cursor);
            let f = sent(Key::Function(n));
            let numbered = |number: nat| seq![0x1bu8, 0x5b] + text::decimal(number) + seq![0x7eu8];
            &&& sent(Key::Insert) == numbered(2)
            &&& sent(Key::Delete) == numbered(3)
            &&& sent(Key::PageUp) == numbered(5)
            &&& sent(Key::PageDown) == numbered(6)
            &&& n == 5 ==> f == numbered(15)
            &&& 6 <= n <= 10 ==> f == numbered((n + 11) as nat)
            &&& 11 <= n <= 12 ==> f == numbered((n + 12) as nat)
            &&& 1 <= n <= 4 ==> f.len() == 3 && f[0] == 0x1b && f[1] == 0x4f && f[2] == 0x4f + n
            &&& n == 0 || n > 12 ==> f.len() == 0
        }),
{
    reveal_with_fuel(text::decimal, 3);
    assert forall|k: nat| 10 <= k < 30 implies #[trigger] text::decimal(k) =~= seq![
        (48 + k / 10) as u8,
        (48 + k % 10) as u8,
    ] by {}
    assert(text::decimal(15) =~= seq![0x31u8, 0x35]);
    assert(text::decimal(17) =~= seq![0x31u8, 0x37]);
    assert(text::decimal(18) =~= seq![0x31u8, 0x38]);
    assert(text::decimal(19) =~= seq![0x31u8, 0x39]);
    assert(text::decimal(20) =~= seq![0x32u8, 0x30]);
    assert(text::decimal(21) =~= seq![0x32u8, 0x31]);
    assert(text::decimal(23) =~= seq![0x32u8, 0x33]);
    assert(text::decimal(24) =~= seq![0x32u8, 0x34]);
}

/// Control and a letter is the low five bits of the letter, whether it is upper
/// or lower case; the keypad's keys send what the others do, and keys that stand
/// for no character send nothing.
pub proof fn law_control_letters(c: char, ctrl: bool, app_cursor: bool)
    ensures
        ('a' <= c <= 'z') || ('A' <= c <= 'Z') ==> key_bytes(Key::Char(c), true, app_cursor).len()
            == 1 && key_bytes(Key::Char(c), true, app_cursor)[0] == c as u32 % 32,
        key_bytes(Key::Keypad(c), ctrl, app_cursor) == key_bytes(Key::Char(c), ctrl, app_cursor),
        !(('a' <= c <= 'z') || ('A' <= c <= 'Z')) ==> key_bytes(Key::Char(c), true, app_cursor)
            == key_bytes(Key::Char(c), false, app_cursor),
        key_bytes(Key::Modifier, ctrl, app_cursor).len() == 0,
        key_bytes(Key::Other, ctrl, app_cursor).len() == 0,
{
}

/// A character by itself is sent as its UTF-8 encoding, so that what is sent
/// reads back as that character.
pub proof fn law_characters_are_sent_as_they_are(c: char, app_cursor: bool)
    ensures
        utf8::valid_utf8(key_bytes(Key::Char(c), false, app_cursor)),
        utf8::decode_utf8(key_bytes(Key::Char(c), false, app_cursor)) == seq![c],
{
    utf8::encode_utf8_valid_utf8(seq![c]);
    utf8::encode_utf8_decode_utf8(seq![c]);
}

/// Pasted text goes out unchanged. Brackets are six bytes on either side of it,
/// `ESC [`, 200 or 201, and a tilde.
pub proof fn law_paste_is_the_text(pasted: Seq<char>)
    ensures
        ({
            let plain = paste_bytes(pasted, false);
            let bracketed = paste_bytes(pasted, true);
            let marker = |number: nat| seq![0x1bu8, 0x5b] + text::decimal(number) + seq![0x7eu8];
            &&& utf8::valid_utf8(plain)
            &&& utf8::decode_utf8(plain) == pasted
            &&& bracketed == marker(200) + plain + marker(201)
        }),
{
    reveal_with_fuel(text::decimal, 4);
    utf8::encode_utf8_valid_utf8(pasted);
    utf8::encode_utf8_decode_utf8(pasted);
    assert(text::decimal(200) =~= seq![0x32u8, 0x30, 0x30]);
    assert(text::decimal(201) =~= seq![0x32u8, 0x30, 0x31]);
    assert(paste_bytes(pasted, true) =~= (seq![0x1bu8, 0x5b] + text::decimal(200) + seq![0x7eu8])
        + paste_bytes(pasted, false) + (seq![0x1bu8, 0x5b] + text::decimal(201) + seq![0x7eu8]));
}

} // verus!
