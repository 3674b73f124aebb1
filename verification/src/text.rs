//! Characters and numbers: the small pieces of text processing that the rest
//! of the library needs.
use vstd::prelude::*;
use vstd::slice::{slice_subrange, slice_to_vec};

verus! {

// ---- decimal numbers ----
/// The decimal digits of `n`, as ASCII, without leading zeros.
pub open spec fn decimal(n: nat) -> Seq<u8>
    decreases n,
{
    if n < 10 {
        seq![(48 + n) as u8]
    } else {
        decimal(n / 10).push((48 + n % 10) as u8)
    }
}

/// A number is known by its digits.
pub proof fn law_decimal_is_injective(n: nat, m: nat)
    requires
        decimal(n) == decimal(m),
    ensures
        n == m,
    decreases n,
{
    lemma_some_digit(n / 10);
    lemma_some_digit(m / 10);
    assert(decimal(n).last() == decimal(m).last());
    if n >= 10 && m >= 10 {
        assert(decimal(n).drop_last() =~= decimal(n / 10));
        assert(decimal(m).drop_last() =~= decimal(m / 10));
        law_decimal_is_injective(n / 10, m / 10);
        assert(decimal(n).last() == (48 + n % 10) as u8);
        assert(decimal(m).last() == (48 + m % 10) as u8);
    } else if n >= 10 {
        assert(decimal(n).len() > 1);
    } else if m >= 10 {
        assert(decimal(m).len() > 1);
    } else {
        assert(decimal(n)[0] == (48 + n) as u8);
        assert(decimal(m)[0] == (48 + m) as u8);
    }
}

proof fn lemma_some_digit(n: nat)
    ensures
        decimal(n).len() > 0,
{
}

/// Append the decimal digits of `n`.
pub fn push_decimal(out: &mut Vec<u8>, n: usize)
    ensures
        final(out)@ == old(out)@ + decimal(n as nat),
    decreases n,
{
    let ghost before = out@;
    if n >= 10 {
        push_decimal(out, n / 10);
        out.push(48 + (n % 10) as u8);
        assert(out@ =~= before + decimal(n as nat));
    } else {
        out.push(48 + n as u8);
        assert(out@ =~= before + decimal(n as nat));
    }
}

// ---- strings and characters ----
/// `String::push` appends one character.
pub assume_specification[ String::push ](s: &mut String, c: char)
    ensures
        final(s)@ == old(s)@.push(c),
;

/// The characters of a string.
pub fn chars_of(s: &str) -> (chars: Vec<char>)
    ensures
        chars@ == s@,
{
    let mut chars: Vec<char> = Vec::new();
    for c in it: s.chars()
        invariant
            it.seq() == s@,
            chars@ == s@.take(it.index()),
    {
        chars.push(c);
        assert(chars@ =~= s@.take(it.index() + 1));
    }
    assert(chars@ =~= s@);
    chars
}

/// A string of these characters.
pub fn string_of(chars: &[char]) -> (s: String)
    ensures
        s@ == chars@,
{
    let mut s = String::new();
    let mut i: usize = 0;
    while i < chars.len()
        invariant
            i <= chars@.len(),
            s@ == chars@.take(i as int),
        decreases chars@.len() - i,
    {
        s.push(chars[i]);
        i = i + 1;
        assert(s@ =~= chars@.take(i as int));
    }
    assert(s@ =~= chars@);
    s
}

/// Whether the characters are those of `s`.
pub fn is_text(chars: &[char], s: &str) -> (same: bool)
    ensures
        same == (chars@ == s@),
{
    let other = chars_of(s);
    if chars.len() != other.len() {
        return false;
    }
    let mut i: usize = 0;
    while i < chars.len()
        invariant
            i <= chars@.len(),
            chars@.len() == other@.len(),
            other@ == s@,
            forall|k: int| 0 <= k < i ==> chars@[k] == other@[k],
        decreases chars@.len() - i,
    {
        if chars[i] != other[i] {
            return false;
        }
        i = i + 1;
    }
    assert(chars@ =~= s@);
    true
}

/// Unicode's white space.
pub open spec fn is_white(c: char) -> bool {
    ||| 0x9 <= c as u32 <= 0xd
    ||| c as u32 == 0x20
    ||| c as u32 == 0x85
    ||| c as u32 == 0xa0
    ||| c as u32 == 0x1680
    ||| 0x2000 <= c as u32 <= 0x200a
    ||| c as u32 == 0x2028
    ||| c as u32 == 0x2029
    ||| c as u32 == 0x202f
    ||| c as u32 == 0x205f
    ||| c as u32 == 0x3000
}

/// Executable [`is_white`].
pub fn char_is_white(c: char) -> (white: bool)
    ensures
        white == is_white(c),
{
    match c as u32 {
        0x9..=0xd
        | 0x20
        | 0x85
        | 0xa0
        | 0x1680
        | 0x2000..=0x200a
        | 0x2028
        | 0x2029
        | 0x202f
        | 0x205f
        | 0x3000 => true,
        _ => false,
    }
}

/// What to strip off the ends of a text.
#[derive(Clone, Copy, PartialEq, Eq, Structural)]
pub enum Strip {
    White,
    Char(char),
}

/// Whether `c` is to be stripped.
pub open spec fn strips(what: Strip, c: char) -> bool {
    match what {
        Strip::White => is_white(c),
        Strip::Char(x) => c == x,
    }
}

/// The text without what is to be stripped at its start.
pub open spec fn strip_start(s: Seq<char>, what: Strip) -> Seq<char>
    decreases s.len(),
{
    if s.len() > 0 && strips(what, s[0]) {
        strip_start(s.skip(1), what)
    } else {
        s
    }
}

/// The text without what is to be stripped at its end.
pub open spec fn strip_end(s: Seq<char>, what: Strip) -> Seq<char>
    decreases s.len(),
{
    if s.len() > 0 && strips(what, s.last()) {
        strip_end(s.drop_last(), what)
    } else {
        s
    }
}

/// The text without what is to be stripped at either end.
pub open spec fn strip(s: Seq<char>, what: Strip) -> Seq<char> {
    strip_end(strip_start(s, what), what)
}

fn char_strips(what: Strip, c: char) -> (yes: bool)
    ensures
        yes == strips(what, c),
{
    match what {
        Strip::White => char_is_white(c),
        Strip::Char(x) => c == x,
    }
}

/// Executable [`strip_start`].
pub fn stripped_start<'a>(s: &'a [char], what: Strip) -> (rest: &'a [char])
    ensures
        rest@ == strip_start(s@, what),
{
    let mut i: usize = 0;
    assert(s@.skip(0) =~= s@);
    while i < s.len() && char_strips(what, s[i])
        invariant
            i <= s@.len(),
            strip_start(s@.skip(i as int), what) == strip_start(s@, what),
        decreases s@.len() - i,
    {
        assert(s@.skip(i as int).skip(1) =~= s@.skip(i + 1));
        i = i + 1;
    }
    assert(s@.subrange(i as int, s@.len() as int) =~= s@.skip(i as int));
    slice_subrange(s, i, s.len())
}

/// Executable [`strip_end`].
pub fn stripped_end<'a>(s: &'a [char], what: Strip) -> (rest: &'a [char])
    ensures
        rest@ == strip_end(s@, what),
{
    let mut n: usize = s.len();
    assert(s@.take(n as int) =~= s@);
    while n > 0 && char_strips(what, s[n - 1])
        invariant
            n <= s@.len(),
            strip_end(s@.take(n as int), what) == strip_end(s@, what),
        decreases n,
    {
        assert(s@.take(n as int).drop_last() =~= s@.take(n - 1));
        n = n - 1;
    }
    assert(s@.subrange(0, n as int) =~= s@.take(n as int));
    slice_subrange(s, 0, n)
}

/// Executable [`strip`].
pub fn stripped<'a>(s: &'a [char], what: Strip) -> (rest: &'a [char])
    ensures
        rest@ == strip(s@, what),
{
    stripped_end(stripped_start(s, what), what)
}

/// The place of the first `c`, or the end of the text.
pub open spec fn find(s: Seq<char>, c: char) -> int
    decreases s.len(),
{
    if s.len() == 0 || s[0] == c {
        0
    } else {
        1 + find(s.skip(1), c)
    }
}

/// The parts of a text between the separators. There is always at least one.
pub open spec fn split(s: Seq<char>, separator: char) -> Seq<Seq<char>>
    decreases s.len(),
{
    let at = find(s, separator);
    if at < 0 || at >= s.len() {
        seq![s]
    } else {
        seq![s.take(at)] + split(s.skip(at + 1), separator)
    }
}

/// Executable [`find`].
pub fn found(s: &[char], c: char) -> (at: usize)
    ensures
        at == find(s@, c),
        at <= s@.len(),
        at < s@.len() ==> s@[at as int] == c,
{
    let mut i: usize = 0;
    assert(s@.skip(0) =~= s@);
    while i < s.len() && s[i] != c
        invariant
            i <= s@.len(),
            i + find(s@.skip(i as int), c) == find(s@, c),
        decreases s@.len() - i,
    {
        assert(s@.skip(i as int).skip(1) =~= s@.skip(i + 1));
        i = i + 1;
    }
    i
}

/// The parts as the model has them.
pub open spec fn parts_of(parts: Seq<Vec<char>>) -> Seq<Seq<char>> {
    parts.map_values(|p: Vec<char>| p@)
}

/// Executable [`split`].
pub fn split_text(s: &[char], separator: char) -> (parts: Vec<Vec<char>>)
    ensures
        parts_of(parts@) == split(s@, separator),
{
    let mut parts: Vec<Vec<char>> = Vec::new();
    let mut from: usize = 0;
    assert(s@.skip(0) =~= s@);
    assert(parts_of(parts@) + split(s@, separator) =~= split(s@, separator));
    loop
        invariant
            from <= s@.len(),
            parts_of(parts@) + split(s@.skip(from as int), separator) == split(s@, separator),
        decreases s@.len() - from,
    {
        let rest = slice_subrange(s, from, s.len());
        assert(rest@ =~= s@.skip(from as int));
        let at: usize = found(rest, separator);
        let part = slice_to_vec(slice_subrange(rest, 0, at));
        assert(part@ =~= rest@.take(at as int));
        let ghost before = parts_of(parts@);
        parts.push(part);
        assert(parts_of(parts@) =~= before.push(rest@.take(at as int)));
        if at >= rest.len() {
            assert(rest@.take(at as int) =~= rest@);
            assert(parts_of(parts@) =~= before + split(rest@, separator));
            return parts;
        }
        proof {
            let more = split(rest@.skip(at + 1), separator);
            assert(rest@.skip(at + 1) =~= s@.skip(from + at + 1));
            assert(before.push(rest@.take(at as int)) + more =~= before + (seq![
                rest@.take(at as int),
            ] + more));
        }
        from = from + at + 1;
    }
}

/// The text without its white space.
pub open spec fn without_white(s: Seq<char>) -> Seq<char>
    decreases s.len(),
{
    if s.len() == 0 {
        s
    } else if is_white(s.last()) {
        without_white(s.drop_last())
    } else {
        without_white(s.drop_last()).push(s.last())
    }
}

/// Executable [`without_white`].
pub fn unspaced(s: &[char]) -> (rest: Vec<char>)
    ensures
        rest@ == without_white(s@),
{
    let mut rest: Vec<char> = Vec::new();
    let mut i: usize = 0;
    while i < s.len()
        invariant
            i <= s@.len(),
            rest@ == without_white(s@.take(i as int)),
        decreases s@.len() - i,
    {
        assert(s@.take(i + 1).drop_last() =~= s@.take(i as int));
        if !char_is_white(s[i]) {
            rest.push(s[i]);
        }
        i = i + 1;
    }
    assert(s@.take(i as int) =~= s@);
    rest
}

// ---- laws ----
/// Of ASCII, white space is the space and the five controls from tab to carriage
/// return.
pub proof fn law_ascii_white_space(c: char)
    requires
        (c as u32) < 128,
    ensures
        is_white(c) <==> c == ' ' || c == '\t' || c == '\n' || c as u32 == 11 || c as u32 == 12
            || c == '\r',
{
}

/// The characters from `a` up to `b` are to be stripped.
pub open spec fn all_strip(s: Seq<char>, what: Strip, a: int, b: int) -> bool {
    forall|i: int| a <= i < b ==> strips(what, #[trigger] s[i])
}

/// What stripping leaves is what was between the two ends: all that was taken off
/// was to be, and nothing more is to be taken off.
pub proof fn law_stripping_takes_off_the_ends(s: Seq<char>, what: Strip)
    ensures
        ({
            let t = strip_start(s, what);
            &&& t.len() <= s.len() && t == s.skip(s.len() - t.len())
            &&& all_strip(s, what, 0, s.len() - t.len())
            &&& t.len() > 0 ==> !strips(what, t[0])
        }),
        ({
            let t = strip_end(s, what);
            &&& t.len() <= s.len() && t == s.take(t.len() as int)
            &&& all_strip(s, what, t.len() as int, s.len() as int)
            &&& t.len() > 0 ==> !strips(what, t.last())
        }),
        strip(s, what) == strip_end(strip_start(s, what), what),
    decreases s.len(),
{
    let a = strip_start(s, what);
    let b = strip_end(s, what);
    if s.len() > 0 {
        if strips(what, s[0]) {
            let t = s.skip(1);
            law_stripping_takes_off_the_ends(t, what);
            assert(t.skip(t.len() - a.len()) =~= s.skip(s.len() - a.len()));
            assert forall|i: int| 0 <= i < s.len() - a.len() implies strips(
                what,
                #[trigger] s[i],
            ) by {
                if i > 0 {
                    assert(t[i - 1] == s[i]);
                }
            }
        } else {
            assert(s.skip(0) =~= s);
        }
        if strips(what, s.last()) {
            let t = s.drop_last();
            law_stripping_takes_off_the_ends(t, what);
            assert(t.take(b.len() as int) =~= s.take(b.len() as int));
            assert forall|i: int| b.len() <= i < s.len() implies strips(what, #[trigger] s[i]) by {
                if i < s.len() - 1 {
                    assert(t[i] == s[i]);
                }
            }
        } else {
            assert(s.take(s.len() as int) =~= s);
        }
    } else {
        assert(s.skip(0) =~= s);
        assert(s.take(0) =~= s);
    }
}

/// What is found is the first.
pub proof fn law_first_is_found(s: Seq<char>, c: char)
    ensures
        0 <= find(s, c) <= s.len(),
        forall|i: int| 0 <= i < find(s, c) ==> s[i] != c,
        find(s, c) < s.len() ==> s[find(s, c)] == c,
    decreases s.len(),
{
    if s.len() > 0 && s[0] != c {
        let t = s.skip(1);
        law_first_is_found(t, c);
        assert forall|i: int| 0 <= i < find(s, c) implies s[i] != c by {
            if i > 0 {
                assert(t[i - 1] == s[i]);
            }
        }
    }
}

/// The parts put together again, with the separator between them.
pub open spec fn joined(parts: Seq<Seq<char>>, separator: char) -> Seq<char>
    decreases parts.len(),
{
    if parts.len() == 0 {
        Seq::empty()
    } else if parts.len() == 1 {
        parts[0]
    } else {
        parts[0] + seq![separator] + joined(parts.skip(1), separator)
    }
}

/// Splitting loses nothing: the parts put together again are the text, and no
/// part has a separator in it.
pub proof fn law_splitting_loses_nothing(s: Seq<char>, separator: char)
    ensures
        joined(split(s, separator), separator) == s,
        split(s, separator).len() >= 1,
        forall|i: int|
            0 <= i < split(s, separator).len() ==> !(#[trigger] split(s, separator)[i]).contains(
                separator,
            ),
    decreases s.len(),
{
    let at = find(s, separator);
    law_first_is_found(s, separator);
    let parts = split(s, separator);
    if at < s.len() {
        let rest = s.skip(at + 1);
        let more = split(rest, separator);
        law_splitting_loses_nothing(rest, separator);
        assert(parts.skip(1) =~= more);
        assert(joined(parts, separator) =~= s);
        assert forall|i: int| 0 <= i < parts.len() implies !(#[trigger] parts[i]).contains(
            separator,
        ) by {
            if i > 0 {
                assert(parts[i] == more[i - 1]);
            }
        }
    }
}

/// Leaving out white space leaves out all of it and nothing else, in order: it
/// does not matter where a text is cut.
pub proof fn law_white_space_is_left_out(a: Seq<char>, b: Seq<char>, c: char)
    ensures
        without_white(a + b) == without_white(a) + without_white(b),
        without_white(seq![c]) == if is_white(c) {
            Seq::<char>::empty()
        } else {
            seq![c]
        },
        without_white(Seq::empty()) == Seq::<char>::empty(),
    decreases b.len(),
{
    reveal_with_fuel(without_white, 2);
    assert(seq![c].drop_last() =~= Seq::<char>::empty());
    assert(without_white(seq![c]) =~= if is_white(c) {
        Seq::<char>::empty()
    } else {
        seq![c]
    });
    if b.len() == 0 {
        assert(a + b =~= a);
        assert(without_white(a) + without_white(b) =~= without_white(a));
    } else {
        law_white_space_is_left_out(a, b.drop_last(), c);
        assert((a + b).drop_last() =~= a + b.drop_last());
        assert((a + b).last() == b.last());
        assert(without_white(a + b) =~= without_white(a) + without_white(b));
    }
}

} // verus!
