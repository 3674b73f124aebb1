//! What SGR sequences do to colors and attributes.
use vstd::prelude::*;
use crate::color::{CellColor, Color};
use crate::screen::Screen;
use crate::vt;
use crate::vt::{Event, Vt};

verus! {

/// A palette color is the entry of that number, all 256 of them: code 38 makes
/// it the foreground and 48 the background, and the codes behind go on from
/// there.
pub proof fn law_palette_colors(s: Screen, n: u16, more: Seq<u16>)
    requires
        n < 256,
    ensures
        vt::sgr_codes(s, seq![38u16, 5, n] + more) == vt::sgr_codes(
            Screen { fg: CellColor::Palette(n as u8), ..s },
            more,
        ),
        vt::sgr_codes(s, seq![48u16, 5, n] + more) == vt::sgr_codes(
            Screen { bg: CellColor::Palette(n as u8), ..s },
            more,
        ),
        vt::sgr_codes(s, seq![38u16, 5, n]).fg == CellColor::Palette(n as u8),
        vt::sgr_codes(s, seq![48u16, 5, n]).bg == CellColor::Palette(n as u8),
{
    reveal_with_fuel(vt::sgr_codes, 3);
    let (f, b) = (seq![38u16, 5, n] + more, seq![48u16, 5, n] + more);
    assert(f.skip(1).skip(2) =~= more);
    assert(b.skip(1).skip(2) =~= more);
    assert(f.skip(1)[0] == 5 && f.skip(1)[1] == n);
    assert(b.skip(1)[0] == 5 && b.skip(1)[1] == n);
    let (f0, b0) = (seq![38u16, 5, n], seq![48u16, 5, n]);
    assert(f0.skip(1)[0] == 5 && f0.skip(1)[1] == n && f0.skip(1).skip(2).len() == 0);
    assert(b0.skip(1)[0] == 5 && b0.skip(1)[1] == n && b0.skip(1).skip(2).len() == 0);
}

/// Different entries of the palette are different colors.
pub proof fn law_palette_entries_differ(s: Screen, n: u16, m: u16)
    requires
        n < 256,
        m < 256,
        n != m,
    ensures
        vt::sgr_codes(s, seq![38u16, 5, n]).fg != vt::sgr_codes(s, seq![38u16, 5, m]).fg,
        vt::sgr_codes(s, seq![48u16, 5, n]).bg != vt::sgr_codes(s, seq![48u16, 5, m]).bg,
{
    law_palette_colors(s, n, seq![]);
    law_palette_colors(s, m, seq![]);
}

proof fn lemma_direct_codes(code: u16, r: u16, g: u16, b: u16, more: Seq<u16>)
    ensures
        ({
            let rest = (seq![code, 2, r, g, b] + more).skip(1);
            &&& rest.skip(3) == seq![b] + more && rest.len() >= 4
            &&& rest[0] == 2 && rest[1] == r && rest[2] == g && rest[3] == b
        }),
        ({
            let rest = (seq![code, 2, 0, r, g, b] + more).skip(1);
            &&& rest.skip(4) == seq![b] + more && rest.len() >= 5
            &&& rest[0] == 2 && rest[1] == 0 && rest[2] == r
            &&& rest[3] == g && rest[4] == b
        }),
        (seq![code, 2, r, g, b] + more).len() == 5 + more.len(),
        (seq![code, 2, r, g, b] + more)[0] == code,
        (seq![code, 2, 0, r, g, b] + more)[0] == code,
{
    assert((seq![code, 2, r, g, b] + more).skip(1).skip(3) =~= seq![b] + more);
    assert((seq![code, 2, 0, r, g, b] + more).skip(1).skip(4) =~= seq![b] + more);
}

/// A direct color has the red, green and blue that are given, in this order, and
/// is opaque. A color space of 0 in front of them is passed over. The last
/// component is read once more, as a code of its own.
pub proof fn law_direct_colors(s: Screen, r: u16, g: u16, b: u16, more: Seq<u16>)
    requires
        r < 256,
        g < 256,
        b < 256,
    ensures
        ({
            let color = CellColor::Rgb(Color { r: r as u8, g: g as u8, b: b as u8, a: 255 });
            let again = seq![b] + more;
            &&& r != 0 || more.len() == 0 ==> vt::sgr_codes(s, seq![38u16, 2, r, g, b] + more)
                == vt::sgr_codes(Screen { fg: color, ..s }, again)
            &&& r != 0 || more.len() == 0 ==> vt::sgr_codes(s, seq![48u16, 2, r, g, b] + more)
                == vt::sgr_codes(Screen { bg: color, ..s }, again)
            &&& vt::sgr_codes(s, seq![38u16, 2, 0, r, g, b] + more) == vt::sgr_codes(
                Screen { fg: color, ..s },
                again,
            )
            &&& vt::sgr_codes(s, seq![48u16, 2, 0, r, g, b] + more) == vt::sgr_codes(
                Screen { bg: color, ..s },
                again,
            )
        }),
{
    lemma_direct_codes(38, r, g, b, more);
    lemma_direct_codes(48, r, g, b, more);
}

/// Where the last component is no code, the direct color is all that changes.
pub proof fn law_direct_color_alone(s: Screen, r: u16, g: u16, b: u16)
    requires
        r < 256,
        g < 256,
        107 < b < 256,
    ensures
        ({
            let color = CellColor::Rgb(Color { r: r as u8, g: g as u8, b: b as u8, a: 255 });
            &&& vt::sgr_codes(s, seq![38u16, 2, r, g, b]) == Screen { fg: color, ..s }
            &&& vt::sgr_codes(s, seq![48u16, 2, r, g, b]) == Screen { bg: color, ..s }
        }),
{
    let none = Seq::<u16>::empty();
    law_direct_colors(s, r, g, b, none);
    assert(seq![38u16, 2, r, g, b] + none =~= seq![38u16, 2, r, g, b]);
    assert(seq![48u16, 2, r, g, b] + none =~= seq![48u16, 2, r, g, b]);
    assert(seq![b] + none =~= seq![b]);
    let color = CellColor::Rgb(Color { r: r as u8, g: g as u8, b: b as u8, a: 255 });
    law_named_colors_and_attributes(Screen { fg: color, ..s }, 0, b);
    law_named_colors_and_attributes(Screen { bg: color, ..s }, 0, b);
}

/// A code that does not start a longer color acts on its own, and the codes
/// behind go on from there.
pub proof fn law_sgr_codes_act_in_turn(s: Screen, code: u16, more: Seq<u16>)
    requires
        code != 38,
        code != 48,
    ensures
        vt::sgr_codes(s, seq![code] + more) == vt::sgr_codes(
            vt::sgr_codes(s, seq![code]),
            more,
        ),
{
    reveal_with_fuel(vt::sgr_codes, 2);
    assert((seq![code] + more).skip(1) =~= more);
    assert(seq![code].skip(1) =~= Seq::<u16>::empty());
    assert((seq![code] + more)[0] == code);
}

/// The named colors: 30 to 37 and 90 to 97 are the first and the second eight
/// entries of the palette for the foreground, 40 to 47 and 100 to 107 for the
/// background; 39 and 49 are the defaults. 1 and 22 turn bold on and off, 7 and
/// 27 reverse video, 0 everything. Other codes do nothing.
pub proof fn law_named_colors_and_attributes(s: Screen, k: u16, code: u16)
    requires
        k < 8,
    ensures
        vt::sgr_codes(s, seq![(30 + k) as u16]) == (Screen {
            fg: CellColor::Palette(k as u8),
            ..s
        }),
        vt::sgr_codes(s, seq![(40 + k) as u16]) == (Screen {
            bg: CellColor::Palette(k as u8),
            ..s
        }),
        vt::sgr_codes(s, seq![(90 + k) as u16]) == (Screen {
            fg: CellColor::Palette((k + 8) as u8),
            ..s
        }),
        vt::sgr_codes(s, seq![(100 + k) as u16]) == (Screen {
            bg: CellColor::Palette((k + 8) as u8),
            ..s
        }),
        vt::sgr_codes(s, seq![39u16]) == (Screen { fg: CellColor::Default, ..s }),
        vt::sgr_codes(s, seq![49u16]) == (Screen { bg: CellColor::Default, ..s }),
        vt::sgr_codes(s, seq![1u16]) == (Screen { bold: true, ..s }),
        vt::sgr_codes(s, seq![22u16]) == (Screen { bold: false, ..s }),
        vt::sgr_codes(s, seq![7u16]) == (Screen { reverse: true, ..s }),
        vt::sgr_codes(s, seq![27u16]) == (Screen { reverse: false, ..s }),
        vt::sgr_codes(s, seq![0u16]) == (Screen {
            fg: CellColor::Default,
            bg: CellColor::Default,
            bold: false,
            reverse: false,
            ..s
        }),
        code != 0 && code != 1 && code != 7 && code != 22 && code != 27 && !(30 <= code <= 37)
            && code != 39 && !(40 <= code <= 47) && code != 49 && !(90 <= code <= 97) && !(100
            <= code <= 107) ==> vt::sgr_codes(s, seq![code]) == s,
{
    reveal_with_fuel(vt::sgr_codes, 2);
    assert(seq![(30 + k) as u16].skip(1).len() == 0);
    assert(seq![(40 + k) as u16].skip(1).len() == 0);
    assert(seq![(90 + k) as u16].skip(1).len() == 0);
    assert(seq![(100 + k) as u16].skip(1).len() == 0);
    assert(seq![code].skip(1).len() == 0);
    assert(seq![39u16].skip(1).len() == 0);
    assert(seq![49u16].skip(1).len() == 0);
    assert(seq![1u16].skip(1).len() == 0);
    assert(seq![22u16].skip(1).len() == 0);
    assert(seq![7u16].skip(1).len() == 0);
    assert(seq![27u16].skip(1).len() == 0);
    assert(seq![0u16].skip(1).len() == 0);
}

/// An SGR sequence does what its codes do, whether they are separated as
/// parameters or as subparameters; without any it resets the attributes.
pub proof fn law_sgr_sequence(t: Vt, params: Seq<Seq<u16>>, last: Seq<u16>)
    ensures
        vt::flat(Seq::empty()) == Seq::<u16>::empty(),
        vt::flat(params.push(last)) == vt::flat(params) + last,
        ({
            let after = t.perform(
                Event::Csi { params, intermediates: Seq::empty(), action: 'm' },
            );
            &&& vt::flat(params).len() > 0 ==> after == Vt {
                screen: vt::sgr_codes(t.screen, vt::flat(params)),
                ..t
            }
            &&& vt::flat(params).len() == 0 ==> after == Vt {
                screen: Screen {
                    fg: CellColor::Default,
                    bg: CellColor::Default,
                    bold: false,
                    reverse: false,
                    ..t.screen
                },
                ..t
            }
        }),
{
    assert(params.push(last).drop_last() =~= params);
}

/// The palette sequences as they come, with semicolons or with colons.
pub proof fn law_palette_sequences(t: Vt, code: u16, n: u16)
    requires
        n < 256,
        code == 38 || code == 48,
    ensures
        ({
            let none = Seq::<u8>::empty();
            let semicolons = Event::Csi {
                params: seq![seq![code], seq![5u16], seq![n]],
                intermediates: none,
                action: 'm',
            };
            let colons = Event::Csi {
                params: seq![seq![code, 5, n]],
                intermediates: none,
                action: 'm',
            };
            &&& code == 38 ==> t.perform(semicolons).screen.fg == CellColor::Palette(n as u8)
            &&& code == 48 ==> t.perform(semicolons).screen.bg == CellColor::Palette(n as u8)
            &&& code == 38 ==> t.perform(colons).screen.fg == CellColor::Palette(n as u8)
            &&& code == 48 ==> t.perform(colons).screen.bg == CellColor::Palette(n as u8)
        }),
{
    reveal_with_fuel(vt::flat, 4);
    let a = seq![seq![code], seq![5u16], seq![n]];
    let d = seq![seq![code, 5, n]];
    assert(a.drop_last() =~= seq![seq![code], seq![5u16]]);
    assert(a.drop_last().drop_last() =~= seq![seq![code]]);
    assert(a.drop_last().drop_last().drop_last() =~= Seq::<Seq<u16>>::empty());
    assert(d.drop_last() =~= Seq::<Seq<u16>>::empty());
    assert(vt::flat(a) =~= seq![code, 5, n]);
    assert(vt::flat(d) =~= seq![code, 5, n]);
    law_sgr_sequence(t, a, seq![]);
    law_sgr_sequence(t, d, seq![]);
    law_palette_colors(t.screen, n, seq![]);
}

} // verus!
