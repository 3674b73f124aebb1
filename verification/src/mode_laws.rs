//! What the private modes do.
use vstd::prelude::*;
use crate::grid::MouseMode;
use crate::screen::Screen;
use crate::vt::{Event, Vt};

verus! {

/// A DEC private mode set (`h`) or reset (`l`).
pub open spec fn mode_sequence(modes: Seq<Seq<u16>>, set: bool) -> Event {
    Event::Csi {
        params: modes,
        intermediates: seq![0x3fu8],
        action: if set {
            'h'
        } else {
            'l'
        },
    }
}

proof fn lemma_modes(t: Vt, modes: Seq<Seq<u16>>, last: u16, set: bool)
    ensures
        t.perform(mode_sequence(modes, set)) == t.private_modes(modes, set),
        t.private_modes(modes.push(seq![last]), set) == t.private_modes(modes, set).private_mode(
            last,
            set,
        ),
        t.private_modes(Seq::empty(), set) == t,
{
    assert(modes.push(seq![last]).drop_last() =~= modes);
    assert(modes.push(seq![last]).last() == seq![last]);
    assert(seq![last][0] == last && seq![last].len() == 1);
    assert(seq![0x3fu8].len() == 1);
}

/// The modes of one sequence are set one after the other.
pub proof fn law_modes_are_set_in_turn(t: Vt, modes: Seq<Seq<u16>>, last: u16, set: bool)
    ensures
        t.perform(mode_sequence(modes.push(seq![last]), set)) == t.perform(
            mode_sequence(modes, set),
        ).perform(mode_sequence(seq![seq![last]], set)),
        t.perform(mode_sequence(Seq::empty(), set)) == t,
{
    let none = Seq::<Seq<u16>>::empty();
    let u = t.private_modes(modes, set);
    lemma_modes(t, modes, last, set);
    lemma_modes(t, modes.push(seq![last]), last, set);
    lemma_modes(t, none, last, set);
    lemma_modes(u, none, last, set);
    lemma_modes(u, none.push(seq![last]), last, set);
    assert(none.push(seq![last]) =~= seq![seq![last]]);
}

proof fn lemma_one_mode(t: Vt, mode: u16, set: bool)
    ensures
        t.perform(mode_sequence(seq![seq![mode]], set)) == t.private_mode(mode, set),
{
    let none = Seq::<Seq<u16>>::empty();
    lemma_modes(t, none, mode, set);
    lemma_modes(t, none.push(seq![mode]), mode, set);
    assert(none.push(seq![mode]) =~= seq![seq![mode]]);
}

/// The terminal after one private mode.
pub open spec fn with_mode(t: Vt, mode: u16, set: bool) -> Vt {
    t.perform(mode_sequence(seq![seq![mode]], set))
}

/// Mode 1 is the cursor keys' application mode and 25 shows the cursor.
pub proof fn law_cursor_modes(t: Vt, set: bool)
    ensures
        with_mode(t, 1, set).screen == (Screen { app_cursor_keys: set, ..t.screen }),
        with_mode(t, 25, set).screen == (Screen {
            cursor_visible: set,
            dirty: with_mode(t, 25, set).screen.dirty,
            ..t.screen
        }),
{
    lemma_one_mode(t, 1, set);
    lemma_one_mode(t, 25, set);
}

/// Modes 1000, 1002 and 1003 ask for reports of the mouse, each of its own kind,
/// and for none when any of them is reset.
pub proof fn law_mouse_modes(t: Vt, set: bool)
    ensures
        with_mode(t, 1000, set).screen == (Screen {
            mouse_mode: if set { MouseMode::Normal } else { MouseMode::Off },
            ..t.screen
        }),
        with_mode(t, 1002, set).screen == (Screen {
            mouse_mode: if set { MouseMode::ButtonMotion } else { MouseMode::Off },
            ..t.screen
        }),
        with_mode(t, 1003, set).screen == (Screen {
            mouse_mode: if set { MouseMode::AnyMotion } else { MouseMode::Off },
            ..t.screen
        }),
{
    lemma_one_mode(t, 1000, set);
    lemma_one_mode(t, 1002, set);
    lemma_one_mode(t, 1003, set);
}

/// Mode 1006 is the SGR format of these reports, and 2004 bracketed paste.
pub proof fn law_format_and_paste_modes(t: Vt, set: bool)
    ensures
        with_mode(t, 1006, set).screen == (Screen { mouse_sgr: set, ..t.screen }),
        with_mode(t, 2004, set) == (Vt { bracketed_paste: set, ..t }),
{
    lemma_one_mode(t, 1006, set);
    lemma_one_mode(t, 2004, set);
}

/// Modes 47 and 1047 show the alternate screen and the main one again.
pub proof fn law_alternate_screen_modes(t: Vt)
    ensures
        with_mode(t, 47, true).screen == t.screen.enter_alt_screen(),
        with_mode(t, 47, false).screen == t.screen.exit_alt_screen(),
        with_mode(t, 1047, true) == with_mode(t, 47, true),
        with_mode(t, 1047, false) == with_mode(t, 47, false),
{
    lemma_one_mode(t, 47, true);
    lemma_one_mode(t, 47, false);
    lemma_one_mode(t, 1047, true);
    lemma_one_mode(t, 1047, false);
}

/// Mode 1048 saves the cursor and restores it.
pub proof fn law_save_mode(t: Vt)
    ensures
        with_mode(t, 1048, true).screen == t.screen.save_cursor(),
        with_mode(t, 1048, false).screen == t.screen.restore_cursor(),
{
    lemma_one_mode(t, 1048, true);
    lemma_one_mode(t, 1048, false);
}

/// Mode 1049 saves the cursor and then shows the alternate screen; reset, it
/// shows the main screen and then restores the cursor.
pub proof fn law_save_and_alternate_screen_mode(t: Vt)
    ensures
        with_mode(t, 1049, true).screen == t.screen.save_cursor().enter_alt_screen(),
        with_mode(t, 1049, false).screen == t.screen.exit_alt_screen().restore_cursor(),
{
    lemma_one_mode(t, 1049, true);
    lemma_one_mode(t, 1049, false);
}

/// Other modes do nothing, and a mode touches what the terminal owes, its
/// character sets and its bracketed paste only if it is theirs.
pub proof fn law_unknown_modes_do_nothing(t: Vt, mode: u16, set: bool)
    ensures
        !seq![1u16, 25, 47, 1000, 1002, 1003, 1006, 1047, 1048, 1049, 2004].contains(mode)
            ==> with_mode(t, mode, set) == t,
        mode != 2004 ==> with_mode(t, mode, set) == (Vt {
            screen: with_mode(t, mode, set).screen,
            ..t
        }),
{
    lemma_one_mode(t, mode, set);
    let known = seq![1u16, 25, 47, 1000, 1002, 1003, 1006, 1047, 1048, 1049, 2004];
    assert(known[0] == 1 && known[1] == 25 && known[2] == 47 && known[3] == 1000);
    assert(known[4] == 1002 && known[5] == 1003 && known[6] == 1006 && known[7] == 1047);
    assert(known[8] == 1048 && known[9] == 1049 && known[10] == 2004);
}

} // verus!
