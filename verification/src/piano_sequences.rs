//! The note runs that unlock the canned sequences: whenever the piano's
//! history holds one of them, the history is cleared and the matching
//! event-handler sequence fires.

use vstd::prelude::*;

use crate::event_handler::{spec_explosion, spec_gorbino, spec_gravity_sequence, spec_homebringer,
    spec_reset, EventHandler, HandlerView};
use crate::piano::{contains_pattern, Piano, PianoView};

verus! {

/// The run of notes that brings the player home.
pub open spec fn homebringer_pattern_spec() -> Seq<Seq<char>> {
    seq!["A4"@, "A4"@, "E5"@, "E5"@, "Db5"@, "Db5"@, "Ab5"@, "Ab5"@]
}

/// The run of notes that plays the gorbino music.
pub open spec fn gorbino_pattern_spec() -> Seq<Seq<char>> {
    seq!["G5"@, "A5"@, "E5"@, "C5"@, "B4"@, "A4"@, "D5"@, "F5"@]
}

/// The run of notes that sets off the explosion.
pub open spec fn explosion_pattern_spec() -> Seq<Seq<char>> {
    seq!["F5"@, "A5"@, "A4"@, "C5"@, "G5"@, "D5"@, "E5"@, "B4"@]
}

/// The run of notes that toggles the player's gravity.
pub open spec fn gravity_pattern_spec() -> Seq<Seq<char>> {
    seq!["B4"@, "B4"@, "B4"@, "G5"@, "G5"@, "G5"@]
}

/// The run of notes that resets the test scene.
pub open spec fn reset_pattern_spec() -> Seq<Seq<char>> {
    seq!["B4"@, "Gb5"@, "B4"@, "Gb5"@, "B4"@, "Gb5"@, "B4"@, "Gb5"@]
}

/// Both states after one conditional sequence step on the piano side: a
/// found pattern clears the history.
pub open spec fn cleared_if(p: PianoView, found: bool) -> PianoView {
    if found {
        PianoView { note_history: Seq::empty(), ..p }
    } else {
        p
    }
}

/// Both states after all five sequence checks, in their fixed order.
pub open spec fn piano_sequences_spec(p: PianoView, w: HandlerView) -> (PianoView, HandlerView) {
    let f1 = contains_pattern(p.note_history, homebringer_pattern_spec());
    let p1 = cleared_if(p, f1);
    let w1 = if f1 {
        spec_homebringer(w)
    } else {
        w
    };
    let f2 = contains_pattern(p1.note_history, gorbino_pattern_spec());
    let p2 = cleared_if(p1, f2);
    let w2 = if f2 {
        spec_gorbino(w1)
    } else {
        w1
    };
    let f3 = contains_pattern(p2.note_history, explosion_pattern_spec());
    let p3 = cleared_if(p2, f3);
    let w3 = if f3 {
        spec_explosion(w2)
    } else {
        w2
    };
    let f4 = contains_pattern(p3.note_history, gravity_pattern_spec());
    let p4 = cleared_if(p3, f4);
    let w4 = if f4 {
        spec_gravity_sequence(w3)
    } else {
        w3
    };
    let f5 = contains_pattern(p4.note_history, reset_pattern_spec());
    let p5 = cleared_if(p4, f5);
    let w5 = if f5 {
        spec_reset(w4)
    } else {
        w4
    };
    (p5, w5)
}

/// Pushes the view of a literal onto a pattern under construction.
fn push_note(pattern: &mut Vec<String>, note: &str)
    ensures
        final(pattern).deep_view() == old(pattern).deep_view().push(note@),
{
    pattern.push(note.to_owned());
    proof {
        assert(pattern.deep_view() =~= old(pattern).deep_view().push(note@));
    }
}

/// Runs all five sequence checks against the piano's history, firing the
/// matching event-handler sequence for each found run and clearing the
/// history it matched in.
pub fn check_piano_sequences(piano: &mut Piano, event_handler: &mut EventHandler)
    requires
        old(event_handler).wf(),
    ensures
        final(event_handler).wf(),
        ({
            let stepped = piano_sequences_spec(
                old(piano).deep_view(),
                old(event_handler).deep_view(),
            );
            final(piano).deep_view() == stepped.0 && final(event_handler).deep_view() == stepped.1
        }),
{
    homebringer_sequence(piano, event_handler);
    gorbino_sequence(piano, event_handler);
    explosion_sequence(piano, event_handler);
    gravity_sequence(piano, event_handler);
    reset_sequence(piano, event_handler);
}

/// Fires the homebringer sequence when its run of notes was played.
fn homebringer_sequence(piano: &mut Piano, event_handler: &mut EventHandler)
    requires
        old(event_handler).wf(),
    ensures
        final(event_handler).wf(),
        ({
            let found = contains_pattern(
                old(piano).deep_view().note_history,
                homebringer_pattern_spec(),
            );
            &&& final(piano).deep_view() == cleared_if(old(piano).deep_view(), found)
            &&& final(event_handler).deep_view() == if found {
                spec_homebringer(old(event_handler).deep_view())
            } else {
                old(event_handler).deep_view()
            }
        }),
{
    let mut sequence: Vec<String> = Vec::new();
    push_note(&mut sequence, "A4");
    push_note(&mut sequence, "A4");
    push_note(&mut sequence, "E5");
    push_note(&mut sequence, "E5");
    push_note(&mut sequence, "Db5");
    push_note(&mut sequence, "Db5");
    push_note(&mut sequence, "Ab5");
    push_note(&mut sequence, "Ab5");
    proof {
        assert(sequence.deep_view() =~= homebringer_pattern_spec());
    }
    if piano.check_for_sequence_and_clear(&sequence) {
        event_handler.homebringer_sequence();
    }
}

/// Fires the gorbino sequence when its run of notes was played.
fn gorbino_sequence(piano: &mut Piano, event_handler: &mut EventHandler)
    requires
        old(event_handler).wf(),
    ensures
        final(event_handler).wf(),
        ({
            let found = contains_pattern(
                old(piano).deep_view().note_history,
                gorbino_pattern_spec(),
            );
            &&& final(piano).deep_view() == cleared_if(old(piano).deep_view(), found)
            &&& final(event_handler).deep_view() == if found {
                spec_gorbino(old(event_handler).deep_view())
            } else {
                old(event_handler).deep_view()
            }
        }),
{
    let mut sequence: Vec<String> = Vec::new();
    push_note(&mut sequence, "G5");
    push_note(&mut sequence, "A5");
    push_note(&mut sequence, "E5");
    push_note(&mut sequence, "C5");
    push_note(&mut sequence, "B4");
    push_note(&mut sequence, "A4");
    push_note(&mut sequence, "D5");
    push_note(&mut sequence, "F5");
    proof {
        assert(sequence.deep_view() =~= gorbino_pattern_spec());
    }
    if piano.check_for_sequence_and_clear(&sequence) {
        event_handler.gorbino_sequence();
    }
}

/// Fires the explosion sequence when its run of notes was played.
fn explosion_sequence(piano: &mut Piano, event_handler: &mut EventHandler)
    requires
        old(event_handler).wf(),
    ensures
        final(event_handler).wf(),
        ({
            let found = contains_pattern(
                old(piano).deep_view().note_history,
                explosion_pattern_spec(),
            );
            &&& final(piano).deep_view() == cleared_if(old(piano).deep_view(), found)
            &&& final(event_handler).deep_view() == if found {
                spec_explosion(old(event_handler).deep_view())
            } else {
                old(event_handler).deep_view()
            }
        }),
{
    let mut sequence: Vec<String> = Vec::new();
    push_note(&mut sequence, "F5");
    push_note(&mut sequence, "A5");
    push_note(&mut sequence, "A4");
    push_note(&mut sequence, "C5");
    push_note(&mut sequence, "G5");
    push_note(&mut sequence, "D5");
    push_note(&mut sequence, "E5");
    push_note(&mut sequence, "B4");
    proof {
        assert(sequence.deep_view() =~= explosion_pattern_spec());
    }
    if piano.check_for_sequence_and_clear(&sequence) {
        event_handler.explosion_sequence();
    }
}

/// Fires the gravity sequence when its run of notes was played.
fn gravity_sequence(piano: &mut Piano, event_handler: &mut EventHandler)
    requires
        old(event_handler).wf(),
    ensures
        final(event_handler).wf(),
        ({
            let found = contains_pattern(
                old(piano).deep_view().note_history,
                gravity_pattern_spec(),
            );
            &&& final(piano).deep_view() == cleared_if(old(piano).deep_view(), found)
            &&& final(event_handler).deep_view() == if found {
                spec_gravity_sequence(old(event_handler).deep_view())
            } else {
                old(event_handler).deep_view()
            }
        }),
{
    let mut sequence: Vec<String> = Vec::new();
    push_note(&mut sequence, "B4");
    push_note(&mut sequence, "B4");
    push_note(&mut sequence, "B4");
    push_note(&mut sequence, "G5");
    push_note(&mut sequence, "G5");
    push_note(&mut sequence, "G5");
    proof {
        assert(sequence.deep_view() =~= gravity_pattern_spec());
    }
    if piano.check_for_sequence_and_clear(&sequence) {
        event_handler.gravity_sequence();
    }
}

/// Fires the reset sequence when its run of notes was played.
fn reset_sequence(piano: &mut Piano, event_handler: &mut EventHandler)
    requires
        old(event_handler).wf(),
    ensures
        final(event_handler).wf(),
        ({
            let found = contains_pattern(
                old(piano).deep_view().note_history,
                reset_pattern_spec(),
            );
            &&& final(piano).deep_view() == cleared_if(old(piano).deep_view(), found)
            &&& final(event_handler).deep_view() == if found {
                spec_reset(old(event_handler).deep_view())
            } else {
                old(event_handler).deep_view()
            }
        }),
{
    let mut sequence: Vec<String> = Vec::new();
    push_note(&mut sequence, "B4");
    push_note(&mut sequence, "Gb5");
    push_note(&mut sequence, "B4");
    push_note(&mut sequence, "Gb5");
    push_note(&mut sequence, "B4");
    push_note(&mut sequence, "Gb5");
    push_note(&mut sequence, "B4");
    push_note(&mut sequence, "Gb5");
    proof {
        assert(sequence.deep_view() =~= reset_pattern_spec());
    }
    if piano.check_for_sequence_and_clear(&sequence) {
        event_handler.reset_sequence();
    }
}

} // verus!
