//! The piano easter egg: a small input decoder that turns pressed pad keys
//! into named notes, keeps a bounded history of what was played, and lets
//! the sequence checks search and clear that history.

use vstd::prelude::*;

use crate::audio::{AudioRequest, AudioRequestView, AudioType};
use crate::util::copy_vec_string;

verus! {

/// The eight note keys of the pad, an octave apart at the ends.
#[derive(Clone, Copy, PartialEq, Eq, Structural, Debug)]
pub enum NoteName {
    A,
    B,
    C,
    D,
    E,
    F,
    G,
    AH,
}

/// Which pad keys were newly pressed this tick, plus whether shift is held.
#[derive(Clone, Copy, PartialEq, Eq, Structural, Debug)]
pub struct PianoKeySnapshot {
    pub note_a: bool,
    pub note_b: bool,
    pub note_c: bool,
    pub note_d: bool,
    pub note_e: bool,
    pub note_f: bool,
    pub note_g: bool,
    pub note_ah: bool,
    pub stop: bool,
    pub octave_up: bool,
    pub octave_down: bool,
    pub shift_held: bool,
}

/// What one key pass asks of the caller: the notes to enqueue, whether
/// playback should stop, and whether any note was newly played.
#[derive(Debug)]
pub struct PianoOutput {
    pub note_played: bool,
    pub audio_requests: Vec<AudioRequest>,
    pub stop_audio: bool,
}

/// The digit a bounded octave number prints as.
pub open spec fn octave_digit_spec(o: int) -> Seq<char> {
    if o == 0 {
        "0"@
    } else if o == 1 {
        "1"@
    } else if o == 2 {
        "2"@
    } else if o == 3 {
        "3"@
    } else if o == 4 {
        "4"@
    } else if o == 5 {
        "5"@
    } else if o == 6 {
        "6"@
    } else if o == 7 {
        "7"@
    } else if o == 8 {
        "8"@
    } else {
        Seq::empty()
    }
}

/// The digit a bounded octave number prints as.
fn octave_digit(o: i32) -> (r: &'static str)
    requires
        0 <= o <= 8,
    ensures
        r@ == octave_digit_spec(o as int),
{
    match o {
        0 => "0",
        1 => "1",
        2 => "2",
        3 => "3",
        4 => "4",
        5 => "5",
        6 => "6",
        7 => "7",
        _ => "8",
    }
}

/// The natural note a key names in a given octave; the upper half of the pad
/// lies one octave higher.
pub open spec fn note_name_spec(n: NoteName, octave: int) -> Seq<char> {
    match n {
        NoteName::A => "A"@ + octave_digit_spec(octave),
        NoteName::B => "B"@ + octave_digit_spec(octave),
        NoteName::C => "C"@ + octave_digit_spec(octave + 1),
        NoteName::D => "D"@ + octave_digit_spec(octave + 1),
        NoteName::E => "E"@ + octave_digit_spec(octave + 1),
        NoteName::F => "F"@ + octave_digit_spec(octave + 1),
        NoteName::G => "G"@ + octave_digit_spec(octave + 1),
        NoteName::AH => "A"@ + octave_digit_spec(octave + 1),
    }
}

/// The flattened note a key names in a given octave; keys without a flat of
/// their own fall to the natural note below.
pub open spec fn flat_note_name_spec(n: NoteName, octave: int) -> Seq<char> {
    match n {
        NoteName::A => "Ab"@ + octave_digit_spec(octave),
        NoteName::B => "Bb"@ + octave_digit_spec(octave),
        NoteName::C => "B"@ + octave_digit_spec(octave),
        NoteName::D => "Db"@ + octave_digit_spec(octave + 1),
        NoteName::E => "Eb"@ + octave_digit_spec(octave + 1),
        NoteName::F => "E"@ + octave_digit_spec(octave + 1),
        NoteName::G => "Gb"@ + octave_digit_spec(octave + 1),
        NoteName::AH => "Ab"@ + octave_digit_spec(octave + 1),
    }
}

/// The note actually played: flattened while shift is held.
pub open spec fn chosen_note_spec(n: NoteName, shift: bool, octave: int) -> Seq<char> {
    if shift {
        flat_note_name_spec(n, octave)
    } else {
        note_name_spec(n, octave)
    }
}

/// The note keys a snapshot holds down, in the pad's fixed order.
pub open spec fn pressed_notes(k: PianoKeySnapshot) -> Seq<NoteName> {
    (if k.note_a {
        seq![NoteName::A]
    } else {
        Seq::empty()
    }) + (if k.note_b {
        seq![NoteName::B]
    } else {
        Seq::empty()
    }) + (if k.note_c {
        seq![NoteName::C]
    } else {
        Seq::empty()
    }) + (if k.note_d {
        seq![NoteName::D]
    } else {
        Seq::empty()
    }) + (if k.note_e {
        seq![NoteName::E]
    } else {
        Seq::empty()
    }) + (if k.note_f {
        seq![NoteName::F]
    } else {
        Seq::empty()
    }) + (if k.note_g {
        seq![NoteName::G]
    } else {
        Seq::empty()
    }) + (if k.note_ah {
        seq![NoteName::AH]
    } else {
        Seq::empty()
    })
}

/// The history after a note is recorded: the oldest entry leaves when the
/// hundred-note cap is reached.
pub open spec fn recorded_history(h: Seq<Seq<char>>, note: Seq<char>) -> Seq<Seq<char>> {
    if h.len() >= 100 {
        h.drop_first().push(note)
    } else {
        h.push(note)
    }
}

/// Whether the pattern starts at position `k` of the history.
pub open spec fn pattern_matches_at(h: Seq<Seq<char>>, p: Seq<Seq<char>>, k: int) -> bool {
    &&& 0 <= k
    &&& k + p.len() <= h.len()
    &&& forall|j: int| 0 <= j < p.len() ==> h[k + j] == p[j]
}

/// Whether the history holds the pattern as a contiguous run.
pub open spec fn contains_pattern(h: Seq<Seq<char>>, p: Seq<Seq<char>>) -> bool {
    exists|k: int| pattern_matches_at(h, p, k)
}

/// The note decoder's state: the active octave and the last hundred notes.
#[derive(Debug)]
pub struct Piano {
    octave: i32,
    note_history: Vec<String>,
}

#[verifier::ext_equal]
pub ghost struct PianoView {
    pub octave: i32,
    pub note_history: Seq<Seq<char>>,
}

impl DeepView for Piano {
    type V = PianoView;

    closed spec fn deep_view(&self) -> PianoView {
        PianoView { octave: self.octave, note_history: self.note_history.deep_view() }
    }
}

impl Piano {
    /// The octave stays on the pad, and the history never holds more than
    /// the hundred most recent notes.
    pub open spec fn valid(self) -> bool {
        &&& 0 <= self.deep_view().octave <= 7
        &&& self.deep_view().note_history.len() <= 100
    }

    /// Starts in the middle octave with an empty history.
    pub fn new() -> (r: Piano)
        ensures
            r.deep_view() == (PianoView { octave: 4, note_history: Seq::<Seq<char>>::empty() }),
            r.valid(),
    {
        let r = Piano { octave: 4, note_history: Vec::new() };
        proof {
            assert(r.deep_view() =~= (PianoView {
                octave: 4,
                note_history: Seq::<Seq<char>>::empty(),
            }));
        }
        r
    }

    /// The active octave.
    pub fn get_octave(&self) -> (r: i32)
        ensures
            r == self.deep_view().octave,
    {
        self.octave
    }

    /// The natural note a key plays in the active octave.
    pub fn get_note_for_octave(&self, note_base: NoteName) -> (r: String)
        requires
            self.valid(),
        ensures
            r@ == note_name_spec(note_base, self.deep_view().octave as int),
    {
        match note_base {
            NoteName::A => String::from_str("A").concat(octave_digit(self.octave)),
            NoteName::B => String::from_str("B").concat(octave_digit(self.octave)),
            NoteName::C => String::from_str("C").concat(octave_digit(self.octave + 1)),
            NoteName::D => String::from_str("D").concat(octave_digit(self.octave + 1)),
            NoteName::E => String::from_str("E").concat(octave_digit(self.octave + 1)),
            NoteName::F => String::from_str("F").concat(octave_digit(self.octave + 1)),
            NoteName::G => String::from_str("G").concat(octave_digit(self.octave + 1)),
            NoteName::AH => String::from_str("A").concat(octave_digit(self.octave + 1)),
        }
    }

    /// The flattened note a key plays in the active octave.
    pub fn get_flat_note_for_octave(&self, note_base: NoteName) -> (r: String)
        requires
            self.valid(),
        ensures
            r@ == flat_note_name_spec(note_base, self.deep_view().octave as int),
    {
        match note_base {
            NoteName::A => String::from_str("Ab").concat(octave_digit(self.octave)),
            NoteName::B => String::from_str("Bb").concat(octave_digit(self.octave)),
            NoteName::C => String::from_str("B").concat(octave_digit(self.octave)),
            NoteName::D => String::from_str("Db").concat(octave_digit(self.octave + 1)),
            NoteName::E => String::from_str("Eb").concat(octave_digit(self.octave + 1)),
            NoteName::F => String::from_str("E").concat(octave_digit(self.octave + 1)),
            NoteName::G => String::from_str("Gb").concat(octave_digit(self.octave + 1)),
            NoteName::AH => String::from_str("Ab").concat(octave_digit(self.octave + 1)),
        }
    }

    /// Stores a note in the history, dropping the oldest past one hundred,
    /// so the hundred-note cap is kept.
    pub fn record_note(&mut self, note: &String)
        ensures
            final(self).deep_view() == (PianoView {
                note_history: recorded_history(old(self).deep_view().note_history, note@),
                ..old(self).deep_view()
            }),
            old(self).valid() ==> final(self).valid(),
    {
        let ghost before = self.note_history.deep_view();
        if self.note_history.len() >= 100 {
            self.note_history.remove(0);
            proof {
                assert(self.note_history.deep_view() =~= before.drop_first());
            }
        }
        let ghost mid = self.note_history.deep_view();
        self.note_history.push(note.clone());
        proof {
            assert(self.note_history.deep_view() =~= mid.push(note@));
        }
    }

    /// A copy of the note history, oldest first; a well-formed piano never
    /// hands out more than a hundred notes.
    pub fn get_note_history(&self) -> (r: Vec<String>)
        ensures
            r.deep_view() == self.deep_view().note_history,
            self.valid() ==> r@.len() <= 100,
    {
        copy_vec_string(&self.note_history)
    }

    /// Whether the history holds the given run of notes; finding it clears
    /// the history.
    #[verifier::loop_isolation(false)]
    pub fn check_for_sequence_and_clear(&mut self, sequence: &Vec<String>) -> (r: bool)
        ensures
            r == contains_pattern(old(self).deep_view().note_history, sequence.deep_view()),
            r ==> final(self).deep_view() == (PianoView {
                note_history: Seq::<Seq<char>>::empty(),
                ..old(self).deep_view()
            }),
            !r ==> final(self).deep_view() == old(self).deep_view(),
            old(self).valid() ==> final(self).valid(),
    {
        let ghost h = self.note_history.deep_view();
        let ghost p = sequence.deep_view();
        if sequence.len() > self.note_history.len() {
            proof {
                assert forall|k0: int| !pattern_matches_at(h, p, k0) by {}
            }
            return false;
        }
        let last_start = self.note_history.len() - sequence.len();
        let mut k: usize = 0;
        while k <= last_start
            invariant
                0 <= k <= last_start + 1,
                last_start + p.len() == h.len(),
                self.deep_view() == old(self).deep_view(),
                p == sequence.deep_view(),
                forall|k0: int| 0 <= k0 < k ==> !pattern_matches_at(h, p, k0),
            decreases last_start + 1 - k,
        {
            let mut j: usize = 0;
            let mut all_match = true;
            while j < sequence.len() && all_match
                invariant
                    0 <= j <= sequence.len(),
                    k <= last_start,
                    last_start + p.len() == h.len(),
                    self.deep_view() == old(self).deep_view(),
                    p == sequence.deep_view(),
                    all_match ==> forall|j0: int| 0 <= j0 < j ==> h[k + j0] == p[j0],
                    !all_match ==> !pattern_matches_at(h, p, k as int) && p.len() > 0,
                decreases sequence.len() - j, (if all_match {
                    1int
                } else {
                    0int
                }),
            {
                if !self.note_history[k + j].eq(&sequence[j]) {
                    all_match = false;
                    proof {
                        assert(h[k as int + j as int] != p[j as int]);
                    }
                } else {
                    j += 1;
                }
            }
            if all_match {
                proof {
                    assert(pattern_matches_at(h, p, k as int));
                }
                self.note_history.clear();
                proof {
                    assert(self.note_history.deep_view() =~= Seq::<Seq<char>>::empty());
                    assert(self.deep_view() =~= (PianoView {
                        note_history: Seq::<Seq<char>>::empty(),
                        ..old(self).deep_view()
                    }));
                }
                return true;
            }
            k += 1;
        }
        proof {
            assert forall|k0: int| !pattern_matches_at(h, p, k0) by {
                if 0 <= k0 && k0 + p.len() <= h.len() {
                    assert(k0 < k);
                }
            }
        }
        false
    }

    /// The playback requests of a run of pressed notes, with the last note's
    /// name.
    #[verifier::loop_isolation(false)]
    fn build_note_requests(&self, notes: &Vec<NoteName>, shift: bool) -> (r: (
        Vec<AudioRequest>,
        Option<String>,
    ))
        requires
            self.valid(),
        ensures
            r.0.deep_view() == Seq::new(
                notes@.len(),
                |i: int|
                    AudioRequestView {
                        audio_name: chosen_note_spec(
                            notes@[i],
                            shift,
                            self.deep_view().octave as int,
                        ),
                        audio_type: AudioType::Sound,
                        volume: 1000,
                        looping: false,
                    },
            ),
            match r.1 {
                Some(n) => notes@.len() > 0 && n@ == chosen_note_spec(
                    notes@[notes@.len() - 1],
                    shift,
                    self.deep_view().octave as int,
                ),
                None => notes@.len() == 0,
            },
    {
        let ghost octave0 = self.deep_view().octave as int;
        let ghost target = Seq::new(
            notes@.len(),
            |i: int|
                AudioRequestView {
                    audio_name: chosen_note_spec(notes@[i], shift, octave0),
                    audio_type: AudioType::Sound,
                    volume: 1000,
                    looping: false,
                },
        );
        let mut audio_requests: Vec<AudioRequest> = Vec::new();
        let mut last_note: Option<String> = None;
        proof {
            assert(audio_requests.deep_view() =~= target.subrange(0, 0));
        }
        let mut i: usize = 0;
        while i < notes.len()
            invariant
                0 <= i <= notes.len(),
                audio_requests.deep_view() == target.subrange(0, i as int),
                match last_note {
                    Some(n) => i > 0 && n@ == chosen_note_spec(
                        notes@[i as int - 1],
                        shift,
                        octave0,
                    ),
                    None => i == 0,
                },
            decreases notes.len() - i,
        {
            let note: String = if shift {
                self.get_flat_note_for_octave(notes[i])
            } else {
                self.get_note_for_octave(notes[i])
            };
            audio_requests.push(AudioRequest::new(note.clone(), AudioType::Sound, 1000, false));
            proof {
                assert(audio_requests.deep_view() =~= target.subrange(0, i as int + 1));
            }
            last_note = Some(note);
            i += 1;
        }
        proof {
            assert(target.subrange(0, notes@.len() as int) =~= target);
        }
        (audio_requests, last_note)
    }

    /// The note keys a snapshot holds down, in the pad's fixed order.
    #[verifier::spinoff_prover]
    #[verifier::rlimit(100)]
    fn collect_notes(keys: &PianoKeySnapshot) -> (notes: Vec<NoteName>)
        ensures
            notes@ == pressed_notes(*keys),
    {
        let mut notes: Vec<NoteName> = Vec::new();
        let ghost mut acc: Seq<NoteName> = Seq::empty();
        proof {
            assert(notes@ =~= acc);
        }
        if keys.note_a {
            notes.push(NoteName::A);
        }
        proof {
            acc = acc + (if keys.note_a {
                seq![NoteName::A]
            } else {
                Seq::empty()
            });
            assert(notes@ =~= acc);
        }
        if keys.note_b {
            notes.push(NoteName::B);
        }
        proof {
            acc = acc + (if keys.note_b {
                seq![NoteName::B]
            } else {
                Seq::empty()
            });
            assert(notes@ =~= acc);
        }
        if keys.note_c {
            notes.push(NoteName::C);
        }
        proof {
            acc = acc + (if keys.note_c {
                seq![NoteName::C]
            } else {
                Seq::empty()
            });
            assert(notes@ =~= acc);
        }
        if keys.note_d {
            notes.push(NoteName::D);
        }
        proof {
            acc = acc + (if keys.note_d {
                seq![NoteName::D]
            } else {
                Seq::empty()
            });
            assert(notes@ =~= acc);
        }
        if keys.note_e {
            notes.push(NoteName::E);
        }
        proof {
            acc = acc + (if keys.note_e {
                seq![NoteName::E]
            } else {
                Seq::empty()
            });
            assert(notes@ =~= acc);
        }
        if keys.note_f {
            notes.push(NoteName::F);
        }
        proof {
            acc = acc + (if keys.note_f {
                seq![NoteName::F]
            } else {
                Seq::empty()
            });
            assert(notes@ =~= acc);
        }
        if keys.note_g {
            notes.push(NoteName::G);
        }
        proof {
            acc = acc + (if keys.note_g {
                seq![NoteName::G]
            } else {
                Seq::empty()
            });
            assert(notes@ =~= acc);
        }
        if keys.note_ah {
            notes.push(NoteName::AH);
        }
        proof {
            acc = acc + (if keys.note_ah {
                seq![NoteName::AH]
            } else {
                Seq::empty()
            });
            assert(notes@ =~= acc);
            assert(acc == pressed_notes(*keys));
        }
        notes
    }

    /// Decodes one tick's pad presses: every held note key plays in the
    /// active octave (flattened under shift), the stop key asks playback to
    /// stop, the octave keys step the octave inside its range, and the last
    /// note played is recorded.
    #[verifier::rlimit(100)]
    #[verifier::spinoff_prover]
    pub fn process_piano_keys(&mut self, keys: &PianoKeySnapshot) -> (r: PianoOutput)
        requires
            old(self).valid(),
        ensures
            final(self).valid(),
            ({
                let notes = pressed_notes(*keys);
                let octave0 = old(self).deep_view().octave as int;
                &&& r.note_played == (notes.len() > 0)
                &&& r.stop_audio == keys.stop
                &&& r.audio_requests.deep_view() == Seq::new(
                    notes.len(),
                    |i: int|
                        AudioRequestView {
                            audio_name: chosen_note_spec(notes[i], keys.shift_held, octave0),
                            audio_type: AudioType::Sound,
                            volume: 1000,
                            looping: false,
                        },
                )
                &&& final(self).deep_view().octave == {
                    let o1: int = if keys.octave_up && octave0 < 7 {
                        octave0 + 1
                    } else {
                        octave0
                    };
                    if keys.octave_down && o1 > 0 {
                        o1 - 1
                    } else {
                        o1
                    }
                }
                &&& final(self).deep_view().note_history == if notes.len() > 0 {
                    recorded_history(
                        old(self).deep_view().note_history,
                        chosen_note_spec(notes[notes.len() - 1], keys.shift_held, octave0),
                    )
                } else {
                    old(self).deep_view().note_history
                }
            }),
    {
        let ghost octave0 = self.deep_view().octave as int;
        let notes = Self::collect_notes(keys);
        let (audio_requests, last_note) = self.build_note_requests(&notes, keys.shift_held);

        if keys.octave_up && self.octave < 7 {
            self.octave = self.octave + 1;
        }
        if keys.octave_down && self.octave > 0 {
            self.octave = self.octave - 1;
        }

        match &last_note {
            Some(note) => {
                self.record_note(note);
                PianoOutput { note_played: true, audio_requests, stop_audio: keys.stop }
            },
            None => {
                PianoOutput { note_played: false, audio_requests, stop_audio: keys.stop }
            },
        }
    }
}

} // verus!
