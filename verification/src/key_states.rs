//! The input snapshot the simulation reads each tick, and the folding of
//! characters onto canonical key names.
//!
//! The windowing layer maps each character a trigger condition may name onto
//! a physical key; letters fold case-insensitively onto one key, digits and
//! punctuation onto themselves, and unsupported characters onto nothing.

use vstd::prelude::*;

verus! {

/// The canonical key a character names, or `None` for an unsupported one.
pub open spec fn normalized_key(c: char) -> Option<char> {
    if c == 'a' || c == 'A' { Some('A') }
    else if c == 'b' || c == 'B' { Some('B') }
    else if c == 'c' || c == 'C' { Some('C') }
    else if c == 'd' || c == 'D' { Some('D') }
    else if c == 'e' || c == 'E' { Some('E') }
    else if c == 'f' || c == 'F' { Some('F') }
    else if c == 'g' || c == 'G' { Some('G') }
    else if c == 'h' || c == 'H' { Some('H') }
    else if c == 'i' || c == 'I' { Some('I') }
    else if c == 'j' || c == 'J' { Some('J') }
    else if c == 'k' || c == 'K' { Some('K') }
    else if c == 'l' || c == 'L' { Some('L') }
    else if c == 'm' || c == 'M' { Some('M') }
    else if c == 'n' || c == 'N' { Some('N') }
    else if c == 'o' || c == 'O' { Some('O') }
    else if c == 'p' || c == 'P' { Some('P') }
    else if c == 'q' || c == 'Q' { Some('Q') }
    else if c == 'r' || c == 'R' { Some('R') }
    else if c == 's' || c == 'S' { Some('S') }
    else if c == 't' || c == 'T' { Some('T') }
    else if c == 'u' || c == 'U' { Some('U') }
    else if c == 'v' || c == 'V' { Some('V') }
    else if c == 'w' || c == 'W' { Some('W') }
    else if c == 'x' || c == 'X' { Some('X') }
    else if c == 'y' || c == 'Y' { Some('Y') }
    else if c == 'z' || c == 'Z' { Some('Z') }
    else if c == '0' { Some('0') }
    else if c == '1' { Some('1') }
    else if c == '2' { Some('2') }
    else if c == '3' { Some('3') }
    else if c == '4' { Some('4') }
    else if c == '5' { Some('5') }
    else if c == '6' { Some('6') }
    else if c == '7' { Some('7') }
    else if c == '8' { Some('8') }
    else if c == '9' { Some('9') }
    else if c == '`' { Some('`') }
    else if c == '-' { Some('-') }
    else if c == '=' { Some('=') }
    else if c == '[' { Some('[') }
    else if c == ']' { Some(']') }
    else if c == '\\' { Some('\\') }
    else if c == ';' { Some(';') }
    else if c == '\'' { Some('\'') }
    else if c == ',' { Some(',') }
    else if c == '.' { Some('.') }
    else if c == '/' { Some('/') }
    else if c == ' ' { Some(' ') }
    else { None }
}

/// Folds a character onto its canonical key.
pub fn char_to_key(c: char) -> (r: Option<char>)
    ensures
        r == normalized_key(c),
{
    match c {
        'a' | 'A' => Some('A'),
        'b' | 'B' => Some('B'),
        'c' | 'C' => Some('C'),
        'd' | 'D' => Some('D'),
        'e' | 'E' => Some('E'),
        'f' | 'F' => Some('F'),
        'g' | 'G' => Some('G'),
        'h' | 'H' => Some('H'),
        'i' | 'I' => Some('I'),
        'j' | 'J' => Some('J'),
        'k' | 'K' => Some('K'),
        'l' | 'L' => Some('L'),
        'm' | 'M' => Some('M'),
        'n' | 'N' => Some('N'),
        'o' | 'O' => Some('O'),
        'p' | 'P' => Some('P'),
        'q' | 'Q' => Some('Q'),
        'r' | 'R' => Some('R'),
        's' | 'S' => Some('S'),
        't' | 'T' => Some('T'),
        'u' | 'U' => Some('U'),
        'v' | 'V' => Some('V'),
        'w' | 'W' => Some('W'),
        'x' | 'X' => Some('X'),
        'y' | 'Y' => Some('Y'),
        'z' | 'Z' => Some('Z'),
        '0' => Some('0'),
        '1' => Some('1'),
        '2' => Some('2'),
        '3' => Some('3'),
        '4' => Some('4'),
        '5' => Some('5'),
        '6' => Some('6'),
        '7' => Some('7'),
        '8' => Some('8'),
        '9' => Some('9'),
        '`' => Some('`'),
        '-' => Some('-'),
        '=' => Some('='),
        '[' => Some('['),
        ']' => Some(']'),
        '\\' => Some('\\'),
        ';' => Some(';'),
        '\'' => Some('\''),
        ',' => Some(','),
        '.' => Some('.'),
        '/' => Some('/'),
        ' ' => Some(' '),
        _ => None,
    }
}

/// Whether any character of a condition presses a key of the snapshot.
pub open spec fn any_key_pressed(keys: Seq<char>, pressed: Seq<char>) -> bool {
    exists|i: int|
        0 <= i < keys.len() && ((#[trigger] normalized_key(keys[i])) matches Some(k)
            && pressed.contains(k))
}

/// The set of canonical keys currently held down, refreshed by the
/// surrounding application once per tick.
#[derive(Debug)]
pub struct KeyStates {
    pressed: Vec<char>,
}

impl DeepView for KeyStates {
    type V = Seq<char>;

    closed spec fn deep_view(&self) -> Seq<char> {
        self.pressed@
    }
}

impl KeyStates {
    /// No keys held.
    pub fn new() -> (r: KeyStates)
        ensures
            r.deep_view() == Seq::<char>::empty(),
    {
        KeyStates { pressed: Vec::new() }
    }

    /// Replaces the snapshot with the keys now held, each given as its
    /// canonical character.
    pub fn set_pressed(&mut self, pressed: Vec<char>)
        ensures
            final(self).deep_view() == pressed@,
    {
        self.pressed = pressed;
    }

    /// Whether a canonical key is held down.
    pub fn is_key_pressed_raw(&self, key: char) -> (r: bool)
        ensures
            r == self.deep_view().contains(key),
    {
        let mut i: usize = 0;
        while i < self.pressed.len()
            invariant
                0 <= i <= self.pressed.len(),
                forall|j: int| 0 <= j < i ==> self.deep_view()[j] != key,
            decreases self.pressed.len() - i,
        {
            if self.pressed[i] == key {
                return true;
            }
            i += 1;
        }
        false
    }

    /// A copy of the snapshot.
    pub fn duplicate(&self) -> (r: KeyStates)
        ensures
            r.deep_view() == self.deep_view(),
    {
        KeyStates { pressed: crate::util::copy_vec(&self.pressed) }
    }
}

} // verus!
