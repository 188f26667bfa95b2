//! The currently selected letter and whether its sound was played.

use vstd::prelude::*;
use crate::assets::{get_asset, lower_char, push_char, sound_path};
use crate::words::{in_alphabet, standard_words, TargetWordSet};

verus! {

/// Stands for "no letter selected yet".
pub const NO_LETTER: char = ' ';

/// One selected letter. A new selection is always a new value, with `played`
/// false, even where it holds the same letter as before.
#[derive(Clone, Copy, Debug, PartialEq, Eq, Structural)]
pub struct Letter {
    pub letter: char,
    pub played: bool,
}

impl Letter {
    /// A freshly selected letter, its sound not played yet.
    pub fn new(name: char) -> (r: Letter)
        ensures
            r == (Letter { letter: name, played: false }),
    {
        Letter { letter: name, played: false }
    }

    /// The letter as a one-char string, as it is drawn.
    pub fn letter(&self) -> (r: String)
        ensures
            r@ == seq![self.letter],
    {
        let mut r = String::new();
        push_char(&mut r, self.letter);
        r
    }

    /// Whether the letter occurs in one of the standard special words.
    pub fn is_special(&self) -> (r: bool)
        ensures
            r == in_alphabet(standard_words(), self.letter),
    {
        let words = TargetWordSet::standard();
        words.is_special(self.letter)
    }

    /// The path of the letter's sound: its lower case with the sound extension,
    /// under the assets directory.
    pub fn get_sound_path(&self) -> (r: String)
        ensures
            r@ == sound_path(seq![self.letter]),
    {
        let mut file = String::new();
        push_char(&mut file, lower_char(self.letter));
        file.append(".ogg");
        proof {
            reveal_strlit(".ogg");
        }
        let r = get_asset(file);
        proof {
            assert(r@ =~= sound_path(seq![self.letter]));
        }
        r
    }
}

} // verus!
