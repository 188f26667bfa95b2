//! Core of a letter-learning display: pressing a letter key selects that
//! letter, its sound is played once, and letters typed in order may spell one
//! of a fixed set of special words, whose completion plays a longer sound.
//!
//! The library holds every decision of that program as verified code: the
//! mapping of key codes to events, the current letter, the recognizer of
//! special words, and which sounds a tick plays. Drawing, audio and waiting
//! are left to the caller, which performs the actions a tick returns.

pub mod assets;
pub mod words;
pub mod letter;
pub mod recognizer;
pub mod session;
pub mod screen;
pub mod laws;

pub use assets::{get_asset, lower_char, sound_path_of};
pub use words::{prefix_of, TargetWordSet};
pub use letter::{Letter, NO_LETTER};
pub use recognizer::recognize_step;
pub use screen::{letter_box_origin, LETTER_BOX_SIZE, WINDOW_HEIGHT, WINDOW_WIDTH};
pub use session::{
    classify, InputEvent, RawEvent, Session, TickAction, TickOutcome, KEY_A, KEY_ESCAPE, KEY_Z,
    LETTER_QUIET_MS, WORD_QUIET_MS,
};
