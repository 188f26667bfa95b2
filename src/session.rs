//! The state of a running display and what one tick of its loop does.

use vstd::prelude::*;
use crate::assets::{sound_path, sound_path_of};
use crate::letter::{Letter, NO_LETTER};
use crate::recognizer::{lemma_recognize_keeps_valid, recognize, recognize_step, valid_prefix, word_view};
use crate::words::{in_alphabet, valid_words, TargetWordSet};

verus! {

/// Key code of the escape key.
pub const KEY_ESCAPE: i32 = 27;

/// Key code of the `a` key; `b` to `z` follow it.
pub const KEY_A: i32 = 97;

/// Key code of the `z` key.
pub const KEY_Z: i32 = 122;

/// Pause after a letter's sound, in milliseconds.
pub const LETTER_QUIET_MS: u32 = 500;

/// Pause after a special word's sound, in milliseconds.
pub const WORD_QUIET_MS: u32 = 1100;

/// An input event as the event source reports it.
#[derive(Clone, Copy, Debug, PartialEq, Eq, Structural)]
pub enum RawEvent {
    /// The window was asked to close.
    Quit,
    /// A key went down; its key code.
    KeyDown(i32),
    /// Anything else: key releases, window and mouse events.
    Other,
}

/// An input event as the display reads it.
#[derive(Clone, Copy, Debug, PartialEq, Eq, Structural)]
pub enum InputEvent {
    Quit,
    KeySelect(char),
    Ignored,
}

/// Closing the window and the escape key quit; the keys `a` to `z` select the
/// upper-case letter; everything else is ignored.
pub open spec fn classify_spec(e: RawEvent) -> InputEvent {
    match e {
        RawEvent::Quit => InputEvent::Quit,
        RawEvent::KeyDown(k) => if k == KEY_ESCAPE {
            InputEvent::Quit
        } else if KEY_A <= k <= KEY_Z {
            InputEvent::KeySelect(('A' as int + (k - KEY_A)) as char)
        } else {
            InputEvent::Ignored
        },
        RawEvent::Other => InputEvent::Ignored,
    }
}

/// Maps an event of the event source to an input event.
pub fn classify(e: RawEvent) -> (r: InputEvent)
    ensures
        r == classify_spec(e),
{
    match e {
        RawEvent::Quit => InputEvent::Quit,
        RawEvent::KeyDown(k) => {
            if k == KEY_ESCAPE {
                InputEvent::Quit
            } else if KEY_A <= k && k <= KEY_Z {
                let code: u8 = (k - KEY_A) as u8 + 65;
                InputEvent::KeySelect(code as char)
            } else {
                InputEvent::Ignored
            }
        },
        RawEvent::Other => InputEvent::Ignored,
    }
}

/// The state that the loop carries from one tick to the next.
pub struct SessionState {
    pub letter: Letter,
    pub prefix: Seq<char>,
}

/// What a tick decides, in terms of paths as char sequences.
pub enum Outcome {
    Quit,
    Run { render: Option<char>, letter_cue: Option<Seq<char>>, word_cue: Option<Seq<char>> },
}

/// The events of one batch applied in order to the current letter: each
/// selection replaces it with a fresh letter, and a quit stops the batch,
/// leaving the events after it unapplied. The flag says whether a quit came.
pub open spec fn apply_spec(cur: Letter, evs: Seq<InputEvent>) -> (Letter, bool)
    decreases evs.len(),
{
    if evs.len() == 0 {
        (cur, false)
    } else {
        match evs[0] {
            InputEvent::Quit => (cur, true),
            InputEvent::KeySelect(c) => apply_spec(
                Letter { letter: c, played: false },
                evs.drop_first(),
            ),
            InputEvent::Ignored => apply_spec(cur, evs.drop_first()),
        }
    }
}

/// The sound path of a completed word, if any.
pub open spec fn word_cue_spec(m: Option<Seq<char>>) -> Option<Seq<char>> {
    match m {
        Some(w) => Some(sound_path(w)),
        None => None,
    }
}

/// Playback of the selected letter: where a letter is selected and not played
/// yet, its sound plays and it is marked played; a special letter also goes to
/// the recognizer, and a word it completes has its sound played too.
/// Returns the next state, the letter's sound and the word's sound.
pub open spec fn dispatch_spec(ws: Seq<Seq<char>>, st: SessionState) -> (
    SessionState,
    Option<Seq<char>>,
    Option<Seq<char>>,
) {
    let c = st.letter.letter;
    if c != NO_LETTER && !st.letter.played {
        let played = Letter { letter: c, played: true };
        if in_alphabet(ws, c) {
            let (p, m) = recognize(ws, st.prefix, c);
            (
                SessionState { letter: played, prefix: p },
                Some(sound_path(seq![c])),
                word_cue_spec(m),
            )
        } else {
            (SessionState { letter: played, prefix: st.prefix }, Some(sound_path(seq![c])), None)
        }
    } else {
        (st, None, None)
    }
}

/// One tick: the batch is applied; on a quit the tick ends there, otherwise
/// the current letter is drawn (nothing where none is selected) and dispatched.
pub open spec fn tick_spec(ws: Seq<Seq<char>>, st: SessionState, evs: Seq<InputEvent>) -> (
    SessionState,
    Outcome,
) {
    let (l, quit) = apply_spec(st.letter, evs);
    if quit {
        (SessionState { letter: l, prefix: st.prefix }, Outcome::Quit)
    } else {
        let (s, lc, wc) = dispatch_spec(ws, SessionState { letter: l, prefix: st.prefix });
        let render = if l.letter == NO_LETTER {
            None
        } else {
            Some(l.letter)
        };
        (s, Outcome::Run { render, letter_cue: lc, word_cue: wc })
    }
}

/// What the loop does after a tick that did not quit: draw `render` (a blank
/// box where it is `None`), then play each cue there is, in order, each
/// followed by its pause.
pub struct TickAction {
    pub render: Option<char>,
    pub letter_cue: Option<String>,
    pub word_cue: Option<String>,
}

/// The result of a tick.
pub enum TickOutcome {
    Quit,
    Run(TickAction),
}

/// The view of an optional string.
pub open spec fn path_view(s: Option<String>) -> Option<Seq<char>> {
    match s {
        Some(v) => Some(v@),
        None => None,
    }
}

impl View for TickOutcome {
    type V = Outcome;

    open spec fn view(&self) -> Outcome {
        match self {
            TickOutcome::Quit => Outcome::Quit,
            TickOutcome::Run(a) => Outcome::Run {
                render: a.render,
                letter_cue: path_view(a.letter_cue),
                word_cue: path_view(a.word_cue),
            },
        }
    }
}

/// The display's state: the current letter, the recognizer's prefix, and
/// the special words.
pub struct Session {
    current: Letter,
    prefix: Vec<char>,
    words: TargetWordSet,
}

impl View for Session {
    type V = SessionState;

    closed spec fn view(&self) -> SessionState {
        SessionState { letter: self.current, prefix: self.prefix@ }
    }
}

impl Session {
    /// The special words of the session.
    pub closed spec fn words_view(&self) -> Seq<Seq<char>> {
        self.words@
    }

    /// The words are valid and the prefix is empty or a strict prefix of one.
    pub closed spec fn wf(&self) -> bool {
        valid_words(self.words@) && valid_prefix(self.words@, self.prefix@)
    }

    /// A session on `words`, with no letter selected and an empty prefix.
    pub fn new(words: TargetWordSet) -> (r: Session)
        ensures
            r.wf(),
            r.words_view() == words@,
            r@ == (SessionState { letter: Letter { letter: NO_LETTER, played: false }, prefix: Seq::empty() }),
    {
        proof {
            use_type_invariant(&words);
        }
        let r = Session { current: Letter::new(NO_LETTER), prefix: Vec::new(), words };
        assert(r.prefix@ =~= Seq::<char>::empty());
        r
    }

    /// Applies a batch of events in order; stops at a quit, which it reports.
    pub fn apply_events(&mut self, events: &Vec<InputEvent>) -> (quit: bool)
        ensures
            (final(self)@.letter, quit) == apply_spec(old(self)@.letter, events@),
            final(self)@.prefix == old(self)@.prefix,
            final(self).words_view() == old(self).words_view(),
            old(self).wf() ==> final(self).wf(),
    {
        let mut i: usize = 0;
        assert(events@.skip(0) =~= events@);
        while i < events.len()
            invariant
                i <= events@.len(),
                self.prefix == old(self).prefix,
                self.words == old(self).words,
                apply_spec(old(self).current, events@) == apply_spec(
                    self.current,
                    events@.skip(i as int),
                ),
            decreases events@.len() - i,
        {
            let ghost rest = events@.skip(i as int);
            assert(rest.drop_first() =~= events@.skip(i + 1));
            assert(rest[0] == events@[i as int]);
            match events[i] {
                InputEvent::Quit => {
                    return true;
                },
                InputEvent::KeySelect(c) => {
                    self.current = Letter::new(c);
                },
                InputEvent::Ignored => {},
            }
            i = i + 1;
        }
        assert(events@.skip(i as int) =~= Seq::<InputEvent>::empty());
        false
    }

    /// Plays the current letter where it was not played yet; returns the
    /// letter's sound path and the sound path of a word it completes.
    pub fn dispatch(&mut self) -> (r: (Option<String>, Option<String>))
        requires
            old(self).wf(),
        ensures
            final(self).wf(),
            final(self).words_view() == old(self).words_view(),
            (final(self)@, path_view(r.0), path_view(r.1)) == dispatch_spec(
                old(self).words_view(),
                old(self)@,
            ),
    {
        let c = self.current.letter;
        if c != NO_LETTER && !self.current.played {
            let letter_cue = self.current.get_sound_path();
            self.current.played = true;
            if self.words.is_special(c) {
                proof {
                    lemma_recognize_keeps_valid(self.words@, self.prefix@, c);
                }
                let m = recognize_step(&self.words, &mut self.prefix, c);
                let word_cue = match m {
                    Some(w) => Some(sound_path_of(&w)),
                    None => None,
                };
                assert(path_view(word_cue) == word_cue_spec(word_view(m)));
                (Some(letter_cue), word_cue)
            } else {
                (Some(letter_cue), None)
            }
        } else {
            (None, None)
        }
    }

    /// One tick of the loop on the batch of events polled for it.
    pub fn tick(&mut self, events: &Vec<InputEvent>) -> (r: TickOutcome)
        requires
            old(self).wf(),
        ensures
            final(self).wf(),
            final(self).words_view() == old(self).words_view(),
            (final(self)@, r@) == tick_spec(old(self).words_view(), old(self)@, events@),
    {
        let quit = self.apply_events(events);
        if quit {
            return TickOutcome::Quit;
        }
        let render = if self.current.letter == NO_LETTER {
            None
        } else {
            Some(self.current.letter)
        };
        let (letter_cue, word_cue) = self.dispatch();
        TickOutcome::Run(TickAction { render, letter_cue, word_cue })
    }
    /// The current letter.
    pub fn current(&self) -> (r: Letter)
        ensures
            r == self@.letter,
    {
        self.current
    }

    /// The recognizer's prefix.
    pub fn prefix(&self) -> (r: Vec<char>)
        ensures
            r@ == self@.prefix,
    {
        let mut r: Vec<char> = Vec::new();
        let mut i: usize = 0;
        while i < self.prefix.len()
            invariant
                i <= self.prefix@.len(),
                r@ == self.prefix@.take(i as int),
            decreases self.prefix@.len() - i,
        {
            r.push(self.prefix[i]);
            i = i + 1;
            assert(r@ =~= self.prefix@.take(i as int));
        }
        assert(self.prefix@.take(i as int) =~= self.prefix@);
        r
    }
}

} // verus!
