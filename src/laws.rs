//! Properties of the tick that hold for every input, proved over the spec
//! functions that describe it.

use vstd::prelude::*;
use crate::assets::sound_path;
use crate::letter::{Letter, NO_LETTER};
use crate::recognizer::recognize;
use crate::session::{apply_spec, tick_spec, InputEvent, Outcome, SessionState};
use crate::words::{in_alphabet, is_letter, is_prefix, is_word, starts_word, valid_words};

verus! {

/// The state after one tick per key of `keys`, each tick polling that key's
/// selection alone.
pub open spec fn run_keys(ws: Seq<Seq<char>>, st: SessionState, keys: Seq<char>) -> SessionState
    decreases keys.len(),
{
    if keys.len() == 0 {
        st
    } else {
        tick_spec(ws, run_keys(ws, st, keys.drop_last()), seq![InputEvent::KeySelect(keys.last())]).0
    }
}

/// What the tick of the key `keys[i]` decides, in the run of `run_keys`.
pub open spec fn key_outcome(ws: Seq<Seq<char>>, st: SessionState, keys: Seq<char>, i: int) -> Outcome {
    tick_spec(ws, run_keys(ws, st, keys.take(i)), seq![InputEvent::KeySelect(keys[i])]).1
}

/// The tick of a key alone selects that key's letter, fresh.
proof fn lemma_select_one(cur: Letter, c: char)
    ensures
        apply_spec(cur, seq![InputEvent::KeySelect(c)]) == (Letter { letter: c, played: false }, false),
{
    let evs = seq![InputEvent::KeySelect(c)];
    assert(evs.drop_first() =~= Seq::<InputEvent>::empty());
    assert(apply_spec(Letter { letter: c, played: false }, Seq::empty()).1 == false);
}

proof fn lemma_run_keys_step(ws: Seq<Seq<char>>, st: SessionState, keys: Seq<char>, i: int)
    requires
        0 <= i < keys.len(),
    ensures
        run_keys(ws, st, keys.take(i + 1)) == tick_spec(
            ws,
            run_keys(ws, st, keys.take(i)),
            seq![InputEvent::KeySelect(keys[i])],
        ).0,
{
    assert(keys.take(i + 1).drop_last() =~= keys.take(i));
}

/// Selecting a letter that is in no special word plays that letter's sound
/// alone and leaves the prefix as it was.
pub proof fn lemma_plain_letter_tick(ws: Seq<Seq<char>>, st: SessionState, c: char)
    requires
        is_letter(c),
        !in_alphabet(ws, c),
    ensures
        tick_spec(ws, st, seq![InputEvent::KeySelect(c)]).0.prefix == st.prefix,
        tick_spec(ws, st, seq![InputEvent::KeySelect(c)]).1 == (Outcome::Run {
            render: Some(c),
            letter_cue: Some(sound_path(seq![c])),
            word_cue: None,
        }),
{
    lemma_select_one(st.letter, c);
}

/// Over any run of letters that are in no special word, each selection plays
/// exactly its own letter's sound, and the prefix never changes.
pub proof fn lemma_plain_letters(ws: Seq<Seq<char>>, st: SessionState, keys: Seq<char>)
    requires
        forall|i: int| 0 <= i < keys.len() ==> is_letter(#[trigger] keys[i]) && !in_alphabet(ws, keys[i]),
    ensures
        run_keys(ws, st, keys).prefix == st.prefix,
        forall|i: int|
            0 <= i < keys.len() ==> #[trigger] key_outcome(ws, st, keys, i) == (Outcome::Run {
                render: Some(keys[i]),
                letter_cue: Some(sound_path(seq![keys[i]])),
                word_cue: None,
            }),
    decreases keys.len(),
{
    if keys.len() > 0 {
        let init = keys.drop_last();
        lemma_plain_letters(ws, st, init);
        lemma_plain_letter_tick(ws, run_keys(ws, st, init), keys.last());
    }
    assert forall|i: int| 0 <= i < keys.len() implies #[trigger] key_outcome(ws, st, keys, i) == (Outcome::Run {
        render: Some(keys[i]),
        letter_cue: Some(sound_path(seq![keys[i]])),
        word_cue: None,
    }) by {
        lemma_plain_letter_tick(ws, run_keys(ws, st, keys.take(i)), keys[i]);
    }
}

/// The tick of the `i`-th letter of word `ws[k]`, from the prefix made of
/// the letters before it.
proof fn lemma_word_letter(ws: Seq<Seq<char>>, st: SessionState, k: int, i: int)
    requires
        valid_words(ws),
        0 <= k < ws.len(),
        0 <= i < ws[k].len(),
        st.prefix == ws[k].take(i),
    ensures
        ({
            let w = ws[k];
            let (s, out) = tick_spec(ws, st, seq![InputEvent::KeySelect(w[i])]);
            &&& s.letter == (Letter { letter: w[i], played: true })
            &&& i + 1 < w.len() ==> s.prefix == w.take(i + 1) && out == (Outcome::Run {
                render: Some(w[i]),
                letter_cue: Some(sound_path(seq![w[i]])),
                word_cue: None,
            })
            &&& i + 1 == w.len() ==> s.prefix.len() == 0 && out == (Outcome::Run {
                render: Some(w[i]),
                letter_cue: Some(sound_path(seq![w[i]])),
                word_cue: Some(sound_path(w)),
            })
        }),
{
    let w = ws[k];
    let c = w[i];
    lemma_select_one(st.letter, c);
    assert(is_letter(ws[k][i]));
    assert(c != NO_LETTER);
    assert(in_alphabet(ws, c));
    let q = w.take(i + 1);
    assert(q.len() <= w.len() && w.subrange(0, q.len() as int) =~= q);
    assert(is_prefix(q, ws[k]));
    if i == 0 {
        assert(q =~= seq![c]);
        assert(starts_word(ws, seq![c]));
    } else {
        assert(st.prefix.push(c) =~= q);
    }
    if i + 1 < w.len() {
        assert(!is_word(ws, q)) by {
            if is_word(ws, q) {
                let j = choose|j: int| 0 <= j < ws.len() && #[trigger] ws[j] == q;
                assert(j != k);
                assert(is_prefix(ws[j], ws[k]));
            }
        }
        assert(starts_word(ws, q));
    } else {
        assert(q =~= w);
        assert(is_word(ws, q));
    }
    let r = recognize(ws, st.prefix, c);
    if i + 1 < w.len() {
        assert(r.0 == q && r.1 == None::<Seq<char>>);
    } else {
        assert(r.1 == Some(w));
    }
}

/// Typing a special word letter by letter from an empty prefix: each letter
/// but the last extends the prefix and plays only its own sound; the last one
/// also plays the word's sound, and the prefix is empty again.
pub proof fn lemma_word_completes(ws: Seq<Seq<char>>, st: SessionState, k: int)
    requires
        valid_words(ws),
        0 <= k < ws.len(),
        st.prefix.len() == 0,
    ensures
        forall|i: int|
            0 <= i < ws[k].len() - 1 ==> run_keys(ws, st, #[trigger] ws[k].take(i + 1)).prefix == ws[k].take(i + 1)
                && key_outcome(ws, st, ws[k], i) == (Outcome::Run {
                render: Some(ws[k][i]),
                letter_cue: Some(sound_path(seq![ws[k][i]])),
                word_cue: None,
            }),
        key_outcome(ws, st, ws[k], ws[k].len() - 1) == (Outcome::Run {
            render: Some(ws[k].last()),
            letter_cue: Some(sound_path(seq![ws[k].last()])),
            word_cue: Some(sound_path(ws[k])),
        }),
        run_keys(ws, st, ws[k]).prefix.len() == 0,
{
    let w = ws[k];
    assert(w.len() >= 2);
    lemma_word_prefix(ws, st, k, (w.len() - 1) as nat);
    assert forall|i: int| 0 <= i < w.len() - 1 implies run_keys(ws, st, #[trigger] ws[k].take(i + 1)).prefix == ws[k].take(i + 1)
        && key_outcome(ws, st, ws[k], i) == (Outcome::Run {
        render: Some(ws[k][i]),
        letter_cue: Some(sound_path(seq![ws[k][i]])),
        word_cue: None,
    }) by {
        lemma_word_prefix(ws, st, k, i as nat);
        lemma_word_letter(ws, run_keys(ws, st, w.take(i)), k, i);
        lemma_run_keys_step(ws, st, w, i);
    }
    let last = w.len() - 1;
    lemma_word_letter(ws, run_keys(ws, st, w.take(last)), k, last);
    lemma_run_keys_step(ws, st, w, last);
    assert(w.take(w.len() as int) =~= w);
}

/// After the first `n` letters of a word (short of its end), the prefix is
/// those letters.
proof fn lemma_word_prefix(ws: Seq<Seq<char>>, st: SessionState, k: int, n: nat)
    requires
        valid_words(ws),
        0 <= k < ws.len(),
        n < ws[k].len(),
        st.prefix.len() == 0,
    ensures
        run_keys(ws, st, ws[k].take(n as int)).prefix == ws[k].take(n as int),
    decreases n,
{
    let w = ws[k];
    if n == 0 {
        assert(w.take(0) =~= Seq::<char>::empty());
        assert(st.prefix =~= w.take(0));
    } else {
        let m = (n - 1) as int;
        lemma_word_prefix(ws, st, k, (n - 1) as nat);
        lemma_word_letter(ws, run_keys(ws, st, w.take(m)), k, m);
        lemma_run_keys_step(ws, st, w, m);
    }
}

/// A special letter that extends the prefix to something no word starts
/// with empties the prefix, and no word's sound is played.
pub proof fn lemma_abandon(ws: Seq<Seq<char>>, st: SessionState, c: char)
    requires
        valid_words(ws),
        in_alphabet(ws, c),
        !starts_word(ws, st.prefix.push(c)),
    ensures
        tick_spec(ws, st, seq![InputEvent::KeySelect(c)]).0.prefix.len() == 0,
        tick_spec(ws, st, seq![InputEvent::KeySelect(c)]).1 == (Outcome::Run {
            render: Some(c),
            letter_cue: Some(sound_path(seq![c])),
            word_cue: None,
        }),
{
    lemma_select_one(st.letter, c);
    let (i, j) = choose|i: int, j: int| 0 <= i < ws.len() && 0 <= j < ws[i].len() && #[trigger] ws[i][j] == c;
    assert(is_letter(ws[i][j]));
    let q = st.prefix.push(c);
    if st.prefix.len() == 0 {
        assert(q =~= seq![c]);
    } else if is_word(ws, q) {
        let a = choose|a: int| 0 <= a < ws.len() && #[trigger] ws[a] == q;
        assert(q.subrange(0, q.len() as int) =~= q);
        assert(is_prefix(q, ws[a]));
    }
}

/// Polling again with no new events changes nothing and plays nothing.
pub proof fn lemma_idle_ticks(ws: Seq<Seq<char>>, st: SessionState)
    ensures
        ({
            let s1 = tick_spec(ws, st, Seq::empty()).0;
            let (s2, out) = tick_spec(ws, s1, Seq::empty());
            &&& s2 == s1
            &&& out == (Outcome::Run {
                render: if s1.letter.letter == NO_LETTER { None } else { Some(s1.letter.letter) },
                letter_cue: None,
                word_cue: None,
            })
        }),
{
}

/// Selecting the letter that is already current selects it afresh, and its
/// sound is played again.
pub proof fn lemma_reselect(ws: Seq<Seq<char>>, st: SessionState)
    requires
        is_letter(st.letter.letter),
    ensures
        apply_spec(st.letter, seq![InputEvent::KeySelect(st.letter.letter)]) == (Letter {
            letter: st.letter.letter,
            played: false,
        }, false),
        tick_spec(ws, st, seq![InputEvent::KeySelect(st.letter.letter)]).0.letter.played,
        tick_spec(ws, st, seq![InputEvent::KeySelect(st.letter.letter)]).1 matches Outcome::Run {
            letter_cue: Some(p),
            ..
        } && p == sound_path(seq![st.letter.letter]),
{
    lemma_select_one(st.letter, st.letter.letter);
}

/// A quit in a batch ends it: the selections before it are applied, those
/// after it are not.
pub proof fn lemma_quit_stops(cur: Letter, before: Seq<InputEvent>, after: Seq<InputEvent>)
    requires
        forall|i: int| 0 <= i < before.len() ==> #[trigger] before[i] != InputEvent::Quit,
    ensures
        apply_spec(cur, before + seq![InputEvent::Quit] + after) == (apply_spec(cur, before).0, true),
    decreases before.len(),
{
    let evs = before + seq![InputEvent::Quit] + after;
    if before.len() > 0 {
        let rest = before.drop_first();
        assert(evs.drop_first() =~= rest + seq![InputEvent::Quit] + after);
        assert(evs[0] == before[0]);
        assert forall|i: int| 0 <= i < rest.len() implies #[trigger] rest[i] != InputEvent::Quit by {
            assert(rest[i] == before[i + 1]);
        }
        match before[0] {
            InputEvent::KeySelect(c) => {
                lemma_quit_stops(Letter { letter: c, played: false }, rest, after);
            },
            _ => {
                lemma_quit_stops(cur, rest, after);
            },
        }
    } else {
        assert(evs[0] == InputEvent::Quit);
    }
}

} // verus!
