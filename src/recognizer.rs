//! Recognition of special words typed one letter at a time.

use vstd::prelude::*;
use crate::words::{is_word, starts_word, valid_words, TargetWordSet};

verus! {

/// The prefix held between letters: empty, or a strict prefix of some word.
pub open spec fn valid_prefix(ws: Seq<Seq<char>>, p: Seq<char>) -> bool {
    p.len() == 0 || (starts_word(ws, p) && !is_word(ws, p))
}

/// One step of the recognizer on the special letter `c`, from prefix `p`:
/// the next prefix, and the word completed by `c`, if any.
/// From the empty prefix, `c` starts a prefix where some word starts with it.
/// Otherwise `p + c` is reported where it is a word (and the prefix empties),
/// kept where some word starts with it, and dropped, `c` included, where none does.
pub open spec fn recognize(ws: Seq<Seq<char>>, p: Seq<char>, c: char) -> (Seq<char>, Option<Seq<char>>) {
    if p.len() == 0 {
        if starts_word(ws, seq![c]) {
            (seq![c], None)
        } else {
            (Seq::empty(), None)
        }
    } else {
        let q = p.push(c);
        if is_word(ws, q) {
            (Seq::empty(), Some(q))
        } else if starts_word(ws, q) {
            (q, None)
        } else {
            (Seq::empty(), None)
        }
    }
}

/// The view of an optional word.
pub open spec fn word_view(w: Option<Vec<char>>) -> Option<Seq<char>> {
    match w {
        Some(v) => Some(v@),
        None => None,
    }
}

/// A step keeps the prefix valid.
pub proof fn lemma_recognize_keeps_valid(ws: Seq<Seq<char>>, p: Seq<char>, c: char)
    requires
        valid_words(ws),
    ensures
        valid_prefix(ws, recognize(ws, p, c).0),
{
    if p.len() == 0 && starts_word(ws, seq![c]) {
        if is_word(ws, seq![c]) {
            let i = choose|i: int| 0 <= i < ws.len() && #[trigger] ws[i] == seq![c];
            assert(ws[i].len() >= 2);
        }
    }
}

/// Feeds the special letter `c` to the recognizer whose prefix is `prefix`;
/// returns the word that `c` completes, if any.
pub fn recognize_step(words: &TargetWordSet, prefix: &mut Vec<char>, c: char) -> (r: Option<Vec<char>>)
    ensures
        final(prefix)@ == recognize(words@, old(prefix)@, c).0,
        word_view(r) == recognize(words@, old(prefix)@, c).1,
{
    if prefix.len() == 0 {
        let one = vec![c];
        assert(one@ =~= seq![c]);
        if words.starts_word(&one) {
            *prefix = one;
        }
        None
    } else {
        prefix.push(c);
        if words.contains_word(prefix) {
            let mut w: Vec<char> = Vec::new();
            std::mem::swap(prefix, &mut w);
            assert(prefix@ =~= Seq::<char>::empty());
            Some(w)
        } else if words.starts_word(prefix) {
            None
        } else {
            prefix.clear();
            assert(prefix@ =~= Seq::<char>::empty());
            None
        }
    }
}

} // verus!
