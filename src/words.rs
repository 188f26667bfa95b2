//! The fixed set of special words and the prefix tests on it.

use vstd::prelude::*;

verus! {

/// `p` is a prefix of `w` (equal words included).
pub open spec fn is_prefix(p: Seq<char>, w: Seq<char>) -> bool {
    p.len() <= w.len() && w.subrange(0, p.len() as int) == p
}

/// `c` is an upper-case letter of the alphabet the keys select from.
pub open spec fn is_letter(c: char) -> bool {
    'A' <= c && c <= 'Z'
}

/// A valid word list: every word has at least two letters, all upper case,
/// and no word is a prefix of another one (so no two words are equal).
pub open spec fn valid_words(ws: Seq<Seq<char>>) -> bool {
    &&& forall|i: int| 0 <= i < ws.len() ==> #[trigger] ws[i].len() >= 2
    &&& forall|i: int, j: int|
        0 <= i < ws.len() && 0 <= j < ws[i].len() ==> is_letter(#[trigger] ws[i][j])
    &&& forall|i: int, j: int|
        0 <= i < ws.len() && 0 <= j < ws.len() && i != j ==> !is_prefix(
            #[trigger] ws[i],
            #[trigger] ws[j],
        )
}

/// `p` is one of the words.
pub open spec fn is_word(ws: Seq<Seq<char>>, p: Seq<char>) -> bool {
    exists|i: int| 0 <= i < ws.len() && #[trigger] ws[i] == p
}

/// Some word starts with `p`.
pub open spec fn starts_word(ws: Seq<Seq<char>>, p: Seq<char>) -> bool {
    exists|i: int| 0 <= i < ws.len() && is_prefix(p, #[trigger] ws[i])
}

/// `c` occurs in some word: it belongs to the special alphabet.
pub open spec fn in_alphabet(ws: Seq<Seq<char>>, c: char) -> bool {
    exists|i: int, j: int| 0 <= i < ws.len() && 0 <= j < ws[i].len() && #[trigger] ws[i][j] == c
}

/// The words that the program knows.
pub open spec fn standard_words() -> Seq<Seq<char>> {
    seq![
        seq!['Y', 'E', 'N', 'U', 'L', 'I'],
        seq!['Y', 'E', 'L', 'I', 'N', 'S', 'A'],
        seq!['Y', 'E', 'S', 'A', 'R', 'A'],
    ]
}

/// Whether `p` is a prefix of `w`.
pub fn prefix_of(p: &Vec<char>, w: &Vec<char>) -> (r: bool)
    ensures
        r == is_prefix(p@, w@),
{
    if p.len() > w.len() {
        return false;
    }
    let mut i: usize = 0;
    while i < p.len()
        invariant
            p@.len() <= w@.len(),
            i <= p@.len(),
            forall|k: int| 0 <= k < i ==> p@[k] == w@[k],
        decreases p@.len() - i,
    {
        if p[i] != w[i] {
            assert(w@.subrange(0, p@.len() as int)[i as int] != p@[i as int]);
            return false;
        }
        i = i + 1;
    }
    assert(w@.subrange(0, p@.len() as int) =~= p@);
    true
}

/// An ordered set of special words, fixed once built.
pub struct TargetWordSet {
    words: Vec<Vec<char>>,
}

impl View for TargetWordSet {
    type V = Seq<Seq<char>>;

    closed spec fn view(&self) -> Seq<Seq<char>> {
        self.words@.map_values(|w: Vec<char>| w@)
    }
}

impl TargetWordSet {
    pub open spec fn wf(&self) -> bool {
        valid_words(self@)
    }

    #[verifier::type_invariant]
    pub(crate) open spec fn inv(&self) -> bool {
        valid_words(self@)
    }

    /// The set built from `words`, in that order, or `None` where the list is
    /// not valid (a word shorter than two letters, a char that is no upper-case
    /// letter, or a word that is a prefix of another).
    pub fn new(words: Vec<Vec<char>>) -> (r: Option<TargetWordSet>)
        ensures
            match r {
                Some(s) => s@ == words@.map_values(|w: Vec<char>| w@) && s.wf(),
                None => !valid_words(words@.map_values(|w: Vec<char>| w@)),
            },
    {
        let ghost ws = words@.map_values(|w: Vec<char>| w@);
        let mut i: usize = 0;
        while i < words.len()
            invariant
                ws == words@.map_values(|w: Vec<char>| w@),
                i <= words@.len(),
                forall|a: int| 0 <= a < i ==> #[trigger] ws[a].len() >= 2,
                forall|a: int, b: int|
                    0 <= a < i && 0 <= b < ws[a].len() ==> is_letter(#[trigger] ws[a][b]),
                forall|a: int, b: int|
                    0 <= a < i && 0 <= b < ws.len() && a != b ==> !is_prefix(
                        #[trigger] ws[a],
                        #[trigger] ws[b],
                    ),
            decreases words@.len() - i,
        {
            let w = &words[i];
            assert(ws[i as int] == w@);
            if w.len() < 2 {
                return None;
            }
            let mut j: usize = 0;
            while j < w.len()
                invariant
                    ws == words@.map_values(|w: Vec<char>| w@),
                    i < words@.len(),
                    ws[i as int] == w@,
                    j <= w@.len(),
                    forall|b: int| 0 <= b < j ==> is_letter(#[trigger] w@[b]),
                decreases w@.len() - j,
            {
                if !('A' <= w[j] && w[j] <= 'Z') {
                    return None;
                }
                j = j + 1;
            }
            let mut k: usize = 0;
            while k < words.len()
                invariant
                    ws == words@.map_values(|w: Vec<char>| w@),
                    i < words@.len(),
                    ws[i as int] == w@,
                    k <= words@.len(),
                    forall|b: int| 0 <= b < k && b != i ==> !is_prefix(w@, #[trigger] ws[b]),
                decreases words@.len() - k,
            {
                if k != i && prefix_of(w, &words[k]) {
                    assert(ws[k as int] == words@[k as int]@);
                    assert(is_prefix(ws[i as int], ws[k as int]));
                    return None;
                }
                k = k + 1;
            }
            i = i + 1;
        }
        Some(TargetWordSet { words })
    }

    /// The words that the program knows: YENULI, YELINSA and YESARA.
    pub fn standard() -> (r: TargetWordSet)
        ensures
            r@ == standard_words(),
            r.wf(),
    {
        let words = vec![
            vec!['Y', 'E', 'N', 'U', 'L', 'I'],
            vec!['Y', 'E', 'L', 'I', 'N', 'S', 'A'],
            vec!['Y', 'E', 'S', 'A', 'R', 'A'],
        ];
        let r = TargetWordSet { words };
        proof {
            let ws = standard_words();
            assert(r@ =~= ws);
            assert(ws.len() == 3);
            assert(ws[0].len() == 6 && ws[1].len() == 7 && ws[2].len() == 6);
            assert(ws[0][2] == 'N' && ws[1][2] == 'L' && ws[2][2] == 'S');
            assert forall|i: int, j: int|
                0 <= i < ws.len() && 0 <= j < ws.len() && i != j implies !is_prefix(
                #[trigger] ws[i],
                #[trigger] ws[j],
            ) by {
                if ws[i].len() <= ws[j].len() {
                    assert(ws[j].subrange(0, ws[i].len() as int)[2] == ws[j][2]);
                }
            }
        }
        r
    }
    /// Whether `c` occurs in some word.
    pub fn is_special(&self, c: char) -> (r: bool)
        ensures
            r == in_alphabet(self@, c),
    {
        let mut i: usize = 0;
        while i < self.words.len()
            invariant
                i <= self@.len(),
                self@.len() == self.words@.len(),
                forall|a: int, b: int|
                    0 <= a < i && 0 <= b < self@[a].len() ==> #[trigger] self@[a][b] != c,
            decreases self.words@.len() - i,
        {
            let w = &self.words[i];
            assert(self@[i as int] == w@);
            let mut j: usize = 0;
            while j < w.len()
                invariant
                    i < self@.len(),
                    self@[i as int] == w@,
                    j <= w@.len(),
                    forall|b: int| 0 <= b < j ==> #[trigger] w@[b] != c,
                decreases w@.len() - j,
            {
                if w[j] == c {
                    assert(self@[i as int][j as int] == c);
                    return true;
                }
                j = j + 1;
            }
            i = i + 1;
        }
        false
    }

    /// Whether `p` is one of the words.
    pub fn contains_word(&self, p: &Vec<char>) -> (r: bool)
        ensures
            r == is_word(self@, p@),
    {
        let mut i: usize = 0;
        while i < self.words.len()
            invariant
                i <= self@.len(),
                self@.len() == self.words@.len(),
                forall|a: int| 0 <= a < i ==> #[trigger] self@[a] != p@,
            decreases self.words@.len() - i,
        {
            let w = &self.words[i];
            assert(self@[i as int] == w@);
            if w.len() == p.len() && prefix_of(p, w) {
                assert(w@ =~= p@);
                return true;
            }
            assert(w@ != p@) by {
                if w@ == p@ {
                    assert(w@.subrange(0, p@.len() as int) =~= p@);
                }
            }
            i = i + 1;
        }
        false
    }

    /// Whether some word starts with `p`.
    pub fn starts_word(&self, p: &Vec<char>) -> (r: bool)
        ensures
            r == starts_word(self@, p@),
    {
        let mut i: usize = 0;
        while i < self.words.len()
            invariant
                i <= self@.len(),
                self@.len() == self.words@.len(),
                forall|a: int| 0 <= a < i ==> !is_prefix(p@, #[trigger] self@[a]),
            decreases self.words@.len() - i,
        {
            let w = &self.words[i];
            assert(self@[i as int] == w@);
            if prefix_of(p, w) {
                return true;
            }
            i = i + 1;
        }
        false
    }
}

} // verus!
