//! Per-letter best-known status across all guesses, as shown on the
//! on-screen keyboard.

use vstd::prelude::*;
use crate::logic::{slot, MatchKind};
use crate::words::{is_letter, is_word};

verus! {

/// The strength of an observation: an unset entry is weakest, then
/// `Absent`, `Present`, `Exact`.
pub open spec fn rank(st: Option<MatchKind>) -> int {
    match st {
        Option::None => 0,
        Option::Some(MatchKind::Absent) => 1,
        Option::Some(MatchKind::Present) => 2,
        Option::Some(MatchKind::Exact) => 3,
    }
}

/// Of two observations, the stronger one; the stored one wins ties.
pub open spec fn better(a: Option<MatchKind>, b: Option<MatchKind>) -> Option<MatchKind> {
    if rank(a) >= rank(b) {
        a
    } else {
        b
    }
}

/// The table with no letter observed yet.
pub open spec fn kb_init() -> Seq<Option<MatchKind>> {
    Seq::new(26, |i: int| Option::<MatchKind>::None)
}

/// The table after folding in the first `n` positions of one scored
/// guess: each position raises its letter's entry to the stronger of the
/// stored status and the new classification.
pub open spec fn kb_fold(
    st: Seq<Option<MatchKind>>,
    w: Seq<u8>,
    r: Seq<MatchKind>,
    n: int,
) -> Seq<Option<MatchKind>>
    decreases n,
{
    if n <= 0 {
        st
    } else {
        let prev = kb_fold(st, w, r, n - 1);
        prev.update(slot(w[n - 1]), better(prev[slot(w[n - 1])], Option::Some(r[n - 1])))
    }
}

/// Folding keeps the table's length.
pub proof fn lemma_kb_fold_len(st: Seq<Option<MatchKind>>, w: Seq<u8>, r: Seq<MatchKind>, n: int)
    requires
        st.len() == 26,
        is_word(w),
        0 <= n <= 5,
    ensures
        kb_fold(st, w, r, n).len() == 26,
    decreases n,
{
    if n > 0 {
        lemma_kb_fold_len(st, w, r, n - 1);
    }
}

/// A letter's status never regresses under an update: its rank only
/// grows, and a letter once `Exact` stays `Exact`.
pub proof fn lemma_keyboard_no_regress(
    st: Seq<Option<MatchKind>>,
    w: Seq<u8>,
    r: Seq<MatchKind>,
    n: int,
    l: int,
)
    requires
        st.len() == 26,
        is_word(w),
        0 <= n <= 5,
        0 <= l < 26,
    ensures
        rank(kb_fold(st, w, r, n)[l]) >= rank(st[l]),
        st[l] == Option::Some(MatchKind::Exact) ==> kb_fold(st, w, r, n)[l] == Option::Some(
            MatchKind::Exact,
        ),
    decreases n,
{
    if n > 0 {
        lemma_keyboard_no_regress(st, w, r, n - 1, l);
        lemma_kb_fold_len(st, w, r, n - 1);
    }
}

/// The aggregate keyboard: one best-known status per letter of the
/// alphabet.
pub struct KeyboardStatus {
    status: Vec<Option<MatchKind>>,
}

impl View for KeyboardStatus {
    type V = Seq<Option<MatchKind>>;

    closed spec fn view(&self) -> Seq<Option<MatchKind>> {
        self.status@
    }
}

impl KeyboardStatus {
    /// One entry per letter.
    pub open spec fn wf(self) -> bool {
        self@.len() == 26
    }

    /// A fresh keyboard with nothing observed.
    pub fn new() -> (kb: KeyboardStatus)
        ensures
            kb.wf(),
            kb@ == kb_init(),
    {
        let mut status: Vec<Option<MatchKind>> = Vec::new();
        let mut k: usize = 0;
        while k < 26
            invariant
                status@.len() == k,
                k <= 26,
                forall|j: int| 0 <= j < k ==> status@[j] is None,
            decreases 26 - k,
        {
            status.push(Option::None);
            k += 1;
        }
        proof {
            assert(status@ =~= kb_init());
        }
        KeyboardStatus { status }
    }

    /// The best-known status of one letter.
    pub fn status_of(&self, letter: u8) -> (st: Option<MatchKind>)
        requires
            self.wf(),
            is_letter(letter),
        ensures
            st == self@[slot(letter)],
    {
        self.status[(letter - crate::words::LOWER_A) as usize]
    }

    /// Folds one scored guess into the aggregate.
    pub fn update(&mut self, word: &Vec<u8>, result: &Vec<MatchKind>)
        requires
            old(self).wf(),
            is_word(word@),
            result@.len() == 5,
        ensures
            final(self).wf(),
            final(self)@ == kb_fold(old(self)@, word@, result@, 5),
    {
        let mut i: usize = 0;
        while i < 5
            invariant
                self.wf(),
                is_word(word@),
                result@.len() == 5,
                i <= 5,
                self@ == kb_fold(old(self)@, word@, result@, i as int),
            decreases 5 - i,
        {
            let idx = (word[i] - crate::words::LOWER_A) as usize;
            let cur = self.status[idx];
            let observed = Option::Some(result[i]);
            if rank_of(observed) > rank_of(cur) {
                self.status.set(idx, observed);
            }
            proof {
                assert(self@ =~= kb_fold(old(self)@, word@, result@, i as int + 1));
            }
            i += 1;
        }
    }
}

/// The executable counterpart of `rank`.
fn rank_of(st: Option<MatchKind>) -> (r: u8)
    ensures
        r as int == rank(st),
{
    match st {
        Option::None => 0,
        Option::Some(MatchKind::Absent) => 1,
        Option::Some(MatchKind::Present) => 2,
        Option::Some(MatchKind::Exact) => 3,
    }
}

} // verus!
