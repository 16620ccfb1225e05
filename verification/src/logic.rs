//! Scoring of one guess against one solution, with the duplicate-letter
//! budget: exact matches claim an occurrence of their letter first, and
//! the remaining occurrences are handed out to non-exact positions from
//! left to right.

use vstd::prelude::*;
use crate::words::{is_letter, is_word, LOWER_A};

verus! {

/// The classification of one guessed letter.
#[derive(Clone, Copy, Debug, PartialEq, Eq, Structural)]
pub enum MatchKind {
    /// Correct letter in the correct position.
    Exact,
    /// The letter occurs elsewhere in the solution and an occurrence is
    /// still unclaimed.
    Present,
    /// No unclaimed occurrence of the letter remains.
    Absent,
}

/// How many of the first `n` bytes of `s` equal `c`.
pub open spec fn count_upto(s: Seq<u8>, c: u8, n: int) -> int
    decreases n,
{
    if n <= 0 {
        0
    } else {
        count_upto(s, c, n - 1) + (if s[n - 1] == c {
            1int
        } else {
            0int
        })
    }
}

/// How many of the first `n` positions are exact matches on letter `c`.
pub open spec fn exact_upto(g: Seq<u8>, s: Seq<u8>, c: u8, n: int) -> int
    decreases n,
{
    if n <= 0 {
        0
    } else {
        exact_upto(g, s, c, n - 1) + (if g[n - 1] == c && s[n - 1] == c {
            1int
        } else {
            0int
        })
    }
}

/// How many of the first `n` positions guess letter `c` without an exact
/// match.
pub open spec fn nonexact_upto(g: Seq<u8>, s: Seq<u8>, c: u8, n: int) -> int
    decreases n,
{
    if n <= 0 {
        0
    } else {
        nonexact_upto(g, s, c, n - 1) + (if g[n - 1] == c && g[n - 1] != s[n - 1] {
            1int
        } else {
            0int
        })
    }
}

/// The occurrences of `c` in the solution that exact matches leave
/// unclaimed.
pub open spec fn avail(g: Seq<u8>, s: Seq<u8>, c: u8) -> int {
    count_upto(s, c, 5) - exact_upto(g, s, c, 5)
}

/// The classification of position `i`: exact matches win outright; a
/// non-exact position is `Present` exactly when fewer earlier non-exact
/// positions guessed the same letter than the letter has unclaimed
/// occurrences.
pub open spec fn kind_at(g: Seq<u8>, s: Seq<u8>, i: int) -> MatchKind {
    if g[i] == s[i] {
        MatchKind::Exact
    } else if nonexact_upto(g, s, g[i], i) < avail(g, s, g[i]) {
        MatchKind::Present
    } else {
        MatchKind::Absent
    }
}

/// The whole score of a guess: one classification per position.
pub open spec fn score_spec(g: Seq<u8>, s: Seq<u8>) -> Seq<MatchKind> {
    Seq::new(5, |i: int| kind_at(g, s, i))
}

/// The three counts are non-negative and bounded by the prefix length.
pub proof fn lemma_counts_bounds(g: Seq<u8>, s: Seq<u8>, c: u8, n: int)
    requires
        0 <= n,
    ensures
        0 <= count_upto(s, c, n) <= n,
        0 <= exact_upto(g, s, c, n) <= n,
        0 <= nonexact_upto(g, s, c, n) <= n,
    decreases n,
{
    if n > 0 {
        lemma_counts_bounds(g, s, c, n - 1);
    }
}

/// Exact matches on a letter never outnumber its occurrences in the
/// solution.
pub proof fn lemma_exact_le_count(g: Seq<u8>, s: Seq<u8>, c: u8, n: int)
    requires
        0 <= n,
    ensures
        exact_upto(g, s, c, n) <= count_upto(s, c, n),
    decreases n,
{
    if n > 0 {
        lemma_exact_le_count(g, s, c, n - 1);
    }
}

/// Counting over a longer prefix never shrinks.
pub proof fn lemma_count_mono(s: Seq<u8>, c: u8, n: int, m: int)
    requires
        0 <= n <= m,
    ensures
        count_upto(s, c, n) <= count_upto(s, c, m),
    decreases m,
{
    if m > n {
        lemma_count_mono(s, c, n, m - 1);
    }
}

/// The unclaimed budget of every letter is non-negative.
pub proof fn lemma_avail_nonneg(g: Seq<u8>, s: Seq<u8>, c: u8)
    ensures
        avail(g, s, c) >= 0,
{
    lemma_exact_le_count(g, s, c, 5);
}

/// The slot of a letter in a 26-entry table.
pub open spec fn slot(c: u8) -> int {
    c - LOWER_A
}

/// The remaining budget of letter `c` after the first `n` positions of
/// the second pass: the unclaimed occurrences minus the earlier non-exact
/// positions on `c`, floored at zero.
pub open spec fn rem_after(g: Seq<u8>, s: Seq<u8>, c: u8, n: int) -> int {
    if avail(g, s, c) - nonexact_upto(g, s, c, n) >= 0 {
        avail(g, s, c) - nonexact_upto(g, s, c, n)
    } else {
        0
    }
}

fn letter_index(b: u8) -> (i: usize)
    requires
        is_letter(b),
    ensures
        i == slot(b),
        i < 26,
{
    (b - LOWER_A) as usize
}

/// Scores a guess against a solution, two passes: the first claims exact
/// matches, the second hands the remaining occurrences of each letter to
/// non-exact positions from left to right.
pub fn score(guess: &Vec<u8>, solution: &Vec<u8>) -> (r: Vec<MatchKind>)
    requires
        is_word(guess@),
        is_word(solution@),
    ensures
        r@ == score_spec(guess@, solution@),
        r@.len() == 5,
{
    let mut remaining: Vec<usize> = Vec::new();
    let mut k: usize = 0;
    while k < 26
        invariant
            remaining@.len() == k,
            k <= 26,
            forall|j: int| 0 <= j < k ==> remaining@[j] == 0,
        decreases 26 - k,
    {
        remaining.push(0);
        k += 1;
    }
    // histogram of the solution's letters
    let mut i: usize = 0;
    while i < 5
        invariant
            is_word(solution@),
            remaining@.len() == 26,
            i <= 5,
            forall|c: u8|
                is_letter(c) ==> remaining@[#[trigger] slot(c)] == count_upto(
                    solution@,
                    c,
                    i as int,
                ),
        decreases 5 - i,
    {
        let idx = letter_index(solution[i]);
        let cur = remaining[idx];
        proof {
            lemma_counts_bounds(guess@, solution@, solution@[i as int], i as int);
        }
        remaining.set(idx, cur + 1);
        i += 1;
    }
    // first pass: exact matches claim occurrences
    let mut result: Vec<MatchKind> = Vec::new();
    let mut i: usize = 0;
    while i < 5
        invariant
            is_word(guess@),
            is_word(solution@),
            remaining@.len() == 26,
            i <= 5,
            result@.len() == i,
            forall|j: int|
                0 <= j < i ==> ((#[trigger] result@[j]) == MatchKind::Exact <==> guess@[j]
                    == solution@[j]),
            forall|j: int|
                0 <= j < i ==> (guess@[j] != solution@[j] ==> (#[trigger] result@[j])
                    == MatchKind::Absent),
            forall|c: u8|
                is_letter(c) ==> remaining@[#[trigger] slot(c)] == count_upto(solution@, c, 5)
                    - exact_upto(guess@, solution@, c, i as int),
        decreases 5 - i,
    {
        if guess[i] == solution[i] {
            let idx = letter_index(guess[i]);
            let cur = remaining[idx];
            proof {
                let c = guess@[i as int];
                lemma_exact_le_count(guess@, solution@, c, i as int + 1);
                lemma_count_mono(solution@, c, i as int + 1, 5);
                assert(exact_upto(guess@, solution@, c, i as int + 1) == exact_upto(
                    guess@,
                    solution@,
                    c,
                    i as int,
                ) + 1);
            }
            remaining.set(idx, cur - 1);
            result.push(MatchKind::Exact);
        } else {
            result.push(MatchKind::Absent);
        }
        i += 1;
    }
    // second pass: unclaimed occurrences go to non-exact positions in order
    proof {
        assert forall|c: u8| is_letter(c) implies remaining@[#[trigger] slot(c)] == rem_after(
            guess@,
            solution@,
            c,
            0,
        ) by {
            lemma_avail_nonneg(guess@, solution@, c);
        }
    }
    let mut i: usize = 0;
    while i < 5
        invariant
            is_word(guess@),
            is_word(solution@),
            remaining@.len() == 26,
            i <= 5,
            result@.len() == 5,
            forall|j: int| 0 <= j < i ==> (#[trigger] result@[j]) == kind_at(guess@, solution@, j),
            forall|j: int|
                i <= j < 5 ==> ((#[trigger] result@[j]) == MatchKind::Exact <==> guess@[j]
                    == solution@[j]),
            forall|j: int|
                i <= j < 5 ==> (guess@[j] != solution@[j] ==> (#[trigger] result@[j])
                    == MatchKind::Absent),
            forall|c: u8|
                is_letter(c) ==> remaining@[#[trigger] slot(c)] == rem_after(
                    guess@,
                    solution@,
                    c,
                    i as int,
                ),
        decreases 5 - i,
    {
        let ghost g = guess@;
        let ghost s = solution@;
        if guess[i] != solution[i] {
            let idx = letter_index(guess[i]);
            let cur = remaining[idx];
            proof {
                let c = g[i as int];
                assert(nonexact_upto(g, s, c, i as int + 1) == nonexact_upto(g, s, c, i as int)
                    + 1);
                assert forall|d: u8| is_letter(d) && d != c implies nonexact_upto(
                    g,
                    s,
                    d,
                    i as int + 1,
                ) == nonexact_upto(g, s, d, i as int) by {}
            }
            if cur > 0 {
                result.set(i, MatchKind::Present);
                remaining.set(idx, cur - 1);
            } else {
                result.set(i, MatchKind::Absent);
            }
        } else {
            proof {
                assert forall|d: u8| is_letter(d) implies nonexact_upto(g, s, d, i as int + 1)
                    == nonexact_upto(g, s, d, i as int) by {}
            }
        }
        i += 1;
    }
    proof {
        assert(result@ =~= score_spec(guess@, solution@));
    }
    result
}

/// Copies a score.
pub fn copy_kinds(v: &Vec<MatchKind>) -> (r: Vec<MatchKind>)
    ensures
        r@ == v@,
{
    let mut r: Vec<MatchKind> = Vec::new();
    let mut i: usize = 0;
    while i < v.len()
        invariant
            i <= v@.len(),
            r@ =~= v@.take(i as int),
        decreases v@.len() - i,
    {
        r.push(v[i]);
        i += 1;
    }
    proof {
        assert(r@ =~= v@);
    }
    r
}

/// Scoring a word against itself marks every position `Exact`.
pub proof fn lemma_score_self(g: Seq<u8>)
    requires
        is_word(g),
    ensures
        forall|i: int| 0 <= i < 5 ==> score_spec(g, g)[i] == MatchKind::Exact,
{
}

/// How many of the first `n` positions are marked `Present` on letter
/// `c`.
pub open spec fn present_upto(g: Seq<u8>, s: Seq<u8>, c: u8, n: int) -> int
    decreases n,
{
    if n <= 0 {
        0
    } else {
        present_upto(g, s, c, n - 1) + (if g[n - 1] == c && kind_at(g, s, n - 1)
            == MatchKind::Present {
            1int
        } else {
            0int
        })
    }
}

/// The `Present` marks on a letter over a prefix are exactly the earlier
/// non-exact positions on it, capped at the letter's unclaimed budget.
pub proof fn lemma_present_min(g: Seq<u8>, s: Seq<u8>, c: u8, n: int)
    requires
        0 <= n,
        avail(g, s, c) >= 0,
    ensures
        present_upto(g, s, c, n) == if nonexact_upto(g, s, c, n) <= avail(g, s, c) {
            nonexact_upto(g, s, c, n)
        } else {
            avail(g, s, c)
        },
    decreases n,
{
    if n > 0 {
        lemma_present_min(g, s, c, n - 1);
    }
}

/// The letter budget is respected: for every letter, the positions marked
/// `Present` plus the exact matches never outnumber the letter's
/// occurrences in the solution; a letter absent from the solution is
/// never marked `Present` or `Exact`.
pub proof fn lemma_present_budget(g: Seq<u8>, s: Seq<u8>, c: u8)
    requires
        is_word(g),
        is_word(s),
    ensures
        present_upto(g, s, c, 5) + exact_upto(g, s, c, 5) <= count_upto(s, c, 5),
        0 <= present_upto(g, s, c, 5),
        0 <= exact_upto(g, s, c, 5),
        count_upto(s, c, 5) == 0 ==> present_upto(g, s, c, 5) == 0 && exact_upto(g, s, c, 5) == 0,
{
    lemma_avail_nonneg(g, s, c);
    lemma_present_min(g, s, c, 5);
    lemma_counts_bounds(g, s, c, 5);
    lemma_exact_le_count(g, s, c, 5);
}

} // verus!
