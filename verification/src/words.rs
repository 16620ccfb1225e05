//! Letters, five-letter words, and the dictionary of playable words.

use vstd::prelude::*;

verus! {

/// ASCII code of 'a'.
pub const LOWER_A: u8 = 97;

/// ASCII code of 'z'.
pub const LOWER_Z: u8 = 122;

/// A letter is a lower-case ASCII alphabetic byte; words are normalized
/// to lower case before they reach the library.
pub open spec fn is_letter(b: u8) -> bool {
    LOWER_A <= b && b <= LOWER_Z
}

/// A playable word: exactly five letters.
pub open spec fn is_word(s: Seq<u8>) -> bool {
    s.len() == 5 && forall|i: int| 0 <= i < s.len() ==> is_letter(#[trigger] s[i])
}

/// The views of a list of words.
pub open spec fn views_of(list: Seq<Vec<u8>>) -> Seq<Seq<u8>> {
    list.map_values(|w: Vec<u8>| w@)
}

/// Every entry of the list is a playable word.
pub open spec fn all_words(list: Seq<Seq<u8>>) -> bool {
    forall|i: int| 0 <= i < list.len() ==> is_word(#[trigger] list[i])
}

/// Checks that a candidate is exactly five lower-case letters.
pub fn check_word(w: &Vec<u8>) -> (b: bool)
    ensures
        b == is_word(w@),
{
    if w.len() != 5 {
        return false;
    }
    let mut i: usize = 0;
    while i < 5
        invariant
            w@.len() == 5,
            i <= 5,
            forall|j: int| 0 <= j < i ==> is_letter(#[trigger] w@[j]),
        decreases 5 - i,
    {
        let b = w[i];
        if b < LOWER_A || b > LOWER_Z {
            return false;
        }
        i += 1;
    }
    true
}

/// Byte-for-byte equality of two words.
pub fn bytes_equal(a: &Vec<u8>, b: &Vec<u8>) -> (r: bool)
    ensures
        r <==> a@ == b@,
{
    if a.len() != b.len() {
        return false;
    }
    let mut i: usize = 0;
    while i < a.len()
        invariant
            a@.len() == b@.len(),
            i <= a@.len(),
            forall|j: int| 0 <= j < i ==> a@[j] == b@[j],
        decreases a@.len() - i,
    {
        if a[i] != b[i] {
            return false;
        }
        i += 1;
    }
    proof {
        assert(a@ =~= b@);
    }
    true
}

/// Copies a word.
pub fn copy_bytes(a: &Vec<u8>) -> (r: Vec<u8>)
    ensures
        r@ == a@,
{
    let mut r: Vec<u8> = Vec::new();
    let mut i: usize = 0;
    while i < a.len()
        invariant
            i <= a@.len(),
            r@ =~= a@.take(i as int),
        decreases a@.len() - i,
    {
        r.push(a[i]);
        i += 1;
    }
    proof {
        assert(r@ =~= a@);
    }
    r
}

/// The two word lists of the game: words that may be guessed, and words
/// that may be a solution. Membership in either makes a guess valid; the
/// solution list also seeds the daily puzzle.
pub struct Dictionary {
    accept: Vec<Vec<u8>>,
    solutions: Vec<Vec<u8>>,
}

impl Dictionary {
    /// The acceptable-guess list.
    pub closed spec fn accept_list(self) -> Seq<Seq<u8>> {
        views_of(self.accept@)
    }

    /// The solution list.
    pub closed spec fn solution_list(self) -> Seq<Seq<u8>> {
        views_of(self.solutions@)
    }

    /// A well-formed dictionary holds only five-letter words and offers at
    /// least one solution.
    pub open spec fn wf(self) -> bool {
        &&& self.solution_list().len() > 0
        &&& all_words(self.accept_list())
        &&& all_words(self.solution_list())
    }

    pub open spec fn contains_acceptable(self, w: Seq<u8>) -> bool {
        self.accept_list().contains(w)
    }

    pub open spec fn contains_solution(self, w: Seq<u8>) -> bool {
        self.solution_list().contains(w)
    }

    /// A word may be guessed when either list holds it.
    pub open spec fn in_dictionary(self, w: Seq<u8>) -> bool {
        self.contains_acceptable(w) || self.contains_solution(w)
    }

    /// Builds a dictionary after validating both lists.
    pub fn new(accept: Vec<Vec<u8>>, solutions: Vec<Vec<u8>>) -> (d: Option<Dictionary>)
        ensures
            d is Some <==> solutions@.len() > 0 && all_words(views_of(accept@)) && all_words(
                views_of(solutions@),
            ),
            d matches Some(dict) ==> dict.wf() && dict.accept_list() == views_of(accept@)
                && dict.solution_list() == views_of(solutions@),
    {
        if solutions.len() == 0 {
            return None;
        }
        if !all_words_exec(&accept) {
            return None;
        }
        if !all_words_exec(&solutions) {
            return None;
        }
        Some(Dictionary { accept, solutions })
    }

    pub fn is_acceptable_guess(&self, w: &Vec<u8>) -> (b: bool)
        ensures
            b == self.contains_acceptable(w@),
    {
        list_contains(&self.accept, w)
    }

    pub fn is_valid_solution(&self, w: &Vec<u8>) -> (b: bool)
        ensures
            b == self.contains_solution(w@),
    {
        list_contains(&self.solutions, w)
    }

    /// How many solutions the dictionary offers.
    pub fn solution_count(&self) -> (n: usize)
        ensures
            n == self.solution_list().len(),
    {
        self.solutions.len()
    }

    /// The solution of the given day: the day index taken modulo the
    /// length of the solution list.
    pub fn solution_for_day(&self, day: u64) -> (w: Vec<u8>)
        requires
            self.wf(),
        ensures
            w@ == self.solution_list()[day as int % self.solution_list().len() as int],
            is_word(w@),
    {
        let n = self.solutions.len();
        let idx = (day % (n as u64)) as usize;
        copy_bytes(&self.solutions[idx])
    }
}

/// Checks that every entry of a list is a playable word.
fn all_words_exec(list: &Vec<Vec<u8>>) -> (b: bool)
    ensures
        b == all_words(views_of(list@)),
{
    let mut i: usize = 0;
    while i < list.len()
        invariant
            i <= list@.len(),
            forall|j: int| 0 <= j < i ==> is_word(#[trigger] views_of(list@)[j]),
        decreases list@.len() - i,
    {
        if !check_word(&list[i]) {
            proof {
                assert(!is_word(views_of(list@)[i as int]));
            }
            return false;
        }
        i += 1;
    }
    true
}

/// Linear search for a word in a list.
fn list_contains(list: &Vec<Vec<u8>>, w: &Vec<u8>) -> (b: bool)
    ensures
        b == views_of(list@).contains(w@),
{
    let mut i: usize = 0;
    while i < list.len()
        invariant
            i <= list@.len(),
            forall|j: int| 0 <= j < i ==> views_of(list@)[j] != w@,
        decreases list@.len() - i,
    {
        if bytes_equal(&list[i], w) {
            proof {
                assert(views_of(list@)[i as int] == w@);
            }
            return true;
        }
        i += 1;
    }
    proof {
        assert(forall|j: int| 0 <= j < list@.len() ==> views_of(list@)[j] != w@);
    }
    false
}

} // verus!
