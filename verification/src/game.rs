//! The game state machine: one hidden solution, an append-only list of
//! scored guesses, and an outcome that turns terminal on an exact match
//! or after the sixth guess.

use vstd::prelude::*;
use crate::date::{day_index_spec, get_day, Date};
use crate::keyboard::{kb_fold, kb_init, KeyboardStatus};
use crate::logic::{score, score_spec, MatchKind};
use crate::words::{bytes_equal, copy_bytes, is_letter, is_word, Dictionary};

verus! {

/// How the game's solution was chosen: the daily puzzle of a given index,
/// or a custom word.
#[derive(Clone, Copy, Debug, PartialEq, Eq, Structural)]
pub enum GameType {
    Daily(u64),
    Custom,
}

/// The state of the machine: still accepting guesses, won after `n`
/// guesses, or lost after six misses.
#[derive(Clone, Copy, Debug, PartialEq, Eq, Structural)]
pub enum Outcome {
    InProgress,
    Won(usize),
    Lost,
}

/// Why a submitted word was rejected; a rejected word changes nothing.
#[derive(Clone, Copy, Debug, PartialEq, Eq, Structural)]
pub enum GuessError {
    /// The candidate is not exactly five letters.
    WrongLength,
    /// The candidate is in neither word list.
    NotInDictionary,
    /// The game already ended.
    GameOver,
}

/// One accepted guess with its score.
pub struct Guess {
    pub word: Vec<u8>,
    pub result: Vec<MatchKind>,
}

/// The views of a list of guesses: each word with its score.
pub open spec fn guess_views(list: Seq<Guess>) -> Seq<(Seq<u8>, Seq<MatchKind>)> {
    list.map_values(|g: Guess| (g.word@, g.result@))
}

/// The keyboard after folding in the first `n` guesses, starting from the
/// empty table.
pub open spec fn kb_all(gs: Seq<(Seq<u8>, Seq<MatchKind>)>, n: int) -> Seq<Option<MatchKind>>
    decreases n,
{
    if n <= 0 {
        kb_init()
    } else {
        kb_fold(kb_all(gs, n - 1), gs[n - 1].0, gs[n - 1].1, 5)
    }
}

/// Folding a prefix only reads that prefix.
pub proof fn lemma_kb_all_prefix(
    a: Seq<(Seq<u8>, Seq<MatchKind>)>,
    b: Seq<(Seq<u8>, Seq<MatchKind>)>,
    n: int,
)
    requires
        0 <= n,
        forall|j: int| 0 <= j < n ==> a[j] == b[j],
    ensures
        kb_all(a, n) == kb_all(b, n),
    decreases n,
{
    if n > 0 {
        lemma_kb_all_prefix(a, b, n - 1);
    }
}

/// A game session: the fixed solution, the guesses so far with their
/// scores, the aggregate keyboard, and the outcome.
pub struct Game {
    solution: Vec<u8>,
    guesses: Vec<Guess>,
    outcome: Outcome,
    keyboard: KeyboardStatus,
    dict: Dictionary,
    game_type: GameType,
}

impl Game {
    /// The hidden solution.
    pub closed spec fn solution_spec(self) -> Seq<u8> {
        self.solution@
    }

    /// The accepted guesses, in order, each with its score.
    pub closed spec fn guesses_spec(self) -> Seq<(Seq<u8>, Seq<MatchKind>)> {
        guess_views(self.guesses@)
    }

    pub closed spec fn outcome_spec(self) -> Outcome {
        self.outcome
    }

    /// The keyboard table aggregated over all guesses.
    pub closed spec fn keyboard_spec(self) -> Seq<Option<MatchKind>> {
        self.keyboard@
    }

    pub closed spec fn dictionary_spec(self) -> Dictionary {
        self.dict
    }

    pub closed spec fn game_type_spec(self) -> GameType {
        self.game_type
    }

    /// The machine's invariant: the solution is a word of the dictionary's
    /// shape; every stored guess is a dictionary word scored against the
    /// solution; the keyboard is exactly the fold of all guesses; and the
    /// outcome agrees with the guesses — in progress only while fewer than
    /// six guesses missed, won exactly when the last guess hit, lost
    /// exactly on six misses.
    pub open spec fn wf(self) -> bool {
        &&& is_word(self.solution_spec())
        &&& self.dictionary_spec().wf()
        &&& self.guesses_spec().len() <= 6
        &&& (forall|j: int|
            0 <= j < self.guesses_spec().len() ==> is_word(
                (#[trigger] self.guesses_spec()[j]).0,
            ) && self.dictionary_spec().in_dictionary(self.guesses_spec()[j].0)
                && self.guesses_spec()[j].1 == score_spec(
                self.guesses_spec()[j].0,
                self.solution_spec(),
            ))
        &&& self.keyboard_spec().len() == 26
        &&& self.keyboard_spec() == kb_all(
            self.guesses_spec(),
            self.guesses_spec().len() as int,
        )
        &&& match self.outcome_spec() {
            Outcome::InProgress => self.guesses_spec().len() < 6 && (forall|j: int|
                0 <= j < self.guesses_spec().len() ==> (#[trigger] self.guesses_spec()[j]).0
                    != self.solution_spec()),
            Outcome::Won(n) => 1 <= n <= 6 && self.guesses_spec().len() == n
                && self.guesses_spec()[n - 1].0 == self.solution_spec() && (forall|j: int|
                0 <= j < n - 1 ==> (#[trigger] self.guesses_spec()[j]).0
                    != self.solution_spec()),
            Outcome::Lost => self.guesses_spec().len() == 6 && (forall|j: int|
                0 <= j < 6 ==> (#[trigger] self.guesses_spec()[j]).0 != self.solution_spec()),
        }
    }

    /// A fresh game on the given solution.
    fn new_raw(solution: Vec<u8>, dict: Dictionary, game_type: GameType) -> (g: Game)
        requires
            is_word(solution@),
            dict.wf(),
        ensures
            g.wf(),
            g.solution_spec() == solution@,
            g.guesses_spec().len() == 0,
            g.outcome_spec() == Outcome::InProgress,
            g.keyboard_spec() == kb_init(),
            g.dictionary_spec() == dict,
            g.game_type_spec() == game_type,
    {
        let g = Game {
            solution,
            guesses: Vec::new(),
            outcome: Outcome::InProgress,
            keyboard: KeyboardStatus::new(),
            dict,
            game_type,
        };
        proof {
            assert(g.guesses_spec() =~= Seq::<(Seq<u8>, Seq<MatchKind>)>::empty());
        }
        g
    }

    /// A game on a custom solution word.
    pub fn custom(solution: Vec<u8>, dict: Dictionary) -> (g: Game)
        requires
            is_word(solution@),
            dict.wf(),
        ensures
            g.wf(),
            g.solution_spec() == solution@,
            g.guesses_spec().len() == 0,
            g.outcome_spec() == Outcome::InProgress,
            g.keyboard_spec() == kb_init(),
            g.dictionary_spec() == dict,
            g.game_type_spec() == GameType::Custom,
    {
        Game::new_raw(solution, dict, GameType::Custom)
    }

    /// The daily game of the given puzzle index: its solution is the
    /// index taken modulo the solution list's length.
    pub fn from_day(day: u64, dict: Dictionary) -> (g: Game)
        requires
            dict.wf(),
        ensures
            g.wf(),
            g.solution_spec() == dict.solution_list()[day as int % dict.solution_list().len() as int],
            g.guesses_spec().len() == 0,
            g.outcome_spec() == Outcome::InProgress,
            g.keyboard_spec() == kb_init(),
            g.dictionary_spec() == dict,
            g.game_type_spec() == GameType::Daily(day),
    {
        let solution = dict.solution_for_day(day);
        Game::new_raw(solution, dict, GameType::Daily(day))
    }

    /// The daily game of a calendar date: the puzzle index is the days
    /// elapsed since the first puzzle's date; dates before it have no
    /// puzzle.
    pub fn from_date(date: Date, dict: Dictionary) -> (r: Option<Game>)
        requires
            date.wf(),
            dict.wf(),
        ensures
            r is Some <==> day_index_spec(date) >= 0,
            r matches Some(g) ==> {
                &&& g.wf()
                &&& g.game_type_spec() == GameType::Daily(day_index_spec(date) as u64)
                &&& g.solution_spec() == dict.solution_list()[day_index_spec(date)
                    % dict.solution_list().len() as int]
                &&& g.guesses_spec().len() == 0
                &&& g.outcome_spec() == Outcome::InProgress
                &&& g.dictionary_spec() == dict
            },
    {
        match get_day(&date) {
            Option::Some(day) => Option::Some(Game::from_day(day, dict)),
            Option::None => Option::None,
        }
    }

    /// Submits one candidate word. After a terminal outcome every call
    /// fails with `GameOver`; a candidate of the wrong length or outside
    /// the dictionary is rejected; rejection changes nothing. An accepted
    /// word is scored against the solution, appended with its score,
    /// folded into the keyboard, and the outcome is decided: won on an
    /// exact match, lost on the sixth miss, otherwise still in progress.
    pub fn submit_guess(&mut self, word: &Vec<u8>) -> (r: Result<Vec<MatchKind>, GuessError>)
        requires
            old(self).wf(),
            forall|i: int| 0 <= i < word@.len() ==> is_letter(#[trigger] word@[i]),
        ensures
            final(self).wf(),
            final(self).solution_spec() == old(self).solution_spec(),
            final(self).dictionary_spec() == old(self).dictionary_spec(),
            final(self).game_type_spec() == old(self).game_type_spec(),
            r is Err <==> (old(self).outcome_spec() != Outcome::InProgress || word@.len() != 5
                || !old(self).dictionary_spec().in_dictionary(word@)),
            r == Err::<Vec<MatchKind>, GuessError>(GuessError::GameOver) <==> old(self).outcome_spec() != Outcome::InProgress,
            (old(self).outcome_spec() == Outcome::InProgress && word@.len() != 5) ==> r
                == Err::<Vec<MatchKind>, GuessError>(GuessError::WrongLength),
            (old(self).outcome_spec() == Outcome::InProgress && word@.len() == 5 && !old(self).dictionary_spec().in_dictionary(word@)) ==> r == Err::<
                Vec<MatchKind>,
                GuessError,
            >(GuessError::NotInDictionary),
            r is Err ==> final(self).guesses_spec() == old(self).guesses_spec() && final(self).outcome_spec() == old(self).outcome_spec() && final(self).keyboard_spec() == old(self).keyboard_spec(),
            r matches Ok(v) ==> v@ == score_spec(word@, old(self).solution_spec()) && final(self).guesses_spec() == old(self).guesses_spec().push(
                (word@, score_spec(word@, old(self).solution_spec())),
            ) && final(self).keyboard_spec() == kb_fold(
                old(self).keyboard_spec(),
                word@,
                score_spec(word@, old(self).solution_spec()),
                5,
            ) && final(self).outcome_spec() == (if word@ == old(self).solution_spec() {
                Outcome::Won((old(self).guesses_spec().len() + 1) as usize)
            } else if old(self).guesses_spec().len() + 1 == 6 {
                Outcome::Lost
            } else {
                Outcome::InProgress
            }),
    {
        match self.outcome {
            Outcome::InProgress => {},
            _ => {
                return Result::Err(GuessError::GameOver);
            },
        }
        if word.len() != 5 {
            return Result::Err(GuessError::WrongLength);
        }
        let acceptable = self.dict.is_acceptable_guess(word);
        let valid_solution = self.dict.is_valid_solution(word);
        if !acceptable && !valid_solution {
            return Result::Err(GuessError::NotInDictionary);
        }
        let result = score(word, &self.solution);
        let stored_word = copy_bytes(word);
        let stored_result = crate::logic::copy_kinds(&result);
        self.keyboard.update(word, &result);
        self.guesses.push(Guess { word: stored_word, result: stored_result });
        let won = bytes_equal(word, &self.solution);
        let n = self.guesses.len();
        if won {
            self.outcome = Outcome::Won(n);
        } else if n == 6 {
            self.outcome = Outcome::Lost;
        }
        proof {
            let oldg = old(self).guesses_spec();
            let newg = self.guesses_spec();
            let res = score_spec(word@, old(self).solution_spec());
            assert(newg =~= oldg.push((word@, res)));
            lemma_kb_all_prefix(newg, oldg, oldg.len() as int);
            assert(kb_all(newg, newg.len() as int) == kb_fold(
                kb_all(newg, oldg.len() as int),
                word@,
                res,
                5,
            ));
            crate::keyboard::lemma_kb_fold_len(old(self).keyboard_spec(), word@, res, 5);
        }
        Result::Ok(result)
    }

    /// The solution word.
    pub fn solution(&self) -> (w: &Vec<u8>)
        ensures
            w@ == self.solution_spec(),
    {
        &self.solution
    }

    /// How many guesses were accepted so far.
    pub fn guess_count(&self) -> (n: usize)
        ensures
            n == self.guesses_spec().len(),
    {
        self.guesses.len()
    }

    /// One accepted guess with its score.
    pub fn guess_at(&self, i: usize) -> (g: &Guess)
        requires
            i < self.guesses_spec().len(),
        ensures
            g.word@ == self.guesses_spec()[i as int].0,
            g.result@ == self.guesses_spec()[i as int].1,
    {
        &self.guesses[i]
    }

    pub fn outcome(&self) -> (o: Outcome)
        ensures
            o == self.outcome_spec(),
    {
        self.outcome
    }

    pub fn game_type(&self) -> (t: GameType)
        ensures
            t == self.game_type_spec(),
    {
        self.game_type
    }

    /// The aggregate keyboard.
    pub fn keyboard(&self) -> (kb: &KeyboardStatus)
        ensures
            kb@ == self.keyboard_spec(),
    {
        &self.keyboard
    }

    /// `None` while the game accepts guesses; `Some(true)` after a win,
    /// `Some(false)` after a loss.
    pub fn game_over(&self) -> (r: Option<bool>)
        ensures
            r is Some <==> self.outcome_spec() != Outcome::InProgress,
            r == Option::Some(true) <==> self.outcome_spec() is Won,
            r == Option::Some(false) <==> self.outcome_spec() == Outcome::Lost,
    {
        match self.outcome {
            Outcome::InProgress => Option::None,
            Outcome::Won(_) => Option::Some(true),
            Outcome::Lost => Option::Some(false),
        }
    }

    /// Today's daily game. `None` when the local date cannot be
    /// determined or lies outside the library's calendar range or before
    /// the first puzzle's date.
    pub fn new(dict: Dictionary) -> (r: Option<Game>)
        requires
            dict.wf(),
        ensures
            r matches Some(g) ==> {
                &&& g.wf()
                &&& g.game_type_spec() is Daily
                &&& g.guesses_spec().len() == 0
                &&& g.outcome_spec() == Outcome::InProgress
                &&& g.dictionary_spec() == dict
            },
    {
        match local_date_now() {
            Option::Some((y, m, d)) => {
                if 1970 <= y && y <= 9999 {
                    match Date::new(y as u16, m, d) {
                        Option::Some(date) => Game::from_date(date, dict),
                        Option::None => Option::None,
                    }
                } else {
                    Option::None
                }
            },
            Option::None => Option::None,
        }
    }

    /// The shareable summary of a finished game.
    pub fn share(&self) -> (s: GameShare)
        requires
            self.wf(),
            self.outcome_spec() != Outcome::InProgress,
        ensures
            s.game_type == self.game_type_spec(),
            kinds_views(s.matches@) == results_of(self.guesses_spec()),
            s.score == score_char(self.outcome_spec()),
    {
        let mut rows: Vec<Vec<MatchKind>> = Vec::new();
        let mut i: usize = 0;
        while i < self.guesses.len()
            invariant
                i <= self.guesses@.len(),
                rows@.len() == i,
                forall|k: int|
                    0 <= k < i ==> (#[trigger] rows@[k])@ == guess_views(self.guesses@)[k].1,
            decreases self.guesses@.len() - i,
        {
            rows.push(crate::logic::copy_kinds(&self.guesses[i].result));
            i += 1;
        }
        proof {
            assert(kinds_views(rows@) =~= results_of(self.guesses_spec()));
        }
        let score = match self.outcome {
            Outcome::Won(n) => digit_char(n),
            _ => 'X',
        };
        GameShare { game_type: self.game_type, matches: rows, score }
    }
}

/// The outcome always matches the record: a game never holds more than
/// six guesses; a win after `n` turns means the `n`-th guess equals the
/// solution and no earlier one does; a game still in progress has fewer
/// than six guesses, none equal to the solution; a lost game has exactly
/// six, none equal to the solution.
pub proof fn lemma_outcome_sound(g: Game)
    requires
        g.wf(),
    ensures
        g.guesses_spec().len() <= 6,
        g.outcome_spec() matches Outcome::Won(n) ==> 1 <= n <= 6 && g.guesses_spec().len() == n
            && g.guesses_spec()[n - 1].0 == g.solution_spec() && (forall|j: int|
            0 <= j < n - 1 ==> (#[trigger] g.guesses_spec()[j]).0 != g.solution_spec()),
        g.outcome_spec() == Outcome::InProgress ==> g.guesses_spec().len() < 6 && (forall|j: int|
            0 <= j < g.guesses_spec().len() ==> (#[trigger] g.guesses_spec()[j]).0
                != g.solution_spec()),
        g.outcome_spec() == Outcome::Lost ==> g.guesses_spec().len() == 6 && (forall|j: int|
            0 <= j < 6 ==> (#[trigger] g.guesses_spec()[j]).0 != g.solution_spec()),
{
}

/// The views of a list of scores.
pub open spec fn kinds_views(list: Seq<Vec<MatchKind>>) -> Seq<Seq<MatchKind>> {
    list.map_values(|v: Vec<MatchKind>| v@)
}

/// The scores of a list of guesses.
pub open spec fn results_of(gs: Seq<(Seq<u8>, Seq<MatchKind>)>) -> Seq<Seq<MatchKind>> {
    gs.map_values(|p: (Seq<u8>, Seq<MatchKind>)| p.1)
}

/// The digit character of a turn count, capped at six.
pub open spec fn digit_char_spec(n: int) -> char {
    if n == 1 {
        '1'
    } else if n == 2 {
        '2'
    } else if n == 3 {
        '3'
    } else if n == 4 {
        '4'
    } else if n == 5 {
        '5'
    } else {
        '6'
    }
}

/// The score mark of an outcome: the turn count of a win, `X` otherwise.
pub open spec fn score_char(o: Outcome) -> char {
    match o {
        Outcome::Won(n) => digit_char_spec(n as int),
        _ => 'X',
    }
}

fn digit_char(n: usize) -> (c: char)
    ensures
        c == digit_char_spec(n as int),
{
    if n == 1 {
        '1'
    } else if n == 2 {
        '2'
    } else if n == 3 {
        '3'
    } else if n == 4 {
        '4'
    } else if n == 5 {
        '5'
    } else {
        '6'
    }
}

/// Relies on `time::OffsetDateTime::now_local`, which reads the clock and
/// the local offset, and on `time::Date`'s accessors: `month()` is a
/// calendar month, one through twelve, and `day()` is documented to lie
/// in one through thirty-one. Nothing else is assumed of the values; the
/// caller validates them.
#[verifier::external_body]
fn local_date_now() -> (r: Option<(i32, u8, u8)>)
    ensures
        r matches Some(d) ==> 1 <= d.1 <= 12 && 1 <= d.2 <= 31,
{
    match time::OffsetDateTime::now_local() {
        Ok(t) => {
            let date = t.date();
            Some((date.year(), date.month() as u8, date.day()))
        },
        Err(_) => None,
    }
}

/// The decimal digits of a number, most significant first; negative
/// numbers are read as their low digit alone.
pub open spec fn dec_digits(n: int) -> Seq<u8>
    decreases n,
{
    if n < 10 {
        seq![(n + 48) as u8]
    } else {
        dec_digits(n / 10).push((n % 10 + 48) as u8)
    }
}

/// The glyph of one classification in the shareable block.
pub open spec fn glyph(k: MatchKind) -> u8 {
    match k {
        MatchKind::Exact => 71,  // G
        MatchKind::Present => 89,  // Y
        MatchKind::Absent => 66,  // B
    }
}

/// One line of the shareable block: the glyphs of one scored guess.
pub open spec fn glyph_line(r: Seq<MatchKind>) -> Seq<u8> {
    Seq::new(r.len(), |i: int| glyph(r[i]))
}

/// The glyph lines of the first `n` guesses, each on its own line.
pub open spec fn share_lines(ms: Seq<Seq<MatchKind>>, n: int) -> Seq<u8>
    decreases n,
{
    if n <= 0 {
        Seq::empty()
    } else {
        share_lines(ms, n - 1) + seq![10u8] + glyph_line(ms[n - 1])
    }
}

/// The label of the game's kind: the daily puzzle index in decimal, or
/// the word `custom`.
pub open spec fn game_type_bytes(t: GameType) -> Seq<u8> {
    match t {
        GameType::Daily(day) => dec_digits(day as int),
        GameType::Custom => seq![99u8, 117u8, 115u8, 116u8, 111u8, 109u8],  // "custom"
    }
}

/// The byte of the score mark.
pub open spec fn score_byte(c: char) -> u8 {
    if c == '1' {
        49
    } else if c == '2' {
        50
    } else if c == '3' {
        51
    } else if c == '4' {
        52
    } else if c == '5' {
        53
    } else if c == '6' {
        54
    } else {
        88  // X
    }
}

/// The whole shareable block: a `Wordle` header with the game's label and
/// the score out of six, then one glyph line per guess.
pub open spec fn share_text_spec(gt: GameType, score: char, ms: Seq<Seq<MatchKind>>) -> Seq<u8> {
    seq![87u8, 111u8, 114u8, 100u8, 108u8, 101u8, 32u8]  // "Wordle "
     + game_type_bytes(gt) + seq![32u8, score_byte(score), 47u8, 54u8]  // " <score>/6"
     + share_lines(ms, ms.len() as int)
}

fn score_byte_exec(c: char) -> (b: u8)
    ensures
        b == score_byte(c),
{
    if c == '1' {
        49
    } else if c == '2' {
        50
    } else if c == '3' {
        51
    } else if c == '4' {
        52
    } else if c == '5' {
        53
    } else if c == '6' {
        54
    } else {
        88
    }
}

fn glyph_exec(k: MatchKind) -> (b: u8)
    ensures
        b == glyph(k),
{
    match k {
        MatchKind::Exact => 71,
        MatchKind::Present => 89,
        MatchKind::Absent => 66,
    }
}

/// Appends the decimal digits of `n`.
fn push_decimal(t: &mut Vec<u8>, n: u64)
    ensures
        final(t)@ == old(t)@ + dec_digits(n as int),
    decreases n,
{
    if n < 10 {
        t.push((n as u8) + 48);
        proof {
            assert(t@ =~= old(t)@ + dec_digits(n as int));
        }
    } else {
        push_decimal(t, n / 10);
        t.push(((n % 10) as u8) + 48);
        proof {
            assert(t@ =~= old(t)@ + dec_digits(n as int));
        }
    }
}

/// A finished game's shareable summary: the game's kind, the score mark,
/// and each guess's score in order.
pub struct GameShare {
    pub game_type: GameType,
    pub matches: Vec<Vec<MatchKind>>,
    pub score: char,
}

impl GameShare {
    /// Renders the shareable block, ASCII bytes: glyph order follows
    /// guess order and each line has one glyph per position.
    pub fn text(&self) -> (t: Vec<u8>)
        ensures
            t@ == share_text_spec(self.game_type, self.score, kinds_views(self.matches@)),
    {
        let ghost ms = kinds_views(self.matches@);
        let mut t: Vec<u8> = Vec::new();
        t.push(87);
        t.push(111);
        t.push(114);
        t.push(100);
        t.push(108);
        t.push(101);
        t.push(32);
        proof {
            assert(t@ =~= seq![87u8, 111u8, 114u8, 100u8, 108u8, 101u8, 32u8]);
        }
        match self.game_type {
            GameType::Daily(day) => {
                push_decimal(&mut t, day);
            },
            GameType::Custom => {
                t.push(99);
                t.push(117);
                t.push(115);
                t.push(116);
                t.push(111);
                t.push(109);
            },
        }
        proof {
            assert(t@ =~= seq![87u8, 111u8, 114u8, 100u8, 108u8, 101u8, 32u8] + game_type_bytes(
                self.game_type,
            ));
        }
        t.push(32);
        let sb = score_byte_exec(self.score);
        t.push(sb);
        t.push(47);
        t.push(54);
        let ghost header = seq![87u8, 111u8, 114u8, 100u8, 108u8, 101u8, 32u8] + game_type_bytes(
            self.game_type,
        ) + seq![32u8, score_byte(self.score), 47u8, 54u8];
        proof {
            assert(t@ =~= header);
        }
        let mut i: usize = 0;
        while i < self.matches.len()
            invariant
                i <= self.matches@.len(),
                ms == kinds_views(self.matches@),
                t@ == header + share_lines(ms, i as int),
            decreases self.matches@.len() - i,
        {
            t.push(10);
            let row = &self.matches[i];
            let mut j: usize = 0;
            while j < row.len()
                invariant
                    0 <= i < ms.len(),
                    ms == kinds_views(self.matches@),
                    row@ == ms[i as int],
                    j <= row@.len(),
                    t@ == header + share_lines(ms, i as int) + seq![10u8] + glyph_line(
                        ms[i as int],
                    ).take(j as int),
                decreases row@.len() - j,
            {
                let b = glyph_exec(row[j]);
                t.push(b);
                proof {
                    assert(glyph_line(ms[i as int]).take(j as int + 1) =~= glyph_line(
                        ms[i as int],
                    ).take(j as int).push(glyph(ms[i as int][j as int])));
                    assert(t@ =~= header + share_lines(ms, i as int) + seq![10u8] + glyph_line(
                        ms[i as int],
                    ).take(j as int + 1));
                }
                j += 1;
            }
            proof {
                assert(glyph_line(ms[i as int]).take(row@.len() as int) =~= glyph_line(
                    ms[i as int],
                ));
                assert(t@ =~= header + share_lines(ms, i as int + 1));
            }
            i += 1;
        }
        proof {
            assert(t@ =~= share_text_spec(self.game_type, self.score, ms));
        }
        t
    }
}

} // verus!
