use cl_wordle::game::{Game, GameType, GuessError, Outcome};
use cl_wordle::logic::MatchKind;
use cl_wordle::words::Dictionary;

fn w(s: &str) -> Vec<u8> {
    s.as_bytes().to_vec()
}

fn dict() -> Dictionary {
    let accept = vec![w("soare"), w("erase"), w("bobby"), w("slate"), w("crate")];
    let solutions = vec![w("crane"), w("speed"), w("abbey")];
    Dictionary::new(accept, solutions).unwrap()
}

#[test]
fn dictionary_rejects_bad_lists() {
    assert!(Dictionary::new(vec![w("soare")], vec![]).is_none());
    assert!(Dictionary::new(vec![w("abc")], vec![w("crane")]).is_none());
    assert!(Dictionary::new(vec![w("soare")], vec![w("CRANE")]).is_none());
    assert!(Dictionary::new(vec![w("soare")], vec![w("crane")]).is_some());
}

#[test]
fn dictionary_membership() {
    let d = dict();
    assert_eq!(d.solution_count(), 3);
    assert!(d.is_acceptable_guess(&w("soare")));
    assert!(!d.is_acceptable_guess(&w("crane")));
    assert!(d.is_valid_solution(&w("crane")));
    assert!(!d.is_valid_solution(&w("soare")));
}

#[test]
fn daily_solution_wraps_modulo() {
    let d = dict();
    assert_eq!(d.solution_for_day(0), w("crane"));
    assert_eq!(d.solution_for_day(1), w("speed"));
    assert_eq!(d.solution_for_day(2), w("abbey"));
    assert_eq!(d.solution_for_day(3), w("crane"));
    assert_eq!(d.solution_for_day(7), w("speed"));
}

#[test]
fn end_to_end_soare_then_crane() {
    let mut g = Game::custom(w("crane"), dict());
    assert_eq!(g.outcome(), Outcome::InProgress);
    assert_eq!(g.guess_count(), 0);

    let first = g.submit_guess(&w("soare")).unwrap();
    assert_eq!(
        first,
        vec![
            MatchKind::Absent,
            MatchKind::Absent,
            MatchKind::Exact,
            MatchKind::Present,
            MatchKind::Exact,
        ]
    );
    assert_eq!(g.outcome(), Outcome::InProgress);
    assert_eq!(g.game_over(), None);

    let second = g.submit_guess(&w("crane")).unwrap();
    assert_eq!(second, vec![MatchKind::Exact; 5]);
    assert_eq!(g.outcome(), Outcome::Won(2));
    assert_eq!(g.game_over(), Some(true));
    assert_eq!(g.guess_count(), 2);
}

#[test]
fn game_over_rejects_further_guesses() {
    let mut g = Game::custom(w("crane"), dict());
    g.submit_guess(&w("crane")).unwrap();
    assert_eq!(g.outcome(), Outcome::Won(1));
    for _ in 0..3 {
        assert_eq!(g.submit_guess(&w("soare")), Err(GuessError::GameOver));
        assert_eq!(g.guess_count(), 1);
        assert_eq!(g.outcome(), Outcome::Won(1));
    }
}

#[test]
fn wrong_length_changes_nothing() {
    let mut g = Game::custom(w("crane"), dict());
    g.submit_guess(&w("soare")).unwrap();
    for _ in 0..3 {
        assert_eq!(g.submit_guess(&w("cra")), Err(GuessError::WrongLength));
        assert_eq!(g.submit_guess(&w("cranes")), Err(GuessError::WrongLength));
        assert_eq!(g.guess_count(), 1);
        assert_eq!(g.outcome(), Outcome::InProgress);
        assert_eq!(g.keyboard().status_of(b'c'), None);
    }
}

#[test]
fn unknown_word_changes_nothing() {
    let mut g = Game::custom(w("crane"), dict());
    for _ in 0..3 {
        assert_eq!(g.submit_guess(&w("zzzzz")), Err(GuessError::NotInDictionary));
        assert_eq!(g.guess_count(), 0);
        assert_eq!(g.outcome(), Outcome::InProgress);
        assert_eq!(g.keyboard().status_of(b'z'), None);
    }
}

#[test]
fn six_misses_lose_the_game() {
    let mut g = Game::custom(w("crane"), dict());
    for _ in 0..3 {
        g.submit_guess(&w("soare")).unwrap();
        g.submit_guess(&w("slate")).unwrap();
    }
    assert_eq!(g.outcome(), Outcome::Lost);
    assert_eq!(g.game_over(), Some(false));
    assert_eq!(g.guess_count(), 6);
    assert_eq!(g.submit_guess(&w("crane")), Err(GuessError::GameOver));
}

#[test]
fn win_on_the_sixth_guess() {
    let mut g = Game::custom(w("crane"), dict());
    for _ in 0..5 {
        g.submit_guess(&w("soare")).unwrap();
    }
    assert_eq!(g.outcome(), Outcome::InProgress);
    g.submit_guess(&w("crane")).unwrap();
    assert_eq!(g.outcome(), Outcome::Won(6));
}

#[test]
fn keyboard_follows_the_game() {
    let mut g = Game::custom(w("crane"), dict());
    g.submit_guess(&w("soare")).unwrap();
    assert_eq!(g.keyboard().status_of(b'a'), Some(MatchKind::Exact));
    assert_eq!(g.keyboard().status_of(b'r'), Some(MatchKind::Present));
    assert_eq!(g.keyboard().status_of(b's'), Some(MatchKind::Absent));
    g.submit_guess(&w("crate")).unwrap();
    assert_eq!(g.keyboard().status_of(b'r'), Some(MatchKind::Exact));
}

#[test]
fn guesses_are_recorded_in_order() {
    let mut g = Game::custom(w("crane"), dict());
    g.submit_guess(&w("soare")).unwrap();
    g.submit_guess(&w("crane")).unwrap();
    assert_eq!(g.guess_at(0).word, w("soare"));
    assert_eq!(g.guess_at(1).word, w("crane"));
    assert_eq!(g.guess_at(1).result, vec![MatchKind::Exact; 5]);
    assert_eq!(g.solution(), &w("crane"));
    assert_eq!(g.game_type(), GameType::Custom);
}

#[test]
fn from_day_sets_type_and_solution() {
    let g = Game::from_day(4, dict());
    assert_eq!(g.game_type(), GameType::Daily(4));
    assert_eq!(g.solution(), &w("speed"));
}
