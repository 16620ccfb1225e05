use cl_wordle::date::{get_day, rata_die, Date};
use cl_wordle::game::{Game, GameType, GuessError, Outcome};
use cl_wordle::words::Dictionary;

fn w(s: &str) -> Vec<u8> {
    s.as_bytes().to_vec()
}

fn dict() -> Dictionary {
    let accept = vec![w("soare"), w("slate")];
    let solutions = vec![w("crane"), w("speed")];
    Dictionary::new(accept, solutions).unwrap()
}

#[test]
fn date_validation() {
    assert!(Date::new(2021, 6, 19).is_some());
    assert!(Date::new(1969, 12, 31).is_none());
    assert!(Date::new(2021, 0, 19).is_none());
    assert!(Date::new(2021, 13, 19).is_none());
    assert!(Date::new(2021, 6, 0).is_none());
    assert!(Date::new(2021, 6, 32).is_none());
    assert!(Date::new(10000, 1, 1).is_none());
}

#[test]
fn day_zero_is_the_first_puzzle() {
    let d = Date::new(2021, 6, 19).unwrap();
    assert_eq!(get_day(&d), Some(0));
}

#[test]
fn days_count_forward_from_the_first_puzzle() {
    assert_eq!(get_day(&Date::new(2021, 6, 20).unwrap()), Some(1));
    assert_eq!(get_day(&Date::new(2021, 7, 19).unwrap()), Some(30));
    assert_eq!(get_day(&Date::new(2022, 1, 1).unwrap()), Some(196));
    assert_eq!(get_day(&Date::new(2022, 6, 19).unwrap()), Some(365));
}

#[test]
fn dates_before_the_first_puzzle_have_no_day() {
    assert_eq!(get_day(&Date::new(2021, 6, 18).unwrap()), None);
    assert_eq!(get_day(&Date::new(1970, 1, 1).unwrap()), None);
}

#[test]
fn rata_die_counts_leap_years() {
    let a = rata_die(&Date::new(2020, 2, 28).unwrap());
    let b = rata_die(&Date::new(2020, 3, 1).unwrap());
    assert_eq!(b - a, 2); // 2020 had a February 29
    let c = rata_die(&Date::new(2021, 2, 28).unwrap());
    let d = rata_die(&Date::new(2021, 3, 1).unwrap());
    assert_eq!(d - c, 1);
}

#[test]
fn from_date_picks_the_daily_puzzle() {
    let date = Date::new(2021, 6, 20).unwrap();
    let g = Game::from_date(date, dict()).unwrap();
    assert_eq!(g.game_type(), GameType::Daily(1));
    assert_eq!(g.solution(), &w("speed"));
    let early = Date::new(2021, 6, 1).unwrap();
    assert!(Game::from_date(early, dict()).is_none());
}

#[test]
fn share_block_after_a_win() {
    let mut g = Game::from_day(0, dict());
    g.submit_guess(&w("soare")).unwrap();
    g.submit_guess(&w("crane")).unwrap();
    assert_eq!(g.outcome(), Outcome::Won(2));
    let share = g.share();
    let text = share.text();
    assert_eq!(text, b"Wordle 0 2/6\nBBGYG\nGGGGG".to_vec());
}

#[test]
fn share_block_after_a_loss() {
    let mut g = Game::custom(w("crane"), dict());
    for _ in 0..6 {
        g.submit_guess(&w("slate")).unwrap();
    }
    assert_eq!(g.outcome(), Outcome::Lost);
    assert_eq!(g.submit_guess(&w("crane")), Err(GuessError::GameOver));
    let text = g.share().text();
    assert_eq!(text, b"Wordle custom X/6\nBBGBG\nBBGBG\nBBGBG\nBBGBG\nBBGBG\nBBGBG".to_vec());
}

#[test]
fn share_block_of_a_late_daily_puzzle() {
    let mut g = Game::from_day(1234, dict());
    assert_eq!(g.solution(), &w("crane"));
    g.submit_guess(&w("crane")).unwrap();
    let text = g.share().text();
    assert_eq!(text, b"Wordle 1234 1/6\nGGGGG".to_vec());
}
