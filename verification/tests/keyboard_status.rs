use cl_wordle::keyboard::KeyboardStatus;
use cl_wordle::logic::MatchKind;

fn w(s: &str) -> Vec<u8> {
    s.as_bytes().to_vec()
}

#[test]
fn keyboard_starts_unset() {
    let kb = KeyboardStatus::new();
    for c in b'a'..=b'z' {
        assert_eq!(kb.status_of(c), None);
    }
}

#[test]
fn keyboard_records_observations() {
    let mut kb = KeyboardStatus::new();
    kb.update(
        &w("soare"),
        &vec![
            MatchKind::Absent,
            MatchKind::Absent,
            MatchKind::Exact,
            MatchKind::Present,
            MatchKind::Exact,
        ],
    );
    assert_eq!(kb.status_of(b's'), Some(MatchKind::Absent));
    assert_eq!(kb.status_of(b'o'), Some(MatchKind::Absent));
    assert_eq!(kb.status_of(b'a'), Some(MatchKind::Exact));
    assert_eq!(kb.status_of(b'r'), Some(MatchKind::Present));
    assert_eq!(kb.status_of(b'e'), Some(MatchKind::Exact));
    assert_eq!(kb.status_of(b'z'), None);
}

#[test]
fn keyboard_upgrades_present_to_exact() {
    let mut kb = KeyboardStatus::new();
    kb.update(
        &w("soare"),
        &vec![
            MatchKind::Absent,
            MatchKind::Absent,
            MatchKind::Present,
            MatchKind::Absent,
            MatchKind::Present,
        ],
    );
    assert_eq!(kb.status_of(b'a'), Some(MatchKind::Present));
    kb.update(&w("crane"), &vec![MatchKind::Exact; 5]);
    assert_eq!(kb.status_of(b'a'), Some(MatchKind::Exact));
}

#[test]
fn keyboard_never_regresses_from_exact() {
    let mut kb = KeyboardStatus::new();
    kb.update(&w("crane"), &vec![MatchKind::Exact; 5]);
    assert_eq!(kb.status_of(b'e'), Some(MatchKind::Exact));
    // later observations of the same letters as Present or Absent leave
    // them Exact
    kb.update(&w("enter"), &vec![MatchKind::Absent; 5]);
    assert_eq!(kb.status_of(b'e'), Some(MatchKind::Exact));
    assert_eq!(kb.status_of(b'r'), Some(MatchKind::Exact));
    assert_eq!(kb.status_of(b't'), Some(MatchKind::Absent));
}

#[test]
fn keyboard_absent_does_not_shadow_present() {
    let mut kb = KeyboardStatus::new();
    kb.update(
        &w("aback"),
        &vec![
            MatchKind::Present,
            MatchKind::Absent,
            MatchKind::Absent,
            MatchKind::Absent,
            MatchKind::Absent,
        ],
    );
    // the same letter was seen Present at one position and Absent at
    // another; the stronger observation wins
    assert_eq!(kb.status_of(b'a'), Some(MatchKind::Present));
}
