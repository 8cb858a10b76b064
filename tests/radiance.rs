use raytracer::radiance::{Outcome, PathState, Step};

#[test]
fn zero_budget_is_exhausted_at_once() {
    let p = PathState::new(0);
    assert!(p.exhausted());
    assert_eq!(p.bounces_left(), 0);
}

#[test]
fn escape_gives_sky_without_spending() {
    let mut p = PathState::new(3);
    assert_eq!(p.advance(Outcome::Escaped), Step::Sky);
    assert_eq!(p.bounces_left(), 3);
}

#[test]
fn absorption_gives_black() {
    let mut p = PathState::new(3);
    assert_eq!(p.advance(Outcome::Absorbed), Step::Black);
    assert_eq!(p.bounces_left(), 3);
}

#[test]
fn scatter_spends_one_bounce() {
    let mut p = PathState::new(2);
    assert_eq!(p.advance(Outcome::Scattered), Step::Bounce);
    assert!(!p.exhausted());
    assert_eq!(p.advance(Outcome::Scattered), Step::Bounce);
    assert!(p.exhausted());
}
