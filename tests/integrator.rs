use pathtracer::integrator::{Interaction, PathEnd, PathState};

#[test]
fn zero_budget_ends_black_before_any_query() {
    assert_eq!(PathState::start(0), PathState::Done(PathEnd::Exhausted));
}

#[test]
fn negative_budget_ends_black() {
    assert_eq!(PathState::start(-3), PathState::Done(PathEnd::Exhausted));
}

#[test]
fn positive_budget_starts_tracing() {
    assert_eq!(PathState::start(50), PathState::Tracing { remaining: 50 });
}

#[test]
fn miss_ends_with_background() {
    let s = PathState::start(5);
    assert_eq!(s.advance(Interaction::Missed), PathState::Done(PathEnd::Escaped));
}

#[test]
fn absorption_ends_black() {
    let s = PathState::start(5);
    assert_eq!(s.advance(Interaction::Absorbed), PathState::Done(PathEnd::Absorbed));
}

#[test]
fn scatter_spends_one_bounce() {
    let s = PathState::start(5);
    assert_eq!(s.advance(Interaction::Scattered), PathState::Tracing { remaining: 4 });
}

#[test]
fn last_bounce_exhausts_budget() {
    let mut s = PathState::start(3);
    let mut queries = 0;
    while let PathState::Tracing { .. } = s {
        s = s.advance(Interaction::Scattered);
        queries += 1;
    }
    assert_eq!(queries, 3);
    assert_eq!(s, PathState::Done(PathEnd::Exhausted));
}

#[test]
fn only_escaped_paths_see_the_background() {
    assert!(PathEnd::Exhausted.contributes_black());
    assert!(PathEnd::Absorbed.contributes_black());
    assert!(!PathEnd::Escaped.contributes_black());
}
