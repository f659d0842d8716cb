use modder::cli::Source;
use modder::fallback::{Fallback, FallbackState};
use modder::model::{ErrorKind, Problem};

fn failed(reason: &str) -> Option<Problem> {
    Some(Problem::new(ErrorKind::TransportError, reason))
}

#[test]
fn preferred_failure_without_fallback_is_final() {
    let mut f = Fallback::new(Source::Github, false);
    assert_eq!(f.state(), FallbackState::TryPreferred);
    assert_eq!(f.next_provider(), Some(Source::Github));
    f.record(failed("no release"));
    assert_eq!(f.state(), FallbackState::ExhaustedFailure);
    assert_eq!(f.next_provider(), None);
    assert_eq!(f.failures.len(), 1);
    assert_eq!(f.failures[0].source, Source::Github);
    assert_eq!(f.failures[0].problem.reason, "no release");
    assert_eq!(f.failures[0].problem.kind, ErrorKind::TransportError);
}

#[test]
fn fallback_tries_the_two_others_in_order() {
    let mut f = Fallback::new(Source::Github, true);
    assert_eq!(f.next_provider(), Some(Source::Github));
    f.record(failed("a"));
    assert_eq!(f.state(), FallbackState::TryNext { remaining: vec![Source::Modrinth, Source::CurseForge] });
    assert_eq!(f.next_provider(), Some(Source::Modrinth));
    f.record(failed("b"));
    assert_eq!(f.state(), FallbackState::TryNext { remaining: vec![Source::CurseForge] });
    assert_eq!(f.next_provider(), Some(Source::CurseForge));
    f.record(failed("c"));
    assert_eq!(f.state(), FallbackState::ExhaustedFailure);
    assert!(f.is_done());
    assert_eq!(f.served_by(), None);
    let reasons: Vec<(Source, String)> = f.failures.iter().map(|x| (x.source, x.problem.reason.clone())).collect();
    assert_eq!(
        reasons,
        vec![
            (Source::Github, "a".to_string()),
            (Source::Modrinth, "b".to_string()),
            (Source::CurseForge, "c".to_string()),
        ]
    );
}

#[test]
fn fallback_stops_at_the_first_success() {
    for preferred in [Source::Modrinth, Source::Github, Source::CurseForge] {
        let mut first = Fallback::new(preferred, true);
        first.record(failed("x"));
        let second_provider = first.next_provider().unwrap();
        first.record(None);
        assert_eq!(first.state(), FallbackState::Success);
        assert_eq!(first.served_by(), Some(second_provider));
        assert_eq!(first.next_provider(), None);
        assert_eq!(first.failures.len(), 1);

        let mut last = Fallback::new(preferred, true);
        last.record(failed("x"));
        last.record(failed("y"));
        let third_provider = last.next_provider().unwrap();
        assert_ne!(third_provider, second_provider);
        assert_ne!(third_provider, preferred);
        last.record(None);
        assert_eq!(last.state(), FallbackState::Success);
        assert_eq!(last.served_by(), Some(third_provider));
    }
}

#[test]
fn success_at_the_preferred_provider() {
    let mut f = Fallback::new(Source::CurseForge, true);
    f.record(None);
    assert_eq!(f.state(), FallbackState::Success);
    assert_eq!(f.served_by(), Some(Source::CurseForge));
    // Nothing changes once the work has ended.
    f.record(failed("late"));
    assert_eq!(f.state(), FallbackState::Success);
    assert!(f.failures.is_empty());
}
