use vote_checker::backoff::{Backoff, Step};
use vote_checker::pacing::jitter_ms;

const UP: &str = "\x1b[1A\x1b[2K";

fn wait(step: Step) -> (u64, String, String) {
    match step {
        Step::Wait { seconds, notice } => (seconds, notice.head, notice.rest),
        Step::Stop { .. } => panic!("stopped"),
    }
}

fn stop(step: Step) -> String {
    match step {
        Step::Stop { erase } => erase,
        Step::Wait { .. } => panic!("waits"),
    }
}

#[test]
fn success_at_once_erases_nothing() {
    assert_eq!(stop(Backoff::new(5).after_block(1, None)), "");
    assert_eq!(stop(Backoff::new(5).after_leaders(None)), "");
}

#[test]
fn block_waits_double_and_end() {
    let failure = "connection reset".to_string();
    let mut backoff = Backoff::new(5);
    let mut waited = 0;
    for expected in [3, 6, 12, 24, 48] {
        let (seconds, head, rest) = wait(backoff.after_block(77, Some(&failure)));
        assert_eq!(seconds, expected);
        assert_eq!(head, "");
        assert_eq!(
            rest,
            format!("Error fetching block 77: connection reset. Retrying in {}s...", expected)
        );
        waited += seconds;
    }
    assert_eq!(waited, 3 * (32 - 1));
    assert_eq!(backoff.attempts_made(), 5);
    assert_eq!(
        stop(backoff.after_block(77, Some(&failure))),
        format!("{}\r", UP.repeat(5))
    );
}

#[test]
fn block_rate_limit_is_announced() {
    let failure = "429".to_string();
    let mut backoff = Backoff::new(5);
    let (seconds, head, rest) = wait(backoff.after_block(77, Some(&failure)));
    assert_eq!(seconds, 3);
    assert_eq!(head, "Rate limited (429).");
    assert_eq!(rest, " Retrying in 3s... (attempt 1/5)");
    assert_eq!(stop(backoff.after_block(77, None)), format!("{}\r", UP));
}

#[test]
fn leaders_are_retried_only_for_passing_failures() {
    for failure in ["HTTP 429", "rate limit reached", "operation timed out"] {
        let failure = failure.to_string();
        let mut backoff = Backoff::new(5);
        let (seconds, head, rest) = wait(backoff.after_leaders(Some(&failure)));
        assert_eq!(seconds, 3);
        assert_eq!(head, "");
        assert_eq!(
            rest,
            "Leader schedule fetch rate limited or timed out. Retrying in 3s... (attempt 1/5)"
        );
        let lasting = "No leader schedule found".to_string();
        assert_eq!(stop(backoff.after_leaders(Some(&lasting))), format!("{}\r", UP));
    }
    let failure = "Rate Limit".to_string();
    assert_eq!(stop(Backoff::new(5).after_leaders(Some(&failure))), "");
}

#[test]
fn leaders_give_up_after_the_limit() {
    let failure = "429".to_string();
    let mut backoff = Backoff::new(2);
    assert_eq!(wait(backoff.after_leaders(Some(&failure))).0, 3);
    assert_eq!(wait(backoff.after_leaders(Some(&failure))).0, 6);
    assert_eq!(stop(backoff.after_leaders(Some(&failure))), format!("{}\r", UP.repeat(2)));
}

#[test]
fn no_repetition_allowed() {
    let failure = "429".to_string();
    assert_eq!(stop(Backoff::new(0).after_block(1, Some(&failure))), "");
}

#[test]
fn pauses_stay_in_bounds_and_vary() {
    let pauses: Vec<u64> = (0..200).map(|_| jitter_ms()).collect();
    assert!(pauses.iter().all(|p| (300..=600).contains(p)));
    assert!(pauses.iter().any(|p| *p != pauses[0]));
}
