use drip_mailer::retry::{
    acquisition_result, Exhaustion, RetryDecision, RetryPolicy, RetryState,
    DEFAULT_ATTEMPT_BUDGET, DEFAULT_BACKOFF_SECS,
};

fn outcomes(pattern: &[bool], len: usize) -> Vec<bool> {
    let mut v: Vec<bool> = pattern.to_vec();
    while v.len() < len {
        v.push(false);
    }
    v
}

#[test]
fn standard_policy_defaults() {
    let p = RetryPolicy::standard(Exhaustion::Propagate);
    assert_eq!(p.budget, 100);
    assert_eq!(p.backoff_secs, 10);
    assert_eq!(DEFAULT_ATTEMPT_BUDGET, 100);
    assert_eq!(DEFAULT_BACKOFF_SECS, 10);
    assert_eq!(p.on_exhaustion, Exhaustion::Propagate);
    assert_eq!(
        RetryPolicy::standard(Exhaustion::ExitProcess).on_exhaustion,
        Exhaustion::ExitProcess
    );
}

#[test]
fn first_attempt_success() {
    let p = RetryPolicy::standard(Exhaustion::Propagate);
    let v = outcomes(&[true], 100);
    assert_eq!(acquisition_result(&v, &p), Some(0));
}

#[test]
fn success_on_the_hundredth_attempt() {
    // 99 failures, then success on attempt 100: the run proceeds.
    let p = RetryPolicy::standard(Exhaustion::Propagate);
    let mut pattern = vec![false; 99];
    pattern.push(true);
    let v = outcomes(&pattern, 100);
    assert_eq!(acquisition_result(&v, &p), Some(99));
}

#[test]
fn hundred_failures_exhaust_the_budget() {
    // With a budget of 100, a success on attempt 101 is never reached.
    let p = RetryPolicy::standard(Exhaustion::Propagate);
    let mut v = vec![false; 100];
    v.push(true);
    assert_eq!(acquisition_result(&v, &p), None);
}

#[test]
fn failure_accounting_gives_up_exactly_at_the_budget() {
    let p = RetryPolicy { budget: 3, backoff_secs: 1, on_exhaustion: Exhaustion::Propagate };
    let mut st = RetryState::new();
    assert_eq!(st.record_failure(&p), RetryDecision::Retry);
    assert_eq!(st.record_failure(&p), RetryDecision::Retry);
    assert_eq!(st.record_failure(&p), RetryDecision::GiveUp);
    assert_eq!(st.attempts, 3);
}
