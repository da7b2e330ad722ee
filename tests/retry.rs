use price_oracle::pacing::Pacer;
use price_oracle::retry::{backoff_secs, Outcome, Policy, Step};

/// Drives one `send` against a transport whose attempts end as `outcomes`
/// says; returns the dispatches made, the delays slept and the final step.
fn drive(policy: &Policy, outcomes: &[Outcome]) -> (usize, Vec<u64>, Step) {
    let mut attempts: u32 = 0;
    let mut dispatches = 0;
    let mut delays = Vec::new();
    for outcome in outcomes {
        if *outcome != Outcome::NotReplayable {
            dispatches += 1;
        }
        match policy.after_dispatch(attempts, *outcome) {
            Step::Backoff { attempts: a, secs } => {
                attempts = a;
                delays.push(secs);
            }
            step => return (dispatches, delays, step),
        }
    }
    panic!("the outcomes ran out before send finished");
}

#[test]
fn backoff_doubles() {
    assert_eq!(backoff_secs(0), 1);
    assert_eq!(backoff_secs(1), 2);
    assert_eq!(backoff_secs(2), 4);
    assert_eq!(backoff_secs(3), 8);
    assert_eq!(backoff_secs(5), 32);
    assert_eq!(backoff_secs(63), 1u64 << 63);
}

#[test]
fn backoff_saturates_past_u64() {
    assert_eq!(backoff_secs(64), u64::MAX);
    assert_eq!(backoff_secs(u32::MAX), u64::MAX);
}

#[test]
fn default_policy_has_no_retries_and_no_pacing() {
    let p = Policy::new();
    assert_eq!(p.max_retries, 0);
    assert!(!p.is_paced());
    assert!(p.pacer().is_none());
}

#[test]
fn builders_set_their_field_only() {
    let p = Policy::new().with_pacing_interval(2_000_000_000).with_max_retries(5);
    assert_eq!(p.max_retries, 5);
    assert_eq!(p.pacing_nanos, 2_000_000_000);
    assert!(p.is_paced());
    assert_eq!(p.pacer().unwrap().interval_nanos(), 2_000_000_000);
    let q = p.with_pacing_interval(0);
    assert!(!q.is_paced());
    assert_eq!(q.max_retries, 5);
}

#[test]
fn retry_exhaustion_makes_k_plus_one_dispatches() {
    for k in 0..6u32 {
        let p = Policy::new().with_max_retries(k);
        let outcomes = vec![Outcome::TransportFailure; 20];
        let (dispatches, delays, step) = drive(&p, &outcomes);
        assert_eq!(dispatches, k as usize + 1);
        assert_eq!(delays.len(), k as usize);
        assert_eq!(step, Step::GiveUp);
    }
}

#[test]
fn no_retry_by_default() {
    let p = Policy::new();
    assert_eq!(p.after_dispatch(0, Outcome::TransportFailure), Step::GiveUp);
}

#[test]
fn retry_success_after_m_failures() {
    let p = Policy::new().with_max_retries(5);
    for m in 0..=5usize {
        let mut outcomes = vec![Outcome::TransportFailure; m];
        outcomes.push(Outcome::Response { status: 200 });
        let (dispatches, delays, step) = drive(&p, &outcomes);
        assert_eq!(dispatches, m + 1);
        assert_eq!(delays.len(), m);
        assert_eq!(step, Step::Deliver);
    }
}

#[test]
fn backoff_delays_are_two_to_the_attempt() {
    let p = Policy::new().with_max_retries(4);
    let outcomes = vec![Outcome::TransportFailure; 5];
    let (_, delays, _) = drive(&p, &outcomes);
    assert_eq!(delays, vec![2, 4, 8, 16]);
    assert_eq!(
        p.after_dispatch(0, Outcome::TransportFailure),
        Step::Backoff { attempts: 1, secs: 2 }
    );
    assert_eq!(
        p.after_dispatch(3, Outcome::TransportFailure),
        Step::Backoff { attempts: 4, secs: 16 }
    );
    assert_eq!(p.after_dispatch(4, Outcome::TransportFailure), Step::GiveUp);
}

#[test]
fn construction_failure_is_not_retried() {
    let p = Policy::new().with_max_retries(5);
    let (dispatches, delays, step) = drive(&p, &[Outcome::NotReplayable]);
    assert_eq!(dispatches, 0);
    assert!(delays.is_empty());
    assert_eq!(step, Step::Reject);
    assert_eq!(p.after_dispatch(2, Outcome::NotReplayable), Step::Reject);
}

#[test]
fn error_status_is_delivered_without_retry() {
    let p = Policy::new().with_max_retries(3);
    for status in [500u16, 503, 404, 429, 200] {
        assert_eq!(p.after_dispatch(0, Outcome::Response { status }), Step::Deliver);
    }
    let (dispatches, _, step) = drive(&p, &[Outcome::Response { status: 500 }]);
    assert_eq!(dispatches, 1);
    assert_eq!(step, Step::Deliver);
}

#[test]
fn pacer_first_slot_is_immediate() {
    let mut pacer = Pacer::new(500);
    assert_eq!(pacer.reserve(1_000), 1_000);
}

#[test]
fn pacer_spaces_slots_by_interval() {
    let mut pacer = Pacer::new(2_000);
    let mut prev = pacer.reserve(0);
    for now in [0u64, 10, 100, 1_999, 2_500] {
        let slot = pacer.reserve(now);
        assert!(slot >= prev + 2_000);
        assert!(slot >= now);
        prev = slot;
    }
}

#[test]
fn pacer_exact_slots() {
    let mut pacer = Pacer::new(2_000);
    assert_eq!(pacer.reserve(100), 100);
    assert_eq!(pacer.reserve(150), 2_100);
    assert_eq!(pacer.reserve(9_000), 9_000);
    assert_eq!(pacer.reserve(9_000), 11_000);
}

#[test]
fn pacer_saturates_at_end_of_time() {
    let mut pacer = Pacer::new(10);
    assert_eq!(pacer.reserve(u64::MAX - 5), u64::MAX - 5);
    assert_eq!(pacer.reserve(0), u64::MAX);
}
