//! The retry policy: what to do after each attempt of one `send`.
use vstd::prelude::*;
use vstd::arithmetic::power2::{pow2, lemma2_to64, lemma2_to64_rest, lemma_pow2_unfold, lemma_pow2_strictly_increases};

use crate::pacing::Pacer;

verus! {

/// Delay in seconds before the retry that makes the attempt count `attempt`:
/// `2^attempt`, held at `u64::MAX` where that does not fit.
pub open spec fn backoff_spec(attempt: nat) -> nat {
    if attempt < 64 {
        pow2(attempt)
    } else {
        u64::MAX as nat
    }
}

/// Computes `backoff_spec(attempt)`.
pub fn backoff_secs(attempt: u32) -> (r: u64)
    ensures
        r as nat == backoff_spec(attempt as nat),
{
    if attempt >= 64 {
        return u64::MAX;
    }
    proof {
        lemma2_to64();
        lemma2_to64_rest();
    }
    let mut r: u64 = 1;
    let mut i: u32 = 0;
    while i < attempt
        invariant
            i <= attempt < 64,
            r as nat == pow2(i as nat),
        decreases attempt - i,
    {
        proof {
            lemma_pow2_unfold((i + 1) as nat);
            lemma_pow2_strictly_increases((i + 1) as nat, 64);
            lemma2_to64_rest();
            assert(r * 2 == pow2((i + 1) as nat));
        }
        r = r * 2;
        i = i + 1;
    }
    r
}

/// What came of one attempt to dispatch a request.
#[derive(Clone, Copy, Debug, PartialEq, Eq, Structural)]
pub enum Outcome {
    /// A response arrived, whatever its HTTP status.
    Response { status: u16 },
    /// The transport failed before a response could be had.
    TransportFailure,
    /// The request could not be duplicated for dispatch.
    NotReplayable,
}

/// What `send` does next after an attempt.
#[derive(Clone, Copy, Debug, PartialEq, Eq, Structural)]
pub enum Step {
    /// Sleep `secs` seconds, then make another attempt; `attempts` retries
    /// have now been spent.
    Backoff { attempts: u32, secs: u64 },
    /// Hand the response to the caller.
    Deliver,
    /// Hand the last transport failure to the caller.
    GiveUp,
    /// Fail with a construction error; nothing was dispatched.
    Reject,
}

/// The step that follows `outcome`, when `attempts` retries have been spent
/// and `max_retries` are allowed.
pub open spec fn next_step(max_retries: u32, attempts: u32, outcome: Outcome) -> Step {
    match outcome {
        Outcome::Response { .. } => Step::Deliver,
        Outcome::NotReplayable => Step::Reject,
        Outcome::TransportFailure => {
            if attempts < max_retries {
                Step::Backoff {
                    attempts: (attempts + 1) as u32,
                    secs: backoff_spec((attempts + 1) as nat) as u64,
                }
            } else {
                Step::GiveUp
            }
        },
    }
}

/// The configuration of a client: how many retries follow a failed attempt,
/// and the minimum spacing of dispatches (0 for none).
#[derive(Clone, Copy, Debug, PartialEq, Eq, Structural)]
pub struct Policy {
    pub max_retries: u32,
    pub pacing_nanos: u64,
}

impl Policy {
    /// No retries and no pacing.
    pub fn new() -> (p: Policy)
        ensures
            p.max_retries == 0,
            p.pacing_nanos == 0,
    {
        Policy { max_retries: 0, pacing_nanos: 0 }
    }

    /// The same policy with `max_retries` retries after a failed attempt.
    pub fn with_max_retries(self, max_retries: u32) -> (p: Policy)
        ensures
            p.max_retries == max_retries,
            p.pacing_nanos == self.pacing_nanos,
    {
        Policy { max_retries, ..self }
    }

    /// The same policy with dispatches at least `nanos` nanoseconds apart;
    /// 0 turns pacing off.
    pub fn with_pacing_interval(self, nanos: u64) -> (p: Policy)
        ensures
            p.max_retries == self.max_retries,
            p.pacing_nanos == nanos,
    {
        Policy { pacing_nanos: nanos, ..self }
    }

    /// Whether dispatches wait for a slot.
    pub fn is_paced(&self) -> (r: bool)
        ensures
            r == (self.pacing_nanos > 0),
    {
        self.pacing_nanos > 0
    }

    /// The pacer that a client with this policy owns: none without pacing,
    /// so that nothing delays a dispatch.
    pub fn pacer(&self) -> (r: Option<Pacer>)
        ensures
            self.pacing_nanos == 0 <==> r is None,
            r matches Some(p) ==> p.interval() == self.pacing_nanos && p.last_slot() is None,
    {
        if self.pacing_nanos > 0 {
            Some(Pacer::new(self.pacing_nanos))
        } else {
            None
        }
    }

    /// Decides what follows an attempt whose result was `outcome`, with
    /// `attempts` retries spent so far.
    pub fn after_dispatch(&self, attempts: u32, outcome: Outcome) -> (r: Step)
        ensures
            r == next_step(self.max_retries, attempts, outcome),
    {
        match outcome {
            Outcome::Response { .. } => Step::Deliver,
            Outcome::NotReplayable => Step::Reject,
            Outcome::TransportFailure => {
                if attempts < self.max_retries {
                    let next: u32 = attempts + 1;
                    Step::Backoff { attempts: next, secs: backoff_secs(next) }
                } else {
                    Step::GiveUp
                }
            },
        }
    }
}

/// The record of one `send` driven by a sequence of attempt outcomes.
pub ghost struct Run {
    /// Requests put on the wire.
    pub dispatches: nat,
    /// The backoff delays slept, in order, in seconds.
    pub delays: Seq<nat>,
    /// The final step, if the outcomes sufficed to reach one.
    pub last: Option<Step>,
}

/// Drives the decisions from `attempts` retries spent, taking each attempt's
/// outcome from `outcomes` in turn.
pub open spec fn run(max_retries: u32, attempts: u32, outcomes: Seq<Outcome>) -> Run
    decreases outcomes.len(),
{
    if outcomes.len() == 0 {
        Run { dispatches: 0, delays: seq![], last: None }
    } else {
        let dispatched: nat = if outcomes[0] is NotReplayable { 0 } else { 1 };
        match next_step(max_retries, attempts, outcomes[0]) {
            Step::Backoff { attempts: a, secs } => {
                let rest = run(max_retries, a, outcomes.drop_first());
                Run {
                    dispatches: dispatched + rest.dispatches,
                    delays: seq![secs as nat] + rest.delays,
                    last: rest.last,
                }
            },
            s => Run { dispatches: dispatched, delays: seq![], last: Some(s) },
        }
    }
}

proof fn lemma_exhaustion_from(max_retries: u32, attempts: u32, outcomes: Seq<Outcome>)
    requires
        attempts <= max_retries,
        outcomes.len() > max_retries - attempts,
        forall|i: int| 0 <= i < outcomes.len() ==> #[trigger] outcomes[i] is TransportFailure,
    ensures
        run(max_retries, attempts, outcomes).dispatches == max_retries - attempts + 1,
        run(max_retries, attempts, outcomes).last == Some(Step::GiveUp),
    decreases max_retries - attempts,
{
    if attempts < max_retries {
        let rest = outcomes.drop_first();
        assert forall|i: int| 0 <= i < rest.len() implies #[trigger] rest[i] is TransportFailure by {
            assert(rest[i] == outcomes[i + 1]);
        }
        lemma_exhaustion_from(max_retries, (attempts + 1) as u32, rest);
    }
}

/// Against a transport that always fails, `send` dispatches exactly
/// `max_retries + 1` times and then returns the last transport failure.
pub proof fn lemma_retry_exhaustion(max_retries: u32, outcomes: Seq<Outcome>)
    requires
        outcomes.len() > max_retries,
        forall|i: int| 0 <= i < outcomes.len() ==> #[trigger] outcomes[i] is TransportFailure,
    ensures
        run(max_retries, 0, outcomes).dispatches == max_retries + 1,
        run(max_retries, 0, outcomes).last == Some(Step::GiveUp),
{
    lemma_exhaustion_from(max_retries, 0, outcomes);
}

proof fn lemma_success_from(max_retries: u32, attempts: u32, failures: nat, outcomes: Seq<Outcome>)
    requires
        attempts + failures <= max_retries,
        outcomes.len() > failures,
        forall|i: int| 0 <= i < failures ==> #[trigger] outcomes[i] is TransportFailure,
        outcomes[failures as int] is Response,
    ensures
        run(max_retries, attempts, outcomes).dispatches == failures + 1,
        run(max_retries, attempts, outcomes).last == Some(Step::Deliver),
    decreases failures,
{
    if failures > 0 {
        assert(outcomes[0] is TransportFailure);
        let rest = outcomes.drop_first();
        assert forall|i: int| 0 <= i < failures - 1 implies #[trigger] rest[i] is TransportFailure by {
            assert(rest[i] == outcomes[i + 1]);
        }
        assert(rest[failures - 1] == outcomes[failures as int]);
        lemma_success_from(max_retries, (attempts + 1) as u32, (failures - 1) as nat, rest);
    }
}

/// Against a transport that fails `failures <= max_retries` times and then
/// answers, `send` returns the response after exactly `failures + 1`
/// dispatches.
pub proof fn lemma_retry_success(max_retries: u32, failures: nat, outcomes: Seq<Outcome>)
    requires
        failures <= max_retries,
        outcomes.len() > failures,
        forall|i: int| 0 <= i < failures ==> #[trigger] outcomes[i] is TransportFailure,
        outcomes[failures as int] is Response,
    ensures
        run(max_retries, 0, outcomes).dispatches == failures + 1,
        run(max_retries, 0, outcomes).last == Some(Step::Deliver),
{
    lemma_success_from(max_retries, 0, failures, outcomes);
}

proof fn lemma_delays_from(max_retries: u32, attempts: u32, outcomes: Seq<Outcome>)
    ensures
        forall|j: int|
            0 <= j < run(max_retries, attempts, outcomes).delays.len() ==>
                #[trigger] run(max_retries, attempts, outcomes).delays[j]
                    == backoff_spec((attempts + j + 1) as nat),
    decreases outcomes.len(),
{
    if outcomes.len() > 0 {
        if let Step::Backoff { attempts: a, secs } = next_step(max_retries, attempts, outcomes[0]) {
            lemma_delays_from(max_retries, a, outcomes.drop_first());
            lemma_backoff_fits((attempts + 1) as nat);
            let r = run(max_retries, attempts, outcomes);
            let rest = run(max_retries, a, outcomes.drop_first());
            assert forall|j: int| 0 <= j < r.delays.len() implies #[trigger] r.delays[j]
                == backoff_spec((attempts + j + 1) as nat) by {
                if j > 0 {
                    assert(r.delays[j] == rest.delays[j - 1]);
                }
            }
        }
    }
}

proof fn lemma_backoff_fits(attempt: nat)
    ensures
        backoff_spec(attempt) <= u64::MAX,
{
    if attempt < 64 {
        lemma2_to64_rest();
        lemma_pow2_strictly_increases(attempt, 64);
    }
}

/// Backoff delays grow strictly with the attempt count, as far as they can
/// be represented: up to the retry that makes the count 64.
pub proof fn lemma_backoff_strictly_increases(i: nat, j: nat)
    requires
        i < j <= 64,
    ensures
        backoff_spec(i) < backoff_spec(j),
{
    lemma2_to64();
    lemma2_to64_rest();
    lemma_pow2_strictly_increases(i, 64);
    if j < 64 {
        lemma_pow2_strictly_increases(i, j);
    }
}

/// The delay before the `j`-th retry (counting from 1) is `2^j` seconds, and
/// the delays of one `send` grow strictly while they can be represented.
pub proof fn lemma_backoff_growth(max_retries: u32, outcomes: Seq<Outcome>)
    ensures
        forall|j: int|
            1 <= j <= run(max_retries, 0, outcomes).delays.len() ==>
                #[trigger] run(max_retries, 0, outcomes).delays[j - 1] == backoff_spec(j as nat),
        forall|i: int, j: int|
            0 <= i < j < run(max_retries, 0, outcomes).delays.len() && j < 64 ==>
                #[trigger] run(max_retries, 0, outcomes).delays[i]
                    < #[trigger] run(max_retries, 0, outcomes).delays[j],
{
    lemma_delays_from(max_retries, 0, outcomes);
    let d = run(max_retries, 0, outcomes).delays;
    assert forall|j: int| 1 <= j <= d.len() implies #[trigger] d[j - 1] == backoff_spec(j as nat) by {
        assert(d[j - 1] == backoff_spec((0 + (j - 1) + 1) as nat));
    }
    assert forall|i: int, j: int| 0 <= i < j < d.len() && j < 64 implies #[trigger] d[i]
        < #[trigger] d[j] by {
        assert(d[i] == backoff_spec((0 + i + 1) as nat));
        assert(d[j] == backoff_spec((0 + j + 1) as nat));
        lemma_backoff_strictly_increases((i + 1) as nat, (j + 1) as nat);
    }
}

/// A request that cannot be duplicated ends `send` at once with a
/// construction error: nothing dispatched, no backoff slept.
pub proof fn lemma_no_retry_on_construction_failure(
    max_retries: u32,
    attempts: u32,
    outcomes: Seq<Outcome>,
)
    requires
        outcomes.len() > 0,
        outcomes[0] is NotReplayable,
    ensures
        run(max_retries, attempts, outcomes) == (Run {
            dispatches: 0,
            delays: seq![],
            last: Some(Step::Reject),
        }),
{
}

/// A response ends `send` with that response whatever its HTTP status: the
/// status alone never brings a retry.
pub proof fn lemma_status_transparency(
    max_retries: u32,
    attempts: u32,
    status: u16,
    outcomes: Seq<Outcome>,
)
    requires
        outcomes.len() > 0,
        outcomes[0] == (Outcome::Response { status }),
    ensures
        run(max_retries, attempts, outcomes) == (Run {
            dispatches: 1,
            delays: seq![],
            last: Some(Step::Deliver),
        }),
{
}

} // verus!
