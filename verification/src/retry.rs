//! Bounded retry of a submission: how many attempts to make, and how long to
//! wait between them.
//!
//! The policy decides; it does not act. The caller makes the attempt, reports
//! how it ended, and does what the verdict says.

use vstd::arithmetic::power2::{
    lemma_pow2_pos, lemma_pow2_strictly_increases, lemma_pow2_unfold, pow2,
};
use vstd::prelude::*;

verus! {

/// How the delay between attempts develops.
#[derive(Clone, Copy, Debug, PartialEq, Eq, Structural)]
pub enum Backoff {
    /// The same delay before every retry.
    Fixed,
    /// A delay that doubles with every retry.
    Exponential,
}

/// A retry policy: at most `max_attempts` attempts, with a delay between them
/// that starts at `delay_ms` and never exceeds `max_delay_ms`.
#[derive(Clone, Copy, Debug, PartialEq, Eq, Structural)]
pub struct RetryPolicy {
    pub max_attempts: u32,
    pub backoff: Backoff,
    pub delay_ms: u64,
    pub max_delay_ms: u64,
}

/// What to do after an attempt.
#[derive(Clone, Copy, Debug, PartialEq, Eq, Structural)]
pub enum Verdict {
    /// The attempt succeeded: hand its result to the caller.
    Succeeded,
    /// The attempt failed: wait `delay_ms` milliseconds and try again.
    Retry { delay_ms: u64 },
    /// The attempt failed and was the last one allowed: hand its failure to
    /// the caller.
    Exhausted,
}

/// How a run of attempts ended.
#[derive(Clone, Copy, Debug, PartialEq, Eq, Structural)]
pub struct RunReport {
    /// Attempts made.
    pub calls: u32,
    /// Whether the last of them succeeded.
    pub succeeded: bool,
}

/// Whether attempt number `i`, counted from zero, succeeds according to
/// `outcomes`. An attempt beyond the end of `outcomes` fails.
pub open spec fn succeeds(outcomes: Seq<bool>, i: nat) -> bool {
    i < outcomes.len() && outcomes[i as int]
}

/// How often the first delay has doubled by the retry that follows the
/// `failures`-th failed attempt.
pub open spec fn doublings(failures: nat) -> nat {
    if failures <= 1 {
        0
    } else {
        (failures - 1) as nat
    }
}

impl RetryPolicy {
    /// A policy allows at least one attempt.
    pub open spec fn wf(self) -> bool {
        self.max_attempts >= 1
    }

    /// The delay before the retry that follows the `failures`-th failed
    /// attempt, in milliseconds.
    pub open spec fn delay_after(self, failures: nat) -> nat {
        match self.backoff {
            Backoff::Fixed => vstd::math::min(self.delay_ms as int, self.max_delay_ms as int) as nat,
            Backoff::Exponential => vstd::math::min(
                self.delay_ms * pow2(doublings(failures)),
                self.max_delay_ms as int,
            ) as nat,
        }
    }

    /// What to do after attempt number `calls`, counted from one, ended as
    /// `succeeded` says.
    pub open spec fn verdict(self, calls: nat, succeeded: bool) -> Verdict {
        if succeeded {
            Verdict::Succeeded
        } else if calls < self.max_attempts {
            Verdict::Retry { delay_ms: self.delay_after(calls) as u64 }
        } else {
            Verdict::Exhausted
        }
    }

    /// How a run ends that has already made `made` failed attempts and goes on
    /// as the verdicts say, with attempts ending as `outcomes` says.
    pub open spec fn run_from(self, outcomes: Seq<bool>, made: nat) -> RunReport
        decreases self.max_attempts - made,
    {
        match self.verdict(made + 1, succeeds(outcomes, made)) {
            Verdict::Succeeded => RunReport { calls: (made + 1) as u32, succeeded: true },
            Verdict::Exhausted => RunReport { calls: (made + 1) as u32, succeeded: false },
            Verdict::Retry { .. } => self.run_from(outcomes, made + 1),
        }
    }

    /// How a run ends whose attempts end as `outcomes` says.
    pub open spec fn run(self, outcomes: Seq<bool>) -> RunReport {
        self.run_from(outcomes, 0)
    }

    /// The delay before the retry that follows the `failures`-th failed
    /// attempt, in milliseconds.
    pub fn delay_ms_after(&self, failures: u32) -> (d: u64)
        ensures
            d == self.delay_after(failures as nat),
            d <= self.max_delay_ms,
    {
        let cap = self.max_delay_ms;
        let first = if self.delay_ms < cap {
            self.delay_ms
        } else {
            cap
        };
        proof {
            vstd::arithmetic::power2::lemma2_to64();
            assert(self.delay_ms * pow2(0) == self.delay_ms) by (nonlinear_arith)
                requires
                    pow2(0) == 1,
            ;
        }
        match self.backoff {
            Backoff::Fixed => first,
            Backoff::Exponential => {
                if first == 0 {
                    proof {
                        if self.delay_ms == 0 {
                            assert(self.delay_ms * pow2(doublings(failures as nat)) == 0)
                                by (nonlinear_arith)
                                requires
                                    self.delay_ms == 0,
                            ;
                        } else {
                            lemma_pow2_pos(doublings(failures as nat));
                            assert(self.delay_ms * pow2(doublings(failures as nat)) >= 0)
                                by (nonlinear_arith)
                                requires
                                    self.delay_ms >= 0,
                                    pow2(doublings(failures as nat)) > 0,
                            ;
                        }
                    }
                    return 0;
                }
                let mut d: u64 = first;
                let mut j: u32 = 1;
                while j < failures && d < cap
                    invariant
                        1 <= j,
                        j <= failures || j == 1,
                        cap == self.max_delay_ms,
                        1 <= d <= cap,
                        d == vstd::math::min(
                            self.delay_ms * pow2((j - 1) as nat),
                            cap as int,
                        ),
                    decreases failures - j,
                {
                    proof {
                        lemma_pow2_unfold(j as nat);
                        assert(self.delay_ms * (2 * pow2((j - 1) as nat)) == 2 * (self.delay_ms
                            * pow2((j - 1) as nat))) by (nonlinear_arith);
                    }
                    d = if d > cap / 2 {
                        cap
                    } else {
                        2 * d
                    };
                    j += 1;
                }
                proof {
                    if j < failures {
                        lemma_pow2_strictly_increases((j - 1) as nat, doublings(failures as nat));
                        assert(self.delay_ms * pow2((j - 1) as nat) <= self.delay_ms * pow2(
                            doublings(failures as nat),
                        )) by (nonlinear_arith)
                            requires
                                pow2((j - 1) as nat) < pow2(doublings(failures as nat)),
                                self.delay_ms >= 0,
                        ;
                    }
                }
                d
            },
        }
    }

    /// What to do after attempt number `calls`, counted from one, ended as
    /// `succeeded` says. Every failure is retried alike, as long as attempts
    /// are left.
    pub fn after_attempt(&self, calls: u32, succeeded: bool) -> (v: Verdict)
        ensures
            v == self.verdict(calls as nat, succeeded),
    {
        if succeeded {
            Verdict::Succeeded
        } else if calls < self.max_attempts {
            Verdict::Retry { delay_ms: self.delay_ms_after(calls) }
        } else {
            Verdict::Exhausted
        }
    }

    /// Plays a run through without making any attempt: attempt number `i`,
    /// counted from zero, is taken to end as `outcomes[i]` says, and to fail
    /// where `outcomes` has no such entry.
    pub fn replay(&self, outcomes: &Vec<bool>) -> (report: RunReport)
        ensures
            report == self.run(outcomes@),
    {
        let mut made: u32 = 0;
        loop
            invariant
                self.run(outcomes@) == self.run_from(outcomes@, made as nat),
                made < self.max_attempts || made == 0,
            decreases self.max_attempts - made,
        {
            let succeeded = (made as usize) < outcomes.len() && outcomes[made as usize];
            if succeeded {
                return RunReport { calls: made + 1, succeeded: true };
            }
            if made >= self.max_attempts || made + 1 >= self.max_attempts {
                return RunReport { calls: made + 1, succeeded: false };
            }
            made += 1;
        }
    }
}

impl Default for RetryPolicy {
    /// Six attempts, with a delay that starts at one second and doubles
    /// without a cap.
    fn default() -> (policy: RetryPolicy)
        ensures
            policy == (RetryPolicy {
                max_attempts: 6,
                backoff: Backoff::Exponential,
                delay_ms: 1000,
                max_delay_ms: u64::MAX,
            }),
    {
        RetryPolicy {
            max_attempts: 6,
            backoff: Backoff::Exponential,
            delay_ms: 1000,
            max_delay_ms: u64::MAX,
        }
    }
}

/// A run whose first `made` attempts failed, whose attempts up to number `n`
/// fail too, and whose attempt number `n`, counted from one, succeeds.
proof fn lemma_run_from_succeeds(policy: RetryPolicy, outcomes: Seq<bool>, n: nat, made: nat)
    requires
        made < n <= policy.max_attempts,
        forall|i: nat| made <= i < n - 1 ==> !succeeds(outcomes, i),
        succeeds(outcomes, (n - 1) as nat),
    ensures
        policy.run_from(outcomes, made) == (RunReport { calls: n as u32, succeeded: true }),
    decreases n - made,
{
    if made + 1 < n {
        lemma_run_from_succeeds(policy, outcomes, n, made + 1);
    }
}

/// A run whose first `made` attempts failed and whose later attempts all fail.
proof fn lemma_run_from_exhausts(policy: RetryPolicy, outcomes: Seq<bool>, made: nat)
    requires
        made < policy.max_attempts,
        forall|i: nat| made <= i < policy.max_attempts ==> !succeeds(outcomes, i),
    ensures
        policy.run_from(outcomes, made) == (RunReport {
            calls: policy.max_attempts,
            succeeded: false,
        }),
    decreases policy.max_attempts - made,
{
    if made + 1 < policy.max_attempts {
        lemma_run_from_exhausts(policy, outcomes, made + 1);
    }
}

/// Every run makes at least one attempt and, under a well-formed policy, at
/// most as many as the policy allows; it reports success exactly when its last
/// attempt succeeded, and every attempt before the last one failed.
proof fn lemma_run_from_is_bounded(policy: RetryPolicy, outcomes: Seq<bool>, made: nat)
    requires
        made < policy.max_attempts,
    ensures
        made < policy.run_from(outcomes, made).calls <= policy.max_attempts,
        policy.run_from(outcomes, made).succeeded == succeeds(
            outcomes,
            (policy.run_from(outcomes, made).calls - 1) as nat,
        ),
        forall|i: nat|
            made <= i < policy.run_from(outcomes, made).calls - 1 ==> !succeeds(outcomes, i),
    decreases policy.max_attempts - made,
{
    if !succeeds(outcomes, made) && made + 1 < policy.max_attempts {
        lemma_run_from_is_bounded(policy, outcomes, made + 1);
    }
}

/// A submission that fails on every attempt before the `n`-th and succeeds on
/// the `n`-th is reported as a success after exactly `n` attempts, as long as
/// the policy allows `n` attempts.
pub proof fn lemma_success_on_attempt(policy: RetryPolicy, outcomes: Seq<bool>, n: nat)
    requires
        1 <= n <= policy.max_attempts,
        forall|i: nat| i < n - 1 ==> !succeeds(outcomes, i),
        succeeds(outcomes, (n - 1) as nat),
    ensures
        policy.run(outcomes) == (RunReport { calls: n as u32, succeeded: true }),
{
    lemma_run_from_succeeds(policy, outcomes, n, 0);
}

/// A submission that fails on every attempt that the policy allows is
/// reported as a failure after exactly that many attempts.
pub proof fn lemma_failure_after_all_attempts(policy: RetryPolicy, outcomes: Seq<bool>)
    requires
        policy.wf(),
        forall|i: nat| i < policy.max_attempts ==> !succeeds(outcomes, i),
    ensures
        policy.run(outcomes) == (RunReport { calls: policy.max_attempts, succeeded: false }),
{
    lemma_run_from_exhausts(policy, outcomes, 0);
}

/// Attempts are bounded: a run makes at least one and at most `max_attempts`
/// of them. It stops at the first success, and it reports a failure only
/// after the last attempt that the policy allows.
pub proof fn lemma_attempts_are_bounded(policy: RetryPolicy, outcomes: Seq<bool>)
    requires
        policy.wf(),
    ensures
        1 <= policy.run(outcomes).calls <= policy.max_attempts,
        policy.run(outcomes).succeeded == succeeds(
            outcomes,
            (policy.run(outcomes).calls - 1) as nat,
        ),
        forall|i: nat| i < policy.run(outcomes).calls - 1 ==> !succeeds(outcomes, i),
        !policy.run(outcomes).succeeded ==> policy.run(outcomes).calls == policy.max_attempts,
{
    lemma_run_from_is_bounded(policy, outcomes, 0);
    if !policy.run(outcomes).succeeded && policy.run(outcomes).calls < policy.max_attempts {
        lemma_success_or_exhausted(policy, outcomes, 0);
    }
}

/// A run that reports a failure has used up its attempts.
proof fn lemma_success_or_exhausted(policy: RetryPolicy, outcomes: Seq<bool>, made: nat)
    requires
        made < policy.max_attempts,
    ensures
        policy.run_from(outcomes, made).succeeded || policy.run_from(outcomes, made).calls
            == policy.max_attempts,
    decreases policy.max_attempts - made,
{
    if !succeeds(outcomes, made) && made + 1 < policy.max_attempts {
        lemma_success_or_exhausted(policy, outcomes, made + 1);
    }
}

/// The delay never shrinks from one retry to the next, and never exceeds the
/// policy's cap.
pub proof fn lemma_delays_never_shrink(policy: RetryPolicy, earlier: nat, later: nat)
    requires
        earlier <= later,
    ensures
        policy.delay_after(earlier) <= policy.delay_after(later) <= policy.max_delay_ms,
{
    let a = doublings(earlier);
    let b = doublings(later);
    lemma_pow2_pos(a);
    lemma_pow2_pos(b);
    if a < b {
        lemma_pow2_strictly_increases(a, b);
    }
    assert(policy.delay_ms * pow2(a) <= policy.delay_ms * pow2(b)) by (nonlinear_arith)
        requires
            pow2(a) <= pow2(b),
            policy.delay_ms >= 0,
    ;
    assert(policy.delay_ms * pow2(a) >= 0) by (nonlinear_arith)
        requires
            pow2(a) > 0,
            policy.delay_ms >= 0,
    ;
}

} // verus!
