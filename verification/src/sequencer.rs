//! The join sequencer: bounded association attempts against the link
//! handle, then a poll loop against the network stack until an address is
//! assigned.
//!
//! The radio and the stack stay with the caller. The sequencer consumes
//! what they reported: one boolean per join attempt, and one
//! [`PollSample`] per reading of the stack's configuration state. Its
//! result records every observable effect of the run: how many attempts
//! were asked of the link, how many polls were observed, and how the run
//! ended.

use vstd::prelude::*;

use crate::address::Ipv4Address;
use crate::errors::JoinError;
use crate::security::{auth_mode_for, spec_auth_mode};

verus! {

/// How many join attempts a bootstrap run makes unless the caller asks
/// for another bound.
pub const DEFAULT_MAX_ATTEMPTS: usize = 3;

/// What a device joins with: the network name, the passphrase, and the
/// security-mode name the mapper resolves. The name and passphrase are
/// handed to the link handle as they stand; only the security mode decides
/// whether the run starts at all.
#[derive(Clone, Debug, PartialEq, Eq)]
pub struct WirelessCredentials {
    pub ssid: String,
    pub passphrase: String,
    pub security: String,
}

/// One reading of the network stack: whether it reports its configuration
/// complete, and the address it hands out, read when it does.
#[derive(Clone, Copy, Debug, PartialEq, Eq)]
pub struct PollSample {
    pub configured: bool,
    pub address: Option<Ipv4Address>,
}

/// How a bootstrap run ended.
#[derive(Clone, Copy, Debug, PartialEq, Eq)]
pub enum JoinOutcome {
    /// The run reached a terminal result: the assigned address, or why
    /// there is none.
    Completed(Result<Ipv4Address, JoinError>),
    /// The link was joined, but none of the observed polls reported the
    /// configuration complete; the wait goes on.
    AwaitingAddress,
}

/// The observable effects of one bootstrap run.
#[derive(Clone, Copy, Debug, PartialEq, Eq)]
pub struct JoinRun {
    /// How many join attempts were asked of the link handle.
    pub attempts: usize,
    /// How many stack readings were observed.
    pub polls_seen: usize,
    pub outcome: JoinOutcome,
}

/// The retry loop: attempt `i + 1` gets the outcome `results[i]`, and the
/// loop ends at the first success or after `max` attempts. Yields how many
/// attempts were made and whether the last one joined.
pub open spec fn spec_attempts(results: Seq<bool>, max: nat) -> (nat, bool)
    decreases max,
{
    if max == 0 || results.len() == 0 {
        (0nat, false)
    } else if results[0] {
        (1nat, true)
    } else {
        let r = spec_attempts(results.drop_first(), (max - 1) as nat);
        ((r.0 + 1) as nat, r.1)
    }
}

/// The address wait: polls are observed in order until one reports the
/// configuration complete; its address is the result, and a complete
/// configuration without an address is an error. Yields how many polls
/// were observed and how the wait ended.
pub open spec fn spec_wait(polls: Seq<PollSample>) -> (nat, JoinOutcome)
    decreases polls.len(),
{
    if polls.len() == 0 {
        (0nat, JoinOutcome::AwaitingAddress)
    } else if polls[0].configured {
        (
            1nat,
            JoinOutcome::Completed(
                match polls[0].address {
                    Some(a) => Ok(a),
                    None => Err(JoinError::AddressConfigMissing),
                },
            ),
        )
    } else {
        let r = spec_wait(polls.drop_first());
        ((r.0 + 1) as nat, r.1)
    }
}

/// The whole bootstrap run. An unsupported security mode aborts it before
/// any attempt; otherwise the retry loop runs, and only a successful join
/// starts the address wait.
pub open spec fn spec_join_run(
    security: Seq<char>,
    results: Seq<bool>,
    polls: Seq<PollSample>,
    max: usize,
) -> JoinRun {
    if spec_auth_mode(security) is Err {
        JoinRun {
            attempts: 0,
            polls_seen: 0,
            outcome: JoinOutcome::Completed(Err(JoinError::UnsupportedSecurity)),
        }
    } else {
        let a = spec_attempts(results, max as nat);
        if a.1 {
            let w = spec_wait(polls);
            JoinRun { attempts: a.0 as usize, polls_seen: w.0 as usize, outcome: w.1 }
        } else {
            JoinRun {
                attempts: a.0 as usize,
                polls_seen: 0,
                outcome: JoinOutcome::Completed(Err(JoinError::RetriesExhausted)),
            }
        }
    }
}

/// Run the join sequence against what the handles reported: `results[i]`
/// is whether join attempt `i + 1` succeeded, and `polls` are the stack
/// readings in order, consumed only after a successful join.
pub fn join(
    credentials: &WirelessCredentials,
    results: &Vec<bool>,
    polls: &Vec<PollSample>,
    max_attempts: usize,
) -> (r: JoinRun)
    requires
        results@.len() >= max_attempts,
    ensures
        r == spec_join_run(credentials.security@, results@, polls@, max_attempts),
{
    match auth_mode_for(credentials.security.as_str()) {
        Err(_) => JoinRun {
            attempts: 0,
            polls_seen: 0,
            outcome: JoinOutcome::Completed(Err(JoinError::UnsupportedSecurity)),
        },
        Ok(_) => {
            let ghost full = spec_attempts(results@, max_attempts as nat);
            let mut attempt: usize = 0;
            let mut joined = false;
            proof {
                assert(results@.skip(0) =~= results@);
            }
            while !joined && attempt < max_attempts
                invariant
                    results@.len() >= max_attempts,
                    attempt <= max_attempts,
                    full == spec_attempts(results@, max_attempts as nat),
                    joined ==> full == (attempt as nat, true),
                    !joined ==> ({
                        let rem = spec_attempts(
                            results@.skip(attempt as int),
                            (max_attempts - attempt) as nat,
                        );
                        full.0 == attempt + rem.0 && full.1 == rem.1
                    }),
                decreases max_attempts - attempt,
            {
                proof {
                    assert(results@.skip(attempt as int).drop_first() =~= results@.skip(
                        attempt + 1,
                    ));
                    assert(results@.skip(attempt as int)[0] == results@[attempt as int]);
                }
                if results[attempt] {
                    joined = true;
                }
                attempt = attempt + 1;
            }
            if !joined {
                proof {
                    assert(spec_attempts(
                        results@.skip(attempt as int),
                        (max_attempts - attempt) as nat,
                    ) == (0nat, false));
                }
                JoinRun {
                    attempts: attempt,
                    polls_seen: 0,
                    outcome: JoinOutcome::Completed(Err(JoinError::RetriesExhausted)),
                }
            } else {
                let ghost w = spec_wait(polls@);
                let mut p: usize = 0;
                let mut done: Option<Result<Ipv4Address, JoinError>> = None;
                proof {
                    assert(polls@.skip(0) =~= polls@);
                }
                while done.is_none() && p < polls.len()
                    invariant
                        p <= polls@.len(),
                        w == spec_wait(polls@),
                        (match done {
                            None => ({
                                let rem = spec_wait(polls@.skip(p as int));
                                w.0 == p + rem.0 && w.1 == rem.1
                            }),
                            Some(res) => w == (p as nat, JoinOutcome::Completed(res)),
                        }),
                    decreases polls@.len() - p,
                {
                    proof {
                        assert(polls@.skip(p as int).drop_first() =~= polls@.skip(p + 1));
                        assert(polls@.skip(p as int)[0] == polls@[p as int]);
                    }
                    let sample = polls[p];
                    p = p + 1;
                    if sample.configured {
                        match sample.address {
                            Some(a) => {
                                done = Some(Ok(a));
                            },
                            None => {
                                done = Some(Err(JoinError::AddressConfigMissing));
                            },
                        }
                    }
                }
                match done {
                    Some(res) => JoinRun {
                        attempts: attempt,
                        polls_seen: p,
                        outcome: JoinOutcome::Completed(res),
                    },
                    None => JoinRun {
                        attempts: attempt,
                        polls_seen: p,
                        outcome: JoinOutcome::AwaitingAddress,
                    },
                }
            }
        },
    }
}

/// A security mode outside the supported four aborts the run with
/// `UnsupportedSecurity`: no join attempt is made and no poll is observed.
pub proof fn lemma_unsupported_security_aborts_without_attempt(
    security: Seq<char>,
    results: Seq<bool>,
    polls: Seq<PollSample>,
    max: usize,
)
    requires
        spec_auth_mode(security) is Err,
    ensures
        spec_join_run(security, results, polls, max) == (JoinRun {
            attempts: 0,
            polls_seen: 0,
            outcome: JoinOutcome::Completed(Err(JoinError::UnsupportedSecurity)),
        }),
{
}

/// When every one of the first `max` attempts fails, exactly `max`
/// attempts are made and none joins.
proof fn lemma_attempts_all_fail(results: Seq<bool>, max: nat)
    requires
        results.len() >= max,
        forall|i: int| 0 <= i < max ==> !results[i],
    ensures
        spec_attempts(results, max) == (max, false),
    decreases max,
{
    if max > 0 {
        assert(forall|i: int| 0 <= i < max - 1 ==> !results.drop_first()[i]);
        lemma_attempts_all_fail(results.drop_first(), (max - 1) as nat);
    }
}

/// A link that rejects every attempt: the run makes exactly `max`
/// attempts, then reports the retries exhausted.
pub proof fn lemma_exhausted_retries(
    security: Seq<char>,
    results: Seq<bool>,
    polls: Seq<PollSample>,
    max: usize,
)
    requires
        spec_auth_mode(security) is Ok,
        results.len() >= max,
        forall|i: int| 0 <= i < max ==> !results[i],
    ensures
        spec_join_run(security, results, polls, max) == (JoinRun {
            attempts: max,
            polls_seen: 0,
            outcome: JoinOutcome::Completed(Err(JoinError::RetriesExhausted)),
        }),
{
    lemma_attempts_all_fail(results, max as nat);
}

/// When the first success is at attempt `k`, the retry loop ends there:
/// exactly `k` attempts, and the last one joins.
proof fn lemma_attempts_succeed_at(results: Seq<bool>, max: nat, k: nat)
    requires
        1 <= k <= max,
        results.len() >= max,
        forall|i: int| 0 <= i < k - 1 ==> !results[i],
        results[k - 1],
    ensures
        spec_attempts(results, max) == (k, true),
    decreases k,
{
    if k > 1 {
        assert(forall|i: int| 0 <= i < k - 2 ==> !results.drop_first()[i]);
        assert(results.drop_first()[k - 2]);
        lemma_attempts_succeed_at(results.drop_first(), (max - 1) as nat, (k - 1) as nat);
    }
}

/// A link that fails every attempt before `k` and succeeds at attempt
/// `k <= max`: the run makes exactly `k` attempts, no more, and goes on
/// to the address wait.
pub proof fn lemma_join_on_attempt(
    security: Seq<char>,
    results: Seq<bool>,
    polls: Seq<PollSample>,
    max: usize,
    k: usize,
)
    requires
        spec_auth_mode(security) is Ok,
        1 <= k <= max,
        results.len() >= max,
        forall|i: int| 0 <= i < k - 1 ==> !results[i],
        results[k - 1],
        polls.len() <= usize::MAX,
    ensures
        spec_join_run(security, results, polls, max).attempts == k,
        spec_join_run(security, results, polls, max).polls_seen == spec_wait(polls).0,
        spec_join_run(security, results, polls, max).outcome == spec_wait(polls).1,
{
    lemma_attempts_succeed_at(results, max as nat, k as nat);
    lemma_wait_polls_bounded(polls);
}

/// The wait observes no more polls than there are.
proof fn lemma_wait_polls_bounded(polls: Seq<PollSample>)
    ensures
        spec_wait(polls).0 <= polls.len(),
    decreases polls.len(),
{
    if polls.len() > 0 && !polls[0].configured {
        lemma_wait_polls_bounded(polls.drop_first());
    }
}

/// When the stack reports "not configured" for the first `n` polls and
/// "configured" with address `a` at poll `n + 1`, the wait ends with `a`
/// only after all `n + 1` polls are observed.
pub proof fn lemma_address_after_all_polls(polls: Seq<PollSample>, n: nat, a: Ipv4Address)
    requires
        n < polls.len(),
        forall|i: int| 0 <= i < n ==> !polls[i].configured,
        polls[n as int].configured,
        polls[n as int].address == Some(a),
    ensures
        spec_wait(polls) == ((n + 1) as nat, JoinOutcome::Completed(Ok::<
            Ipv4Address,
            JoinError,
        >(a))),
    decreases n,
{
    if n > 0 {
        assert(forall|i: int| 0 <= i < n - 1 ==> !polls.drop_first()[i].configured);
        assert(polls.drop_first()[n - 1].configured);
        lemma_address_after_all_polls(polls.drop_first(), (n - 1) as nat, a);
    }
}

} // verus!
