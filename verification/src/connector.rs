//! Connect-with-retry for the initiating role.
//!
//! A `Connector` produces a transport handle by attempting a connection,
//! treating every establishment failure as transient, sleeping a fixed
//! interval between attempts, and giving up once the configured retry
//! bound is exceeded. The host program performs the actual network call
//! and the sleep; it reports each attempt's outcome here and acts on the
//! decision it gets back.

use vstd::prelude::*;

verus! {

/// How many retries a connector allows by default.
pub const DEFAULT_MAX_RETRIES: u32 = 5;

/// How long, in seconds, a connector waits between attempts by default.
pub const DEFAULT_RETRY_DELAY_SECS: u64 = 2;

/// Whether a string parses as an absolute URL.
pub uninterp spec fn url_well_formed(s: Seq<char>) -> bool;

/// Relies on url::Url::parse: whether a string parses as an absolute URL
/// is a function of the string alone, and `parse` returns `Ok` exactly on
/// the well-formed ones.
#[verifier::external_body]
fn parse_url_ok(s: &str) -> (r: bool)
    ensures
        r == url_well_formed(s@),
{
    url::Url::parse(s).is_ok()
}

/// A fatal outcome of the connect algorithm.
#[derive(Clone, Debug, PartialEq, Eq)]
pub enum ConnectError {
    /// The target address is not a well-formed URL.
    InvalidUrl,
    /// Every allowed attempt failed; `attempts` counts them all, and
    /// `last_error` describes the final failure. Not retriable.
    Exhausted { attempts: u32, last_error: String },
}

/// What the connect algorithm decides after one attempt's outcome.
#[derive(Clone, Debug, PartialEq, Eq)]
pub enum ConnectDecision {
    /// The attempt succeeded; `attempts` counts every attempt made,
    /// the successful one included.
    Connected { attempts: u32 },
    /// The attempt failed but retries remain: sleep `delay_secs`, then
    /// try again. `failures` counts the failed attempts so far.
    Retry { failures: u32, delay_secs: u64, error: String },
    /// The attempt failed and no retries remain.
    Exhausted { attempts: u32, last_error: String },
}

/// The one-time recovered-after-retry observability event carried by a
/// decision: the number of failed attempts that preceded the successful
/// one, present exactly when there was at least one.
pub open spec fn recovery_of(d: ConnectDecision) -> Option<u32> {
    match d {
        ConnectDecision::Connected { attempts } => if attempts > 1 {
            Some((attempts - 1) as u32)
        } else {
            None
        },
        _ => None,
    }
}

impl ConnectDecision {
    /// The recovered-after-retry event, if this decision carries one.
    pub fn recovery_retries(&self) -> (r: Option<u32>)
        ensures
            r == recovery_of(*self),
    {
        match self {
            ConnectDecision::Connected { attempts } => if *attempts > 1 {
                Some(*attempts - 1)
            } else {
                None
            },
            _ => None,
        }
    }

    /// Surface a terminal failed decision as the connector's fatal error.
    pub fn into_exhausted_error(self) -> (r: Option<ConnectError>)
        ensures
            self matches ConnectDecision::Exhausted { attempts, last_error } ==> r == (Some(
                ConnectError::Exhausted { attempts, last_error },
            )),
            !(self matches ConnectDecision::Exhausted { .. }) ==> r is None,
    {
        match self {
            ConnectDecision::Exhausted { attempts, last_error } => Some(
                ConnectError::Exhausted { attempts, last_error },
            ),
            _ => None,
        }
    }
}

/// The connect-with-retry state: the target address, the retry bounds,
/// and how many attempts have failed so far.
pub struct Connector {
    pub url: String,
    pub max_retries: u32,
    pub retry_delay_secs: u64,
    pub failures: u32,
}

/// Index of the first successful attempt in a run of attempt outcomes,
/// or the run's length if every attempt fails.
pub open spec fn first_success(outcomes: Seq<bool>) -> int
    decreases outcomes.len(),
{
    if outcomes.len() == 0 {
        0
    } else if outcomes[0] {
        0
    } else {
        1 + first_success(outcomes.skip(1))
    }
}

/// Whether the connect algorithm reaches a successful attempt before
/// exhausting its retries.
pub open spec fn model_succeeds(outcomes: Seq<bool>, max_retries: u32) -> bool {
    first_success(outcomes) <= max_retries
}

/// How many attempts the connect algorithm makes: up to and including the
/// first success, or `max_retries + 1` when it exhausts its retries.
pub open spec fn model_attempts(outcomes: Seq<bool>, max_retries: u32) -> int {
    if model_succeeds(outcomes, max_retries) {
        first_success(outcomes) + 1
    } else {
        max_retries + 1
    }
}

/// Whether the recovered-after-retry event fires: the algorithm succeeds,
/// but not on its first attempt.
pub open spec fn model_recovered(outcomes: Seq<bool>, max_retries: u32) -> bool {
    model_succeeds(outcomes, max_retries) && first_success(outcomes) >= 1
}

/// If the first `k` outcomes are failures, the first success comes no
/// earlier than index `k`.
pub proof fn lemma_first_success_at_least(outcomes: Seq<bool>, k: int)
    requires
        0 <= k <= outcomes.len(),
        forall|j: int| 0 <= j < k ==> !outcomes[j],
    ensures
        first_success(outcomes) >= k,
    decreases outcomes.len(),
{
    if outcomes.len() > 0 && !outcomes[0] {
        assert(forall|j: int| 0 <= j < k - 1 ==> !outcomes.skip(1)[j]);
        lemma_first_success_at_least(outcomes.skip(1), if k > 0 { k - 1 } else { 0 });
    }
}

/// If the first `k` outcomes are failures and outcome `k` is a success,
/// the first success is exactly at index `k`.
pub proof fn lemma_first_success_at(outcomes: Seq<bool>, k: int)
    requires
        0 <= k < outcomes.len(),
        forall|j: int| 0 <= j < k ==> !outcomes[j],
        outcomes[k],
    ensures
        first_success(outcomes) == k,
    decreases k,
{
    if k > 0 {
        assert(!outcomes[0]);
        assert(forall|j: int| 0 <= j < k - 1 ==> !outcomes.skip(1)[j]);
        assert(outcomes.skip(1)[k - 1]);
        lemma_first_success_at(outcomes.skip(1), k - 1);
    }
}

impl Connector {
    /// The retry bound leaves room to count one attempt past it.
    pub open spec fn wf(&self) -> bool {
        self.max_retries < u32::MAX
    }

    /// A connector for `url` with the default retry bounds. Rejects a
    /// target address that is not a well-formed URL; that check is the
    /// caller's collaborator, not part of the retry algorithm.
    pub fn new(url: &str) -> (r: Result<Connector, ConnectError>)
        ensures
            url_well_formed(url@) ==> (r matches Ok(c) && c.url@ == url@ && c.max_retries
                == DEFAULT_MAX_RETRIES && c.retry_delay_secs == DEFAULT_RETRY_DELAY_SECS
                && c.failures == 0 && c.wf()),
            !url_well_formed(url@) ==> (r matches Err(e) && e is InvalidUrl),
    {
        Self::with_limits(url, DEFAULT_MAX_RETRIES, DEFAULT_RETRY_DELAY_SECS)
    }

    /// A connector with explicit retry bounds.
    pub fn with_limits(url: &str, max_retries: u32, retry_delay_secs: u64) -> (r: Result<
        Connector,
        ConnectError,
    >)
        requires
            max_retries < u32::MAX,
        ensures
            url_well_formed(url@) ==> (r matches Ok(c) && c.url@ == url@ && c.max_retries
                == max_retries && c.retry_delay_secs == retry_delay_secs && c.failures == 0
                && c.wf()),
            !url_well_formed(url@) ==> (r matches Err(e) && e is InvalidUrl),
    {
        if parse_url_ok(url) {
            Ok(
                Connector {
                    url: String::from_str(url),
                    max_retries,
                    retry_delay_secs,
                    failures: 0,
                },
            )
        } else {
            Err(ConnectError::InvalidUrl)
        }
    }

    /// The decision after a successful attempt: connected, counting the
    /// prior failures plus the attempt that succeeded.
    pub fn on_success(&self) -> (d: ConnectDecision)
        requires
            self.failures < u32::MAX,
        ensures
            d == (ConnectDecision::Connected { attempts: (self.failures + 1) as u32 }),
    {
        ConnectDecision::Connected { attempts: self.failures + 1 }
    }

    /// The decision after a failed attempt: retry after the fixed delay
    /// while the failure count stays within the bound, exhaustion as soon
    /// as it passes it. Every establishment failure is treated alike.
    pub fn on_failure(&mut self, error: String) -> (d: ConnectDecision)
        requires
            old(self).wf(),
            old(self).failures <= old(self).max_retries,
        ensures
            final(self).url == old(self).url,
            final(self).max_retries == old(self).max_retries,
            final(self).retry_delay_secs == old(self).retry_delay_secs,
            final(self).failures == old(self).failures + 1,
            old(self).failures < old(self).max_retries ==> d == (ConnectDecision::Retry {
                failures: (old(self).failures + 1) as u32,
                delay_secs: old(self).retry_delay_secs,
                error,
            }),
            old(self).failures == old(self).max_retries ==> d == (ConnectDecision::Exhausted {
                attempts: (old(self).failures + 1) as u32,
                last_error: error,
            }),
    {
        self.failures = self.failures + 1;
        if self.failures > self.max_retries {
            ConnectDecision::Exhausted { attempts: self.failures, last_error: error }
        } else {
            ConnectDecision::Retry {
                failures: self.failures,
                delay_secs: self.retry_delay_secs,
                error,
            }
        }
    }

    /// Run the retry algorithm over a given run of attempt outcomes
    /// (`true`: that attempt succeeded), one decision per attempt, until
    /// a terminal decision. The run must be long enough to reach one:
    /// either some attempt succeeds, or there are enough failures to
    /// exhaust the retries.
    pub fn run_attempts(&mut self, outcomes: &Vec<bool>) -> (d: ConnectDecision)
        requires
            old(self).wf(),
            old(self).failures == 0,
            first_success(outcomes@) < outcomes@.len() || outcomes@.len() > old(self).max_retries,
        ensures
            model_succeeds(outcomes@, old(self).max_retries) ==> (d matches
                ConnectDecision::Connected { attempts } && attempts == model_attempts(
                outcomes@,
                old(self).max_retries,
            )),
            !model_succeeds(outcomes@, old(self).max_retries) ==> (d matches
                ConnectDecision::Exhausted { attempts, .. } && attempts == model_attempts(
                outcomes@,
                old(self).max_retries,
            )),
            recovery_of(d) == (if model_recovered(outcomes@, old(self).max_retries) {
                Some((first_success(outcomes@)) as u32)
            } else {
                None::<u32>
            }),
    {
        let ghost max = self.max_retries;
        let mut i: usize = 0;
        loop
            invariant
                self.wf(),
                self.max_retries == max,
                max == old(self).max_retries,
                self.failures == i,
                i <= max,
                i <= outcomes@.len(),
                forall|j: int| 0 <= j < i ==> !outcomes@[j],
                first_success(outcomes@) < outcomes@.len() || outcomes@.len() > max,
            decreases max - i,
        {
            proof {
                lemma_first_success_at_least(outcomes@, i as int);
            }
            assert(i < outcomes@.len());
            if outcomes[i] {
                let d = self.on_success();
                proof {
                    lemma_first_success_at(outcomes@, i as int);
                }
                return d;
            }
            // a simulated failure carries no description
            let d = self.on_failure(String::new());
            match &d {
                ConnectDecision::Exhausted { .. } => {
                    proof {
                        lemma_first_success_at_least(outcomes@, i + 1);
                    }
                    return d;
                },
                _ => {
                },
            }
            i = i + 1;
        }
    }
}

/// If every attempt fails, the algorithm makes exactly `max_retries + 1`
/// attempts, ends exhausted, and never reports a recovery.
pub proof fn lemma_exhausted_when_all_fail(outcomes: Seq<bool>, max_retries: u32)
    requires
        outcomes.len() > max_retries,
        forall|j: int| 0 <= j < outcomes.len() ==> !outcomes[j],
    ensures
        !model_succeeds(outcomes, max_retries),
        model_attempts(outcomes, max_retries) == max_retries + 1,
        !model_recovered(outcomes, max_retries),
{
    lemma_first_success_at_least(outcomes, max_retries + 1);
}

/// If the k-th attempt (1-based, within the retry bound) succeeds after
/// k - 1 failures, exactly k attempts occur, and the recovered event
/// fires, counting k - 1 retries, exactly when k exceeds 1.
pub proof fn lemma_success_at_attempt(outcomes: Seq<bool>, max_retries: u32, k: int)
    requires
        1 <= k <= max_retries,
        k <= outcomes.len(),
        forall|j: int| 0 <= j < k - 1 ==> !outcomes[j],
        outcomes[k - 1],
    ensures
        model_succeeds(outcomes, max_retries),
        model_attempts(outcomes, max_retries) == k,
        model_recovered(outcomes, max_retries) == (k > 1),
        recovery_of(ConnectDecision::Connected { attempts: k as u32 }) == (if k > 1 {
            Some((k - 1) as u32)
        } else {
            None::<u32>
        }),
{
    lemma_first_success_at(outcomes, k - 1);
}

} // verus!
