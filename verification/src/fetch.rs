//! The retry brain of the HTTP fetch layer.
//!
//! The network itself lives outside this crate: a driver performs one GET,
//! hands the status code to [`RetryState::on_response`], and acts on the
//! decision — return the response to the caller, sleep and retry, or give
//! up. Rate-limit (HTTP 429) responses are retried after successive waits of
//! 0, 1, 1, 2, 3, 5, … seconds; the call fails permanently, without another
//! request, once the next required wait would exceed
//! [`crate::MAX_BACKOFF_SECS`]. Any other status is handed back at once.
use crate::MAX_BACKOFF_SECS;
use vstd::prelude::*;

verus! {

/// The Fibonacci numbers.
pub open spec fn fib(k: nat) -> nat
    decreases k,
{
    if k == 0 {
        0
    } else if k == 1 {
        1
    } else {
        fib((k - 2) as nat) + fib((k - 1) as nat)
    }
}

/// The sum of `fib(a)` through `fib(b - 1)`.
pub open spec fn fib_sum_range(a: nat, b: nat) -> nat
    decreases b - a,
{
    if a >= b {
        0
    } else {
        fib(a) + fib_sum_range((a + 1) as nat, b)
    }
}

/// The Fibonacci numbers never decrease.
pub proof fn lemma_fib_monotone(a: nat, b: nat)
    requires
        a <= b,
    ensures
        fib(a) <= fib(b),
    decreases b - a,
{
    if a < b {
        lemma_fib_monotone(a, (b - 1) as nat);
        if b >= 2 {
            assert(fib(b) == fib((b - 2) as nat) + fib((b - 1) as nat));
        } else {
            assert(b == 1 && a == 0);
        }
    }
}

/// Extending a sum range by one on the right adds one term.
pub proof fn lemma_fib_sum_snoc(a: nat, b: nat)
    requires
        a <= b,
    ensures
        fib_sum_range(a, (b + 1) as nat) == fib_sum_range(a, b) + fib(b),
    decreases b - a,
{
    if a == b {
        assert(fib_sum_range((a + 1) as nat, (b + 1) as nat) == 0);
        assert(fib_sum_range(a, b) == 0);
        assert(fib_sum_range(a, (b + 1) as nat) == fib(a) + fib_sum_range(
            (a + 1) as nat,
            (b + 1) as nat,
        ));
    } else {
        lemma_fib_sum_snoc((a + 1) as nat, b);
        assert(fib_sum_range(a, (b + 1) as nat) == fib(a) + fib_sum_range(
            (a + 1) as nat,
            (b + 1) as nat,
        ));
        assert(fib_sum_range(a, b) == fib(a) + fib_sum_range((a + 1) as nat, b));
    }
}

/// The first twelve Fibonacci numbers, spelled out.
pub proof fn lemma_fib_values()
    ensures
        fib(0) == 0,
        fib(1) == 1,
        fib(2) == 1,
        fib(3) == 2,
        fib(4) == 3,
        fib(5) == 5,
        fib(6) == 8,
        fib(7) == 13,
        fib(8) == 21,
        fib(9) == 34,
        fib(10) == 55,
        fib(11) == 89,
        fib(12) == 144,
        fib(13) == 233,
{
    assert(fib(2) == fib(0) + fib(1));
    assert(fib(3) == fib(1) + fib(2));
    assert(fib(4) == fib(2) + fib(3));
    assert(fib(5) == fib(3) + fib(4));
    assert(fib(6) == fib(4) + fib(5));
    assert(fib(7) == fib(5) + fib(6));
    assert(fib(8) == fib(6) + fib(7));
    assert(fib(9) == fib(7) + fib(8));
    assert(fib(10) == fib(8) + fib(9));
    assert(fib(11) == fib(9) + fib(10));
    assert(fib(12) == fib(10) + fib(11));
    assert(fib(13) == fib(11) + fib(12));
}

/// The first twelve prefix sums of the sequence, spelled out; in particular
/// the waits the retry loop can ever perform sum to 143 seconds.
pub proof fn lemma_fib_sum_values()
    ensures
        fib_sum_range(0, 0) == 0,
        fib_sum_range(0, 1) == 0,
        fib_sum_range(0, 2) == 1,
        fib_sum_range(0, 3) == 2,
        fib_sum_range(0, 4) == 4,
        fib_sum_range(0, 5) == 7,
        fib_sum_range(0, 6) == 12,
        fib_sum_range(0, 7) == 20,
        fib_sum_range(0, 8) == 33,
        fib_sum_range(0, 9) == 54,
        fib_sum_range(0, 10) == 88,
        fib_sum_range(0, 11) == 143,
{
    lemma_fib_values();
    lemma_fib_sum_snoc(0, 0);
    lemma_fib_sum_snoc(0, 1);
    lemma_fib_sum_snoc(0, 2);
    lemma_fib_sum_snoc(0, 3);
    lemma_fib_sum_snoc(0, 4);
    lemma_fib_sum_snoc(0, 5);
    lemma_fib_sum_snoc(0, 6);
    lemma_fib_sum_snoc(0, 7);
    lemma_fib_sum_snoc(0, 8);
    lemma_fib_sum_snoc(0, 9);
    lemma_fib_sum_snoc(0, 10);
}

/// The waits the retry loop can ever sum to stay under 144 seconds.
pub proof fn lemma_fib_sum_bound(k: nat)
    requires
        k <= 11,
    ensures
        fib_sum_range(0, k) <= 143,
{
    lemma_fib_sum_values();
}

/// A restartable generator of the Fibonacci sequence, one value per call.
pub struct FibonacciIterator {
    current: usize,
    next_val: usize,
    k: Ghost<nat>,
}

impl FibonacciIterator {
    /// Which position of the sequence the next call yields.
    pub closed spec fn position(&self) -> nat {
        self.k@
    }

    /// The two held values are consecutive Fibonacci numbers.
    pub closed spec fn wf(&self) -> bool {
        self.current == fib(self.k@) && self.next_val == fib(self.k@ + 1)
    }

    /// Starts the sequence at `fib(0) == 0`.
    pub fn new() -> (r: FibonacciIterator)
        ensures
            r.wf(),
            r.position() == 0,
    {
        FibonacciIterator { current: 0, next_val: 1, k: Ghost(0) }
    }

    /// Yields the next Fibonacci number. The caller keeps the position low
    /// enough that the value after the next one still fits a `usize`; the
    /// retry loop stops far below that.
    pub fn next(&mut self) -> (r: Option<usize>)
        requires
            old(self).wf(),
            fib(old(self).position() + 2) <= usize::MAX,
        ensures
            final(self).wf(),
            final(self).position() == old(self).position() + 1,
            r == Some((fib(old(self).position()) as usize)),
    {
        proof {
            assert(fib(self.k@ + 2) == fib(self.k@) + fib(self.k@ + 1));
        }
        let previous = self.current;
        self.current = self.next_val;
        self.next_val = self.next_val + previous;
        proof {
            self.k@ = self.k@ + 1;
        }
        Some(previous)
    }
}

/// What the fetch driver should do after one response.
#[derive(Debug, PartialEq, Eq, Structural)]
pub enum FetchDecision {
    /// Hand the response to the caller, whatever its status: only a
    /// rate-limit status is ever retried.
    Deliver,
    /// Sleep this many seconds and send the request again.
    Wait(u64),
    /// The next wait would exceed the ceiling: fail without another request.
    GiveUp,
}

/// HTTP status code for rate limiting.
pub const STATUS_TOO_MANY_REQUESTS: u16 = 429;

/// The retry state of one fetch call.
pub struct RetryState {
    fib: FibonacciIterator,
    done: bool,
}

impl RetryState {
    /// How many rate-limit responses were absorbed so far.
    pub closed spec fn attempts(&self) -> nat {
        self.fib.position()
    }

    /// Whether the call already gave up.
    pub closed spec fn is_done(&self) -> bool {
        self.done
    }

    /// While the call has not given up, at most eleven waits have happened.
    pub closed spec fn wf(&self) -> bool {
        self.fib.wf() && (!self.done ==> self.fib.position() <= 11)
    }

    /// A fresh call: no waits yet.
    pub fn new() -> (r: RetryState)
        ensures
            r.wf(),
            !r.is_done(),
            r.attempts() == 0,
    {
        RetryState { fib: FibonacciIterator::new(), done: false }
    }

    /// Decides what to do with one response: deliver any status other than
    /// 429 at once; on a 429, wait the next Fibonacci number of seconds, or
    /// give up when that wait would exceed the ceiling.
    pub fn on_response(&mut self, status: u16) -> (r: FetchDecision)
        requires
            old(self).wf(),
            !old(self).is_done(),
        ensures
            final(self).wf(),
            status != STATUS_TOO_MANY_REQUESTS ==> r == FetchDecision::Deliver && *final(self)
                == *old(self),
            status == STATUS_TOO_MANY_REQUESTS && fib(old(self).attempts())
                <= crate::MAX_BACKOFF_SECS ==> r == (FetchDecision::Wait(
                fib(old(self).attempts()) as u64,
            )) && final(self).attempts() == old(self).attempts() + 1 && !final(self).is_done(),
            status == STATUS_TOO_MANY_REQUESTS && fib(old(self).attempts())
                > crate::MAX_BACKOFF_SECS ==> r == FetchDecision::GiveUp && final(self).is_done(),
    {
        if status != STATUS_TOO_MANY_REQUESTS {
            return FetchDecision::Deliver;
        }
        proof {
            lemma_fib_values();
            lemma_fib_monotone(self.fib.position() + 2, 13);
        }
        let w = match self.fib.next() {
            Some(w) => w,
            None => 0,
        };
        if w > 60 {
            self.done = true;
            proof {
                lemma_fib_values();
            }
            FetchDecision::GiveUp
        } else {
            proof {
                lemma_fib_values();
                if old(self).attempts() >= 11 {
                    lemma_fib_monotone(11, old(self).attempts());
                }
            }
            FetchDecision::Wait(w as u64)
        }
    }
}

} // verus!

verus! {

/// How one fetch call ends, given a sequence of responses.
#[derive(Debug, PartialEq, Eq, Structural)]
pub enum SessionOutcome {
    /// A response other than 429 arrived and is handed to the caller with
    /// this status.
    Delivered(u16),
    /// A 429 arrived when the next wait would have exceeded the ceiling: the
    /// call fails without another request.
    Exhausted,
    /// Every given response was absorbed and another request would be sent.
    OutOfResponses,
}

/// What one fetch call does with the given responses, starting `attempt`
/// rate-limit responses in: how it ends, how long it sleeps in all, and how
/// many responses it consumes.
pub open spec fn spec_session(rs: Seq<u16>, attempt: nat) -> (SessionOutcome, nat, nat)
    decreases rs.len(),
{
    if rs.len() == 0 {
        (SessionOutcome::OutOfResponses, 0, 0)
    } else if rs[0] != 429 {
        (SessionOutcome::Delivered(rs[0]), 0, 1)
    } else if fib(attempt) > MAX_BACKOFF_SECS as nat {
        (SessionOutcome::Exhausted, 0, 1)
    } else {
        let rest = spec_session(rs.drop_first(), attempt + 1);
        (rest.0, fib(attempt) + rest.1, 1 + rest.2)
    }
}

/// The result of driving one fetch call against a recorded list of statuses.
#[derive(Debug, PartialEq, Eq, Structural)]
pub struct SessionResult {
    /// How the call ended.
    pub outcome: SessionOutcome,
    /// Seconds the call would sleep in all before ending.
    pub total_wait: u64,
    /// Responses consumed; nothing past these is ever requested.
    pub requests: usize,
}

/// Replays the retry logic against a recorded list of response statuses, one
/// status per request sent, and reports how the call ends, its cumulative
/// wait, and how many requests it sends.
pub fn simulate_fetch(responses: &Vec<u16>) -> (r: SessionResult)
    ensures
        ({
            let s = spec_session(responses@, 0);
            r.outcome == s.0 && r.total_wait == s.1 && r.requests == s.2
        }),
{
    let mut st = RetryState::new();
    let mut total: u64 = 0;
    let mut i: usize = 0;
    let n = responses.len();
    proof {
        assert(responses@.skip(0) =~= responses@);
        assert(fib_sum_range(0, 0) == 0);
    }
    while i < n
        invariant
            n == responses@.len(),
            0 <= i <= n,
            st.wf(),
            !st.is_done(),
            st.attempts() <= 11,
            total == fib_sum_range(0, st.attempts()),
            spec_session(responses@, 0) == {
                let rest = spec_session(responses@.skip(i as int), st.attempts());
                (rest.0, (total + rest.1) as nat, (i + rest.2) as nat)
            },
        decreases n - i,
    {
        let status = responses[i];
        let ghost rest_before = responses@.skip(i as int);
        proof {
            assert(rest_before[0] == responses@[i as int]);
            assert(rest_before.drop_first() =~= responses@.skip(i as int + 1));
            lemma_fib_sum_bound(st.attempts());
            lemma_fib_values();
            if st.attempts() < 11 {
                lemma_fib_monotone(st.attempts(), 10);
            }
        }
        let ghost k = st.attempts();
        match st.on_response(status) {
            FetchDecision::Deliver => {
                proof {
                    assert(spec_session(rest_before, k) == (
                        SessionOutcome::Delivered(status),
                        0nat,
                        1nat,
                    ));
                }
                return SessionResult { outcome: SessionOutcome::Delivered(status), total_wait: total, requests: i + 1 };
            },
            FetchDecision::GiveUp => {
                proof {
                    assert(spec_session(rest_before, k) == (SessionOutcome::Exhausted, 0nat, 1nat));
                }
                return SessionResult { outcome: SessionOutcome::Exhausted, total_wait: total, requests: i + 1 };
            },
            FetchDecision::Wait(w) => {
                proof {
                    assert(w == fib(k));
                    lemma_fib_sum_snoc(0, k);
                    assert(spec_session(rest_before, k) == {
                        let rest = spec_session(rest_before.drop_first(), k + 1);
                        (rest.0, fib(k) + rest.1, 1 + rest.2)
                    });
                }
                total = total + w;
            },
        }
        i += 1;
    }
    proof {
        assert(responses@.skip(n as int) =~= Seq::<u16>::empty());
    }
    SessionResult { outcome: SessionOutcome::OutOfResponses, total_wait: total, requests: n }
}

/// Rate-limit timing law, the succeeding side: when the first `j` responses
/// are 429 and the next is anything else, the call delivers that response
/// after sleeping exactly the sum of the first `j` Fibonacci numbers, having
/// sent `j + 1` requests. With `j` at most eleven every required wait is
/// within the ceiling.
pub proof fn lemma_fetch_timing(rs: Seq<u16>, j: int)
    requires
        0 <= j <= 11,
        rs.len() > j,
        forall|i: int| 0 <= i < j ==> rs[i] == 429,
        rs[j] != 429,
    ensures
        spec_session(rs, 0) == (
            SessionOutcome::Delivered(rs[j]),
            fib_sum_range(0, j as nat),
            (j + 1) as nat,
        ),
{
    lemma_session_429_prefix(rs, 0, j);
}

/// Rate-limit timing law, the failing side: on the twelfth consecutive 429
/// the next wait would be 89 seconds, over the ceiling, so the call fails
/// having slept 143 seconds in all and sent exactly twelve requests — the
/// responses after that are never requested.
pub proof fn lemma_fetch_exhaustion(rs: Seq<u16>)
    requires
        rs.len() >= 12,
        forall|i: int| 0 <= i < 12 ==> rs[i] == 429,
    ensures
        spec_session(rs, 0) == (SessionOutcome::Exhausted, fib_sum_range(0, 11), 12nat),
{
    lemma_session_429_prefix(rs, 0, 11);
    lemma_fib_values();
    let rest = rs.skip(11);
    assert(rest[0] == rs[11]);
}

/// Stepping over `j` in-ceiling 429 responses accumulates their waits.
proof fn lemma_session_429_prefix(rs: Seq<u16>, k: nat, j: int)
    requires
        0 <= j,
        k + j <= 11,
        rs.len() > j,
        forall|i: int| 0 <= i < j ==> rs[i] == 429,
    ensures
        spec_session(rs, k) == {
            let rest = spec_session(rs.skip(j), (k + j) as nat);
            (rest.0, (fib_sum_range(k, (k + j) as nat) + rest.1) as nat, (j + rest.2) as nat)
        },
    decreases j,
{
    lemma_fib_values();
    if j == 0 {
        assert(rs.skip(0) =~= rs);
    } else {
        assert(rs[0] == 429);
        lemma_fib_monotone(k, 10);
        assert(fib(k) <= MAX_BACKOFF_SECS as nat);
        assert forall|i: int| 0 <= i < j - 1 implies rs.drop_first()[i] == 429 by {
            assert(rs.drop_first()[i] == rs[i + 1]);
        }
        lemma_session_429_prefix(rs.drop_first(), (k + 1) as nat, j - 1);
        assert(rs.drop_first().skip(j - 1) =~= rs.skip(j));
        assert(fib_sum_range(k, (k + j) as nat) == fib(k) + fib_sum_range(
            (k + 1) as nat,
            (k + j) as nat,
        ));
    }
}

} // verus!
