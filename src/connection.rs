//! Connection management policy: retry backoff, the shutdown flag's states,
//! what a worker does after each read, and terminator framing of the byte
//! stream.
use vstd::prelude::*;
use crate::requests::REQUEST_TERMINATOR;

verus! {

/// Delay before the first retry, in milliseconds.
pub const CONNECT_INIT_ERROR_TIMEOUT_MS: u64 = 1000;

/// Largest delay between retries, in milliseconds.
pub const CONNECT_MAX_ERROR_TIMEOUT_MS: u64 = 5000;

/// Failed attempts after which connecting is given up.
pub const CONNECT_MAX_TRIES: u8 = 10;

/// `b` to the power `e`.
pub open spec fn power(b: nat, e: nat) -> nat
    decreases e,
{
    if e == 0 {
        1
    } else {
        b * power(b, (e - 1) as nat)
    }
}

/// The delay after failed attempt `k`: `D0 * 1.1^k` rounded down, capped at
/// the largest delay.
pub open spec fn backoff_delay(k: nat) -> nat {
    let grown = (CONNECT_INIT_ERROR_TIMEOUT_MS as nat * power(11, k)) as int / power(10, k) as int;
    if grown < CONNECT_MAX_ERROR_TIMEOUT_MS {
        grown as nat
    } else {
        CONNECT_MAX_ERROR_TIMEOUT_MS as nat
    }
}

proof fn lemma_power_monotone(b: nat, e1: nat, e2: nat)
    requires
        b >= 1,
        e1 <= e2,
    ensures
        power(b, e1) <= power(b, e2),
    decreases e2,
{
    if e1 < e2 {
        lemma_power_monotone(b, e1, (e2 - 1) as nat);
        assert(power(b, (e2 - 1) as nat) <= b * power(b, (e2 - 1) as nat)) by (nonlinear_arith)
            requires
                b >= 1,
        ;
    }
}

/// The delay after failed attempt `k`, for `k` up to the attempt bound.
pub fn backoff_delay_ms(k: u8) -> (r: u64)
    requires
        k <= CONNECT_MAX_TRIES,
    ensures
        r == backoff_delay(k as nat),
        r <= CONNECT_MAX_ERROR_TIMEOUT_MS,
{
    proof {
        lemma_power_monotone(11, k as nat, 10);
        lemma_power_monotone(10, k as nat, 10);
        reveal_with_fuel(power, 11);
        assert(power(11, 10) == 25937424601);
        assert(power(10, 10) == 10000000000);
    }
    let mut num: u64 = CONNECT_INIT_ERROR_TIMEOUT_MS;
    let mut den: u64 = 1;
    let mut i: u8 = 0;
    while i < k
        invariant
            i <= k <= 10,
            power(11, k as nat) <= 25937424601,
            power(10, k as nat) <= 10000000000,
            num == 1000 * power(11, i as nat),
            den == power(10, i as nat),
        decreases k - i,
    {
        proof {
            lemma_power_monotone(11, (i + 1) as nat, k as nat);
            lemma_power_monotone(10, (i + 1) as nat, k as nat);
        }
        assert(power(11, (i + 1) as nat) == 11 * power(11, i as nat));
        assert(power(10, (i + 1) as nat) == 10 * power(10, i as nat));
        num = num * 11;
        den = den * 10;
        i = i + 1;
    }
    assert(den > 0) by {
        lemma_power_monotone(10, 0, k as nat);
    }
    let grown = num / den;
    if grown < CONNECT_MAX_ERROR_TIMEOUT_MS {
        grown
    } else {
        CONNECT_MAX_ERROR_TIMEOUT_MS
    }
}

/// What to do after a failed connection attempt.
#[derive(Debug, Clone, Copy, PartialEq, Eq, Structural)]
pub enum RetryDecision {
    /// Wait this many milliseconds, then try again.
    RetryAfterMs(u64),
    /// The attempt bound is exceeded: connecting has failed for good.
    GiveUp,
}

/// The count of failed connection attempts.
#[derive(Debug, Clone, Copy)]
pub struct ConnectBackoff {
    pub attempts: u8,
}

impl ConnectBackoff {
    /// No attempt has failed yet.
    pub fn new() -> (r: ConnectBackoff)
        ensures
            r.attempts == 0,
    {
        ConnectBackoff { attempts: 0 }
    }

    /// Records a failed attempt: attempt `k` (counted from 1) is followed by
    /// a wait of `min(D0 * 1.1^k, Dmax)` and attempt `k + 1` while `k` is
    /// below the bound; once attempt `k` = N has failed, connecting is given
    /// up, so no attempt beyond the N-th is ever made.
    pub fn on_failure(&mut self) -> (r: RetryDecision)
        requires
            old(self).attempts <= CONNECT_MAX_TRIES,
        ensures
            final(self).attempts <= CONNECT_MAX_TRIES,
            old(self).attempts + 1 < CONNECT_MAX_TRIES ==> final(self).attempts == old(
                self,
            ).attempts + 1 && r == RetryDecision::RetryAfterMs(
                backoff_delay(final(self).attempts as nat) as u64,
            ),
            old(self).attempts + 1 >= CONNECT_MAX_TRIES ==> final(self).attempts
                == CONNECT_MAX_TRIES && r == RetryDecision::GiveUp,
    {
        if self.attempts + 1 < CONNECT_MAX_TRIES {
            self.attempts = self.attempts + 1;
            RetryDecision::RetryAfterMs(backoff_delay_ms(self.attempts))
        } else {
            self.attempts = CONNECT_MAX_TRIES;
            RetryDecision::GiveUp
        }
    }
}

/// Delays never shrink from one failed attempt to the next, and never pass the cap.
pub proof fn lemma_backoff_monotone(k: nat)
    ensures
        backoff_delay(k) <= backoff_delay(k + 1),
        backoff_delay(k) <= CONNECT_MAX_ERROR_TIMEOUT_MS,
{
    let a = power(11, k);
    let b = power(10, k);
    lemma_power_monotone(10, 0, k);
    assert(power(11, k + 1) == 11 * a);
    assert(power(10, k + 1) == 10 * b);
    assert(1000 * a / b <= 1000 * (11 * a) / (10 * b)) by (nonlinear_arith)
        requires
            b >= 1,
    {
        let x = 1000 * a;
        let q = x / b;
        assert(q * b <= x);
        assert(q * (10 * b) <= 11 * x);
        assert(q <= (11 * x) / (10 * b));
    }
}

/// The shared shutdown flag: running, asked to stop, or stopped.
#[derive(Debug, Clone, Copy, PartialEq, Eq, Structural)]
pub enum ShutdownState {
    Running,
    ShutdownRequested,
    Terminated,
}

/// The state after a shutdown request.
pub open spec fn requested(s: ShutdownState) -> ShutdownState {
    if s == ShutdownState::Running {
        ShutdownState::ShutdownRequested
    } else {
        s
    }
}

/// Asks a running side to stop; a side already stopping or stopped stays as it is.
pub fn request_shutdown(s: ShutdownState) -> (r: ShutdownState)
    ensures
        r == requested(s),
{
    match s {
        ShutdownState::Running => ShutdownState::ShutdownRequested,
        other => other,
    }
}

/// What a non-blocking read on the socket gave.
#[derive(Debug, Clone, Copy, PartialEq, Eq, Structural)]
pub enum ReadOutcome {
    /// Some bytes arrived.
    Data,
    /// A zero-length read: the peer closed the stream.
    Closed,
    /// Nothing to read yet.
    WouldBlock,
    /// Another I/O error.
    Failed,
}

/// What a connection worker does next.
#[derive(Debug, Clone, Copy, PartialEq, Eq, Structural)]
pub enum WorkerAction {
    /// Poll again.
    Continue,
    /// Leave the loop normally.
    Exit,
    /// Leave the loop: the connection cannot go on.
    Fail,
}

/// The worker's next state and action after a read: a closed stream or a
/// requested shutdown ends the loop normally, another error ends it as a
/// failure, and otherwise the worker keeps polling.
pub fn after_read(state: ShutdownState, outcome: ReadOutcome) -> (r: (ShutdownState, WorkerAction))
    ensures
        outcome == ReadOutcome::Closed ==> r == (ShutdownState::Terminated, WorkerAction::Exit),
        outcome == ReadOutcome::Failed ==> r == (ShutdownState::Terminated, WorkerAction::Fail),
        (outcome == ReadOutcome::Data || outcome == ReadOutcome::WouldBlock) ==> r == (if state
            == ShutdownState::Running {
            (ShutdownState::Running, WorkerAction::Continue)
        } else {
            (ShutdownState::Terminated, WorkerAction::Exit)
        }),
{
    match outcome {
        ReadOutcome::Closed => (ShutdownState::Terminated, WorkerAction::Exit),
        ReadOutcome::Failed => (ShutdownState::Terminated, WorkerAction::Fail),
        _ => match state {
            ShutdownState::Running => (ShutdownState::Running, WorkerAction::Continue),
            _ => (ShutdownState::Terminated, WorkerAction::Exit),
        },
    }
}

/// Asking twice to stop is the same as asking once.
pub proof fn lemma_request_shutdown_idempotent(s: ShutdownState)
    ensures
        requested(requested(s)) == requested(s),
        requested(s) != ShutdownState::Running,
{
}

/// The position of the first terminator in `s`, or -1.
pub open spec fn terminator_index(s: Seq<u8>) -> int
    decreases s.len(),
{
    if s.len() == 0 {
        -1
    } else if s[0] == REQUEST_TERMINATOR {
        0
    } else {
        let k = terminator_index(s.drop_first());
        if k < 0 {
            -1
        } else {
            k + 1
        }
    }
}

proof fn lemma_terminator_index(s: Seq<u8>, k: int)
    requires
        0 <= k <= s.len(),
        k < s.len() ==> s[k] == REQUEST_TERMINATOR,
        forall|j: int| 0 <= j < k ==> s[j] != REQUEST_TERMINATOR,
    ensures
        terminator_index(s) == (if k < s.len() {
            k
        } else {
            -1
        }),
    decreases s.len(),
{
    if s.len() > 0 && k > 0 {
        lemma_terminator_index(s.drop_first(), k - 1);
    }
}

/// Bytes received but not yet handed out as a whole frame.
#[derive(Debug)]
pub struct FrameBuffer {
    pub pending: Vec<u8>,
}

impl FrameBuffer {
    /// Nothing pending.
    pub fn new() -> (r: FrameBuffer)
        ensures
            r.pending@ == Seq::<u8>::empty(),
    {
        FrameBuffer { pending: Vec::new() }
    }

    /// Adds received bytes after those pending.
    pub fn push_bytes(&mut self, bytes: &[u8])
        ensures
            final(self).pending@ == old(self).pending@ + bytes@,
    {
        let mut i: usize = 0;
        while i < bytes.len()
            invariant
                i <= bytes@.len(),
                self.pending@ == old(self).pending@ + bytes@.subrange(0, i as int),
            decreases bytes.len() - i,
        {
            self.pending.push(bytes[i]);
            i = i + 1;
            assert(self.pending@ =~= old(self).pending@ + bytes@.subrange(0, i as int));
        }
        assert(bytes@.subrange(0, bytes@.len() as int) =~= bytes@);
    }

    /// Takes the first whole frame: the bytes before the first terminator,
    /// which is dropped with them; `None`, with nothing taken, where no
    /// terminator has arrived.
    pub fn next_frame(&mut self) -> (r: Option<Vec<u8>>)
        ensures
            ({
                let k = terminator_index(old(self).pending@);
                if k < 0 {
                    r is None && final(self).pending@ == old(self).pending@
                } else {
                    r matches Some(f) && f@ == old(self).pending@.subrange(0, k)
                        && final(self).pending@ == old(self).pending@.subrange(
                        k + 1,
                        old(self).pending@.len() as int,
                    )
                }
            }),
    {
        let mut i: usize = 0;
        while i < self.pending.len()
            invariant
                i <= self.pending@.len(),
                self.pending@ == old(self).pending@,
                forall|j: int| 0 <= j < i ==> self.pending@[j] != REQUEST_TERMINATOR,
            decreases self.pending.len() - i,
        {
            if self.pending[i] == REQUEST_TERMINATOR {
                proof {
                    lemma_terminator_index(self.pending@, i as int);
                }
                let mut rest = self.pending.split_off(i);
                let frame = self.pending.split_off(0);
                let _ = rest.remove(0);
                self.pending = rest;
                assert(self.pending@ =~= old(self).pending@.subrange(
                    i + 1,
                    old(self).pending@.len() as int,
                ));
                return Some(frame);
            }
            i = i + 1;
        }
        proof {
            lemma_terminator_index(self.pending@, self.pending@.len() as int);
        }
        None
    }
}

} // verus!
