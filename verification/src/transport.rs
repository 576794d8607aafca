//! Decisions of the dual-transport serving loop.
//!
//! A run serves over a plain listener and a hidden-service endpoint. The
//! hidden service is bootstrapped under a bounded retry policy with linear
//! backoff; once bootstrapped, its address is published through a one-shot
//! handoff, and its accepted streams are bridged only on the expected
//! logical port. Both accept loops watch one shutdown signal, with
//! shutdown taking priority over new connections. The sleeping, the
//! network and the signal live outside this crate; these functions decide
//! each step.

use vstd::prelude::*;

verus! {

/// What the retry loop does after one service attempt.
#[derive(Debug, PartialEq, Eq, Structural)]
pub enum RetryAction {
    /// The service ended cleanly: the loop stops.
    Stop,
    /// The attempt failed and the retry budget is spent: the hidden
    /// service is abandoned while the plain listener keeps serving.
    GiveUp,
    /// The attempt failed: wait this many seconds, then try again.
    RetryAfter(u64),
}

/// The retry policy: how many retries, and the delay unit of the linear
/// backoff.
#[derive(Debug, Clone, Copy, PartialEq, Eq, Structural)]
pub struct RetryPolicy {
    pub max_retries: u32,
    pub base_delay_secs: u64,
}

impl RetryPolicy {
    /// Every delay the policy can ask for fits the clock's range.
    pub open spec fn wf(&self) -> bool {
        self.base_delay_secs * (self.max_retries + 1) <= u64::MAX
    }
}

/// The retry loop's state: how many failed attempts were retried so far.
#[derive(Debug, PartialEq, Eq, Structural)]
pub struct TorRetryState {
    retry_count: u32,
}

impl TorRetryState {
    pub closed spec fn retries(&self) -> u32 {
        self.retry_count
    }

    pub fn new() -> (r: Self)
        ensures
            r.retries() == 0,
    {
        Self { retry_count: 0 }
    }

    /// Decide after one attempt: a clean end stops the loop; a failure
    /// past the budget gives up; an earlier failure waits `base × attempt`
    /// seconds — linear backoff — and retries.
    pub fn on_service_result(&mut self, policy: RetryPolicy, succeeded: bool) -> (r: RetryAction)
        requires
            policy.wf(),
            old(self).retries() <= policy.max_retries,
        ensures
            final(self).retries() <= policy.max_retries,
            succeeded ==> r == RetryAction::Stop && *final(self) == *old(self),
            !succeeded && old(self).retries() >= policy.max_retries ==> r == RetryAction::GiveUp
                && *final(self) == *old(self),
            !succeeded && old(self).retries() < policy.max_retries ==> final(self).retries() == old(
                self,
            ).retries() + 1 && r == RetryAction::RetryAfter(
                (policy.base_delay_secs * (old(self).retries() + 1)) as u64,
            ),
    {
        if succeeded {
            return RetryAction::Stop;
        }
        if self.retry_count >= policy.max_retries {
            return RetryAction::GiveUp;
        }
        self.retry_count = self.retry_count + 1;
        proof {
            assert(policy.base_delay_secs * self.retry_count <= policy.base_delay_secs * (
            policy.max_retries + 1)) by (nonlinear_arith)
                requires
                    0 <= self.retry_count <= policy.max_retries + 1,
                    policy.base_delay_secs >= 0,
            ;
        }
        RetryAction::RetryAfter(policy.base_delay_secs * self.retry_count as u64)
    }
}

/// The single-use handoff of the hidden service's address: the first
/// publication is accepted, every later one is refused, so a re-bootstrap
/// after a transient retry never re-publishes.
#[derive(Debug)]
pub struct OnionAddressHandoff {
    sent: bool,
}

impl OnionAddressHandoff {
    pub closed spec fn spec_sent(&self) -> bool {
        self.sent
    }

    pub fn new() -> (r: Self)
        ensures
            !r.spec_sent(),
    {
        Self { sent: false }
    }

    /// Consume the handoff: accepted exactly once, on the first call.
    pub fn try_publish(&mut self) -> (r: bool)
        ensures
            r == !old(self).spec_sent(),
            final(self).spec_sent(),
    {
        let r = !self.sent;
        self.sent = true;
        r
    }
}

/// What becomes of one accepted hidden-service stream.
#[derive(Debug, PartialEq, Eq, Structural)]
pub enum StreamAction {
    /// Bridge the stream into the shared router.
    Bridge,
    /// Reject the circuit at once.
    RejectCircuit,
}

/// The expected logical port of the hidden service.
pub const HIDDEN_SERVICE_PORT: u16 = 80;

/// Filter an incoming stream request: only a connection-open request for
/// the expected logical port is bridged; anything else has its circuit
/// rejected immediately.
pub fn handle_stream_request(is_begin: bool, port: u16) -> (r: StreamAction)
    ensures
        r == (if is_begin && port == HIDDEN_SERVICE_PORT {
            StreamAction::Bridge
        } else {
            StreamAction::RejectCircuit
        }),
{
    if is_begin && port == HIDDEN_SERVICE_PORT {
        StreamAction::Bridge
    } else {
        StreamAction::RejectCircuit
    }
}

/// What an accept loop does next.
#[derive(Debug, PartialEq, Eq, Structural)]
pub enum AcceptAction {
    /// Stop accepting; connections already in flight finish on their own.
    ShutDown,
    /// Serve the inbound connection on its own task.
    Serve,
    /// Nothing to do yet: keep waiting.
    KeepWaiting,
}

/// One round of an accept loop's select, with shutdown prioritized: once
/// the signal is seen no new connection is accepted, even if one is ready.
pub fn select_accept(shutdown_signalled: bool, connection_ready: bool) -> (r: AcceptAction)
    ensures
        shutdown_signalled ==> r == AcceptAction::ShutDown,
        !shutdown_signalled && connection_ready ==> r == AcceptAction::Serve,
        !shutdown_signalled && !connection_ready ==> r == AcceptAction::KeepWaiting,
{
    if shutdown_signalled {
        AcceptAction::ShutDown
    } else if connection_ready {
        AcceptAction::Serve
    } else {
        AcceptAction::KeepWaiting
    }
}

} // verus!
