//! The next-work poller: fetch the next unit of work from the control
//! endpoint, check it, and either hand it to the application or report it and
//! fetch again. The fetching, sleeping and sending are done by the caller;
//! this state machine decides what comes next.
use crate::error::{Fatal, HeaderField};
use crate::sandbox::OutboundRequest;
use vstd::prelude::*;

verus! {

/// Fixed delay before fetching again after a transport failure.
pub const RETRY_DELAY_MS: u64 = 100;

#[derive(PartialEq, Eq, Structural, Clone, Copy, Debug)]
pub enum PollState {
    /// A fetch of next work is due or under way.
    WaitNext,
    /// A unit of work came in and awaits the validation's decision.
    Validate,
    /// The cycle has ended: the work was delivered, or a fatal error came.
    Done,
}

/// How a fetch of next work ended.
#[derive(PartialEq, Eq, Clone, Debug)]
pub enum FetchOutcome {
    /// The control endpoint could not be reached or did not answer.
    TransportFailure,
    /// A response came; this is its request-id header.
    Response(HeaderField),
}

/// What the validation step makes of a unit of work.
#[derive(PartialEq, Eq, Clone, Debug)]
pub enum Verdict<R, Q> {
    /// Hand this response to the application.
    Accept(R),
    /// Send this corrective request instead and fetch again.
    Reject(Q),
}

/// What the caller does next.
#[derive(PartialEq, Eq, Clone, Debug)]
pub enum PollAction {
    /// Wait this long, then fetch next work again.
    Retry { delay_ms: u64 },
    /// Validate the unit of work with this request id.
    Validate(String),
    /// End the process.
    Abort(Fatal),
}

/// What the caller does once the validation has decided.
#[derive(PartialEq, Eq, Clone, Debug)]
pub enum Resolution<R, Q> {
    /// Return this response to the application; the cycle ends.
    Deliver(R),
    /// Send this corrective request, ignore how it goes, and fetch again.
    SendCorrective(Q),
}

/// One cycle of the poller, from the first fetch to the delivered response.
pub struct Poller {
    state: PollState,
}

/// The default validation: every unit of work is accepted with its response
/// as it came. A deployment that checks its work puts its own function of the
/// request id and the response in this place.
pub fn validate_and_mangle_next_event<R>(_request_id: &str, response: R) -> (v: Verdict<
    R,
    OutboundRequest,
>)
    ensures
        v == Verdict::<R, OutboundRequest>::Accept(response),
{
    Verdict::Accept(response)
}

impl Poller {
    pub closed spec fn state(&self) -> PollState {
        self.state
    }

    pub fn new() -> (r: Self)
        ensures
            r.state() == PollState::WaitNext,
    {
        Poller { state: PollState::WaitNext }
    }

    pub fn state_now(&self) -> (r: PollState)
        ensures
            r == self.state(),
    {
        self.state
    }

    /// Takes in how a fetch of next work went. A transport failure means a
    /// retry after the fixed delay, never a reply to the caller; a response
    /// without a readable request id is fatal; otherwise the work goes to
    /// validation with its request id.
    pub fn on_fetched(&mut self, outcome: FetchOutcome) -> (a: PollAction)
        requires
            old(self).state() == PollState::WaitNext,
        ensures
            match outcome {
                FetchOutcome::TransportFailure => {
                    &&& a == PollAction::Retry { delay_ms: RETRY_DELAY_MS }
                    &&& final(self).state() == PollState::WaitNext
                },
                FetchOutcome::Response(HeaderField::Missing) => {
                    &&& a == PollAction::Abort(Fatal::MissingRequestId)
                    &&& final(self).state() == PollState::Done
                },
                FetchOutcome::Response(HeaderField::Invalid) => {
                    &&& a == PollAction::Abort(Fatal::InvalidRequestId)
                    &&& final(self).state() == PollState::Done
                },
                FetchOutcome::Response(HeaderField::Present(id)) => {
                    &&& a == PollAction::Validate(id)
                    &&& final(self).state() == PollState::Validate
                },
            },
    {
        match outcome {
            FetchOutcome::TransportFailure => PollAction::Retry { delay_ms: RETRY_DELAY_MS },
            FetchOutcome::Response(HeaderField::Missing) => {
                self.state = PollState::Done;
                PollAction::Abort(Fatal::MissingRequestId)
            },
            FetchOutcome::Response(HeaderField::Invalid) => {
                self.state = PollState::Done;
                PollAction::Abort(Fatal::InvalidRequestId)
            },
            FetchOutcome::Response(HeaderField::Present(id)) => {
                self.state = PollState::Validate;
                PollAction::Validate(id)
            },
        }
    }

    /// Takes in what the validation decided: an accepted unit of work is
    /// delivered with the response the validation gave and ends the cycle; a
    /// rejected one is answered with the corrective request the validation
    /// gave and never reaches the application.
    pub fn on_verdict<R, Q>(&mut self, verdict: Verdict<R, Q>) -> (a: Resolution<R, Q>)
        requires
            old(self).state() == PollState::Validate,
        ensures
            match verdict {
                Verdict::Accept(resp) => {
                    &&& a == Resolution::<R, Q>::Deliver(resp)
                    &&& final(self).state() == PollState::Done
                },
                Verdict::Reject(req) => {
                    &&& a == Resolution::<R, Q>::SendCorrective(req)
                    &&& final(self).state() == PollState::WaitNext
                },
            },
    {
        match verdict {
            Verdict::Accept(resp) => {
                self.state = PollState::Done;
                Resolution::Deliver(resp)
            },
            Verdict::Reject(req) => {
                self.state = PollState::WaitNext;
                Resolution::SendCorrective(req)
            },
        }
    }
}

} // verus!
