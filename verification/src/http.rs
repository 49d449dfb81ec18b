//! The states of a request to the game's HTTP API and how they change.
//!
//! The request itself is sent and polled by the caller; a state holds it
//! while it is under way and takes its outcome when it has come.

use quad_net::http_request::Request;
use vstd::prelude::*;

verus! {

/// A request of `quad_net`, sent and answered on another thread.
#[verifier::external_type_specification]
#[verifier::external_body]
pub struct ExRequest(quad_net::http_request::Request);

/// Where a request stands.
pub enum RequestState<T> {
    /// The request was not sent yet.
    Idle,
    /// The request was sent and its answer is awaited.
    Loading(Request),
    /// The request was answered with this value.
    Success(T),
    /// The request failed, for the given reason.
    Error(String),
}

impl<T> Default for RequestState<T> {
    fn default() -> (r: Self)
        ensures
            r is Idle,
    {
        RequestState::Idle
    }
}

impl<T> RequestState<T> {
    /// The request may be sent: it was not sent yet, or it failed.
    pub open spec fn may_start(&self) -> bool {
        self is Idle || self is Error
    }

    /// Whether the request may be sent.
    pub fn can_start(&self) -> (r: bool)
        ensures
            r == self.may_start(),
    {
        match self {
            RequestState::Idle | RequestState::Error(_) => true,
            _ => false,
        }
    }

    /// Records that the request was sent. Where it may not be sent, the
    /// state stays as it was.
    pub fn start(&mut self, request: Request)
        ensures
            old(self).may_start() ==> *final(self) == RequestState::<T>::Loading(request),
            !old(self).may_start() ==> *final(self) == *old(self),
    {
        if self.can_start() {
            *self = RequestState::Loading(request);
        }
    }

    /// Records the outcome of the awaited request: its value, or why it
    /// failed. Where no request is awaited, the state stays as it was.
    pub fn finish(&mut self, outcome: Result<T, String>)
        ensures
            *old(self) is Loading ==> match outcome {
                Ok(value) => *final(self) == RequestState::<T>::Success(value),
                Err(reason) => *final(self) == RequestState::<T>::Error(reason),
            },
            !(*old(self) is Loading) ==> *final(self) == *old(self),
    {
        if let RequestState::Loading(_) = self {
            *self = match outcome {
                Ok(value) => RequestState::Success(value),
                Err(reason) => RequestState::Error(reason),
            };
        }
    }

    /// Whether the request has been answered; if so, the state goes back
    /// to idle so that the request may be sent again.
    pub fn take_success(&mut self) -> (r: bool)
        ensures
            r == *old(self) is Success,
            r ==> *final(self) is Idle,
            !r ==> *final(self) == *old(self),
    {
        if let RequestState::Success(_) = self {
            *self = RequestState::Idle;
            true
        } else {
            false
        }
    }
}

} // verus!
