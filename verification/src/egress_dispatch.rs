//! How one outgoing HTTP request of a sandboxed guest is dispatched under the
//! embedder's egress policy: authorize, send, and, when the policy observes
//! responses, honor at most one retry of a replayable request.
//!
//! The transport and the policy calls happen outside; this module decides,
//! from the dispatch's state and what just happened, what happens next.
use vstd::prelude::*;
use crate::sandbox::{should_retry, ResponseDirective};

verus! {

/// Where a dispatch stands.
#[derive(Debug, Clone, Copy, PartialEq, Eq)]
pub enum DispatchState {
    /// Waiting for the policy to authorize (and decorate) the request; on a
    /// retry this is a clean copy of the request as the guest sent it.
    Authorizing { observes: bool, retried: bool },
    /// The request is on the wire; waiting for its response.
    Awaiting { observes: bool, retried: bool },
    /// Nothing more happens.
    Finished,
}

/// What happened since the last step.
#[derive(Debug, Clone, Copy, PartialEq, Eq)]
pub enum DispatchEvent {
    /// The policy authorized the request.
    Authorized,
    /// The policy refused the request.
    Denied,
    /// A response head arrived; `directive` is what an observing policy made
    /// of it (ignored otherwise) and `replayable` whether the request body
    /// was captured whole for a replay.
    Responded { directive: ResponseDirective, replayable: bool },
    /// The transport failed before any response.
    TransportFailed,
}

/// What to do next.
#[derive(Debug, Clone, Copy, PartialEq, Eq)]
pub enum DispatchAction {
    /// Send the authorized request.
    Dispatch,
    /// Fail the guest's request as denied.
    RefuseRequest,
    /// Hand the response to the guest.
    Forward,
    /// Discard the response and re-authorize a clean copy of the request,
    /// to be sent again with the captured body.
    Retry,
    /// Hand the transport error to the guest.
    FailTransport,
}

/// The state a dispatch starts in, and the action it starts with: without a
/// policy every request is refused; otherwise the request awaits
/// authorization.
pub open spec fn begin_spec(has_policy: bool, observes: bool) -> (DispatchState, Option<DispatchAction>) {
    if !has_policy {
        (DispatchState::Finished, Some(DispatchAction::RefuseRequest))
    } else {
        (DispatchState::Authorizing { observes, retried: false }, None)
    }
}

/// Whether `e` can happen in state `s`.
pub open spec fn valid_event(s: DispatchState, e: DispatchEvent) -> bool {
    match s {
        DispatchState::Authorizing { .. } => e is Authorized || e is Denied,
        DispatchState::Awaiting { .. } => e is Responded || e is TransportFailed,
        DispatchState::Finished => false,
    }
}

/// One step of a dispatch.
pub open spec fn step_spec(s: DispatchState, e: DispatchEvent) -> (DispatchState, DispatchAction) {
    match s {
        DispatchState::Authorizing { observes, retried } => match e {
            DispatchEvent::Authorized => (
                DispatchState::Awaiting { observes, retried },
                DispatchAction::Dispatch,
            ),
            _ => (DispatchState::Finished, DispatchAction::RefuseRequest),
        },
        DispatchState::Awaiting { observes, retried } => match e {
            DispatchEvent::Responded { directive, replayable } => {
                if observes && !retried && should_retry_spec(directive, replayable) {
                    (DispatchState::Authorizing { observes, retried: true }, DispatchAction::Retry)
                } else {
                    (DispatchState::Finished, DispatchAction::Forward)
                }
            },
            _ => (DispatchState::Finished, DispatchAction::FailTransport),
        },
        DispatchState::Finished => (DispatchState::Finished, DispatchAction::Forward),
    }
}

/// A policy's directive leads to a retry only as `RetryOnce` on a replayable
/// request.
pub open spec fn should_retry_spec(directive: ResponseDirective, replayable: bool) -> bool {
    directive == ResponseDirective::RetryOnce && replayable
}

/// Starts a dispatch (see [`begin_spec`]).
pub fn begin(has_policy: bool, observes: bool) -> (r: (DispatchState, Option<DispatchAction>))
    ensures
        r == begin_spec(has_policy, observes),
{
    if !has_policy {
        (DispatchState::Finished, Some(DispatchAction::RefuseRequest))
    } else {
        (DispatchState::Authorizing { observes, retried: false }, None)
    }
}

/// Advances a dispatch by one event (see [`step_spec`]): an authorized
/// request is sent and a refused one fails; a response is forwarded unless
/// an observing policy asks to retry a replayable request that has not been
/// retried yet; a transport error reaches the guest.
pub fn step(s: DispatchState, e: DispatchEvent) -> (r: (DispatchState, DispatchAction))
    requires
        valid_event(s, e),
    ensures
        r == step_spec(s, e),
{
    match s {
        DispatchState::Authorizing { observes, retried } => match e {
            DispatchEvent::Authorized => (
                DispatchState::Awaiting { observes, retried },
                DispatchAction::Dispatch,
            ),
            _ => (DispatchState::Finished, DispatchAction::RefuseRequest),
        },
        DispatchState::Awaiting { observes, retried } => match e {
            DispatchEvent::Responded { directive, replayable } => {
                if observes && !retried && should_retry(directive, replayable) {
                    (DispatchState::Authorizing { observes, retried: true }, DispatchAction::Retry)
                } else {
                    (DispatchState::Finished, DispatchAction::Forward)
                }
            },
            _ => (DispatchState::Finished, DispatchAction::FailTransport),
        },
        DispatchState::Finished => (DispatchState::Finished, DispatchAction::Forward),
    }
}

/// What an observing policy is told about a response in state `s`: whether a
/// retry is still available (never on the retried dispatch).
pub fn retry_available(s: DispatchState, replayable: bool) -> (r: bool)
    ensures
        r == match s {
            DispatchState::Awaiting { retried, .. } => !retried && replayable,
            _ => false,
        },
{
    match s {
        DispatchState::Awaiting { retried, .. } => !retried && replayable,
        _ => false,
    }
}

/// The actions of a run of events from state `s`, up to the first event the
/// state cannot take.
pub open spec fn run_actions(s: DispatchState, events: Seq<DispatchEvent>) -> Seq<DispatchAction>
    decreases events.len(),
{
    if events.len() == 0 || !valid_event(s, events[0]) {
        Seq::empty()
    } else {
        let (next, a) = step_spec(s, events[0]);
        seq![a] + run_actions(next, events.drop_first())
    }
}

/// How often `a` occurs in `actions`.
pub open spec fn occurrences(actions: Seq<DispatchAction>, a: DispatchAction) -> nat
    decreases actions.len(),
{
    if actions.len() == 0 {
        0
    } else {
        (if actions[0] == a {
            1nat
        } else {
            0nat
        }) + occurrences(actions.drop_first(), a)
    }
}

/// The retries still possible from a state.
pub open spec fn retries_left(s: DispatchState) -> nat {
    match s {
        DispatchState::Authorizing { observes, retried } => if observes && !retried {
            1
        } else {
            0
        },
        DispatchState::Awaiting { observes, retried } => if observes && !retried {
            1
        } else {
            0
        },
        DispatchState::Finished => 0,
    }
}

/// The dispatches still possible from a state.
pub open spec fn dispatches_left(s: DispatchState) -> nat {
    match s {
        DispatchState::Authorizing { .. } => 1 + retries_left(s),
        DispatchState::Awaiting { .. } => retries_left(s),
        DispatchState::Finished => 0,
    }
}

proof fn lemma_run_bounds(s: DispatchState, events: Seq<DispatchEvent>)
    ensures
        occurrences(run_actions(s, events), DispatchAction::Retry) <= retries_left(s),
        occurrences(run_actions(s, events), DispatchAction::Dispatch) <= dispatches_left(s),
    decreases events.len(),
{
    if events.len() > 0 && valid_event(s, events[0]) {
        let (next, a) = step_spec(s, events[0]);
        lemma_run_bounds(next, events.drop_first());
        let acts = seq![a] + run_actions(next, events.drop_first());
        assert(acts.drop_first() =~= run_actions(next, events.drop_first()));
    }
}

/// A request is retried at most once and sent at most twice, whatever the
/// policy answers; a policy that does not observe responses never causes a
/// retry, and neither does one that refuses or a missing policy.
pub proof fn lemma_retry_is_bounded_to_one(has_policy: bool, observes: bool, events: Seq<DispatchEvent>)
    ensures
        occurrences(run_actions(begin_spec(has_policy, observes).0, events), DispatchAction::Retry)
            <= 1,
        occurrences(run_actions(begin_spec(has_policy, observes).0, events), DispatchAction::Dispatch)
            <= 2,
        !observes ==> occurrences(
            run_actions(begin_spec(has_policy, observes).0, events),
            DispatchAction::Retry,
        ) == 0,
        !has_policy ==> run_actions(begin_spec(has_policy, observes).0, events).len() == 0,
{
    lemma_run_bounds(begin_spec(has_policy, observes).0, events);
}

/// A retry happens only when an observing policy answered `RetryOnce` for a
/// replayable request that had not been retried, and once it has happened
/// the next response is forwarded whatever the policy answers.
pub proof fn lemma_retry_needs_replayable_body(s: DispatchState, e: DispatchEvent)
    requires
        valid_event(s, e),
    ensures
        step_spec(s, e).1 == DispatchAction::Retry ==> (s matches DispatchState::Awaiting {
            observes: true,
            retried: false,
        } && e == (DispatchEvent::Responded {
            directive: ResponseDirective::RetryOnce,
            replayable: true,
        })),
        (s matches DispatchState::Awaiting { retried: true, .. }) && e is Responded ==> step_spec(
            s,
            e,
        ) == (DispatchState::Finished, DispatchAction::Forward),
{
}

/// A response always reaches the guest unless it is retried: for every
/// dispatch awaiting its response, a response is forwarded (and the dispatch
/// ends) or, exactly when an observing policy asks `RetryOnce` for a
/// replayable request not yet retried, retried. A transport failure is
/// reported only for a transport failure.
pub proof fn lemma_responses_reach_the_guest(
    observes: bool,
    retried: bool,
    directive: ResponseDirective,
    replayable: bool,
)
    ensures
        ({
            let (next, a) = step_spec(
                DispatchState::Awaiting { observes, retried },
                DispatchEvent::Responded { directive, replayable },
            );
            &&& a == DispatchAction::Forward || a == DispatchAction::Retry
            &&& a == DispatchAction::Forward ==> next == DispatchState::Finished
            &&& (a == DispatchAction::Retry) == (observes && !retried && directive
                == ResponseDirective::RetryOnce && replayable)
        }),
        step_spec(
            DispatchState::Awaiting { observes, retried },
            DispatchEvent::TransportFailed,
        ).1 == DispatchAction::FailTransport,
{
}

/// Only a transport failure is answered with a transport error.
pub proof fn lemma_transport_errors_come_from_the_transport(s: DispatchState, e: DispatchEvent)
    requires
        valid_event(s, e),
    ensures
        step_spec(s, e).1 == DispatchAction::FailTransport ==> e == DispatchEvent::TransportFailed,
{
}

} // verus!
