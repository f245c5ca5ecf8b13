//! The rendezvous acceptor: pairs one downlink connection with one
//! subsequent uplink connection to form a session, runs sessions strictly
//! one after another, and stops when the control plane signals shutdown.
//!
//! The acceptor is a state machine. The surrounding loop polls the
//! endpoints and the shutdown flag, feeds each observation in as an event,
//! and performs the action the step function returns. The shutdown signal
//! is observed only between sessions, while polling for a downlink.

use vstd::prelude::*;

verus! {

/// Where the acceptor stands.
#[derive(Clone, Copy, Debug, PartialEq, Eq, Structural)]
pub enum AcceptorState {
    /// Polling the downlink listener, shutdown not yet seen.
    Polling,
    /// A downlink connection is accepted and held; polling the uplink
    /// listener for its partner.
    Pairing,
    /// A paired session is running; the acceptor is blocked until the
    /// session handler returns.
    InSession,
    /// Shutdown was signalled; no further session is formed.
    Stopped,
}

/// What the surrounding loop observed.
#[derive(Clone, Copy, Debug, PartialEq, Eq, Structural)]
pub enum AcceptorEvent {
    /// The shutdown signal is set.
    Shutdown,
    /// The downlink listener accepted a connection.
    DownlinkReady,
    /// The downlink listener had no pending connection.
    DownlinkBlocked,
    /// The downlink listener failed with a real error.
    DownlinkFailed,
    /// The uplink listener accepted a connection.
    UplinkReady,
    /// The uplink listener had no pending connection.
    UplinkBlocked,
    /// The uplink listener failed with a real error.
    UplinkFailed,
    /// The running session handler returned.
    SessionDone,
}

/// What the surrounding loop is to do next.
#[derive(Clone, Copy, Debug, PartialEq, Eq, Structural)]
pub enum AcceptorAction {
    /// Keep polling.
    Idle,
    /// Invoke the session handler on the held pair, synchronously.
    StartSession,
    /// Drop the held downlink connection; the pairing attempt is abandoned.
    DropPending,
    /// Exit the accept loop.
    Stop,
}

/// One step of the acceptor: the next state and the action to perform.
/// Events that cannot arise in a state leave it unchanged.
pub open spec fn spec_acceptor_step(s: AcceptorState, e: AcceptorEvent) -> (
    AcceptorState,
    AcceptorAction,
) {
    match s {
        AcceptorState::Polling => match e {
            AcceptorEvent::Shutdown => (AcceptorState::Stopped, AcceptorAction::Stop),
            AcceptorEvent::DownlinkReady => (AcceptorState::Pairing, AcceptorAction::Idle),
            _ => (AcceptorState::Polling, AcceptorAction::Idle),
        },
        AcceptorState::Pairing => match e {
            AcceptorEvent::UplinkReady => (AcceptorState::InSession, AcceptorAction::StartSession),
            AcceptorEvent::UplinkFailed => (AcceptorState::Polling, AcceptorAction::DropPending),
            _ => (AcceptorState::Pairing, AcceptorAction::Idle),
        },
        AcceptorState::InSession => match e {
            AcceptorEvent::SessionDone => (AcceptorState::Polling, AcceptorAction::Idle),
            _ => (AcceptorState::InSession, AcceptorAction::Idle),
        },
        AcceptorState::Stopped => (AcceptorState::Stopped, AcceptorAction::Idle),
    }
}

/// The executable step, exactly `spec_acceptor_step`.
pub fn acceptor_step(s: AcceptorState, e: AcceptorEvent) -> (r: (AcceptorState, AcceptorAction))
    ensures
        r == spec_acceptor_step(s, e),
{
    match s {
        AcceptorState::Polling => match e {
            AcceptorEvent::Shutdown => (AcceptorState::Stopped, AcceptorAction::Stop),
            AcceptorEvent::DownlinkReady => (AcceptorState::Pairing, AcceptorAction::Idle),
            _ => (AcceptorState::Polling, AcceptorAction::Idle),
        },
        AcceptorState::Pairing => match e {
            AcceptorEvent::UplinkReady => (AcceptorState::InSession, AcceptorAction::StartSession),
            AcceptorEvent::UplinkFailed => (AcceptorState::Polling, AcceptorAction::DropPending),
            _ => (AcceptorState::Pairing, AcceptorAction::Idle),
        },
        AcceptorState::InSession => match e {
            AcceptorEvent::SessionDone => (AcceptorState::Polling, AcceptorAction::Idle),
            _ => (AcceptorState::InSession, AcceptorAction::Idle),
        },
        AcceptorState::Stopped => (AcceptorState::Stopped, AcceptorAction::Idle),
    }
}

/// The state the acceptor reaches from `Polling` after the events in `es`.
pub open spec fn state_after(es: Seq<AcceptorEvent>) -> AcceptorState
    decreases es.len(),
{
    if es.len() == 0 {
        AcceptorState::Polling
    } else {
        spec_acceptor_step(state_after(es.drop_last()), es.last()).0
    }
}

/// The state just before event `i` of the trace `es` is processed.
pub open spec fn state_at(es: Seq<AcceptorEvent>, i: int) -> AcceptorState {
    state_after(es.take(i))
}

/// The action the acceptor performs on event `i` of the trace `es`.
pub open spec fn action_at(es: Seq<AcceptorEvent>, i: int) -> AcceptorAction {
    spec_acceptor_step(state_at(es, i), es[i]).1
}

/// The step relation between consecutive points of a trace.
pub proof fn lemma_state_at_step(es: Seq<AcceptorEvent>, i: int)
    requires
        0 <= i < es.len(),
    ensures
        state_at(es, i + 1) == spec_acceptor_step(state_at(es, i), es[i]).0,
{
    assert(es.take(i + 1).drop_last() =~= es.take(i));
    assert(es.take(i + 1).last() == es[i]);
}

/// Whenever the acceptor stands in `Pairing`, a downlink connection was
/// accepted at some earlier point, while polling.
pub proof fn lemma_pairing_precedes(es: Seq<AcceptorEvent>, i: int)
    requires
        0 <= i <= es.len(),
        state_at(es, i) is Pairing,
    ensures
        exists|j: int|
            0 <= j < i && es[j] is DownlinkReady && state_at(es, j) is Polling,
    decreases i,
{
    if i == 0 {
        assert(es.take(0) =~= Seq::<AcceptorEvent>::empty());
        assert(state_at(es, 0) is Polling);
    } else {
        lemma_state_at_step(es, i - 1);
        let prev = state_at(es, i - 1);
        if prev is Polling {
            assert(es[i - 1] is DownlinkReady);
        } else {
            assert(prev is Pairing);
            lemma_pairing_precedes(es, i - 1);
            let j = choose|j: int|
                0 <= j < i - 1 && es[j] is DownlinkReady && state_at(es, j) is Polling;
            assert(0 <= j < i && es[j] is DownlinkReady && state_at(es, j) is Polling);
        }
    }
}

/// Pairing order: a session starts only on an uplink connection accepted
/// while a downlink connection is already held, and some earlier event
/// accepted that downlink connection. A lone downlink connection, with no
/// uplink following, never starts a session.
pub proof fn lemma_pairing_order(es: Seq<AcceptorEvent>, i: int)
    requires
        0 <= i < es.len(),
        action_at(es, i) is StartSession,
    ensures
        es[i] is UplinkReady,
        state_at(es, i) is Pairing,
        exists|j: int|
            0 <= j < i && es[j] is DownlinkReady && state_at(es, j) is Polling,
{
    lemma_pairing_precedes(es, i);
}

/// While a session runs and the handler has not returned, the acceptor
/// stays in `InSession`.
pub proof fn lemma_in_session_until(es: Seq<AcceptorEvent>, k: int, l: int)
    requires
        0 <= k <= l <= es.len(),
        state_at(es, k) is InSession,
        forall|m: int| k <= m < l ==> !(es[m] is SessionDone),
    ensures
        state_at(es, l) is InSession,
    decreases l - k,
{
    if l > k {
        lemma_state_at_step(es, k);
        assert(!(es[k] is SessionDone));
        assert(state_at(es, k + 1) is InSession);
        lemma_in_session_until(es, k + 1, l);
    }
}

/// Sessions are sequential: between any two session starts the first
/// session's handler has returned. No two sessions overlap.
pub proof fn lemma_sessions_sequential(es: Seq<AcceptorEvent>, i: int, j: int)
    requires
        0 <= i < j < es.len(),
        action_at(es, i) is StartSession,
        action_at(es, j) is StartSession,
    ensures
        exists|k: int| i < k < j && es[k] is SessionDone,
{
    lemma_state_at_step(es, i);
    assert(state_at(es, i + 1) is InSession);
    lemma_pairing_order(es, j);
    if forall|k: int| i < k < j ==> !(es[k] is SessionDone) {
        lemma_in_session_until(es, i + 1, j);
        assert(state_at(es, j) is InSession);
        assert(false);
    }
}

/// Once stopped, the acceptor stays stopped.
pub proof fn lemma_stopped_stays(es: Seq<AcceptorEvent>, k: int, l: int)
    requires
        0 <= k <= l <= es.len(),
        state_at(es, k) is Stopped,
    ensures
        state_at(es, l) is Stopped,
    decreases l - k,
{
    if l > k {
        lemma_state_at_step(es, k);
        lemma_stopped_stays(es, k + 1, l);
    }
}

/// After shutdown takes effect no session is ever started again.
pub proof fn lemma_no_sessions_after_stop(es: Seq<AcceptorEvent>, k: int, l: int)
    requires
        0 <= k <= l < es.len(),
        state_at(es, k) is Stopped,
    ensures
        !(action_at(es, l) is StartSession),
{
    lemma_stopped_stays(es, k, l);
}

} // verus!
