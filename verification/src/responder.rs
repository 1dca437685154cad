//! The mDNS responder session: one inbound datagram maps to at most one
//! outbound datagram, and a small state machine says how a session binds,
//! listens and terminates.
//!
//! The socket itself stays with the caller: it binds to the multicast
//! discovery endpoint, feeds every received datagram in as an event, and
//! performs the send the step asks for.

use vstd::prelude::*;

use crate::answers::{
    build_response, spec_host_wf, spec_response, spec_service_wf, HostRecord, ServiceDescriptor,
};
use crate::query::{parse_query, spec_parse_query};

verus! {

/// What one datagram earns: `None` when it does not parse as a query or
/// no question matches (it is dropped silently), otherwise the response
/// bytes and whether they are to be sent unicast to the querier.
pub open spec fn spec_handle_datagram(
    d: Seq<u8>,
    h: HostRecord,
    s: ServiceDescriptor,
) -> Option<(Seq<u8>, bool)> {
    match spec_parse_query(d) {
        None => None,
        Some(qm) => spec_response(qm, h, s),
    }
}

/// Answer one inbound datagram. A datagram that does not parse as a query
/// is dropped: no response and no error.
pub fn handle_datagram(datagram: &Vec<u8>, h: &HostRecord, s: &ServiceDescriptor) -> (r: Option<
    (Vec<u8>, bool),
>)
    requires
        spec_host_wf(*h),
        spec_service_wf(*s),
    ensures
        (match spec_handle_datagram(datagram@, *h, *s) {
            None => r is None,
            Some(p) => r is Some && r.unwrap().0@ == p.0 && r.unwrap().1 == p.1,
        }),
        spec_parse_query(datagram@) is None ==> r is None,
{
    match parse_query(datagram) {
        None => None,
        Some(q) => build_response(&q, h, s),
    }
}

/// Answering is stateless: the same datagram in the same session earns a
/// byte-identical answer, however often it arrives.
pub proof fn lemma_answers_idempotent(
    d1: Seq<u8>,
    d2: Seq<u8>,
    h: HostRecord,
    s: ServiceDescriptor,
)
    requires
        d1 == d2,
    ensures
        spec_handle_datagram(d1, h, s) == spec_handle_datagram(d2, h, s),
{
}

/// Where a responder session stands.
#[derive(Clone, Copy, Debug, PartialEq, Eq, Structural)]
pub enum SessionState {
    /// The socket is not bound yet.
    Binding,
    /// The socket is bound; datagrams are answered as they arrive.
    Listening,
    /// The session is over: the bind failed or the socket failed. The
    /// caller may start a new session.
    Terminated,
}

/// What the socket reported.
#[derive(Clone, Debug, PartialEq, Eq)]
pub enum SessionEvent {
    BindSucceeded,
    BindFailed,
    DatagramReceived(Vec<u8>),
    SocketFailed,
}

/// The state a session moves to on an event. A bind failure and a socket
/// failure terminate the session; an event that does not belong to the
/// state leaves it unchanged.
pub open spec fn spec_session_next(st: SessionState, ev: SessionEvent) -> SessionState {
    match (st, ev) {
        (SessionState::Binding, SessionEvent::BindSucceeded) => SessionState::Listening,
        (SessionState::Binding, SessionEvent::BindFailed) => SessionState::Terminated,
        (SessionState::Listening, SessionEvent::SocketFailed) => SessionState::Terminated,
        (SessionState::Listening, _) => SessionState::Listening,
        (SessionState::Terminated, _) => SessionState::Terminated,
        (SessionState::Binding, _) => SessionState::Binding,
    }
}

/// The datagram a session sends on an event: only a datagram received
/// while listening can earn one.
pub open spec fn spec_session_output(
    st: SessionState,
    ev: SessionEvent,
    h: HostRecord,
    s: ServiceDescriptor,
) -> Option<(Seq<u8>, bool)> {
    match (st, ev) {
        (SessionState::Listening, SessionEvent::DatagramReceived(d)) => spec_handle_datagram(
            d@,
            h,
            s,
        ),
        _ => None,
    }
}

/// Drive the session one step: the next state, and the response to send,
/// if any.
pub fn session_step(
    st: SessionState,
    ev: &SessionEvent,
    h: &HostRecord,
    s: &ServiceDescriptor,
) -> (r: (SessionState, Option<(Vec<u8>, bool)>))
    requires
        spec_host_wf(*h),
        spec_service_wf(*s),
    ensures
        r.0 == spec_session_next(st, *ev),
        (match spec_session_output(st, *ev, *h, *s) {
            None => r.1 is None,
            Some(p) => r.1 is Some && r.1.unwrap().0@ == p.0 && r.1.unwrap().1 == p.1,
        }),
{
    match st {
        SessionState::Binding => {
            match ev {
                SessionEvent::BindSucceeded => (SessionState::Listening, None),
                SessionEvent::BindFailed => (SessionState::Terminated, None),
                _ => (SessionState::Binding, None),
            }
        },
        SessionState::Listening => {
            match ev {
                SessionEvent::DatagramReceived(d) => (
                    SessionState::Listening,
                    handle_datagram(d, h, s),
                ),
                SessionEvent::SocketFailed => (SessionState::Terminated, None),
                _ => (SessionState::Listening, None),
            }
        },
        SessionState::Terminated => (SessionState::Terminated, None),
    }
}

} // verus!
