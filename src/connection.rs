//! The life of one proxied connection, as decisions from state and event to
//! next state and action. Whoever runs the connection performs the actions
//! and reports what happened as events.
use vstd::prelude::*;

verus! {

#[derive(Clone, Copy, Debug, PartialEq, Eq, Structural)]
pub enum Phase {
    Accepted,
    Identifying,
    Routed,
    Forwarding,
    Completed,
    Failed,
}

/// Why a connection failed, as told to the client.
#[derive(Clone, Copy, Debug, PartialEq, Eq, Structural)]
pub enum Failure {
    MalformedRequest,
    StoreUnavailable,
    /// No URL and key can be resolved for the session.
    LocalConfig,
    UpstreamUnreachable,
    UpstreamTls,
}

#[derive(Clone, Copy, Debug, PartialEq, Eq, Structural)]
pub enum ConnEvent {
    RequestParsed,
    RequestMalformed,
    /// A session id was derived and the session is known to the manager.
    Identified,
    /// No session id can be derived from the request.
    Unidentified,
    StoreUnavailable,
    RouteFound,
    RouteMissing,
    UpstreamUnreachable,
    UpstreamTls,
    ResponseStarted,
    ResponseFinished,
    ClientGone,
}

#[derive(Clone, Copy, Debug, PartialEq, Eq, Structural)]
pub enum ConnAction {
    /// Derive the session id and look the session up.
    Identify,
    ResolveRoute,
    /// Forward with the session's URL and key in place of those the request came with.
    ForwardRewritten,
    /// Forward as received, recording nothing.
    ForwardUnmodified,
    /// Answer the client with an error and close.
    Respond(Failure),
    StreamResponse,
    Close,
    /// Nothing to do for this event.
    Wait,
}

#[derive(Clone, Copy, Debug, PartialEq, Eq, Structural)]
pub struct ConnState {
    pub phase: Phase,
    pub identified: bool,
    /// Whether the session's activity was already handed over for recording.
    pub recorded: bool,
}

#[derive(Clone, Copy, Debug, PartialEq, Eq, Structural)]
pub struct ConnStep {
    pub next: ConnState,
    pub action: ConnAction,
    /// Hand the session's activity (one request, seen now) over for recording.
    pub record_activity: bool,
}

/// The state of a connection just accepted.
pub open spec fn start() -> ConnState {
    ConnState { phase: Phase::Accepted, identified: false, recorded: false }
}

/// Whether activity is still owed: the session was identified and nothing
/// was recorded yet.
pub open spec fn owed(s: ConnState) -> bool {
    s.identified && !s.recorded
}

pub open spec fn goto(s: ConnState, phase: Phase, action: ConnAction, record: bool) -> ConnStep {
    ConnStep {
        next: ConnState { phase, identified: s.identified, recorded: s.recorded || record },
        action,
        record_activity: record,
    }
}

/// The decision on event `e` in state `s`. Activity is recorded once the
/// response starts streaming, or on a failure after identification; an event
/// that does not fit the phase changes nothing.
pub open spec fn next_step(s: ConnState, e: ConnEvent) -> ConnStep {
    match (s.phase, e) {
        (Phase::Accepted, ConnEvent::RequestParsed) => goto(s, Phase::Identifying, ConnAction::Identify, false),
        (Phase::Accepted, ConnEvent::RequestMalformed) => goto(
            s,
            Phase::Failed,
            ConnAction::Respond(Failure::MalformedRequest),
            false,
        ),
        (Phase::Identifying, ConnEvent::Identified) => if s.identified {
            goto(s, s.phase, ConnAction::Wait, false)
        } else {
            ConnStep {
                next: ConnState { phase: Phase::Identifying, identified: true, recorded: s.recorded },
                action: ConnAction::ResolveRoute,
                record_activity: false,
            }
        },
        (Phase::Identifying, ConnEvent::Unidentified) => if s.identified {
            goto(s, s.phase, ConnAction::Wait, false)
        } else {
            goto(s, Phase::Routed, ConnAction::ForwardUnmodified, false)
        },
        (Phase::Identifying, ConnEvent::StoreUnavailable) => goto(
            s,
            Phase::Failed,
            ConnAction::Respond(Failure::StoreUnavailable),
            false,
        ),
        (Phase::Identifying, ConnEvent::RouteFound) => if s.identified {
            goto(s, Phase::Routed, ConnAction::ForwardRewritten, false)
        } else {
            goto(s, s.phase, ConnAction::Wait, false)
        },
        (Phase::Identifying, ConnEvent::RouteMissing) => if s.identified {
            goto(s, Phase::Failed, ConnAction::Respond(Failure::LocalConfig), owed(s))
        } else {
            goto(s, s.phase, ConnAction::Wait, false)
        },
        (Phase::Routed, ConnEvent::ResponseStarted) => goto(
            s,
            Phase::Forwarding,
            ConnAction::StreamResponse,
            owed(s),
        ),
        (Phase::Routed, ConnEvent::UpstreamUnreachable) => goto(
            s,
            Phase::Failed,
            ConnAction::Respond(Failure::UpstreamUnreachable),
            owed(s),
        ),
        (Phase::Routed, ConnEvent::UpstreamTls) => goto(
            s,
            Phase::Failed,
            ConnAction::Respond(Failure::UpstreamTls),
            owed(s),
        ),
        (Phase::Forwarding, ConnEvent::ResponseFinished) => goto(s, Phase::Completed, ConnAction::Close, false),
        (Phase::Forwarding, ConnEvent::UpstreamUnreachable) => goto(s, Phase::Failed, ConnAction::Close, false),
        (Phase::Forwarding, ConnEvent::UpstreamTls) => goto(s, Phase::Failed, ConnAction::Close, false),
        (Phase::Completed, _) => goto(s, s.phase, ConnAction::Wait, false),
        (Phase::Failed, _) => goto(s, s.phase, ConnAction::Wait, false),
        (_, ConnEvent::ClientGone) => goto(s, Phase::Failed, ConnAction::Close, owed(s)),
        _ => goto(s, s.phase, ConnAction::Wait, false),
    }
}

/// The state of a connection just accepted.
pub fn accepted() -> (r: ConnState)
    ensures
        r == start(),
{
    ConnState { phase: Phase::Accepted, identified: false, recorded: false }
}

fn go(s: ConnState, phase: Phase, action: ConnAction, record: bool) -> (r: ConnStep)
    ensures
        r == goto(s, phase, action, record),
{
    ConnStep {
        next: ConnState { phase, identified: s.identified, recorded: s.recorded || record },
        action,
        record_activity: record,
    }
}

/// Decides what to do on event `e` in state `s`; see [`next_step`].
pub fn step(s: ConnState, e: ConnEvent) -> (r: ConnStep)
    ensures
        r == next_step(s, e),
{
    let owes = s.identified && !s.recorded;
    match (s.phase, e) {
        (Phase::Accepted, ConnEvent::RequestParsed) => go(s, Phase::Identifying, ConnAction::Identify, false),
        (Phase::Accepted, ConnEvent::RequestMalformed) => go(
            s,
            Phase::Failed,
            ConnAction::Respond(Failure::MalformedRequest),
            false,
        ),
        (Phase::Identifying, ConnEvent::Identified) => if s.identified {
            go(s, s.phase, ConnAction::Wait, false)
        } else {
            ConnStep {
                next: ConnState { phase: Phase::Identifying, identified: true, recorded: s.recorded },
                action: ConnAction::ResolveRoute,
                record_activity: false,
            }
        },
        (Phase::Identifying, ConnEvent::Unidentified) => if s.identified {
            go(s, s.phase, ConnAction::Wait, false)
        } else {
            go(s, Phase::Routed, ConnAction::ForwardUnmodified, false)
        },
        (Phase::Identifying, ConnEvent::StoreUnavailable) => go(
            s,
            Phase::Failed,
            ConnAction::Respond(Failure::StoreUnavailable),
            false,
        ),
        (Phase::Identifying, ConnEvent::RouteFound) => if s.identified {
            go(s, Phase::Routed, ConnAction::ForwardRewritten, false)
        } else {
            go(s, s.phase, ConnAction::Wait, false)
        },
        (Phase::Identifying, ConnEvent::RouteMissing) => if s.identified {
            go(s, Phase::Failed, ConnAction::Respond(Failure::LocalConfig), owes)
        } else {
            go(s, s.phase, ConnAction::Wait, false)
        },
        (Phase::Routed, ConnEvent::ResponseStarted) => go(s, Phase::Forwarding, ConnAction::StreamResponse, owes),
        (Phase::Routed, ConnEvent::UpstreamUnreachable) => go(
            s,
            Phase::Failed,
            ConnAction::Respond(Failure::UpstreamUnreachable),
            owes,
        ),
        (Phase::Routed, ConnEvent::UpstreamTls) => go(
            s,
            Phase::Failed,
            ConnAction::Respond(Failure::UpstreamTls),
            owes,
        ),
        (Phase::Forwarding, ConnEvent::ResponseFinished) => go(s, Phase::Completed, ConnAction::Close, false),
        (Phase::Forwarding, ConnEvent::UpstreamUnreachable) => go(s, Phase::Failed, ConnAction::Close, false),
        (Phase::Forwarding, ConnEvent::UpstreamTls) => go(s, Phase::Failed, ConnAction::Close, false),
        (Phase::Completed, _) => go(s, s.phase, ConnAction::Wait, false),
        (Phase::Failed, _) => go(s, s.phase, ConnAction::Wait, false),
        (_, ConnEvent::ClientGone) => go(s, Phase::Failed, ConnAction::Close, owes),
        _ => go(s, s.phase, ConnAction::Wait, false),
    }
}

/// The state after the events `es`, starting from `s`, and how many times
/// activity was handed over for recording on the way.
pub open spec fn run(s: ConnState, es: Seq<ConnEvent>) -> (ConnState, nat)
    decreases es.len(),
{
    if es.len() == 0 {
        (s, 0)
    } else {
        let (t, n) = run(s, es.drop_last());
        let st = next_step(t, es.last());
        (st.next, n + if st.record_activity {
            1nat
        } else {
            0nat
        })
    }
}

/// Whatever events arrive, a connection hands its activity over for recording
/// at most once, only after its session was identified, and not before the
/// response starts streaming or the connection fails.
pub proof fn lemma_records_once(es: Seq<ConnEvent>)
    ensures
        run(start(), es).1 <= 1,
        run(start(), es).1 == 1 ==> run(start(), es).0.identified,
        run(start(), es).0.recorded <==> run(start(), es).1 == 1,
        run(start(), es).0.phase == Phase::Accepted || run(start(), es).0.phase == Phase::Identifying
            || run(start(), es).0.phase == Phase::Routed ==> run(start(), es).1 == 0,
    decreases es.len(),
{
    if es.len() > 0 {
        lemma_records_once(es.drop_last());
    }
}

} // verus!
