use proxy_sessions::connection::{accepted, step, ConnAction, ConnEvent, ConnState, Failure, Phase};

fn drive(events: &[ConnEvent]) -> (ConnState, Vec<ConnAction>, usize) {
    let mut s = accepted();
    let mut actions = Vec::new();
    let mut records = 0;
    for e in events {
        let st = step(s, *e);
        actions.push(st.action);
        if st.record_activity {
            records += 1;
        }
        s = st.next;
    }
    (s, actions, records)
}

#[test]
fn happy_path_records_after_streaming_starts() {
    let (s, actions, records) =
        drive(&[ConnEvent::RequestParsed, ConnEvent::Identified, ConnEvent::RouteFound, ConnEvent::ResponseStarted, ConnEvent::ResponseFinished]);
    assert_eq!(s.phase, Phase::Completed);
    assert_eq!(
        actions,
        vec![
            ConnAction::Identify,
            ConnAction::ResolveRoute,
            ConnAction::ForwardRewritten,
            ConnAction::StreamResponse,
            ConnAction::Close
        ]
    );
    assert_eq!(records, 1);
    let before_stream = drive(&[ConnEvent::RequestParsed, ConnEvent::Identified, ConnEvent::RouteFound]);
    assert_eq!(before_stream.2, 0);
}

#[test]
fn unidentified_is_forwarded_unmodified_and_not_recorded() {
    let (s, actions, records) = drive(&[ConnEvent::RequestParsed, ConnEvent::Unidentified, ConnEvent::ResponseStarted, ConnEvent::ResponseFinished]);
    assert_eq!(s.phase, Phase::Completed);
    assert_eq!(actions[1], ConnAction::ForwardUnmodified);
    assert_eq!(records, 0);
}

#[test]
fn failures_answer_the_client() {
    let (s, a, r) = drive(&[ConnEvent::RequestMalformed]);
    assert_eq!(s.phase, Phase::Failed);
    assert_eq!(a[0], ConnAction::Respond(Failure::MalformedRequest));
    assert_eq!(r, 0);

    let (_, a, r) = drive(&[ConnEvent::RequestParsed, ConnEvent::StoreUnavailable]);
    assert_eq!(a[1], ConnAction::Respond(Failure::StoreUnavailable));
    assert_eq!(r, 0);

    let (_, a, r) = drive(&[ConnEvent::RequestParsed, ConnEvent::Identified, ConnEvent::RouteMissing]);
    assert_eq!(a[2], ConnAction::Respond(Failure::LocalConfig));
    assert_eq!(r, 1);

    let (_, a, r) = drive(&[ConnEvent::RequestParsed, ConnEvent::Identified, ConnEvent::RouteFound, ConnEvent::UpstreamUnreachable]);
    assert_eq!(a[3], ConnAction::Respond(Failure::UpstreamUnreachable));
    assert_eq!(r, 1);

    let (_, a, _) = drive(&[ConnEvent::RequestParsed, ConnEvent::Identified, ConnEvent::RouteFound, ConnEvent::UpstreamTls]);
    assert_eq!(a[3], ConnAction::Respond(Failure::UpstreamTls));
}

#[test]
fn disconnect_mid_stream_closes_without_second_record() {
    let (s, a, r) = drive(&[ConnEvent::RequestParsed, ConnEvent::Identified, ConnEvent::RouteFound, ConnEvent::ResponseStarted, ConnEvent::ClientGone, ConnEvent::ResponseFinished]);
    assert_eq!(s.phase, Phase::Failed);
    assert_eq!(a[4], ConnAction::Close);
    assert_eq!(a[5], ConnAction::Wait);
    assert_eq!(r, 1);
}

#[test]
fn unexpected_events_change_nothing() {
    let (s, a, r) = drive(&[ConnEvent::ResponseFinished, ConnEvent::RouteFound, ConnEvent::RequestParsed, ConnEvent::RouteFound]);
    assert_eq!(s.phase, Phase::Identifying);
    assert_eq!(a[0], ConnAction::Wait);
    assert_eq!(a[1], ConnAction::Wait);
    assert_eq!(a[3], ConnAction::Wait);
    assert_eq!(r, 0);
}
