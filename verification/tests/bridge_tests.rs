use ook_bridge::bridge::{Bridge, BridgeAction, BridgeEvent, BridgeState};

/// Feeds events to a fresh bridge the way the event loop does, collecting
/// the decided actions, and returns the bridge for further inspection.
fn run(events: Vec<BridgeEvent>) -> (Bridge, Vec<BridgeAction>) {
    let mut bridge = Bridge::new();
    let mut actions = Vec::new();
    for event in events {
        actions.push(bridge.step(event));
    }
    (bridge, actions)
}

fn forwarded(actions: &[BridgeAction]) -> Vec<String> {
    actions
        .iter()
        .filter_map(|a| match a {
            BridgeAction::ForwardLine(l) => Some(l.clone()),
            _ => None,
        })
        .collect()
}

fn written(actions: &[BridgeAction]) -> Vec<String> {
    actions
        .iter()
        .filter_map(|a| match a {
            BridgeAction::WriteLine(l) => Some(l.clone()),
            _ => None,
        })
        .collect()
}

fn pongs(actions: &[BridgeAction]) -> Vec<Vec<u8>> {
    actions
        .iter()
        .filter_map(|a| match a {
            BridgeAction::SendPong(p) => Some(p.clone()),
            _ => None,
        })
        .collect()
}

#[test]
fn local_lines_forwarded_in_order() {
    let (bridge, actions) = run(vec![
        BridgeEvent::LocalLine(String::from("first")),
        BridgeEvent::LocalLine(String::from("second")),
        BridgeEvent::LocalLine(String::from("third")),
    ]);
    assert_eq!(forwarded(&actions), vec!["first", "second", "third"]);
    assert!(bridge.is_running());
}

#[test]
fn text_frames_written_normalized_in_order() {
    let (bridge, actions) = run(vec![
        BridgeEvent::TextFrame(String::from("alpha")),
        BridgeEvent::TextFrame(String::from("beta\n")),
        BridgeEvent::TextFrame(String::from("gamma")),
    ]);
    assert_eq!(written(&actions), vec!["alpha\n", "beta\n", "gamma\n"]);
    assert!(bridge.is_running());
}

#[test]
fn interleaved_directions_each_keep_their_order() {
    let (bridge, actions) = run(vec![
        BridgeEvent::LocalLine(String::from("l1")),
        BridgeEvent::TextFrame(String::from("r1")),
        BridgeEvent::LocalLine(String::from("l2")),
        BridgeEvent::TextFrame(String::from("r2\n")),
    ]);
    assert_eq!(forwarded(&actions), vec!["l1", "l2"]);
    assert_eq!(written(&actions), vec!["r1\n", "r2\n"]);
    assert!(bridge.is_running());
}

#[test]
fn ping_answered_with_identical_payload_and_not_written() {
    let (bridge, actions) = run(vec![
        BridgeEvent::Ping(vec![1, 2, 3]),
        BridgeEvent::TextFrame(String::from("data")),
    ]);
    assert_eq!(pongs(&actions), vec![vec![1, 2, 3]]);
    assert_eq!(written(&actions), vec!["data\n"]);
    assert!(bridge.is_running());
}

#[test]
fn other_frames_are_ignored() {
    let (bridge, actions) = run(vec![BridgeEvent::OtherFrame]);
    assert!(matches!(actions[0], BridgeAction::Nothing));
    assert!(bridge.is_running());
}

#[test]
fn pong_send_failure_is_not_terminal() {
    let (bridge, actions) = run(vec![
        BridgeEvent::PongSendFailed,
        BridgeEvent::LocalLine(String::from("still-going")),
    ]);
    assert_eq!(forwarded(&actions), vec!["still-going"]);
    assert!(bridge.is_running());
}

#[test]
fn close_frame_stops_the_loop_and_later_events_are_ignored() {
    let (mut bridge, actions) = run(vec![
        BridgeEvent::TextFrame(String::from("before")),
        BridgeEvent::CloseFrame,
        BridgeEvent::TextFrame(String::from("after")),
        BridgeEvent::LocalLine(String::from("late")),
        BridgeEvent::Ping(vec![9]),
    ]);
    assert_eq!(written(&actions), vec!["before\n"]);
    assert!(forwarded(&actions).is_empty());
    assert!(pongs(&actions).is_empty());
    assert!(!bridge.is_running());
    assert_eq!(bridge.state, BridgeState::Terminating);
    let close = bridge.shutdown();
    assert!(matches!(close, BridgeAction::CloseTransport));
    assert_eq!(bridge.state, BridgeState::Terminated);
}

#[test]
fn local_end_of_stream_triggers_graceful_close() {
    let (mut bridge, actions) = run(vec![BridgeEvent::LocalEnded]);
    assert!(matches!(actions[0], BridgeAction::Nothing));
    assert_eq!(bridge.state, BridgeState::Terminating);
    let close = bridge.shutdown();
    assert!(matches!(close, BridgeAction::CloseTransport));
    assert_eq!(bridge.state, BridgeState::Terminated);
}

#[test]
fn transport_end_is_terminal() {
    let (bridge, _) = run(vec![BridgeEvent::TransportEnded]);
    assert_eq!(bridge.state, BridgeState::Terminating);
}

#[test]
fn forward_failure_is_terminal() {
    let (bridge, _) = run(vec![
        BridgeEvent::LocalLine(String::from("line")),
        BridgeEvent::ForwardFailed,
    ]);
    assert_eq!(bridge.state, BridgeState::Terminating);
}

#[test]
fn local_write_failure_is_terminal() {
    let (bridge, _) = run(vec![
        BridgeEvent::TextFrame(String::from("frame")),
        BridgeEvent::LocalWriteFailed,
    ]);
    assert_eq!(bridge.state, BridgeState::Terminating);
}

#[test]
fn echo_then_remote_close_scenario() {
    let (mut bridge, actions) = run(vec![
        BridgeEvent::LocalLine(String::from("{\"id\":1}")),
        BridgeEvent::LocalLine(String::from("{\"id\":2}")),
        BridgeEvent::TextFrame(String::from("{\"ok\":1}")),
        BridgeEvent::CloseFrame,
    ]);
    assert_eq!(forwarded(&actions), vec!["{\"id\":1}", "{\"id\":2}"]);
    assert_eq!(written(&actions), vec!["{\"ok\":1}\n"]);
    let close = bridge.shutdown();
    assert!(matches!(close, BridgeAction::CloseTransport));
    assert_eq!(bridge.state, BridgeState::Terminated);
}
