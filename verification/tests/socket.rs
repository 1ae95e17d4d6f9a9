use oden_webrtc_server::signaling::SignalingMessage;
use oden_webrtc_server::socket::{Connection, SocketAction, SocketEvent};

fn offer(sdp: &str) -> SignalingMessage {
    SignalingMessage::Offer { sdp: sdp.to_string() }
}

fn answer(sdp: &str) -> SignalingMessage {
    SignalingMessage::Answer { sdp: sdp.to_string() }
}

fn sent(actions: &[SocketAction]) -> Vec<String> {
    let mut out = Vec::new();
    for a in actions {
        if let SocketAction::SendText(t) = a {
            out.push(t.clone());
        }
    }
    out
}

fn forwarded(actions: &[SocketAction]) -> Vec<String> {
    let mut out = Vec::new();
    for a in actions {
        if let SocketAction::Forward(m) = a {
            out.push(m.to_json());
        }
    }
    out
}

#[test]
fn messages_of_the_session_are_sent_as_text() {
    let mut c = Connection::new();
    match c.step(SocketEvent::FromSession(offer("v=0"))) {
        SocketAction::SendText(t) => assert_eq!(t, "{\"type\":\"offer\",\"sdp\":\"v=0\"}"),
        _ => panic!("a text is sent"),
    }
    assert!(c.open);
}

#[test]
fn messages_of_the_browser_are_forwarded() {
    let mut c = Connection::new();
    match c.step(SocketEvent::FromBrowser(answer("v=1"))) {
        SocketAction::Forward(SignalingMessage::Answer { sdp }) => assert_eq!(sdp, "v=1"),
        _ => panic!("the answer is forwarded"),
    }
    assert!(c.open);
}

#[test]
fn other_frames_and_malformed_texts_do_not_end_the_connection() {
    let mut c = Connection::new();
    assert!(matches!(c.step(SocketEvent::Malformed), SocketAction::ReportMalformed));
    assert!(matches!(c.step(SocketEvent::OtherFrame), SocketAction::Continue));
    assert!(c.open);
}

#[test]
fn either_side_ends_the_connection() {
    for end in [
        SocketEvent::SessionEnded,
        SocketEvent::SendFailed,
        SocketEvent::CloseFrame,
        SocketEvent::BrowserGone,
        SocketEvent::ForwardFailed,
    ] {
        let mut c = Connection::new();
        assert!(c.open);
        assert!(matches!(c.step(end), SocketAction::Disconnect));
        assert!(!c.open);
    }
}

#[test]
fn everything_is_carried_in_order_until_the_end() {
    let mut c = Connection::new();
    let mut actions = Vec::new();
    for event in vec![
        SocketEvent::FromSession(offer("1")),
        SocketEvent::FromBrowser(answer("a")),
        SocketEvent::Malformed,
        SocketEvent::FromSession(offer("2")),
        SocketEvent::OtherFrame,
        SocketEvent::FromBrowser(answer("b")),
    ] {
        actions.push(c.step(event));
    }
    assert!(c.open);
    let texts = vec![offer("1").to_json(), offer("2").to_json()];
    let messages = vec![answer("a").to_json(), answer("b").to_json()];
    assert_eq!(sent(&actions), texts);
    assert_eq!(forwarded(&actions), messages);

    for event in vec![
        SocketEvent::CloseFrame,
        SocketEvent::FromSession(offer("3")),
        SocketEvent::FromBrowser(answer("c")),
        SocketEvent::Malformed,
        SocketEvent::OtherFrame,
    ] {
        actions.push(c.step(event));
    }
    assert!(!c.open);
    assert_eq!(sent(&actions), texts);
    assert_eq!(forwarded(&actions), messages);
}
