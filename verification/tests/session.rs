use oden_webrtc_server::pipeline::StreamHandle;
use oden_webrtc_server::session::{
    ice_candidate_message, offer_message, peer_action, webrtcbin_actions, ClosingStep, OfferError,
    OfferReply, OutgoingAction, PeerAction, SessionCounter, SessionGuard, SessionStep,
    WebrtcbinEvent,
};
use oden_webrtc_server::signaling::SignalingMessage;

fn handle(stream_index: usize) -> StreamHandle {
    StreamHandle {
        tee: format!("t{}", stream_index),
        stun_server: "stun://example.com".to_string(),
        stream_index,
    }
}

fn name(stream_index: usize, session_id: u64) -> String {
    let (plan, _) = handle(stream_index).new_session(&mut SessionCounter { next: session_id });
    match &plan[1] {
        SessionStep::MakeWebrtcbin { name, .. } => name.clone(),
        _ => panic!("the webrtcbin is made second"),
    }
}

#[test]
fn a_session_is_opened_step_by_step() {
    let mut counter = SessionCounter { next: 17 };
    let (plan, guard) = handle(3).new_session(&mut counter);
    assert_eq!(counter.next, 18);
    assert_eq!(plan.len(), 11);
    assert!(matches!(plan[0], SessionStep::MakeQueue));
    match &plan[1] {
        SessionStep::MakeWebrtcbin { name, bundle_policy, stun_server } => {
            assert_eq!(name, "webrtc-3-17");
            assert_eq!(bundle_policy, "max-bundle");
            assert_eq!(stun_server, "stun://example.com");
        }
        _ => panic!("the webrtcbin is made second"),
    }
    assert!(matches!(plan[2], SessionStep::AddElements));
    match &plan[3] {
        SessionStep::RequestTeePad { tee, template } => {
            assert_eq!(tee, "t3");
            assert_eq!(template, "src_%u");
        }
        _ => panic!("the pad is requested fourth"),
    }
    assert!(matches!(plan[4], SessionStep::LinkTeeToQueue));
    assert!(matches!(plan[5], SessionStep::LinkQueueToWebrtcbin));
    assert!(matches!(plan[6], SessionStep::WatchIceCandidates));
    assert!(matches!(plan[7], SessionStep::SyncQueue));
    assert!(matches!(plan[8], SessionStep::SyncWebrtcbin));
    assert!(matches!(plan[9], SessionStep::CreateOffer));
    assert!(matches!(plan[10], SessionStep::ReceiveMessages));
    assert_eq!(guard.stream_index, 3);
    assert_eq!(guard.session_id, 17);
}

#[test]
fn sessions_have_names_of_their_own() {
    assert_eq!(name(0, 0), "webrtc-0-0");
    assert_eq!(name(2, u64::MAX), "webrtc-2-18446744073709551615");
    assert_ne!(name(1, 11), name(11, 1));
    assert_ne!(name(1, 1), name(1, 2));
    assert_ne!(name(1, 1), name(2, 1));
}

#[test]
fn sessions_are_numbered_in_the_order_in_which_they_begin() {
    let mut counter = SessionCounter::new();
    assert_eq!(counter.take(), 0);
    assert_eq!(counter.take(), 1);
    let (_, guard) = handle(4).new_session(&mut counter);
    assert_eq!(guard.session_id, 2);
    let (_, guard) = handle(1).new_session(&mut counter);
    assert_eq!(guard.session_id, 3);
    assert_eq!(guard.stream_index, 1);
}

#[test]
fn the_numbers_start_again_after_the_last() {
    let mut counter = SessionCounter { next: u64::MAX };
    assert_eq!(counter.take(), u64::MAX);
    assert_eq!(counter.take(), 0);
}

#[test]
fn no_two_sessions_of_a_server_share_a_name() {
    let mut counter = SessionCounter::new();
    let mut names: Vec<String> = Vec::new();
    for k in 0..50 {
        let (plan, _) = handle(k % 12).new_session(&mut counter);
        match &plan[1] {
            SessionStep::MakeWebrtcbin { name, .. } => {
                assert_eq!(*name, format!("webrtc-{}-{}", k % 12, k));
                assert!(!names.contains(name));
                names.push(name.clone());
            }
            _ => panic!("the webrtcbin is made second"),
        }
    }
}

#[test]
fn a_session_is_closed_step_by_step() {
    let guard = SessionGuard { stream_index: 0, session_id: 0 };
    assert_eq!(
        guard.closing(true, true),
        vec![
            ClosingStep::StopQueue,
            ClosingStep::StopWebrtcbin,
            ClosingStep::UnlinkTee,
            ClosingStep::ReleaseTeePad,
            ClosingStep::RemoveQueue,
            ClosingStep::RemoveWebrtcbin,
        ]
    );
}

#[test]
fn what_is_missing_is_not_taken_down() {
    let guard = SessionGuard { stream_index: 0, session_id: 0 };
    assert_eq!(
        guard.closing(false, true),
        vec![
            ClosingStep::StopQueue,
            ClosingStep::StopWebrtcbin,
            ClosingStep::ReleaseTeePad,
            ClosingStep::RemoveQueue,
            ClosingStep::RemoveWebrtcbin,
        ]
    );
    assert_eq!(
        guard.closing(true, false),
        vec![
            ClosingStep::StopQueue,
            ClosingStep::StopWebrtcbin,
            ClosingStep::UnlinkTee,
            ClosingStep::RemoveQueue,
            ClosingStep::RemoveWebrtcbin,
        ]
    );
    assert_eq!(
        guard.closing(false, false),
        vec![
            ClosingStep::StopQueue,
            ClosingStep::StopWebrtcbin,
            ClosingStep::RemoveQueue,
            ClosingStep::RemoveWebrtcbin,
        ]
    );
}

#[test]
fn opening_and_closing_leave_no_trace() {
    let (plan, guard) = handle(0).new_session(&mut SessionCounter::new());
    let mut held: Vec<&str> = Vec::new();
    for step in &plan {
        match step {
            SessionStep::AddElements => held.extend(["queue", "webrtcbin"]),
            SessionStep::RequestTeePad { .. } => held.push("pad"),
            SessionStep::LinkTeeToQueue => held.push("link"),
            SessionStep::SyncQueue => held.push("queue running"),
            SessionStep::SyncWebrtcbin => held.push("webrtcbin running"),
            _ => {}
        }
    }
    for step in guard.closing(true, true) {
        let gone = match step {
            ClosingStep::StopQueue => "queue running",
            ClosingStep::StopWebrtcbin => "webrtcbin running",
            ClosingStep::UnlinkTee => "link",
            ClosingStep::ReleaseTeePad => "pad",
            ClosingStep::RemoveQueue => "queue",
            ClosingStep::RemoveWebrtcbin => "webrtcbin",
        };
        assert!(held.contains(&gone));
        held.retain(|h| *h != gone);
    }
    assert!(held.is_empty());
}

#[test]
fn candidates_are_announced() {
    match ice_candidate_message(2, "candidate:x".to_string()) {
        SignalingMessage::Ice { candidate, sdp_m_line_index } => {
            assert_eq!(candidate, "candidate:x");
            assert_eq!(sdp_m_line_index, 2);
        }
        _ => panic!("an ICE message is expected"),
    }
}

#[test]
fn a_created_offer_is_sent() {
    match offer_message(OfferReply::Created("v=0".to_string())) {
        Ok(SignalingMessage::Offer { sdp }) => assert_eq!(sdp, "v=0"),
        _ => panic!("an offer is expected"),
    }
}

#[test]
fn without_an_offer_nothing_is_sent() {
    assert_eq!(offer_message(OfferReply::Empty).err(), Some(OfferError::NoReply));
    assert_eq!(offer_message(OfferReply::Interrupted).err(), Some(OfferError::Interrupted));
}

#[test]
fn an_offer_is_set_before_it_is_sent() {
    let reply = OfferReply::Created("v=0".to_string());
    let actions = webrtcbin_actions(WebrtcbinEvent::OfferReply(reply));
    assert_eq!(actions.len(), 2);
    assert!(matches!(actions[0], OutgoingAction::SetLocalDescription));
    match &actions[1] {
        OutgoingAction::Send(SignalingMessage::Offer { sdp }) => assert_eq!(sdp, "v=0"),
        _ => panic!("the offer is sent"),
    }
    assert!(webrtcbin_actions(WebrtcbinEvent::OfferReply(OfferReply::Empty)).is_empty());
    assert!(webrtcbin_actions(WebrtcbinEvent::OfferReply(OfferReply::Interrupted)).is_empty());
}

#[test]
fn every_candidate_is_announced_in_order() {
    let mut sent: Vec<String> = Vec::new();
    for (index, candidate) in [(0, "a"), (1, "b"), (0, "a"), (7, "")] {
        let event = WebrtcbinEvent::IceCandidate {
            sdp_m_line_index: index,
            candidate: candidate.to_string(),
        };
        for action in webrtcbin_actions(event) {
            match action {
                OutgoingAction::Send(message) => sent.push(message.to_json()),
                OutgoingAction::SetLocalDescription => panic!("there is no offer"),
            }
        }
    }
    assert_eq!(
        sent,
        vec![
            "{\"type\":\"ice\",\"candidate\":\"a\",\"sdpMLineIndex\":0}",
            "{\"type\":\"ice\",\"candidate\":\"b\",\"sdpMLineIndex\":1}",
            "{\"type\":\"ice\",\"candidate\":\"a\",\"sdpMLineIndex\":0}",
            "{\"type\":\"ice\",\"candidate\":\"\",\"sdpMLineIndex\":7}",
        ]
    );
}

#[test]
fn messages_of_the_browser_are_acted_on() {
    match peer_action(SignalingMessage::Answer { sdp: "v=0".to_string() }) {
        PeerAction::SetRemoteDescription { sdp } => assert_eq!(sdp, "v=0"),
        _ => panic!("the answer is set"),
    }
    let ice = SignalingMessage::Ice { candidate: "c".to_string(), sdp_m_line_index: 9 };
    match peer_action(ice) {
        PeerAction::AddIceCandidate { sdp_m_line_index, candidate } => {
            assert_eq!(sdp_m_line_index, 9);
            assert_eq!(candidate, "c");
        }
        _ => panic!("the candidate is added"),
    }
    let offer = SignalingMessage::Offer { sdp: "v=0".to_string() };
    assert!(matches!(peer_action(offer), PeerAction::Ignore));
}
