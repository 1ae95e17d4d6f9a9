use oden_webrtc_server::signaling::SignalingMessage;

#[test]
fn offer_text() {
    let m = SignalingMessage::Offer { sdp: "v=0\r\n".to_string() };
    assert_eq!(m.to_json(), "{\"type\":\"offer\",\"sdp\":\"v=0\\r\\n\"}");
}

#[test]
fn answer_text() {
    let m = SignalingMessage::Answer { sdp: "".to_string() };
    assert_eq!(m.to_json(), "{\"type\":\"answer\",\"sdp\":\"\"}");
}

#[test]
fn ice_text() {
    let m = SignalingMessage::Ice {
        candidate: "candidate:1 1 UDP 2015363327 10.0.0.1 9 typ host".to_string(),
        sdp_m_line_index: u32::MAX,
    };
    assert_eq!(
        m.to_json(),
        "{\"type\":\"ice\",\"candidate\":\"candidate:1 1 UDP 2015363327 10.0.0.1 9 typ host\",\"sdpMLineIndex\":4294967295}"
    );
}

#[test]
fn special_characters_are_escaped() {
    let m = SignalingMessage::Offer {
        sdp: "\"\\/\u{8}\t\n\u{c}\r\u{0}\u{1f}\u{b} \u{7f}\u{e4}\u{1F600}".to_string(),
    };
    assert_eq!(
        m.to_json(),
        "{\"type\":\"offer\",\"sdp\":\"\\\"\\\\/\\b\\t\\n\\f\\r\\u0000\\u001f\\u000b \u{7f}\u{e4}\u{1F600}\"}"
    );
}

#[test]
fn every_character_below_the_space_is_escaped() {
    for n in 0u32..0x80 {
        let c = char::from_u32(n).unwrap();
        let text = SignalingMessage::Answer { sdp: c.to_string() }.to_json();
        let expected = if c == '"' || c == '\\' {
            format!("\\{}", c)
        } else if n == 8 {
            "\\b".to_string()
        } else if n == 9 {
            "\\t".to_string()
        } else if n == 10 {
            "\\n".to_string()
        } else if n == 12 {
            "\\f".to_string()
        } else if n == 13 {
            "\\r".to_string()
        } else if n < 32 {
            format!("\\u{:04x}", n)
        } else {
            c.to_string()
        };
        assert_eq!(text, format!("{{\"type\":\"answer\",\"sdp\":\"{}\"}}", expected));
    }
}

#[test]
fn the_text_is_json_and_gives_the_message_back() {
    let sdp = "v=0\r\ns=\"-\"\\\u{1}\u{e4}";
    let text = SignalingMessage::Offer { sdp: sdp.to_string() }.to_json();
    let value: serde_json::Value = serde_json::from_str(&text).unwrap();
    assert_eq!(value["type"], "offer");
    assert_eq!(value["sdp"], sdp);
    assert_eq!(value.as_object().unwrap().len(), 2);

    let text = SignalingMessage::Ice { candidate: sdp.to_string(), sdp_m_line_index: 7 }.to_json();
    let value: serde_json::Value = serde_json::from_str(&text).unwrap();
    assert_eq!(value["type"], "ice");
    assert_eq!(value["candidate"], sdp);
    assert_eq!(value["sdpMLineIndex"], 7);
    assert_eq!(value.as_object().unwrap().len(), 3);
}

#[test]
fn different_messages_have_different_texts() {
    let tricky = "\",\"sdpMLineIndex\":1}";
    let a = SignalingMessage::Ice { candidate: tricky.to_string(), sdp_m_line_index: 1 };
    let b = SignalingMessage::Ice { candidate: "".to_string(), sdp_m_line_index: 1 };
    let c = SignalingMessage::Ice { candidate: "".to_string(), sdp_m_line_index: 11 };
    let d = SignalingMessage::Offer { sdp: "".to_string() };
    let e = SignalingMessage::Answer { sdp: "".to_string() };
    let texts = vec![a.to_json(), b.to_json(), c.to_json(), d.to_json(), e.to_json()];
    for i in 0..texts.len() {
        for j in 0..i {
            assert_ne!(texts[i], texts[j]);
        }
    }
}
