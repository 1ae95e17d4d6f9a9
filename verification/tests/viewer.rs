use oden_webrtc_server::viewer::{viewer_html, VIEWER_HTML_HEAD, VIEWER_HTML_TAIL};

fn page(url: &str) -> String {
    format!("{}{}{}", VIEWER_HTML_HEAD, url, VIEWER_HTML_TAIL)
}

#[test]
fn the_default_server_is_named() {
    let html = viewer_html("stun://stun.l.google.com:19302");
    assert_eq!(html, page("stun:stun.l.google.com:19302"));
    assert!(html.contains("iceServers: [{ urls: 'stun:stun.l.google.com:19302' }]"));
}

#[test]
fn the_page_is_whole() {
    let html = viewer_html("");
    assert_eq!(html.len(), 3498);
    assert!(html.starts_with("<!DOCTYPE html>\n<html>\n<head>\n<meta charset=\"utf-8\">\n"));
    assert!(html.ends_with("\ninit();\n</script>\n</body>\n</html>"));
    assert!(html.contains("iceServers: [{ urls: '' }]"));
    assert!(html.contains("await fetch('/streams')"));
    assert!(html.contains("`${proto}//${location.host}/ws/${id}`"));
    assert!(html.contains("sdpMLineIndex: msg.sdpMLineIndex"));
    assert!(!html.contains("{{"));
}

#[test]
fn only_the_first_scheme_is_shortened() {
    assert_eq!(viewer_html("stun://a,stun://b"), page("stun:a,stun://b"));
    assert_eq!(viewer_html("x stun://a"), page("x stun:a"));
}

#[test]
fn other_urls_are_kept() {
    assert_eq!(viewer_html("stun:a:3478"), page("stun:a:3478"));
    assert_eq!(viewer_html("turn://a"), page("turn://a"));
    assert_eq!(viewer_html("stun:/"), page("stun:/"));
}

#[test]
fn text_like_a_placeholder_is_no_placeholder() {
    assert_eq!(viewer_html("{{ICE_SERVER}}"), page("{{ICE_SERVER}}"));
}
