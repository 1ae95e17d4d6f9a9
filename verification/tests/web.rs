use oden_webrtc_server::config::Config;
use oden_webrtc_server::pipeline::setup_all_streams;
use oden_webrtc_server::viewer::viewer_html;
use oden_webrtc_server::web::{create_router, stream_data, Endpoint, Router, StreamInfo};

fn router(addresses: &[&str], local: bool) -> Router {
    let addresses: Vec<String> = addresses.iter().map(|s| s.to_string()).collect();
    let config = Config::default();
    let setup = setup_all_streams(&addresses, &config, false);
    create_router(stream_data(setup.handles, &addresses), local, &config.stun_server)
}

#[test]
fn streams_are_listed_in_order() {
    let r = router(&["/tmp/ipc_0", "/tmp/ipc_1"], false);
    assert_eq!(
        r.list_streams(),
        "[{\"id\":0,\"name\":\"/tmp/ipc_0\",\"address\":\"/tmp/ipc_0\"},{\"id\":1,\"name\":\"/tmp/ipc_1\",\"address\":\"/tmp/ipc_1\"}]"
    );
}

#[test]
fn a_single_stream_and_none() {
    assert_eq!(
        router(&["a"], false).list_streams(),
        "[{\"id\":0,\"name\":\"a\",\"address\":\"a\"}]"
    );
    assert_eq!(router(&[], false).list_streams(), "[]");
}

#[test]
fn addresses_are_escaped() {
    let entry = StreamInfo { id: 12, address: "C:\\\"x\"\n".to_string() };
    assert_eq!(
        entry.to_json(),
        "{\"id\":12,\"name\":\"C:\\\\\\\"x\\\"\\n\",\"address\":\"C:\\\\\\\"x\\\"\\n\"}"
    );
}

#[test]
fn the_list_is_json() {
    let r = router(&["/tmp/\"0\"", "\u{1}"], false);
    let value: serde_json::Value = serde_json::from_str(&r.list_streams()).unwrap();
    assert_eq!(value.as_array().unwrap().len(), 2);
    assert_eq!(value[0]["id"], 0);
    assert_eq!(value[0]["address"], "/tmp/\"0\"");
    assert_eq!(value[0]["name"], value[0]["address"]);
    assert_eq!(value[1]["id"], 1);
    assert_eq!(value[1]["name"], "\u{1}");
    assert_eq!(value[1].as_object().unwrap().len(), 3);
    assert_eq!(value[1]["address"], "\u{1}");
}

#[test]
fn different_lists_have_different_texts() {
    let texts = vec![
        router(&[], false).list_streams(),
        router(&[""], false).list_streams(),
        router(&["", ""], false).list_streams(),
        router(&["a"], false).list_streams(),
        router(&["a\",\"address\":\"a"], false).list_streams(),
    ];
    for i in 0..texts.len() {
        for j in 0..i {
            assert_ne!(texts[i], texts[j]);
        }
    }
}

#[test]
fn a_listed_number_selects_its_stream() {
    let r = router(&["/a", "/b", "/c"], false);
    for entry in &r.stream_info {
        let handle = r.ws_handler(entry.id).unwrap();
        assert_eq!(handle.stream_index, entry.id);
        assert_eq!(handle.tee, format!("t{}", entry.id));
    }
    assert_eq!(r.stream_info[2].address, "/c");
}

#[test]
fn unknown_numbers_select_nothing() {
    let r = router(&["/a", "/b"], false);
    assert!(r.ws_handler(1).is_some());
    assert!(r.ws_handler(2).is_none());
    assert!(r.ws_handler(usize::MAX).is_none());
    assert!(router(&[], false).ws_handler(0).is_none());
}

#[test]
fn the_viewer_page_is_served_only_locally() {
    let r = router(&["/a"], false);
    assert_eq!(r.routes.len(), 2);
    assert_eq!(r.routes[0].path, "/streams");
    assert!(matches!(r.routes[0].endpoint, Endpoint::StreamList));
    assert_eq!(r.routes[1].path, "/ws/{id}");
    assert!(matches!(r.routes[1].endpoint, Endpoint::Signaling));

    let r = router(&["/a"], true);
    assert_eq!(r.routes.len(), 3);
    assert_eq!(r.routes[0].path, "/");
    match &r.routes[0].endpoint {
        Endpoint::Page(html) => {
            assert_eq!(*html, viewer_html("stun://stun.l.google.com:19302"))
        }
        _ => panic!("the page comes first"),
    }
    assert_eq!(r.routes[1].path, "/streams");
    assert_eq!(r.routes[2].path, "/ws/{id}");
}

#[test]
fn pairing_stops_with_the_shorter_side() {
    let addresses = vec!["/a".to_string(), "/b".to_string(), "/c".to_string()];
    let setup = setup_all_streams(&addresses, &Config::default(), false);
    let data = stream_data(setup.handles, &addresses[..2]);
    assert_eq!(data.len(), 2);
    assert_eq!(data[1].0.tee, "t1");
    assert_eq!(data[1].1.id, 1);
    assert_eq!(data[1].1.address, "/b");
    let setup = setup_all_streams(&addresses[..1], &Config::default(), false);
    assert_eq!(stream_data(setup.handles, &addresses).len(), 1);
}
