use oden_webrtc_server::config::{
    Config, DEFAULT_BITRATE, DEFAULT_IPC_ADDRESS, DEFAULT_PORT, DEFAULT_STUN_SERVER,
};

#[test]
fn defaults() {
    let c = Config::default();
    assert!(c.ipc_address.is_empty());
    assert_eq!(c.port, 8080);
    assert_eq!(c.bitrate, 4000);
    assert!(!c.test_src);
    assert_eq!(c.stun_server, "stun://stun.l.google.com:19302");
    assert!(!c.local);
    assert!(c.relay_url.is_empty());
    assert_eq!(DEFAULT_PORT, c.port);
    assert_eq!(DEFAULT_BITRATE, c.bitrate);
    assert_eq!(DEFAULT_STUN_SERVER, c.stun_server);
    assert_eq!(DEFAULT_IPC_ADDRESS, "/tmp/ipc_0");
}

#[test]
fn there_is_always_a_source() {
    let c = Config::default();
    assert_eq!(c.addresses(), vec!["/tmp/ipc_0".to_string()]);
}

#[test]
fn named_sources_are_kept_in_order() {
    let mut c = Config::default();
    c.ipc_address = vec!["/tmp/b".to_string(), "/tmp/a".to_string(), "/tmp/b".to_string()];
    assert_eq!(c.addresses(), c.ipc_address);
}

#[test]
fn the_server_listens_on_every_interface() {
    let mut c = Config::default();
    assert_eq!(c.listen_address(), "0.0.0.0:8080");
    c.port = 0;
    assert_eq!(c.listen_address(), "0.0.0.0:0");
    c.port = 65535;
    assert_eq!(c.listen_address(), "0.0.0.0:65535");
}
