use oden_webrtc_server::config::Config;
use oden_webrtc_server::pipeline::{chain_description, setup_all_streams, Encoder};

fn strings(items: &[&str]) -> Vec<String> {
    items.iter().map(|s| s.to_string()).collect()
}

#[test]
fn the_gpu_encoder_is_preferred() {
    assert_eq!(Encoder::select(true), Encoder::Gpu);
    assert_eq!(Encoder::select(false), Encoder::Cpu);
    assert_eq!(Encoder::Gpu.element(), "nvcudah264enc");
    assert_eq!(Encoder::Cpu.element(), "x264enc");
}

#[test]
fn test_source_without_relay() {
    let mut config = Config::default();
    config.test_src = true;
    let setup = setup_all_streams(&strings(&["/tmp/ipc_0"]), &config, false);
    assert_eq!(
        setup.description,
        "videotestsrc is-live=true pattern=0 ! video/x-raw,format=NV12,width=640,height=360,framerate=30/1 ! x264enc bitrate=4000 speed-preset=ultrafast tune=zerolatency ! video/x-h264,profile=baseline ! rtph264pay config-interval=-1 pt=96 ! application/x-rtp,media=video,encoding-name=H264,payload=96 ! tee name=t0 allow-not-linked=true"
    );
    assert_eq!(setup.handles.len(), 1);
}

#[test]
fn sockets_on_the_gpu_without_relay() {
    let mut config = Config::default();
    config.bitrate = 5000;
    let setup = setup_all_streams(&strings(&["/tmp/a", "/tmp/b"]), &config, true);
    assert_eq!(
        setup.description,
        "cudaipcsrc address=/tmp/a ! cudadownload ! videorate drop-only=true ! video/x-raw,framerate=30/1 ! cudaupload ! nvcudah264enc bitrate=5000 preset=p1 tune=ultra-low-latency rate-control=cbr ! video/x-h264,profile=baseline ! rtph264pay config-interval=-1 pt=96 ! application/x-rtp,media=video,encoding-name=H264,payload=96 ! tee name=t0 allow-not-linked=true cudaipcsrc address=/tmp/b ! cudadownload ! videorate drop-only=true ! video/x-raw,framerate=30/1 ! cudaupload ! nvcudah264enc bitrate=5000 preset=p1 tune=ultra-low-latency rate-control=cbr ! video/x-h264,profile=baseline ! rtph264pay config-interval=-1 pt=96 ! application/x-rtp,media=video,encoding-name=H264,payload=96 ! tee name=t1 allow-not-linked=true"
    );
}

#[test]
fn a_relayed_stream_is_split_before_it_is_put_into_packets() {
    let mut config = Config::default();
    config.relay_url = strings(&["rtmp://mediamtx.example.com/stream-0"]);
    assert_eq!(
        chain_description(0, "/tmp/ipc_0", Encoder::Cpu, &config),
        "cudaipcsrc address=/tmp/ipc_0 ! cudadownload ! videorate drop-only=true ! video/x-raw,framerate=30/1 ! cudaupload ! x264enc bitrate=4000 speed-preset=ultrafast tune=zerolatency ! video/x-h264,profile=baseline ! tee name=raw_t0 allow-not-linked=true raw_t0. ! queue ! rtph264pay config-interval=-1 pt=96 ! application/x-rtp,media=video,encoding-name=H264,payload=96 ! tee name=t0 allow-not-linked=true raw_t0. ! queue ! h264parse ! flvmux streamable=true ! rtmpsink location=rtmp://mediamtx.example.com/stream-0"
    );
}

#[test]
fn a_stream_without_relay_url_is_not_pushed() {
    let mut config = Config::default();
    config.test_src = true;
    config.relay_url = strings(&["rtmp://a/0"]);
    let chain = chain_description(1, "", Encoder::Cpu, &config);
    assert_eq!(
        chain,
        "videotestsrc is-live=true pattern=1 ! video/x-raw,format=NV12,width=640,height=360,framerate=30/1 ! x264enc bitrate=4000 speed-preset=ultrafast tune=zerolatency ! video/x-h264,profile=baseline ! tee name=raw_t1 allow-not-linked=true raw_t1. ! queue ! rtph264pay config-interval=-1 pt=96 ! application/x-rtp,media=video,encoding-name=H264,payload=96 ! tee name=t1 allow-not-linked=true"
    );
}

#[test]
fn each_stream_is_pushed_to_its_own_url() {
    let mut config = Config::default();
    config.relay_url = strings(&["rtmp://r/x", "rtmp://r/y", "rtmp://r/z"]);
    let setup = setup_all_streams(&strings(&["/a", "/b"]), &config, true);
    assert!(setup.description.contains("raw_t0. ! queue ! h264parse ! flvmux streamable=true ! rtmpsink location=rtmp://r/x cudaipcsrc"));
    assert!(setup.description.ends_with("raw_t1. ! queue ! h264parse ! flvmux streamable=true ! rtmpsink location=rtmp://r/y"));
    assert!(!setup.description.contains("rtmp://r/z"));
}

#[test]
fn every_stream_has_its_viewers_tee() {
    for relay in [strings(&[]), strings(&["rtmp://r/0"])] {
        let mut config = Config::default();
        config.test_src = true;
        config.relay_url = relay;
        let addresses: Vec<String> = (0..30).map(|n| format!("/tmp/ipc_{}", n)).collect();
        let setup = setup_all_streams(&addresses, &config, false);
        assert_eq!(setup.handles.len(), 30);
        for (i, handle) in setup.handles.iter().enumerate() {
            assert_eq!(handle.stream_index, i);
            assert_eq!(handle.tee, format!("t{}", i));
            assert_eq!(handle.stun_server, "stun://stun.l.google.com:19302");
            let tee = format!(" tee name={} allow-not-linked=true", handle.tee);
            assert_eq!(setup.description.matches(&tee).count(), 1);
        }
    }
}

#[test]
fn test_patterns_repeat() {
    let mut config = Config::default();
    config.test_src = true;
    assert!(chain_description(24, "", Encoder::Cpu, &config).contains("pattern=24 !"));
    assert!(chain_description(25, "", Encoder::Cpu, &config).contains("pattern=0 !"));
    assert!(chain_description(51, "", Encoder::Cpu, &config).contains("pattern=1 !"));
}

#[test]
fn no_addresses_no_streams() {
    let setup = setup_all_streams(&[], &Config::default(), true);
    assert_eq!(setup.description, "");
    assert!(setup.handles.is_empty());
}
