# oden_webrtc_server

A server that captures video from CUDA IPC sources and streams it to browsers over WebRTC,
with an optional RTMP push to a relay. What the server decides and writes is a library
verified with [Verus](https://github.com/verus-lang/verus); the program around it performs
the I/O.

## Layout

| Path | Content |
|------|---------|
| `src/config.rs` | the settings, their defaults, the sources to stream |
| `src/pipeline.rs` | the launch text of the media pipeline and the streams in it |
| `src/session.rs` | opening and closing a viewer's session, and its signaling events |
| `src/signaling.rs` | the signaling messages and their JSON texts |
| `src/socket.rs` | a browser's WebSocket as a state machine |
| `src/web.rs` | the routes and the list of streams |
| `src/viewer.rs` | the viewer page |
| `src/json.rs`, `src/text.rs` | JSON strings, numerals, joining and replacing |
| `app/` | the program: command line, GStreamer, HTTP |
| `tests/` | examples of what the library computes |

Functions named `law_...` state properties of the library as a whole. The one assumption
about another crate is how `serde_json` writes a string; it stands in `src/json.rs`.

## Usage

```bash
oden_webrtc_server --test-src --local
oden_webrtc_server --ipc-address /tmp/ipc_0 --ipc-address /tmp/ipc_1 \
  --relay-url rtmp://mediamtx.example.com/stream-0
```

| Option | Default | Description |
|--------|---------|-------------|
| `--ipc-address` | `/tmp/ipc_0` | CUDA IPC socket, once for each stream |
| `--port` | `8080` | HTTP port |
| `--bitrate` | `4000` | video bitrate in kbit/s |
| `--test-src` | `false` | stream a synthetic picture |
| `--stun-server` | `stun://stun.l.google.com:19302` | STUN server |
| `--local` | `false` | serve the viewer page at `/` |
| `--relay-url` | none | RTMP URL; the n-th is for the n-th stream |

`GET /streams` lists the streams as JSON, each with `id`, `name` and `address`; `/ws/{id}` is the signaling WebSocket of one.
