//! The page that shows the streams in a browser.
use vstd::prelude::*;
use vstd::string::*;

use crate::text;

verus! {

/// How the browser is told the STUN server: its URL, with the first `stun://` shortened to
/// `stun:`.
pub open spec fn ice_url(stun_server: Seq<char>) -> Seq<char> {
    text::first_replaced(stun_server, "stun://"@, "stun:"@)
}

/// The viewer page: the STUN server between the two constant parts.
pub open spec fn viewer_page(stun_server: Seq<char>) -> Seq<char> {
    VIEWER_HTML_HEAD@ + ice_url(stun_server) + VIEWER_HTML_TAIL@
}

/// The viewer page for peers that find their address with `stun_server`.
pub fn viewer_html(stun_server: &str) -> (r: String)
    ensures
        r@ == viewer_page(stun_server@),
{
    let mut page = VIEWER_HTML_HEAD.to_owned();
    page.append(text::replace_first(stun_server, "stun://", "stun:").as_str());
    page.append(VIEWER_HTML_TAIL);
    page
}

/// A URL that begins with `stun://` reaches the page with `stun:` in its place and the rest
/// unchanged.
pub proof fn law_stun_scheme_shortened(rest: Seq<char>)
    ensures
        ice_url("stun://"@ + rest) == "stun:"@ + rest,
{
    reveal_strlit("stun://");
    let url = "stun://"@ + rest;
    assert(url.subrange(0, 7) =~= "stun://"@);
    text::law_replace_first(url, "stun://"@, "stun:"@, 0);
    assert(url.take(0) + "stun:"@ + url.skip(7) =~= "stun:"@ + rest);
}

/// A URL in which `stun://` does not occur reaches the page as it is.
pub proof fn law_other_url_unchanged(stun_server: Seq<char>)
    requires
        !text::occurs(stun_server, "stun://"@),
    ensures
        ice_url(stun_server) == stun_server,
{
}

/// Wherever in the URL `stun://` first stands, it alone is shortened: what stands before and
/// behind it is kept, whether or not it stands there again.
pub proof fn law_first_scheme_shortened(before: Seq<char>, after: Seq<char>)
    requires
        !text::occurs((before + "stun://"@).drop_last(), "stun://"@),
    ensures
        ice_url(before + "stun://"@ + after) == before + "stun:"@ + after,
{
    reveal_strlit("stun://");
    text::law_replaced_between(before, "stun://"@, after, "stun:"@);
}

/// The page is built round the URL: the same head before it and the same tail behind it for
/// every STUN server, so two pages are the same if and only if the URLs in them are.
pub proof fn law_page_round_url(stun_server: Seq<char>, other: Seq<char>)
    ensures
        viewer_page(stun_server).len() == VIEWER_HTML_HEAD@.len() + ice_url(stun_server).len()
            + VIEWER_HTML_TAIL@.len(),
        VIEWER_HTML_HEAD@.is_prefix_of(viewer_page(stun_server)),
        VIEWER_HTML_TAIL@.is_suffix_of(viewer_page(stun_server)),
        viewer_page(stun_server).subrange(
            VIEWER_HTML_HEAD@.len() as int,
            viewer_page(stun_server).len() - VIEWER_HTML_TAIL@.len(),
        ) == ice_url(stun_server),
        viewer_page(stun_server) == viewer_page(other) <==> ice_url(stun_server) == ice_url(other),
{
    let h = VIEWER_HTML_HEAD@;
    let t = VIEWER_HTML_TAIL@;
    let page = viewer_page(stun_server);
    let url = ice_url(stun_server);
    assert(h =~= page.subrange(0, h.len() as int));
    assert(t =~= page.subrange(page.len() - t.len(), page.len() as int));
    assert(page.subrange(h.len() as int, page.len() - t.len()) =~= url);
    let second = viewer_page(other);
    assert(second.subrange(h.len() as int, second.len() - t.len()) =~= ice_url(other));
}

/// The page for a URL that begins with `stun://` holds that URL with `stun:` in its place.
pub proof fn law_page_for_stun_url(rest: Seq<char>)
    ensures
        viewer_page("stun://"@ + rest) == VIEWER_HTML_HEAD@ + ("stun:"@ + rest)
            + VIEWER_HTML_TAIL@,
{
    law_stun_scheme_shortened(rest);
}

/// The page names the STUN server.
pub proof fn law_page_names_stun_server(stun_server: Seq<char>)
    ensures
        text::occurs(viewer_page(stun_server), ice_url(stun_server)),
{
    text::lemma_middle_occurs(VIEWER_HTML_HEAD@, ice_url(stun_server), VIEWER_HTML_TAIL@);
}

/// The page up to the URL of the ICE server.
pub const VIEWER_HTML_HEAD: &'static str = r#"<!DOCTYPE html>
<html>
<head>
<meta charset="utf-8">
<title>Oden WebRTC Viewer</title>
<style>
  * { margin: 0; padding: 0; box-sizing: border-box; }
  body { background: #1a1a1a; color: #eee; font-family: system-ui, sans-serif; display: flex; flex-direction: column; align-items: center; min-height: 100vh; padding: 16px; }
  h1 { margin-bottom: 12px; font-size: 1.2em; color: #aaa; }
  #grid { display: grid; grid-template-columns: repeat(auto-fit, minmax(480px, 1fr)); gap: 12px; width: 100%; max-width: 1920px; }
  .stream { background: #222; border-radius: 6px; overflow: hidden; }
  .stream-header { display: flex; justify-content: space-between; padding: 8px 12px; font-size: 0.85em; }
  .stream-label { color: #ccc; }
  .stream-status { color: #888; }
  .stream video { width: 100%; background: #000; display: block; }
</style>
</head>
<body>
<h1>Oden WebRTC Viewer</h1>
<div id="grid"></div>
<script>
async function init() {
  const res = await fetch('/streams');
  const streams = await res.json();
  const grid = document.getElementById('grid');

  streams.forEach(s => {
    const div = document.createElement('div');
    div.className = 'stream';
    div.innerHTML = `
      <div class="stream-header">
        <span class="stream-label">Stream ${s.id} &mdash; ${s.address}</span>
        <span class="stream-status" id="status-${s.id}">Connecting...</span>
      </div>
      <video id="video-${s.id}" autoplay playsinline muted></video>
    `;
    grid.appendChild(div);
    connectStream(s.id);
  });
}

function connectStream(id) {
  const status = document.getElementById(`status-${id}`);
  const video = document.getElementById(`video-${id}`);
  const proto = location.protocol === 'https:' ? 'wss:' : 'ws:';
  const ws = new WebSocket(`${proto}//${location.host}/ws/${id}`);
  let pc = null;

  ws.onopen = () => {
    status.textContent = 'Waiting for offer...';
  };

  ws.onclose = () => {
    status.textContent = 'Disconnected. Reconnecting...';
    if (pc) { pc.close(); pc = null; }
    setTimeout(() => connectStream(id), 2000);
  };

  ws.onerror = () => ws.close();

  ws.onmessage = async (ev) => {
    const msg = JSON.parse(ev.data);

    if (msg.type === 'offer') {
      status.textContent = 'Creating answer...';

      pc = new RTCPeerConnection({
        iceServers: [{ urls: '"#;

/// The page behind the URL of the ICE server.
pub const VIEWER_HTML_TAIL: &'static str = r#"' }]
      });

      pc.ontrack = (e) => {
        status.textContent = 'Streaming';
        video.srcObject = e.streams[0];
      };

      pc.onicecandidate = (e) => {
        if (e.candidate) {
          ws.send(JSON.stringify({
            type: 'ice',
            candidate: e.candidate.candidate,
            sdpMLineIndex: e.candidate.sdpMLineIndex
          }));
        }
      };

      pc.oniceconnectionstatechange = () => {
        if (pc.iceConnectionState === 'connected') {
          status.textContent = 'Connected';
        } else if (pc.iceConnectionState === 'failed' || pc.iceConnectionState === 'disconnected') {
          status.textContent = `ICE: ${pc.iceConnectionState}`;
        }
      };

      await pc.setRemoteDescription({ type: 'offer', sdp: msg.sdp });
      const answer = await pc.createAnswer();
      await pc.setLocalDescription(answer);
      ws.send(JSON.stringify({ type: 'answer', sdp: answer.sdp }));

    } else if (msg.type === 'ice') {
      if (pc) {
        await pc.addIceCandidate({
          candidate: msg.candidate,
          sdpMLineIndex: msg.sdpMLineIndex
        });
      }
    }
  };
}

init();
</script>
</body>
</html>"#;

} // verus!
