//! The media pipeline: the choice of the encoder, the launch text, and the streams that
//! viewers can join.
use vstd::prelude::*;
use vstd::string::*;

use crate::config::Config;
use crate::text;

verus! {

/// The element that encodes on the GPU.
pub const GPU_ENCODER: &'static str = "nvcudah264enc";

/// The element that encodes on the CPU.
pub const CPU_ENCODER: &'static str = "x264enc";

/// The H.264 encoder of a pipeline.
#[derive(Debug, Clone, Copy, PartialEq, Eq, Structural)]
pub enum Encoder {
    Gpu,
    Cpu,
}

impl Encoder {
    /// The GPU encoder where it is installed, else the CPU encoder.
    pub fn select(gpu_available: bool) -> (r: Encoder)
        ensures
            r == (if gpu_available {
                Encoder::Gpu
            } else {
                Encoder::Cpu
            }),
    {
        if gpu_available {
            Encoder::Gpu
        } else {
            Encoder::Cpu
        }
    }

    /// The name of the encoding element.
    pub fn element(&self) -> (r: &'static str)
        ensures
            r@ == (match self {
                Encoder::Gpu => "nvcudah264enc"@,
                Encoder::Cpu => "x264enc"@,
            }),
    {
        match self {
            Encoder::Gpu => GPU_ENCODER,
            Encoder::Cpu => CPU_ENCODER,
        }
    }
}

/// The part of a stream's launch text that produces raw video: one of 25 test patterns in
/// turn, or the frames of the socket at `address`, at 30 frames per second.
pub open spec fn source_text(test_src: bool, i: nat, address: Seq<char>) -> Seq<char> {
    if test_src {
        "videotestsrc is-live=true pattern="@ + text::decimal(i % 25)
            + " ! video/x-raw,format=NV12,width=640,height=360,framerate=30/1"@
    } else {
        "cudaipcsrc address="@ + address
            + " ! cudadownload ! videorate drop-only=true ! video/x-raw,framerate=30/1 ! cudaupload"@
    }
}

/// The part that encodes raw video as H.264 in the baseline profile, at `bitrate` kbit/s
/// and with as little delay as the encoder can give.
pub open spec fn encoder_text(encoder: Encoder, bitrate: nat) -> Seq<char> {
    match encoder {
        Encoder::Gpu => "nvcudah264enc bitrate="@ + text::decimal(bitrate)
            + " preset=p1 tune=ultra-low-latency rate-control=cbr ! video/x-h264,profile=baseline"@,
        Encoder::Cpu => "x264enc bitrate="@ + text::decimal(bitrate)
            + " speed-preset=ultrafast tune=zerolatency ! video/x-h264,profile=baseline"@,
    }
}

/// The name of the tee from which the viewers of stream `i` take RTP packets.
pub open spec fn tee_name(i: nat) -> Seq<char> {
    "t"@ + text::decimal(i)
}

/// The name of the tee that splits the encoded video of stream `i` when it may be relayed.
pub open spec fn raw_tee_name(i: nat) -> Seq<char> {
    "raw_t"@ + text::decimal(i)
}

/// The part that puts H.264 into RTP packets.
pub open spec fn packets_text() -> Seq<char> {
    "rtph264pay config-interval=-1 pt=96 ! application/x-rtp,media=video,encoding-name=H264,payload=96"@
}

/// The tee at which viewers join stream `i`. It goes on when nobody is watching.
pub open spec fn viewer_tee_text(i: nat) -> Seq<char> {
    "tee name="@ + tee_name(i) + " allow-not-linked=true"@
}

/// The part that takes H.264 to the viewers of stream `i`.
pub open spec fn viewer_branch_text(i: nat) -> Seq<char> {
    packets_text() + " ! "@ + viewer_tee_text(i)
}

/// The branch that pushes the encoded video of stream `i` to `url` over RTMP.
pub open spec fn relay_branch_text(i: nat, url: Seq<char>) -> Seq<char> {
    " "@ + raw_tee_name(i) + ". ! queue ! h264parse ! flvmux streamable=true ! rtmpsink location="@
        + url
}

/// The launch text of stream `i` when nothing is relayed: source, encoder, RTP, viewers.
pub open spec fn plain_chain_text(i: nat, source: Seq<char>, encoder: Seq<char>) -> Seq<char> {
    source + " ! "@ + encoder + " ! "@ + viewer_branch_text(i)
}

/// The launch text of stream `i` when streams are relayed: the encoded video is split
/// before it is put into packets, one branch goes to the viewers, and another, where the
/// stream has a relay URL, to that URL.
pub open spec fn relayed_chain_text(
    i: nat,
    source: Seq<char>,
    encoder: Seq<char>,
    relay: Option<Seq<char>>,
) -> Seq<char> {
    source + " ! "@ + encoder + " ! tee name="@ + raw_tee_name(i) + " allow-not-linked=true "@
        + raw_tee_name(i) + ". ! queue ! "@ + viewer_branch_text(i) + (
    match relay {
        Some(url) => relay_branch_text(i, url),
        None => Seq::empty(),
    })
}

/// The relay URL of stream `i`: the one at the same place in the list, if there is one.
pub open spec fn relay_of(relay_urls: Seq<Seq<char>>, i: int) -> Option<Seq<char>> {
    if 0 <= i < relay_urls.len() {
        Some(relay_urls[i])
    } else {
        None
    }
}

/// The launch text of stream `i`.
pub open spec fn chain_text(
    i: nat,
    address: Seq<char>,
    encoder: Encoder,
    bitrate: nat,
    test_src: bool,
    relay_urls: Seq<Seq<char>>,
) -> Seq<char> {
    let source = source_text(test_src, i, address);
    let encoding = encoder_text(encoder, bitrate);
    if relay_urls.len() > 0 {
        relayed_chain_text(i, source, encoding, relay_of(relay_urls, i as int))
    } else {
        plain_chain_text(i, source, encoding)
    }
}

/// The launch texts of all streams, in the order of their addresses.
pub open spec fn chain_texts(
    addresses: Seq<Seq<char>>,
    encoder: Encoder,
    config: Config,
) -> Seq<Seq<char>> {
    Seq::new(
        addresses.len(),
        |i: int|
            chain_text(
                i as nat,
                addresses[i],
                encoder,
                config.bitrate as nat,
                config.test_src,
                text::texts(config.relay_url@),
            ),
    )
}

/// The launch text of the whole pipeline.
pub open spec fn launch_text(
    addresses: Seq<Seq<char>>,
    encoder: Encoder,
    config: Config,
) -> Seq<char> {
    text::join_texts(chain_texts(addresses, encoder, config), " "@)
}

/// Writes `source_text`.
fn source_description(test_src: bool, i: usize, address: &str) -> (r: String)
    ensures
        r@ == source_text(test_src, i as nat, address@),
{
    if test_src {
        let mut out = "videotestsrc is-live=true pattern=".to_owned();
        out.append(text::decimal_text((i % 25) as u64).as_str());
        out.append(" ! video/x-raw,format=NV12,width=640,height=360,framerate=30/1");
        out
    } else {
        let mut out = "cudaipcsrc address=".to_owned();
        out.append(address);
        out.append(
            " ! cudadownload ! videorate drop-only=true ! video/x-raw,framerate=30/1 ! cudaupload",
        );
        out
    }
}

/// Writes `encoder_text`.
fn encoder_description(encoder: Encoder, bitrate: u32) -> (r: String)
    ensures
        r@ == encoder_text(encoder, bitrate as nat),
{
    let rate = text::decimal_text(bitrate as u64);
    match encoder {
        Encoder::Gpu => {
            let mut out = "nvcudah264enc bitrate=".to_owned();
            out.append(rate.as_str());
            out.append(
                " preset=p1 tune=ultra-low-latency rate-control=cbr ! video/x-h264,profile=baseline",
            );
            out
        },
        Encoder::Cpu => {
            let mut out = "x264enc bitrate=".to_owned();
            out.append(rate.as_str());
            out.append(
                " speed-preset=ultrafast tune=zerolatency ! video/x-h264,profile=baseline",
            );
            out
        },
    }
}

/// Writes `tee_name`.
fn viewer_tee_name(i: usize) -> (r: String)
    ensures
        r@ == tee_name(i as nat),
{
    let mut out = "t".to_owned();
    out.append(text::decimal_text(i as u64).as_str());
    out
}

/// Writes `raw_tee_name`.
fn relay_tee_name(i: usize) -> (r: String)
    ensures
        r@ == raw_tee_name(i as nat),
{
    let mut out = "raw_t".to_owned();
    out.append(text::decimal_text(i as u64).as_str());
    out
}

/// Writes `viewer_branch_text` behind what `out` holds.
fn append_viewer_branch(out: &mut String, i: usize)
    ensures
        final(out)@ == old(out)@ + viewer_branch_text(i as nat),
{
    out.append(
        "rtph264pay config-interval=-1 pt=96 ! application/x-rtp,media=video,encoding-name=H264,payload=96",
    );
    out.append(" ! ");
    out.append("tee name=");
    out.append(viewer_tee_name(i).as_str());
    out.append(" allow-not-linked=true");
    assert(out@ =~= old(out)@ + viewer_branch_text(i as nat));
}

/// Writes `relay_branch_text` behind what `out` holds.
fn append_relay_branch(out: &mut String, i: usize, url: &str)
    ensures
        final(out)@ == old(out)@ + relay_branch_text(i as nat, url@),
{
    out.append(" ");
    out.append(relay_tee_name(i).as_str());
    out.append(". ! queue ! h264parse ! flvmux streamable=true ! rtmpsink location=");
    out.append(url);
    assert(out@ =~= old(out)@ + relay_branch_text(i as nat, url@));
}

/// The launch text of one stream.
pub fn chain_description(i: usize, address: &str, encoder: Encoder, config: &Config) -> (r: String)
    ensures
        r@ == chain_text(
            i as nat,
            address@,
            encoder,
            config.bitrate as nat,
            config.test_src,
            text::texts(config.relay_url@),
        ),
{
    let ghost source = source_text(config.test_src, i as nat, address@);
    let ghost encoding = encoder_text(encoder, config.bitrate as nat);
    let mut out = source_description(config.test_src, i, address);
    out.append(" ! ");
    out.append(encoder_description(encoder, config.bitrate).as_str());
    if config.relay_url.len() == 0 {
        out.append(" ! ");
        append_viewer_branch(&mut out, i);
        assert(out@ =~= plain_chain_text(i as nat, source, encoding));
        return out;
    }
    let raw_tee = relay_tee_name(i);
    out.append(" ! tee name=");
    out.append(raw_tee.as_str());
    out.append(" allow-not-linked=true ");
    out.append(raw_tee.as_str());
    out.append(". ! queue ! ");
    append_viewer_branch(&mut out, i);
    if i < config.relay_url.len() {
        append_relay_branch(&mut out, i, config.relay_url[i].as_str());
    }
    assert(out@ =~= relayed_chain_text(
        i as nat,
        source,
        encoding,
        relay_of(text::texts(config.relay_url@), i as int),
    ));
    out
}

/// One stream of the pipeline, as its viewers' sessions need it.
#[derive(Debug, Clone)]
pub struct StreamHandle {
    /// The name of the tee at which sessions join the stream.
    pub tee: String,
    /// The URL of the STUN server that sessions use.
    pub stun_server: String,
    /// The place of the stream among all streams.
    pub stream_index: usize,
}

/// What a stream handle says.
pub struct Stream {
    pub tee: Seq<char>,
    pub stun_server: Seq<char>,
    pub stream_index: nat,
}

impl View for StreamHandle {
    type V = Stream;

    open spec fn view(&self) -> Stream {
        Stream {
            tee: self.tee@,
            stun_server: self.stun_server@,
            stream_index: self.stream_index as nat,
        }
    }
}

/// Stream `i` of a pipeline whose sessions use `stun_server`.
pub open spec fn stream(i: nat, stun_server: Seq<char>) -> Stream {
    Stream { tee: tee_name(i), stun_server, stream_index: i }
}

/// What the handles say, in their order.
pub open spec fn streams(handles: Seq<StreamHandle>) -> Seq<Stream> {
    handles.map_values(|h: StreamHandle| h@)
}

/// The streams 0 to `n - 1`.
pub open spec fn first_streams(n: nat, stun_server: Seq<char>) -> Seq<Stream> {
    Seq::new(n, |i: int| stream(i as nat, stun_server))
}

/// A pipeline to launch and its streams.
#[derive(Debug)]
pub struct PipelineSetup {
    /// The launch text.
    pub description: String,
    /// The streams, in the order of their addresses. Each names a tee of the pipeline.
    pub handles: Vec<StreamHandle>,
}

/// The pipeline that streams from `addresses`. `gpu_available` says whether the GPU encoder
/// is installed.
pub fn setup_all_streams(addresses: &[String], config: &Config, gpu_available: bool) -> (r:
    PipelineSetup)
    ensures
        r.description@ == launch_text(
            text::texts(addresses@),
            if gpu_available {
                Encoder::Gpu
            } else {
                Encoder::Cpu
            },
            *config,
        ),
        streams(r.handles@) == first_streams(addresses@.len(), config.stun_server@),
        r.handles@.len() == addresses@.len(),
        forall|i: int|
            0 <= i < addresses@.len() ==> (#[trigger] r.handles@[i]).stun_server@
                == config.stun_server@ && r.handles@[i].stream_index == i && r.handles@[i].tee@
                == "t"@ + text::decimal(i as nat),
{
    let encoder = Encoder::select(gpu_available);
    let ghost wanted = chain_texts(text::texts(addresses@), encoder, *config);
    let mut chains: Vec<String> = Vec::new();
    let mut handles: Vec<StreamHandle> = Vec::new();
    let mut i: usize = 0;
    while i < addresses.len()
        invariant
            i <= addresses@.len(),
            wanted == chain_texts(text::texts(addresses@), encoder, *config),
            chains@.len() == i,
            handles@.len() == i,
            forall|j: int| 0 <= j < i ==> (#[trigger] chains@[j])@ == wanted[j],
            forall|j: int|
                0 <= j < i ==> (#[trigger] handles@[j])@ == stream(j as nat, config.stun_server@)
                    && handles@[j].stun_server@ == config.stun_server@ && handles@[j].stream_index
                    == j && handles@[j].tee@ == "t"@ + text::decimal(j as nat),
        decreases addresses@.len() - i,
    {
        chains.push(chain_description(i, addresses[i].as_str(), encoder, config));
        handles.push(
            StreamHandle {
                tee: viewer_tee_name(i),
                stun_server: config.stun_server.clone(),
                stream_index: i,
            },
        );
        i = i + 1;
    }
    assert(text::texts(chains@) =~= wanted);
    assert(streams(handles@) =~= first_streams(addresses@.len(), config.stun_server@));
    PipelineSetup { description: text::join(&chains, " "), handles }
}

/// Every chain, relayed or not, ends the viewers' packets in the stream's own tee: viewers
/// can join each stream whether or not streams are relayed.
pub proof fn law_chain_has_viewer_tee(
    i: nat,
    address: Seq<char>,
    encoder: Encoder,
    bitrate: nat,
    test_src: bool,
    relay_urls: Seq<Seq<char>>,
)
    ensures
        text::occurs(
            chain_text(i, address, encoder, bitrate, test_src, relay_urls),
            viewer_branch_text(i),
        ),
{
    let source = source_text(test_src, i, address);
    let encoding = encoder_text(encoder, bitrate);
    let viewers = viewer_branch_text(i);
    let chain = chain_text(i, address, encoder, bitrate, test_src, relay_urls);
    let none = Seq::<char>::empty();
    if relay_urls.len() > 0 {
        let before = source + " ! "@ + encoding + " ! tee name="@ + raw_tee_name(i)
            + " allow-not-linked=true "@ + raw_tee_name(i) + ". ! queue ! "@;
        let after = match relay_of(relay_urls, i as int) {
            Some(url) => relay_branch_text(i, url),
            None => none,
        };
        text::lemma_middle_occurs(before, viewers, after);
        assert(before + viewers + after == chain);
    } else {
        let before = source + " ! "@ + encoding + " ! "@;
        text::lemma_middle_occurs(before, viewers, none);
        assert(before + viewers + none =~= chain);
    }
}

/// The launch text of the pipeline declares the tee of each stream.
pub proof fn law_launch_text_declares_tees(
    addresses: Seq<Seq<char>>,
    encoder: Encoder,
    config: Config,
    i: nat,
)
    requires
        i < addresses.len(),
    ensures
        text::occurs(launch_text(addresses, encoder, config), viewer_tee_text(i)),
{
    let chains = chain_texts(addresses, encoder, config);
    let none = Seq::<char>::empty();
    let viewers = viewer_branch_text(i);
    law_chain_has_viewer_tee(
        i,
        addresses[i as int],
        encoder,
        config.bitrate as nat,
        config.test_src,
        text::texts(config.relay_url@),
    );
    text::lemma_joined_holds_parts(chains, " "@, chains.len(), i as int);
    text::lemma_middle_occurs(packets_text() + " ! "@, viewer_tee_text(i), none);
    assert(viewers + none =~= viewers);
    text::lemma_occurs_transitive(chains[i as int], viewers, viewer_tee_text(i));
    text::lemma_occurs_transitive(
        launch_text(addresses, encoder, config),
        chains[i as int],
        viewer_tee_text(i),
    );
}

/// Without relay URLs no stream is split or pushed: each chain runs straight from the
/// source to its viewers.
pub proof fn law_no_relay_url_plain_chain(
    i: nat,
    address: Seq<char>,
    encoder: Encoder,
    bitrate: nat,
    test_src: bool,
)
    ensures
        chain_text(i, address, encoder, bitrate, test_src, Seq::empty()) == plain_chain_text(
            i,
            source_text(test_src, i, address),
            encoder_text(encoder, bitrate),
        ),
{
}

/// A stream is pushed to the relay URL at its own place in the list, and to no other: the
/// rest of its chain does not depend on which URLs there are.
pub proof fn law_relay_url_by_index(
    i: nat,
    address: Seq<char>,
    encoder: Encoder,
    bitrate: nat,
    test_src: bool,
    relay_urls: Seq<Seq<char>>,
)
    requires
        relay_urls.len() > 0,
    ensures
        chain_text(i, address, encoder, bitrate, test_src, relay_urls) == relayed_chain_text(
            i,
            source_text(test_src, i, address),
            encoder_text(encoder, bitrate),
            None,
        ) + (if i < relay_urls.len() {
            relay_branch_text(i, relay_urls[i as int])
        } else {
            Seq::empty()
        }),
{
    let source = source_text(test_src, i, address);
    let encoding = encoder_text(encoder, bitrate);
    let unpushed = relayed_chain_text(i, source, encoding, None);
    let chain = chain_text(i, address, encoder, bitrate, test_src, relay_urls);
    if i < relay_urls.len() {
        assert(chain =~= unpushed + relay_branch_text(i, relay_urls[i as int]));
    } else {
        assert(chain =~= unpushed + Seq::<char>::empty());
    }
}

/// No two tees of a pipeline have the same name.
pub proof fn law_tee_names_distinct(i: nat, j: nat)
    ensures
        tee_name(i) == tee_name(j) ==> i == j,
        raw_tee_name(i) == raw_tee_name(j) ==> i == j,
        tee_name(i) != raw_tee_name(j),
{
    reveal_strlit("t");
    reveal_strlit("raw_t");
    if tee_name(i) == tee_name(j) {
        assert(tee_name(i).skip(1) =~= text::decimal(i));
        assert(tee_name(j).skip(1) =~= text::decimal(j));
        text::law_decimal_injective(i, j);
    }
    if raw_tee_name(i) == raw_tee_name(j) {
        assert(raw_tee_name(i).skip(5) =~= text::decimal(i));
        assert(raw_tee_name(j).skip(5) =~= text::decimal(j));
        text::law_decimal_injective(i, j);
    }
    assert(tee_name(i)[0] == 't');
    assert(raw_tee_name(j)[0] == 'r');
}

/// Video of a CUDA source is read from that source's address, and from no other, at 30
/// frames per second; a synthetic picture needs no address, and its pattern is one of 25, in
/// turn: the same for two streams if and only if their places differ by a multiple of 25.
pub proof fn law_source(i: nat, j: nat, address: Seq<char>, other: Seq<char>)
    ensures
        source_text(false, i, address) == "cudaipcsrc address="@ + address
            + " ! cudadownload ! videorate drop-only=true ! video/x-raw,framerate=30/1 ! cudaupload"@,
        source_text(false, i, address) == source_text(false, j, other) ==> address == other,
        source_text(true, i, address) == source_text(true, i, other),
        exists|pattern: nat|
            pattern < 25 && (i - pattern) % 25 == 0 && source_text(true, i, address) == (
            "videotestsrc is-live=true pattern="@ + #[trigger] text::decimal(pattern)
                + " ! video/x-raw,format=NV12,width=640,height=360,framerate=30/1"@),
        source_text(true, i, address) == source_text(true, j, other) <==> (i - j) % 25 == 0,
{
    let a = "cudaipcsrc address="@;
    let z =
        " ! cudadownload ! videorate drop-only=true ! video/x-raw,framerate=30/1 ! cudaupload"@;
    if a + address + z == a + other + z {
        lemma_same_middle(a, address, other, z);
    }
    let v = "videotestsrc is-live=true pattern="@;
    let w = " ! video/x-raw,format=NV12,width=640,height=360,framerate=30/1"@;
    assert(i % 25 < 25);
    assert(source_text(true, i, address) == v + text::decimal(i % 25) + w);
    if source_text(true, i, address) == source_text(true, j, other) {
        lemma_same_middle(v, text::decimal(i % 25), text::decimal(j % 25), w);
        text::law_decimal_injective(i % 25, j % 25);
    }
}

/// Two texts that agree before and behind their middles have the same middle.
proof fn lemma_same_middle(a: Seq<char>, m: Seq<char>, n: Seq<char>, z: Seq<char>)
    requires
        a + m + z == a + n + z,
    ensures
        m == n,
{
    let l = a + m + z;
    let r = a + n + z;
    assert(l.len() == r.len());
    assert(l.subrange(a.len() as int, a.len() as int + m.len()) =~= m);
    assert(r.subrange(a.len() as int, a.len() as int + n.len()) =~= n);
}

/// Each encoder is given the configured bitrate and writes H.264 in the baseline profile;
/// different encoders, and different bitrates, are written differently.
pub proof fn law_encoding(bitrate: nat, other: nat)
    ensures
        encoder_text(Encoder::Gpu, bitrate) == "nvcudah264enc bitrate="@ + text::decimal(bitrate)
            + " preset=p1 tune=ultra-low-latency rate-control=cbr ! video/x-h264,profile=baseline"@,
        encoder_text(Encoder::Cpu, bitrate) == "x264enc bitrate="@ + text::decimal(bitrate)
            + " speed-preset=ultrafast tune=zerolatency ! video/x-h264,profile=baseline"@,
        encoder_text(Encoder::Gpu, bitrate) != encoder_text(Encoder::Cpu, other),
        encoder_text(Encoder::Gpu, bitrate) == encoder_text(Encoder::Gpu, other) ==> bitrate
            == other,
        encoder_text(Encoder::Cpu, bitrate) == encoder_text(Encoder::Cpu, other) ==> bitrate
            == other,
{
    reveal_strlit("nvcudah264enc bitrate=");
    reveal_strlit("x264enc bitrate=");
    assert(encoder_text(Encoder::Gpu, bitrate)[0] == 'n');
    assert(encoder_text(Encoder::Cpu, other)[0] == 'x');
    if encoder_text(Encoder::Gpu, bitrate) == encoder_text(Encoder::Gpu, other) {
        lemma_same_middle(
            "nvcudah264enc bitrate="@,
            text::decimal(bitrate),
            text::decimal(other),
            " preset=p1 tune=ultra-low-latency rate-control=cbr ! video/x-h264,profile=baseline"@,
        );
        text::law_decimal_injective(bitrate, other);
    }
    if encoder_text(Encoder::Cpu, bitrate) == encoder_text(Encoder::Cpu, other) {
        lemma_same_middle(
            "x264enc bitrate="@,
            text::decimal(bitrate),
            text::decimal(other),
            " speed-preset=ultrafast tune=zerolatency ! video/x-h264,profile=baseline"@,
        );
        text::law_decimal_injective(bitrate, other);
    }
}

/// How an encoder is written up to its bitrate.
spec fn encoder_head(encoder: Encoder) -> Seq<char> {
    match encoder {
        Encoder::Gpu => "nvcudah264enc bitrate="@,
        Encoder::Cpu => "x264enc bitrate="@,
    }
}

/// Whatever is relayed, the launch text of a stream begins with its source and the selected
/// encoder at the configured bitrate: relay URLs change neither.
pub proof fn law_relay_keeps_source_and_encoder(
    i: nat,
    address: Seq<char>,
    encoder: Encoder,
    bitrate: nat,
    test_src: bool,
    relay_urls: Seq<Seq<char>>,
)
    ensures
        (source_text(test_src, i, address) + " ! "@ + encoder_text(encoder, bitrate)
            + " ! "@).is_prefix_of(
            chain_text(i, address, encoder, bitrate, test_src, relay_urls),
        ),
{
    reveal_strlit(" ! ");
    reveal_strlit(" ! tee name=");
    let begin = source_text(test_src, i, address) + " ! "@ + encoder_text(encoder, bitrate);
    let chain = chain_text(i, address, encoder, bitrate, test_src, relay_urls);
    if relay_urls.len() > 0 {
        let tee = " ! tee name="@;
        let more = raw_tee_name(i) + (" allow-not-linked=true "@ + (raw_tee_name(i) + (
        ". ! queue ! "@ + (viewer_branch_text(i) + (match relay_of(relay_urls, i as int) {
            Some(url) => relay_branch_text(i, url),
            None => Seq::empty(),
        })))));
        assert(chain =~= begin + tee + more);
        assert((begin + " ! "@) =~= (begin + tee + more).subrange(0, begin.len() as int + 3));
    } else {
        assert(chain =~= begin + " ! "@ + viewer_branch_text(i));
        assert((begin + " ! "@) =~= chain.subrange(0, begin.len() as int + 3));
    }
}

/// With either encoder, and whatever is relayed, the configured bitrate stands in the launch
/// text of every stream.
pub proof fn law_bitrate_in_every_stream(
    addresses: Seq<Seq<char>>,
    encoder: Encoder,
    config: Config,
    i: nat,
)
    requires
        i < addresses.len(),
    ensures
        exists|before: Seq<char>, after: Seq<char>|
            chain_text(
                i,
                addresses[i as int],
                encoder,
                config.bitrate as nat,
                config.test_src,
                text::texts(config.relay_url@),
            ) == #[trigger] (before + ("bitrate="@ + text::decimal(config.bitrate as nat) + " "@)
                + after),
{
    let b = config.bitrate as nat;
    let chain = chain_text(
        i,
        addresses[i as int],
        encoder,
        b,
        config.test_src,
        text::texts(config.relay_url@),
    );
    let source = source_text(config.test_src, i, addresses[i as int]);
    let begin = source + " ! "@ + encoder_text(encoder, b) + " ! "@;
    let part = "bitrate="@ + text::decimal(b) + " "@;
    law_relay_keeps_source_and_encoder(
        i,
        addresses[i as int],
        encoder,
        b,
        config.test_src,
        text::texts(config.relay_url@),
    );
    reveal_strlit("bitrate=");
    reveal_strlit(" ");
    reveal_strlit("nvcudah264enc bitrate=");
    reveal_strlit("x264enc bitrate=");
    reveal_strlit(
        " preset=p1 tune=ultra-low-latency rate-control=cbr ! video/x-h264,profile=baseline",
    );
    reveal_strlit(" speed-preset=ultrafast tune=zerolatency ! video/x-h264,profile=baseline");
    let encoding = encoder_text(encoder, b);
    let k: int = match encoder {
        Encoder::Gpu => 14,
        Encoder::Cpu => 8,
    };
    assert(encoding.subrange(k, k + part.len()) =~= part);
    let at = source.len() + 3 + k;
    reveal_strlit(" ! ");
    assert(begin.subrange(at, at + part.len()) =~= encoding.subrange(k, k + part.len()));
    assert(chain.subrange(0, begin.len() as int) =~= begin);
    assert(chain.subrange(at, at + part.len()) =~= begin.subrange(at, at + part.len()));
    assert(chain =~= chain.take(at) + part + chain.skip(at + part.len()));
}

/// The launch text begins with the launch text of the first stream.
proof fn lemma_launch_text_begins(addresses: Seq<Seq<char>>, encoder: Encoder, config: Config)
    requires
        addresses.len() > 0,
    ensures
        chain_texts(addresses, encoder, config)[0].is_prefix_of(
            launch_text(addresses, encoder, config),
        ),
{
    let chains = chain_texts(addresses, encoder, config);
    let first = seq![chains[0]];
    let rest = chains.skip(1);
    text::law_join_in_pieces(first, rest, " "@);
    assert(first + rest =~= chains);
    let launch = launch_text(addresses, encoder, config);
    if rest.len() == 0 {
        assert(first =~= chains);
        assert(launch == chains[0]);
        assert(chains[0] =~= launch.subrange(0, chains[0].len() as int));
    } else {
        assert(launch == chains[0] + " "@ + text::join_texts(rest, " "@));
        assert(chains[0] =~= launch.subrange(0, chains[0].len() as int));
    }
}

/// The launch text up to the bitrate of the first stream.
proof fn lemma_launch_text_to_bitrate(
    addresses: Seq<Seq<char>>,
    encoder: Encoder,
    config: Config,
) -> (behind: Seq<char>)
    requires
        addresses.len() > 0,
    ensures
        launch_text(addresses, encoder, config) == source_text(config.test_src, 0, addresses[0])
            + " ! "@ + encoder_head(encoder) + (text::decimal(config.bitrate as nat) + behind),
        behind.len() > 0,
        behind[0] == ' ',
{
    let b = config.bitrate as nat;
    let launch = launch_text(addresses, encoder, config);
    let chain = chain_texts(addresses, encoder, config)[0];
    let source = source_text(config.test_src, 0, addresses[0]);
    let begin = source + " ! "@ + encoder_text(encoder, b) + " ! "@;
    lemma_launch_text_begins(addresses, encoder, config);
    law_relay_keeps_source_and_encoder(
        0,
        addresses[0],
        encoder,
        b,
        config.test_src,
        text::texts(config.relay_url@),
    );
    let l = lemma_prefix_splits(chain, launch);
    let c = lemma_prefix_splits(begin, chain);
    let settings = encoder_settings(encoder);
    assert(settings[0] == ' ') by {
        reveal_strlit(
            " preset=p1 tune=ultra-low-latency rate-control=cbr ! video/x-h264,profile=baseline",
        );
        reveal_strlit(" speed-preset=ultrafast tune=zerolatency ! video/x-h264,profile=baseline");
    }
    assert(settings.len() > 0) by {
        reveal_strlit(
            " preset=p1 tune=ultra-low-latency rate-control=cbr ! video/x-h264,profile=baseline",
        );
        reveal_strlit(" speed-preset=ultrafast tune=zerolatency ! video/x-h264,profile=baseline");
    }
    lemma_regroup(source + " ! "@, encoder_head(encoder), text::decimal(b), settings, " ! "@, c, l);
    let behind = settings + (" ! "@ + c + l);
    assert(behind[0] == settings[0]);
    behind
}

/// How an encoder is written behind its bitrate.
spec fn encoder_settings(encoder: Encoder) -> Seq<char> {
    match encoder {
        Encoder::Gpu =>
            " preset=p1 tune=ultra-low-latency rate-control=cbr ! video/x-h264,profile=baseline"@,
        Encoder::Cpu => " speed-preset=ultrafast tune=zerolatency ! video/x-h264,profile=baseline"@,
    }
}

/// A text is what it begins with and a rest.
proof fn lemma_prefix_splits(prefix: Seq<char>, text: Seq<char>) -> (rest: Seq<char>)
    requires
        prefix.is_prefix_of(text),
    ensures
        text == prefix + rest,
{
    let rest = text.skip(prefix.len() as int);
    assert(text =~= text.subrange(0, prefix.len() as int) + rest);
    rest
}

/// Concatenation, grouped in two ways.
proof fn lemma_regroup(
    source: Seq<char>,
    head: Seq<char>,
    number: Seq<char>,
    settings: Seq<char>,
    link: Seq<char>,
    c: Seq<char>,
    l: Seq<char>,
)
    ensures
        source + (head + number + settings) + link + c + l == source + head + (number + (settings
            + (link + c + l))),
{
    assert(source + (head + number + settings) + link + c + l =~= source + head + (number + (
    settings + (link + c + l))));
}

/// Two different bitrates give two different launch texts, with either encoder, any sources
/// and any relay URLs.
pub proof fn law_bitrate_decides_launch_text(
    addresses: Seq<Seq<char>>,
    encoder: Encoder,
    config: Config,
    other: Config,
)
    requires
        addresses.len() > 0,
        config.test_src == other.test_src,
        config.bitrate != other.bitrate,
    ensures
        launch_text(addresses, encoder, config) != launch_text(addresses, encoder, other),
{
    if launch_text(addresses, encoder, config) == launch_text(addresses, encoder, other) {
        let x = lemma_launch_text_to_bitrate(addresses, encoder, config);
        let y = lemma_launch_text_to_bitrate(addresses, encoder, other);
        let front = source_text(config.test_src, 0, addresses[0]) + " ! "@ + encoder_head(encoder);
        let p = text::decimal(config.bitrate as nat) + x;
        let q = text::decimal(other.bitrate as nat) + y;
        assert((front + p).skip(front.len() as int) =~= p);
        assert((front + q).skip(front.len() as int) =~= q);
        text::law_decimal_prefix_code(config.bitrate as nat, other.bitrate as nat, x, y);
    }
}

/// The GPU encoder and the CPU encoder give two different launch texts for the same sources.
pub proof fn law_encoder_decides_launch_text(
    addresses: Seq<Seq<char>>,
    config: Config,
    other: Config,
)
    requires
        addresses.len() > 0,
        config.test_src == other.test_src,
    ensures
        launch_text(addresses, Encoder::Gpu, config) != launch_text(addresses, Encoder::Cpu, other),
{
    let g = launch_text(addresses, Encoder::Gpu, config);
    let c = launch_text(addresses, Encoder::Cpu, other);
    let x = lemma_launch_text_to_bitrate(addresses, Encoder::Gpu, config);
    let y = lemma_launch_text_to_bitrate(addresses, Encoder::Cpu, other);
    let n = (source_text(config.test_src, 0, addresses[0]) + " ! "@).len() as int;
    reveal_strlit("nvcudah264enc bitrate=");
    reveal_strlit("x264enc bitrate=");
    assert(g[n] == 'n');
    assert(c[n] == 'x');
}

/// The launch text of no sources is empty, that of one source is its chain, and one more
/// source adds, behind a space, its chain with the next number; the streams before it stay
/// as they are.
pub proof fn law_launch_text_grows_by_streams(
    addresses: Seq<Seq<char>>,
    more: Seq<char>,
    encoder: Encoder,
    config: Config,
)
    ensures
        ({
            let n = addresses.len();
            let added = chain_text(
                n,
                more,
                encoder,
                config.bitrate as nat,
                config.test_src,
                text::texts(config.relay_url@),
            );
            &&& n == 0 ==> launch_text(addresses, encoder, config).len() == 0
            &&& n == 0 ==> launch_text(addresses.push(more), encoder, config) == added
            &&& n > 0 ==> launch_text(addresses.push(more), encoder, config) == launch_text(
                addresses,
                encoder,
                config,
            ) + " "@ + added
        }),
{
    let chains = chain_texts(addresses, encoder, config);
    let all = chain_texts(addresses.push(more), encoder, config);
    let last = seq![all[addresses.len() as int]];
    assert(all =~= chains + last);
    text::law_join_in_pieces(chains, last, " "@);
    text::law_join_in_pieces(last, chains, " "@);
    if addresses.len() == 0 {
        assert(all =~= last);
    }
}

/// How a stream goes on behind its encoder. Without relay URLs it is put into RTP packets
/// and ends in the viewers' tee. With some it is split first: the viewers' branch is the
/// same, and a branch behind it pushes to the stream's own URL, if it has one.
pub proof fn law_stream_behind_encoder(
    i: nat,
    address: Seq<char>,
    encoder: Encoder,
    bitrate: nat,
    test_src: bool,
    relay_urls: Seq<Seq<char>>,
)
    ensures
        ({
            let begin = source_text(test_src, i, address) + " ! "@ + encoder_text(encoder, bitrate);
            let packets =
                "rtph264pay config-interval=-1 pt=96 ! application/x-rtp,media=video,encoding-name=H264,payload=96"@;
            let viewers = packets + " ! "@ + ("tee name="@ + ("t"@ + text::decimal(i))
                + " allow-not-linked=true"@);
            let raw = "raw_t"@ + text::decimal(i);
            let split = begin + " ! tee name="@ + raw + " allow-not-linked=true "@ + raw
                + ". ! queue ! "@ + viewers;
            let push = " "@ + raw
                + ". ! queue ! h264parse ! flvmux streamable=true ! rtmpsink location="@;
            let chain = chain_text(i, address, encoder, bitrate, test_src, relay_urls);
            &&& relay_urls.len() == 0 ==> chain == begin + " ! "@ + viewers
            &&& 0 < relay_urls.len() <= i ==> chain == split
            &&& i < relay_urls.len() ==> chain == split + (push + relay_urls[i as int])
        }),
{
    let begin = source_text(test_src, i, address) + " ! "@ + encoder_text(encoder, bitrate);
    let split = begin + " ! tee name="@ + raw_tee_name(i) + " allow-not-linked=true "@
        + raw_tee_name(i) + ". ! queue ! "@ + viewer_branch_text(i);
    assert(split + Seq::<char>::empty() =~= split);
}

/// Only the relay URL at a stream's own place matters to it: two lists of URLs, neither
/// empty, that agree there, or both end before it, give the stream the same launch text; and
/// two different URLs there give it different ones.
pub proof fn law_only_own_relay_url_matters(
    i: nat,
    address: Seq<char>,
    encoder: Encoder,
    bitrate: nat,
    test_src: bool,
    urls: Seq<Seq<char>>,
    others: Seq<Seq<char>>,
)
    requires
        urls.len() > 0,
        others.len() > 0,
        i < urls.len() <==> i < others.len(),
    ensures
        chain_text(i, address, encoder, bitrate, test_src, urls) == chain_text(
            i,
            address,
            encoder,
            bitrate,
            test_src,
            others,
        ) <==> (i < urls.len() ==> urls[i as int] == others[i as int]),
{
    law_relay_url_by_index(i, address, encoder, bitrate, test_src, urls);
    law_relay_url_by_index(i, address, encoder, bitrate, test_src, others);
    let a = chain_text(i, address, encoder, bitrate, test_src, urls);
    let b = chain_text(i, address, encoder, bitrate, test_src, others);
    if i < urls.len() && a == b {
        let unpushed = relayed_chain_text(
            i,
            source_text(test_src, i, address),
            encoder_text(encoder, bitrate),
            None,
        );
        let u = urls[i as int];
        let v = others[i as int];
        let p = relay_branch_text(i, u);
        let q = relay_branch_text(i, v);
        let n = (p.len() - u.len()) as int;
        assert((unpushed + p).skip(unpushed.len() + n) =~= u);
        assert((unpushed + q).skip(unpushed.len() + n) =~= v);
    }
}

/// The address of a CUDA source decides its stream's launch text: two different addresses
/// give two different ones.
pub proof fn law_address_decides_stream(
    i: nat,
    address: Seq<char>,
    other: Seq<char>,
    encoder: Encoder,
    bitrate: nat,
    relay_urls: Seq<Seq<char>>,
)
    requires
        address != other,
    ensures
        chain_text(i, address, encoder, bitrate, false, relay_urls) != chain_text(
            i,
            other,
            encoder,
            bitrate,
            false,
            relay_urls,
        ),
{
    let a = chain_text(i, address, encoder, bitrate, false, relay_urls);
    let b = chain_text(i, other, encoder, bitrate, false, relay_urls);
    let none = Seq::<char>::empty();
    let s = source_text(false, i, address);
    let t = source_text(false, i, other);
    let rest = lemma_behind_source(i, encoder, bitrate, relay_urls, address, other);
    if a == b {
        assert(none + s + rest =~= s + rest);
        assert(none + t + rest =~= t + rest);
        lemma_same_middle(none, s, t, rest);
        law_source(i, i, address, other);
    }
}

/// What stands behind the source of a stream does not depend on its address.
proof fn lemma_behind_source(
    i: nat,
    encoder: Encoder,
    bitrate: nat,
    relay_urls: Seq<Seq<char>>,
    address: Seq<char>,
    other: Seq<char>,
) -> (rest: Seq<char>)
    ensures
        chain_text(i, address, encoder, bitrate, false, relay_urls) == source_text(
            false,
            i,
            address,
        ) + rest,
        chain_text(i, other, encoder, bitrate, false, relay_urls) == source_text(false, i, other)
            + rest,
{
    let s = source_text(false, i, address);
    let t = source_text(false, i, other);
    let encoding = encoder_text(encoder, bitrate);
    let none = Seq::<char>::empty();
    if relay_urls.len() > 0 {
        let relay = relay_of(relay_urls, i as int);
        let rest = relayed_chain_text(i, none, encoding, relay);
        assert(relayed_chain_text(i, s, encoding, relay) =~= s + rest);
        assert(relayed_chain_text(i, t, encoding, relay) =~= t + rest);
        rest
    } else {
        let rest = plain_chain_text(i, none, encoding);
        assert(plain_chain_text(i, s, encoding) =~= s + rest);
        assert(plain_chain_text(i, t, encoding) =~= t + rest);
        rest
    }
}

/// The handles of a pipeline: as many as there are streams, each with the STUN server it was
/// given, its own place and the name of its own tee.
pub proof fn law_streams_of_pipeline(n: nat, stun_server: Seq<char>)
    ensures
        first_streams(n, stun_server).len() == n,
        forall|i: int|
            0 <= i < n ==> (#[trigger] first_streams(n, stun_server)[i]).stun_server == stun_server,
        forall|i: int|
            0 <= i < n ==> (#[trigger] first_streams(n, stun_server)[i]).stream_index == i,
        forall|i: int|
            0 <= i < n ==> (#[trigger] first_streams(n, stun_server)[i]).tee == "t"@
                + text::decimal(i as nat),
{
}

/// A handle is seen as what its fields hold, and a row of handles in its order.
pub proof fn law_handles_seen_as_they_are(handles: Seq<StreamHandle>)
    ensures
        streams(handles).len() == handles.len(),
        forall|i: int|
            0 <= i < handles.len() ==> streams(handles)[i] == (Stream {
                tee: (#[trigger] handles[i]).tee@,
                stun_server: handles[i].stun_server@,
                stream_index: handles[i].stream_index as nat,
            }),
{
}

} // verus!
