//! What the server is told when it starts.
use vstd::prelude::*;
use vstd::string::*;

use crate::text;

verus! {

/// The source that is streamed when none is named.
pub const DEFAULT_IPC_ADDRESS: &'static str = "/tmp/ipc_0";

/// The port on which the server listens by default.
pub const DEFAULT_PORT: u16 = 8080;

/// The default video bitrate, in kbit/s.
pub const DEFAULT_BITRATE: u32 = 4000;

/// The STUN server that is used by default.
pub const DEFAULT_STUN_SERVER: &'static str = "stun://stun.l.google.com:19302";

/// The settings of a server.
#[derive(Debug, Clone)]
pub struct Config {
    /// The CUDA IPC sockets to stream from, one stream each.
    pub ipc_address: Vec<String>,
    /// The port on which the HTTP server listens.
    pub port: u16,
    /// The video bitrate in kbit/s.
    pub bitrate: u32,
    /// Whether a synthetic picture is streamed instead of the sockets' video.
    pub test_src: bool,
    /// The URL of the STUN server.
    pub stun_server: String,
    /// Whether the viewer page is served.
    pub local: bool,
    /// The RTMP URLs to which streams are pushed: the n-th is for the n-th stream.
    pub relay_url: Vec<String>,
}

impl Default for Config {
    /// The settings that hold when no option is given.
    fn default() -> (r: Self)
        ensures
            r.ipc_address@.len() == 0,
            r.port == 8080,
            r.bitrate == 4000,
            !r.test_src,
            r.stun_server@ == "stun://stun.l.google.com:19302"@,
            !r.local,
            r.relay_url@.len() == 0,
    {
        Config {
            ipc_address: Vec::new(),
            port: DEFAULT_PORT,
            bitrate: DEFAULT_BITRATE,
            test_src: false,
            stun_server: DEFAULT_STUN_SERVER.to_owned(),
            local: false,
            relay_url: Vec::new(),
        }
    }
}

/// The sources to stream, given those that are named: these, or the default one where
/// there are none.
pub open spec fn effective_addresses(named: Seq<Seq<char>>) -> Seq<Seq<char>> {
    if named.len() == 0 {
        seq!["/tmp/ipc_0"@]
    } else {
        named
    }
}

impl Config {
    /// The sources to stream, one for each stream.
    pub fn addresses(&self) -> (r: Vec<String>)
        ensures
            text::texts(r@) == effective_addresses(text::texts(self.ipc_address@)),
            self.ipc_address@.len() == 0 ==> r@.len() == 1 && r@[0]@ == "/tmp/ipc_0"@,
            self.ipc_address@.len() > 0 ==> r@.len() == self.ipc_address@.len(),
            forall|i: int|
                0 <= i < self.ipc_address@.len() ==> (#[trigger] r@[i])@ == self.ipc_address@[i]@,
    {
        let mut out: Vec<String> = Vec::new();
        if self.ipc_address.len() == 0 {
            out.push(DEFAULT_IPC_ADDRESS.to_owned());
            assert(text::texts(out@) =~= seq!["/tmp/ipc_0"@]);
            return out;
        }
        let mut i: usize = 0;
        while i < self.ipc_address.len()
            invariant
                i <= self.ipc_address@.len(),
                out@.len() == i,
                forall|j: int| 0 <= j < i ==> (#[trigger] out@[j])@ == self.ipc_address@[j]@,
            decreases self.ipc_address@.len() - i,
        {
            out.push(self.ipc_address[i].clone());
            i = i + 1;
        }
        assert(text::texts(out@) =~= text::texts(self.ipc_address@));
        out
    }

    /// The socket address on which the HTTP server listens: the port, on every interface.
    pub fn listen_address(&self) -> (r: String)
        ensures
            r@ == "0.0.0.0:"@ + text::decimal(self.port as nat),
    {
        let mut out = "0.0.0.0:".to_owned();
        out.append(text::decimal_text(self.port as u64).as_str());
        out
    }
}

/// Whenever a source is named, the sources are exactly the named ones, as many and in the
/// same order: the default one does not join them.
pub proof fn law_named_sources_kept(named: Seq<Seq<char>>)
    requires
        named.len() > 0,
    ensures
        effective_addresses(named) == named,
{
}

/// Only where none is named there is the default source, and it alone.
pub proof fn law_default_source_alone(named: Seq<Seq<char>>)
    requires
        named.len() == 0,
    ensures
        effective_addresses(named) == seq!["/tmp/ipc_0"@],
{
}

/// There is always at least one stream.
pub proof fn law_some_address(named: Seq<Seq<char>>)
    ensures
        effective_addresses(named).len() > 0,
{
}

} // verus!
