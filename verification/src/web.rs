//! The HTTP side: the routes, the list of streams, and which stream a browser asks for.
use vstd::prelude::*;
use vstd::string::*;

use crate::json;
use crate::pipeline;
use crate::pipeline::{Stream, StreamHandle};
use crate::text;
use crate::viewer;

verus! {

/// A stream as the list of streams shows it.
#[derive(Debug, Clone)]
pub struct StreamInfo {
    /// The number under which the stream is watched.
    pub id: usize,
    /// Where the stream comes from, which is also its name.
    pub address: String,
}

/// What an entry of the list of streams says.
pub struct Info {
    pub id: nat,
    pub address: Seq<char>,
}

impl View for StreamInfo {
    type V = Info;

    open spec fn view(&self) -> Info {
        Info { id: self.id as nat, address: self.address@ }
    }
}

/// What the entries say, in their order.
pub open spec fn infos(entries: Seq<StreamInfo>) -> Seq<Info> {
    entries.map_values(|e: StreamInfo| e@)
}

/// What pairs of a stream and its entry say.
pub open spec fn pairs(data: Seq<(StreamHandle, StreamInfo)>) -> Seq<(Stream, Info)> {
    data.map_values(|d: (StreamHandle, StreamInfo)| (d.0@, d.1@))
}

/// Each stream with its entry in the list: its place as the number, and its address.
pub open spec fn paired(streams: Seq<Stream>, addresses: Seq<Seq<char>>) -> Seq<(Stream, Info)> {
    Seq::new(
        if streams.len() < addresses.len() {
            streams.len()
        } else {
            addresses.len()
        },
        |i: int| (streams[i], Info { id: i as nat, address: addresses[i] }),
    )
}

/// Pairs each stream with its entry in the list of streams.
pub fn stream_data(handles: Vec<StreamHandle>, addresses: &[String]) -> (r: Vec<
    (StreamHandle, StreamInfo),
>)
    ensures
        pairs(r@) == paired(pipeline::streams(handles@), text::texts(addresses@)),
        r@.len() == (if handles@.len() < addresses@.len() {
            handles@.len()
        } else {
            addresses@.len()
        }),
        forall|i: int|
            0 <= i < r@.len() ==> (#[trigger] r@[i]).0 == handles@[i] && r@[i].1.id == i
                && r@[i].1.address@ == addresses@[i]@,
{
    let ghost all = handles@;
    let ghost wanted = paired(pipeline::streams(all), text::texts(addresses@));
    let mut data: Vec<(StreamHandle, StreamInfo)> = Vec::new();
    for handle in it: handles
        invariant
            it.seq() == all,
            wanted == paired(pipeline::streams(all), text::texts(addresses@)),
            data@.len() == (if it.index() < addresses@.len() {
                it.index()
            } else {
                addresses@.len() as int
            }),
            forall|j: int|
                0 <= j < data@.len() ==> ((#[trigger] data@[j]).0@, data@[j].1@) == wanted[j]
                    && data@[j].0 == all[j] && data@[j].1.id == j && data@[j].1.address@
                    == addresses@[j]@,
    {
        let i = data.len();
        if i < addresses.len() {
            data.push((handle, StreamInfo { id: i, address: addresses[i].clone() }));
        }
    }
    assert(pairs(data@) =~= wanted);
    data
}

/// What a route serves.
#[derive(Debug)]
pub enum Endpoint {
    /// This HTML page.
    Page(String),
    /// The list of streams.
    StreamList,
    /// The WebSocket of a stream, whose number is the path's parameter.
    Signaling,
}

/// A path and what it serves.
#[derive(Debug)]
pub struct Route {
    pub path: String,
    pub endpoint: Endpoint,
}

/// What a route says.
pub enum Service {
    Page { path: Seq<char>, html: Seq<char> },
    StreamList { path: Seq<char> },
    Signaling { path: Seq<char> },
}

impl View for Route {
    type V = Service;

    open spec fn view(&self) -> Service {
        match self.endpoint {
            Endpoint::Page(html) => Service::Page { path: self.path@, html: html@ },
            Endpoint::StreamList => Service::StreamList { path: self.path@ },
            Endpoint::Signaling => Service::Signaling { path: self.path@ },
        }
    }
}

/// What the routes say, in their order.
pub open spec fn services(routes: Seq<Route>) -> Seq<Service> {
    routes.map_values(|r: Route| r@)
}

/// The routes of a server. The viewer page is served only where `local` asks for it.
pub open spec fn route_table(local: bool, stun_server: Seq<char>) -> Seq<Service> {
    (if local {
        seq![Service::Page { path: "/"@, html: viewer::viewer_page(stun_server) }]
    } else {
        Seq::empty()
    }) + seq![
        Service::StreamList { path: "/streams"@ },
        Service::Signaling { path: "/ws/{id}"@ },
    ]
}

/// The routes of a server and the streams behind them.
#[derive(Debug)]
pub struct Router {
    pub streams: Vec<StreamHandle>,
    pub stream_info: Vec<StreamInfo>,
    pub routes: Vec<Route>,
}

/// The router for `streams`.
pub fn create_router(
    streams: Vec<(StreamHandle, StreamInfo)>,
    local: bool,
    stun_server: &str,
) -> (r: Router)
    ensures
        pipeline::streams(r.streams@) == pairs(streams@).map_values(|p: (Stream, Info)| p.0),
        infos(r.stream_info@) == pairs(streams@).map_values(|p: (Stream, Info)| p.1),
        services(r.routes@) == route_table(local, stun_server@),
        r.streams@.len() == streams@.len(),
        r.stream_info@.len() == streams@.len(),
        forall|i: int| 0 <= i < streams@.len() ==> #[trigger] r.streams@[i] == streams@[i].0,
        forall|i: int| 0 <= i < streams@.len() ==> #[trigger] r.stream_info@[i] == streams@[i].1,
        local ==> r.routes@.len() == 3 && r.routes@[0].path@ == "/"@ && (
        r.routes@[0].endpoint matches Endpoint::Page(html) && html@ == viewer::VIEWER_HTML_HEAD@
            + viewer::ice_url(stun_server@) + viewer::VIEWER_HTML_TAIL@),
        !local ==> r.routes@.len() == 2,
        r.routes@[r.routes@.len() - 2].path@ == "/streams"@,
        r.routes@[r.routes@.len() - 2].endpoint is StreamList,
        r.routes@[r.routes@.len() - 1].path@ == "/ws/{id}"@,
        r.routes@[r.routes@.len() - 1].endpoint is Signaling,
{
    let ghost all = streams@;
    let mut handles: Vec<StreamHandle> = Vec::new();
    let mut info: Vec<StreamInfo> = Vec::new();
    for pair in it: streams
        invariant
            it.seq() == all,
            handles@.len() == it.index(),
            info@.len() == it.index(),
            forall|j: int| 0 <= j < it.index() ==> #[trigger] handles@[j] == all[j].0,
            forall|j: int| 0 <= j < it.index() ==> #[trigger] info@[j] == all[j].1,
    {
        let (h, si) = pair;
        handles.push(h);
        info.push(si);
    }
    let mut routes: Vec<Route> = Vec::new();
    if local {
        let html = viewer::viewer_html(stun_server);
        routes.push(Route { path: "/".to_owned(), endpoint: Endpoint::Page(html) });
    }
    routes.push(Route { path: "/streams".to_owned(), endpoint: Endpoint::StreamList });
    routes.push(Route { path: "/ws/{id}".to_owned(), endpoint: Endpoint::Signaling });
    proof {
        assert(pipeline::streams(handles@) =~= pairs(all).map_values(|p: (Stream, Info)| p.0));
        assert(infos(info@) =~= pairs(all).map_values(|p: (Stream, Info)| p.1));
        assert(services(routes@) =~= route_table(local, stun_server@));
    }
    Router { streams: handles, stream_info: info, routes }
}

/// The JSON object that stands for an entry of the list of streams: the number of the
/// stream, its name and its address. A stream is named by its address.
pub open spec fn info_text(info: Info) -> Seq<char> {
    "{\"id\":"@ + text::decimal(info.id) + ",\"name\":"@ + json::json_text(info.address)
        + ",\"address\":"@ + json::json_text(info.address) + "}"@
}

/// The JSON array that stands for the list of streams.
pub open spec fn list_text(list: Seq<Info>) -> Seq<char> {
    "["@ + text::join_texts(list.map_values(|i: Info| info_text(i)), ","@) + "]"@
}

impl StreamInfo {
    /// The entry as a JSON object.
    pub fn to_json(&self) -> (r: String)
        ensures
            r@ == info_text(self@),
    {
        let mut out = "{\"id\":".to_owned();
        out.append(text::decimal_text(self.id as u64).as_str());
        let address = json::json_string(self.address.as_str());
        out.append(",\"name\":");
        out.append(address.as_str());
        out.append(",\"address\":");
        out.append(address.as_str());
        out.append("}");
        out
    }
}

impl Router {
    /// The list of streams as a JSON array.
    pub fn list_streams(&self) -> (r: String)
        ensures
            r@ == list_text(infos(self.stream_info@)),
    {
        let ghost wanted = infos(self.stream_info@).map_values(|i: Info| info_text(i));
        let mut entries: Vec<String> = Vec::new();
        let mut i: usize = 0;
        while i < self.stream_info.len()
            invariant
                i <= self.stream_info@.len(),
                wanted == infos(self.stream_info@).map_values(|i: Info| info_text(i)),
                entries@.len() == i,
                forall|j: int| 0 <= j < i ==> (#[trigger] entries@[j])@ == wanted[j],
            decreases self.stream_info@.len() - i,
        {
            entries.push(self.stream_info[i].to_json());
            i = i + 1;
        }
        assert(text::texts(entries@) =~= wanted);
        let mut out = "[".to_owned();
        out.append(text::join(&entries, ",").as_str());
        out.append("]");
        out
    }

    /// The stream that a browser asks for, if there is one of that number.
    pub fn ws_handler(&self, id: usize) -> (r: Option<&StreamHandle>)
        ensures
            match r {
                Some(handle) => id < self.streams@.len() && *handle == self.streams@[id as int],
                None => id >= self.streams@.len(),
            },
    {
        if id < self.streams.len() {
            Some(&self.streams[id])
        } else {
            None
        }
    }
}

/// The list of streams has one entry for each address, in the order of the addresses. The
/// number in an entry is the one under which exactly that stream is watched: the stream at
/// this place, whose tee carries this number.
pub proof fn law_listed_number_selects_stream(
    addresses: Seq<Seq<char>>,
    stun_server: Seq<char>,
    k: int,
)
    requires
        0 <= k < addresses.len(),
    ensures
        ({
            let data = paired(pipeline::first_streams(addresses.len(), stun_server), addresses);
            &&& data.len() == addresses.len()
            &&& data[k].1 == (Info { id: k as nat, address: addresses[k] })
            &&& data[k].0 == pipeline::stream(k as nat, stun_server)
            &&& data[k].0.stream_index == data[k].1.id
            &&& data[k].0.tee == pipeline::tee_name(data[k].1.id)
        }),
{
}

/// What stands in the text of a list behind some entry, when `rest` is still to come.
spec fn tail_text(rest: Seq<Info>) -> Seq<char>
    decreases rest.len(),
{
    if rest.len() == 0 {
        "]"@
    } else {
        ","@ + info_text(rest[0]) + tail_text(rest.drop_first())
    }
}

/// An entry can be read back from its text, whatever follows.
proof fn lemma_info_text_prefix_code(a: Info, b: Info, x: Seq<char>, y: Seq<char>)
    requires
        info_text(a) + x == info_text(b) + y,
    ensures
        a == b,
        x == y,
{
    reveal_strlit("{\"id\":");
    reveal_strlit(",\"name\":");
    reveal_strlit(",\"address\":");
    reveal_strlit("}");
    let name = ",\"name\":"@;
    let address = ",\"address\":"@;
    let u = address + json::json_text(a.address) + "}"@ + x;
    let v = address + json::json_text(b.address) + "}"@ + y;
    let s = name + json::json_text(a.address) + u;
    let t = name + json::json_text(b.address) + v;
    let l = info_text(a) + x;
    let r = info_text(b) + y;
    assert(l.skip(6) =~= text::decimal(a.id) + s);
    assert(r.skip(6) =~= text::decimal(b.id) + t);
    text::law_decimal_prefix_code(a.id, b.id, s, t);
    assert(s.skip(name.len() as int) =~= json::json_text(a.address) + u);
    assert(t.skip(name.len() as int) =~= json::json_text(b.address) + v);
    json::law_json_text_prefix_code(a.address, b.address, u, v);
    let skipped = address.len() + json::json_text(a.address).len() + 1;
    assert(u.skip(skipped as int) =~= x);
    assert(v.skip(skipped as int) =~= y);
}

/// The rest of a list can be read back from its text.
proof fn lemma_tail_text_injective(a: Seq<Info>, b: Seq<Info>)
    requires
        tail_text(a) == tail_text(b),
    ensures
        a == b,
    decreases a.len(),
{
    reveal_strlit(",");
    reveal_strlit("]");
    if a.len() == 0 || b.len() == 0 {
        if a.len() > 0 {
            assert(tail_text(a)[0] == ',');
        }
        if b.len() > 0 {
            assert(tail_text(b)[0] == ',');
        }
        assert(a =~= b);
    } else {
        let x = tail_text(a.drop_first());
        let y = tail_text(b.drop_first());
        assert(tail_text(a).skip(1) =~= info_text(a[0]) + x);
        assert(tail_text(b).skip(1) =~= info_text(b[0]) + y);
        lemma_info_text_prefix_code(a[0], b[0], x, y);
        lemma_tail_text_injective(a.drop_first(), b.drop_first());
        assert(a =~= seq![a[0]] + a.drop_first());
        assert(b =~= seq![b[0]] + b.drop_first());
    }
}

/// The first `n` entries, joined, and what follows them make up the whole text.
proof fn lemma_list_text_from(list: Seq<Info>, n: nat)
    requires
        0 < n <= list.len(),
    ensures
        list_text(list) == "["@ + text::joined(
            list.map_values(|i: Info| info_text(i)),
            ","@,
            n,
        ) + tail_text(list.skip(n as int)),
    decreases list.len() - n,
{
    let entries = list.map_values(|i: Info| info_text(i));
    if n == list.len() {
        assert(list.skip(n as int).len() == 0);
    } else {
        lemma_list_text_from(list, n + 1);
        assert(list.skip(n as int).drop_first() =~= list.skip(n as int + 1));
        let behind = tail_text(list.skip(n as int + 1));
        let front = text::joined(entries, ","@, n);
        assert("["@ + (front + ","@ + entries[n as int]) + behind =~= "["@ + front + (","@
            + entries[n as int] + behind));
    }
}

/// The text of a list that is not empty begins with its first entry.
proof fn lemma_list_text_first(list: Seq<Info>)
    requires
        list.len() > 0,
    ensures
        list_text(list) == "["@ + info_text(list[0]) + tail_text(list.drop_first()),
{
    lemma_list_text_from(list, 1);
    assert(list.skip(1) =~= list.drop_first());
}

/// The text of the list determines the list: no two different lists of streams are written
/// alike.
pub proof fn law_list_text_injective(a: Seq<Info>, b: Seq<Info>)
    requires
        list_text(a) == list_text(b),
    ensures
        a == b,
{
    reveal_strlit("[");
    reveal_strlit("]");
    reveal_strlit("{\"id\":");
    if a.len() > 0 {
        lemma_list_text_first(a);
        assert(list_text(a)[1] == '{');
        assert(list_text(a).skip(1) =~= info_text(a[0]) + tail_text(a.drop_first()));
    } else {
        assert(list_text(a)[1] == ']');
    }
    if b.len() > 0 {
        lemma_list_text_first(b);
        assert(list_text(b)[1] == '{');
        assert(list_text(b).skip(1) =~= info_text(b[0]) + tail_text(b.drop_first()));
    } else {
        assert(list_text(b)[1] == ']');
    }
    if a.len() > 0 && b.len() > 0 {
        let x = tail_text(a.drop_first());
        let y = tail_text(b.drop_first());
        lemma_info_text_prefix_code(a[0], b[0], x, y);
        lemma_tail_text_injective(a.drop_first(), b.drop_first());
        assert(a =~= seq![a[0]] + a.drop_first());
        assert(b =~= seq![b[0]] + b.drop_first());
    } else {
        assert(a =~= b);
    }
}

/// The viewer page is served if and only if `local` asks for it. The other routes are
/// always there.
pub proof fn law_viewer_page_only_local(local: bool, stun_server: Seq<char>)
    ensures
        local <==> exists|i: int|
            0 <= i < route_table(local, stun_server).len() && (#[trigger] route_table(
                local,
                stun_server,
            )[i]) is Page,
        route_table(local, stun_server).contains(Service::StreamList { path: "/streams"@ }),
        route_table(local, stun_server).contains(Service::Signaling { path: "/ws/{id}"@ }),
{
    let table = route_table(local, stun_server);
    if local {
        assert(table[0] is Page);
    }
    assert(table[table.len() - 2] == (Service::StreamList { path: "/streams"@ }));
    assert(table[table.len() - 1] == (Service::Signaling { path: "/ws/{id}"@ }));
}

/// The page behind "/" is built for the router's own STUN server: the constant head, the
/// server's URL with its first `stun://` shortened, and the constant tail. So a server
/// `stun://` with some rest is named in it as `stun:` with that rest.
pub proof fn law_served_page_names_stun_server(stun_server: Seq<char>, rest: Seq<char>)
    ensures
        route_table(true, stun_server)[0] == (Service::Page {
            path: "/"@,
            html: viewer::VIEWER_HTML_HEAD@ + viewer::ice_url(stun_server)
                + viewer::VIEWER_HTML_TAIL@,
        }),
        route_table(true, "stun://"@ + rest)[0] == (Service::Page {
            path: "/"@,
            html: viewer::VIEWER_HTML_HEAD@ + ("stun:"@ + rest) + viewer::VIEWER_HTML_TAIL@,
        }),
        route_table(true, stun_server)[0] matches Service::Page { html, .. } && text::occurs(
            html,
            viewer::ice_url(stun_server),
        ),
{
    viewer::law_stun_scheme_shortened(rest);
    viewer::law_page_names_stun_server(stun_server);
}

/// Two routers serve the same page if and only if their STUN servers have the same URL in a
/// browser.
pub proof fn law_stun_server_decides_served_page(stun_server: Seq<char>, other: Seq<char>)
    ensures
        route_table(true, stun_server) == route_table(true, other) <==> viewer::ice_url(stun_server)
            == viewer::ice_url(other),
{
    viewer::law_page_round_url(stun_server, other);
    if route_table(true, stun_server) == route_table(true, other) {
        assert(route_table(true, stun_server)[0] == route_table(true, other)[0]);
    }
}

/// Asking for the page adds one route before the others and changes none of them.
pub proof fn law_local_adds_one_route(stun_server: Seq<char>, other: Seq<char>)
    ensures
        route_table(false, stun_server) == seq![
            Service::StreamList { path: "/streams"@ },
            Service::Signaling { path: "/ws/{id}"@ },
        ],
        route_table(true, stun_server).len() == 3,
        route_table(true, stun_server).skip(1) == route_table(false, other),
{
    assert(route_table(false, stun_server) =~= seq![
        Service::StreamList { path: "/streams"@ },
        Service::Signaling { path: "/ws/{id}"@ },
    ]);
    assert(route_table(true, stun_server).skip(1) =~= route_table(false, other));
}

/// Streams and addresses are paired place by place, as far as both go, and an entry has its
/// place for its number.
pub proof fn law_paired_by_place(streams: Seq<Stream>, addresses: Seq<Seq<char>>, k: int)
    requires
        0 <= k < streams.len(),
        k < addresses.len(),
    ensures
        k < paired(streams, addresses).len(),
        paired(streams, addresses).len() == streams.len() || paired(streams, addresses).len()
            == addresses.len(),
        paired(streams, addresses).len() <= streams.len(),
        paired(streams, addresses).len() <= addresses.len(),
        paired(streams, addresses)[k].0 == streams[k],
        paired(streams, addresses)[k].1.id == k,
        paired(streams, addresses)[k].1.address == addresses[k],
{
}

/// An entry, a pair and a route are seen as what their fields hold, and rows of them in
/// their order.
pub proof fn law_web_values_seen_as_they_are(
    entries: Seq<StreamInfo>,
    data: Seq<(StreamHandle, StreamInfo)>,
    route: Route,
)
    ensures
        infos(entries).len() == entries.len(),
        forall|i: int|
            0 <= i < entries.len() ==> infos(entries)[i] == (Info {
                id: (#[trigger] entries[i]).id as nat,
                address: entries[i].address@,
            }),
        pairs(data).len() == data.len(),
        forall|i: int|
            0 <= i < data.len() ==> pairs(data)[i] == ((#[trigger] data[i]).0@, data[i].1@),
        match route.endpoint {
            Endpoint::Page(html) => route@ == (Service::Page { path: route.path@, html: html@ }),
            Endpoint::StreamList => route@ == (Service::StreamList { path: route.path@ }),
            Endpoint::Signaling => route@ == (Service::Signaling { path: route.path@ }),
        },
{
}

/// A key as it stands before its value.
spec fn key_text(key: Seq<char>) -> Seq<char> {
    seq!['"'] + key + seq!['"', ':']
}

proof fn lemma_group(a: Seq<char>, b: Seq<char>, c: Seq<char>)
    ensures
        (a + b) + c == a + (b + c),
{
    assert((a + b) + c =~= a + (b + c));
}

/// The keys of an entry, and how they stand in its text.
proof fn lemma_entry_keys()
    ensures
        "{\"id\":"@ == seq!['{'] + key_text("id"@),
        ",\"name\":"@ == seq![','] + key_text("name"@),
        ",\"address\":"@ == seq![','] + key_text("address"@),
        "}"@ == seq!['}'],
        forall|i: int|
            0 <= i < "id"@.len() ==> #[trigger] "id"@[i] != '"' && "id"@[i] != '\\' && "id"@[i]
                >= ' ',
        forall|i: int|
            0 <= i < "name"@.len() ==> #[trigger] "name"@[i] != '"' && "name"@[i] != '\\'
                && "name"@[i] >= ' ',
        forall|i: int|
            0 <= i < "address"@.len() ==> #[trigger] "address"@[i] != '"' && "address"@[i] != '\\'
                && "address"@[i] >= ' ',
{
    reveal_strlit("id");
    reveal_strlit("name");
    reveal_strlit("address");
    reveal_strlit("{\"id\":");
    reveal_strlit(",\"name\":");
    reveal_strlit(",\"address\":");
    reveal_strlit("}");
    assert("{\"id\":"@ =~= seq!['{'] + key_text("id"@));
    assert(",\"name\":"@ =~= seq![','] + key_text("name"@));
    assert(",\"address\":"@ =~= seq![','] + key_text("address"@));
    assert("}"@ =~= seq!['}']);
}

/// The text of an entry, and what follows, taken apart from its front.
proof fn lemma_entry_from_front(info: Info, rest: Seq<char>)
    ensures
        ({
            let address = json::json_text(info.address);
            let third = key_text("address"@) + (address + (seq!['}'] + rest));
            let second = key_text("name"@) + (address + (seq![','] + third));
            let first = key_text("id"@) + (text::decimal(info.id) + (seq![','] + second));
            info_text(info) + rest == seq!['{'] + first
        }),
{
    lemma_entry_keys();
    let h = "{\"id\":"@;
    let d = text::decimal(info.id);
    let n = ",\"name\":"@;
    let j = json::json_text(info.address);
    let a = ",\"address\":"@;
    let e = "}"@;
    lemma_group(h + d + n + j + a + j, e, rest);
    lemma_group(h + d + n + j + a, j, e + rest);
    lemma_group(h + d + n + j, a, j + (e + rest));
    lemma_group(h + d + n, j, a + (j + (e + rest)));
    lemma_group(h + d, n, j + (a + (j + (e + rest))));
    lemma_group(h, d, n + (j + (a + (j + (e + rest)))));
    let third = key_text("address"@) + (j + (e + rest));
    lemma_group(seq![','], key_text("address"@), j + (e + rest));
    let second = key_text("name"@) + (j + (seq![','] + third));
    lemma_group(seq![','], key_text("name"@), j + (seq![','] + third));
    lemma_group(seq!['{'], key_text("id"@), d + (seq![','] + second));
}

/// The text of an entry, read as JSON, is an object of three members: the number of the
/// stream, its address for its name, and its address. Whatever follows is left.
pub proof fn law_entry_read_back(info: Info, rest: Seq<char>)
    ensures
        json::read_object(info_text(info) + rest) == Some(
            (
                seq![
                    ("id"@, json::Value::Number(info.id as int)),
                    ("name"@, json::Value::Text(info.address)),
                    ("address"@, json::Value::Text(info.address)),
                ],
                rest,
            ),
        ),
{
    lemma_entry_keys();
    lemma_entry_from_front(info, rest);
    let address = json::json_text(info.address);
    let third = key_text("address"@) + (address + (seq!['}'] + rest));
    let second = key_text("name"@) + (address + (seq![','] + third));
    let first = key_text("id"@) + (text::decimal(info.id) + (seq![','] + second));
    let id = ("id"@, json::Value::Number(info.id as int));
    let name = ("name"@, json::Value::Text(info.address));
    let place = ("address"@, json::Value::Text(info.address));
    json::law_read_text(info.address, seq!['}'] + rest);
    json::lemma_read_last_member(place.0, place.1, address + (seq!['}'] + rest), rest);
    json::law_read_text(info.address, seq![','] + third);
    json::lemma_read_next_member(
        name.0,
        name.1,
        address + (seq![','] + third),
        third,
        seq![place],
        rest,
    );
    json::law_read_number(info.id, seq![','] + second);
    json::lemma_read_next_member(
        id.0,
        id.1,
        text::decimal(info.id) + (seq![','] + second),
        second,
        seq![name] + seq![place],
        rest,
    );
    assert((seq!['{'] + first).skip(1) =~= first);
    assert(seq![id] + (seq![name] + seq![place]) =~= seq![id, name, place]);
}

proof fn lemma_entries_read_back(list: Seq<Info>)
    requires
        list.len() > 0,
    ensures
        json::read_entries(
            info_text(list[0]) + tail_text(list.drop_first()),
        ) matches Some(entries) && entries.len() == list.len() && forall|i: int|
            0 <= i < list.len() ==> #[trigger] entries[i] == seq![
                ("id"@, json::Value::Number(list[i].id as int)),
                ("name"@, json::Value::Text(list[i].address)),
                ("address"@, json::Value::Text(list[i].address)),
            ],
    decreases list.len(),
{
    reveal_strlit(",");
    reveal_strlit("]");
    let rest = list.drop_first();
    let behind = tail_text(rest);
    law_entry_read_back(list[0], behind);
    assert(info_text(list[0]).len() > 0) by {
        reveal_strlit("{\"id\":");
    }
    if rest.len() > 0 {
        assert(behind.skip(1) =~= info_text(rest[0]) + tail_text(rest.drop_first()));
        lemma_entries_read_back(rest);
        assert forall|i: int| 1 <= i < list.len() implies #[trigger] list[i] == rest[i - 1] by {}
    }
}

/// The list of streams, read as JSON, is an array with one object for each entry, in their
/// order, and each object says what its entry says: the number, and the address twice, as
/// the name and as the address.
pub proof fn law_list_read_back(list: Seq<Info>)
    ensures
        json::read_list(list_text(list)) matches Some(entries) && entries.len() == list.len()
            && forall|i: int|
            0 <= i < list.len() ==> #[trigger] entries[i] == seq![
                ("id"@, json::Value::Number(list[i].id as int)),
                ("name"@, json::Value::Text(list[i].address)),
                ("address"@, json::Value::Text(list[i].address)),
            ],
{
    reveal_strlit("[");
    reveal_strlit("]");
    let t = list_text(list);
    if list.len() == 0 {
        assert(t =~= seq!['[', ']']);
        assert(t.skip(1) =~= seq![']']);
    } else {
        lemma_list_text_first(list);
        assert(t.skip(1) =~= info_text(list[0]) + tail_text(list.drop_first()));
        assert(t[1] == '{') by {
            reveal_strlit("{\"id\":");
        }
        assert(t.skip(1)[0] == '{');
        lemma_entries_read_back(list);
    }
}

} // verus!
