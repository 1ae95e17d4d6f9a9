//! The messages that a browser and the server exchange to set up a WebRTC connection.
use vstd::prelude::*;
use vstd::string::*;

use crate::json;
use crate::text;

verus! {

/// A signaling message.
#[derive(Debug, Clone)]
pub enum SignalingMessage {
    /// The session description that one side proposes.
    Offer { sdp: String },
    /// The session description with which the other side answers.
    Answer { sdp: String },
    /// A network address at which the sender may be reached.
    Ice { candidate: String, sdp_m_line_index: u32 },
}

/// What a signaling message says.
pub enum Signal {
    Offer { sdp: Seq<char> },
    Answer { sdp: Seq<char> },
    Ice { candidate: Seq<char>, sdp_m_line_index: nat },
}

impl View for SignalingMessage {
    type V = Signal;

    open spec fn view(&self) -> Signal {
        match self {
            SignalingMessage::Offer { sdp } => Signal::Offer { sdp: sdp@ },
            SignalingMessage::Answer { sdp } => Signal::Answer { sdp: sdp@ },
            SignalingMessage::Ice { candidate, sdp_m_line_index } => Signal::Ice {
                candidate: candidate@,
                sdp_m_line_index: *sdp_m_line_index as nat,
            },
        }
    }
}

/// The JSON object that stands for a message on the wire. Its first member, `type`, names
/// the kind of message; the others hold what the message says.
pub open spec fn wire_text(signal: Signal) -> Seq<char> {
    match signal {
        Signal::Offer { sdp } => "{\"type\":\"offer\",\"sdp\":"@ + json::json_text(sdp)
            + "}"@,
        Signal::Answer { sdp } => "{\"type\":\"answer\",\"sdp\":"@ + json::json_text(sdp)
            + "}"@,
        Signal::Ice { candidate, sdp_m_line_index } => "{\"type\":\"ice\",\"candidate\":"@
            + json::json_text(candidate) + ",\"sdpMLineIndex\":"@ + text::decimal(
            sdp_m_line_index,
        ) + "}"@,
    }
}

impl SignalingMessage {
    /// The message as it is sent to a browser.
    pub fn to_json(&self) -> (r: String)
        ensures
            r@ == wire_text(self@),
    {
        match self {
            SignalingMessage::Offer { sdp } => {
                let mut out = "{\"type\":\"offer\",\"sdp\":".to_owned();
                out.append(json::json_string(sdp.as_str()).as_str());
                out.append("}");
                out
            },
            SignalingMessage::Answer { sdp } => {
                let mut out = "{\"type\":\"answer\",\"sdp\":".to_owned();
                out.append(json::json_string(sdp.as_str()).as_str());
                out.append("}");
                out
            },
            SignalingMessage::Ice { candidate, sdp_m_line_index } => {
                let mut out = "{\"type\":\"ice\",\"candidate\":".to_owned();
                out.append(json::json_string(candidate.as_str()).as_str());
                out.append(",\"sdpMLineIndex\":");
                out.append(text::decimal_text(*sdp_m_line_index as u64).as_str());
                out.append("}");
                out
            },
        }
    }
}

/// The text on the wire determines the message: no two different messages are written
/// alike.
pub proof fn law_wire_text_injective(a: Signal, b: Signal)
    requires
        wire_text(a) == wire_text(b),
    ensures
        a == b,
{
    reveal_strlit("{\"type\":\"offer\",\"sdp\":");
    reveal_strlit("{\"type\":\"answer\",\"sdp\":");
    reveal_strlit("{\"type\":\"ice\",\"candidate\":");
    reveal_strlit(",\"sdpMLineIndex\":");
    reveal_strlit("}");
    let l = wire_text(a);
    let r = wire_text(b);
    assert(a is Offer ==> l[9] == 'o');
    assert(a is Answer ==> l[9] == 'a');
    assert(a is Ice ==> l[9] == 'i');
    assert(b is Offer ==> r[9] == 'o');
    assert(b is Answer ==> r[9] == 'a');
    assert(b is Ice ==> r[9] == 'i');
    match (a, b) {
        (Signal::Offer { sdp: s }, Signal::Offer { sdp: t }) => {
            let head = "{\"type\":\"offer\",\"sdp\":"@;
            assert(l.skip(head.len() as int) =~= json::json_text(s) + "}"@);
            assert(r.skip(head.len() as int) =~= json::json_text(t) + "}"@);
            json::law_json_text_prefix_code(s, t, "}"@, "}"@);
        },
        (Signal::Answer { sdp: s }, Signal::Answer { sdp: t }) => {
            let head = "{\"type\":\"answer\",\"sdp\":"@;
            assert(l.skip(head.len() as int) =~= json::json_text(s) + "}"@);
            assert(r.skip(head.len() as int) =~= json::json_text(t) + "}"@);
            json::law_json_text_prefix_code(s, t, "}"@, "}"@);
        },
        (
            Signal::Ice { candidate: s, sdp_m_line_index: m },
            Signal::Ice { candidate: t, sdp_m_line_index: n },
        ) => {
            let head = "{\"type\":\"ice\",\"candidate\":"@;
            let key = ",\"sdpMLineIndex\":"@;
            let x = key + text::decimal(m) + "}"@;
            let y = key + text::decimal(n) + "}"@;
            assert(l.skip(head.len() as int) =~= json::json_text(s) + x);
            assert(r.skip(head.len() as int) =~= json::json_text(t) + y);
            json::law_json_text_prefix_code(s, t, x, y);
            assert(x.subrange(key.len() as int, x.len() - 1) =~= text::decimal(m));
            assert(y.subrange(key.len() as int, y.len() - 1) =~= text::decimal(n));
            text::law_decimal_injective(m, n);
        },
        _ => {},
    }
}

/// A message is seen as what its fields hold.
pub proof fn law_message_seen_as_it_is(message: SignalingMessage)
    ensures
        match message {
            SignalingMessage::Offer { sdp } => message@ == (Signal::Offer { sdp: sdp@ }),
            SignalingMessage::Answer { sdp } => message@ == (Signal::Answer { sdp: sdp@ }),
            SignalingMessage::Ice { candidate, sdp_m_line_index } => message@ == (Signal::Ice {
                candidate: candidate@,
                sdp_m_line_index: sdp_m_line_index as nat,
            }),
        },
{
}

/// The member that names the kind of a message.
proof fn lemma_read_kind(
    kind: Seq<char>,
    behind: Seq<char>,
    members: Seq<(Seq<char>, json::Value)>,
)
    requires
        forall|i: int|
            0 <= i < kind.len() ==> #[trigger] kind[i] != '"' && kind[i] != '\\' && kind[i] >= ' ',
        json::read_members(behind) == Some((members, Seq::<char>::empty())),
    ensures
        json::read_members("\"type\":\""@ + kind + "\","@ + behind) == Some(
            (seq![("type"@, json::Value::Text(kind))] + members, Seq::<char>::empty()),
        ),
{
    reveal_strlit("type");
    reveal_strlit("\"type\":\"");
    reveal_strlit("\",");
    json::law_plain_text(kind);
    let written = json::json_text(kind) + (seq![','] + behind);
    json::law_read_text(kind, seq![','] + behind);
    json::lemma_read_next_member(
        "type"@,
        json::Value::Text(kind),
        written,
        behind,
        members,
        Seq::empty(),
    );
    assert("\"type\":\""@ =~= seq!['"'] + "type"@ + seq!['"', ':'] + seq!['"']);
    assert("\"type\":\""@ + kind + "\","@ + behind =~= seq!['"'] + "type"@ + seq!['"', ':']
        + written);
}

/// The member that holds the session description, the last of its message.
proof fn lemma_read_description(sdp: Seq<char>)
    ensures
        json::read_members("\"sdp\":"@ + json::json_text(sdp) + "}"@) == Some(
            (seq![("sdp"@, json::Value::Text(sdp))], Seq::<char>::empty()),
        ),
{
    reveal_strlit("sdp");
    reveal_strlit("\"sdp\":");
    reveal_strlit("}");
    let none = Seq::<char>::empty();
    let written = json::json_text(sdp) + (seq!['}'] + none);
    json::law_read_text(sdp, seq!['}'] + none);
    json::lemma_read_last_member("sdp"@, json::Value::Text(sdp), written, none);
    assert("\"sdp\":"@ + json::json_text(sdp) + "}"@ =~= seq!['"'] + "sdp"@ + seq!['"', ':']
        + written);
}

/// The members that hold a network address.
proof fn lemma_read_candidate(candidate: Seq<char>, index: nat)
    ensures
        json::read_members(
            "\"candidate\":"@ + json::json_text(candidate) + ",\"sdpMLineIndex\":"@
                + text::decimal(index) + "}"@,
        ) == Some(
            (
                seq![
                    ("candidate"@, json::Value::Text(candidate)),
                    ("sdpMLineIndex"@, json::Value::Number(index as int)),
                ],
                Seq::<char>::empty(),
            ),
        ),
{
    reveal_strlit("candidate");
    reveal_strlit("sdpMLineIndex");
    reveal_strlit("\"candidate\":");
    reveal_strlit(",\"sdpMLineIndex\":");
    reveal_strlit("}");
    let none = Seq::<char>::empty();
    let number = text::decimal(index) + (seq!['}'] + none);
    json::law_read_number(index, seq!['}'] + none);
    json::lemma_read_last_member(
        "sdpMLineIndex"@,
        json::Value::Number(index as int),
        number,
        none,
    );
    let last = seq!['"'] + "sdpMLineIndex"@ + seq!['"', ':'] + number;
    let written = json::json_text(candidate) + (seq![','] + last);
    json::law_read_text(candidate, seq![','] + last);
    json::lemma_read_next_member(
        "candidate"@,
        json::Value::Text(candidate),
        written,
        last,
        seq![("sdpMLineIndex"@, json::Value::Number(index as int))],
        none,
    );
    assert(",\"sdpMLineIndex\":"@ =~= seq![','] + (seq!['"'] + "sdpMLineIndex"@ + seq!['"', ':']));
    assert(",\"sdpMLineIndex\":"@ + text::decimal(index) + "}"@ =~= seq![','] + last);
    assert("\"candidate\":"@ =~= seq!['"'] + "candidate"@ + seq!['"', ':']);
    assert("\"candidate\":"@ + json::json_text(candidate) + ",\"sdpMLineIndex\":"@ + text::decimal(
        index,
    ) + "}"@ =~= "\"candidate\":"@ + written);
    assert(seq![("candidate"@, json::Value::Text(candidate))] + seq![
        ("sdpMLineIndex"@, json::Value::Number(index as int)),
    ] =~= seq![
        ("candidate"@, json::Value::Text(candidate)),
        ("sdpMLineIndex"@, json::Value::Number(index as int)),
    ]);
}

/// An object is read back when its members are.
proof fn lemma_read_object(inside: Seq<char>, members: Seq<(Seq<char>, json::Value)>)
    requires
        json::read_members(inside) == Some((members, Seq::<char>::empty())),
    ensures
        json::read_object(seq!['{'] + inside) == Some((members, Seq::<char>::empty())),
{
    assert((seq!['{'] + inside).skip(1) =~= inside);
}

/// Pieces that stand one behind the other, put together from either end.
proof fn lemma_regroup(
    a: Seq<char>,
    b: Seq<char>,
    c: Seq<char>,
    d: Seq<char>,
    e: Seq<char>,
    rest: Seq<char>,
)
    ensures
        (a + (b + c + d + e)) + rest == a + (b + c + d + (e + rest)),
{
    assert((a + (b + c + d + e)) + rest =~= a + (b + c + d + (e + rest)));
}

proof fn lemma_offer_head()
    ensures
        "{\"type\":\"offer\",\"sdp\":"@ == seq!['{'] + ("\"type\":\""@ + "offer"@ + "\","@
            + "\"sdp\":"@),
        forall|i: int|
            0 <= i < "offer"@.len() ==> #[trigger] "offer"@[i] != '"' && "offer"@[i] != '\\'
                && "offer"@[i] >= ' ',
{
    reveal_strlit("\"type\":\"");
    reveal_strlit("\",");
    reveal_strlit("offer");
    reveal_strlit("\"sdp\":");
    reveal_strlit("{\"type\":\"offer\",\"sdp\":");
    assert("{\"type\":\"offer\",\"sdp\":"@ =~= seq!['{'] + ("\"type\":\""@ + "offer"@ + "\","@
        + "\"sdp\":"@));
}

proof fn lemma_answer_head()
    ensures
        "{\"type\":\"answer\",\"sdp\":"@ == seq!['{'] + ("\"type\":\""@ + "answer"@ + "\","@
            + "\"sdp\":"@),
        forall|i: int|
            0 <= i < "answer"@.len() ==> #[trigger] "answer"@[i] != '"' && "answer"@[i] != '\\'
                && "answer"@[i] >= ' ',
{
    reveal_strlit("\"type\":\"");
    reveal_strlit("\",");
    reveal_strlit("answer");
    reveal_strlit("\"sdp\":");
    reveal_strlit("{\"type\":\"answer\",\"sdp\":");
    assert("{\"type\":\"answer\",\"sdp\":"@ =~= seq!['{'] + ("\"type\":\""@ + "answer"@ + "\","@
        + "\"sdp\":"@));
}

proof fn lemma_ice_head()
    ensures
        "{\"type\":\"ice\",\"candidate\":"@ == seq!['{'] + ("\"type\":\""@ + "ice"@ + "\","@
            + "\"candidate\":"@),
        forall|i: int|
            0 <= i < "ice"@.len() ==> #[trigger] "ice"@[i] != '"' && "ice"@[i] != '\\' && "ice"@[i]
                >= ' ',
{
    reveal_strlit("\"type\":\"");
    reveal_strlit("\",");
    reveal_strlit("ice");
    reveal_strlit("\"candidate\":");
    reveal_strlit("{\"type\":\"ice\",\"candidate\":");
    assert("{\"type\":\"ice\",\"candidate\":"@ =~= seq!['{'] + ("\"type\":\""@ + "ice"@ + "\","@
        + "\"candidate\":"@));
}

proof fn lemma_offer_read_back(sdp: Seq<char>)
    ensures
        json::read_object(wire_text(Signal::Offer { sdp })) == Some(
            (
                seq![
                    ("type"@, json::Value::Text("offer"@)),
                    ("sdp"@, json::Value::Text(sdp)),
                ],
                Seq::<char>::empty(),
            ),
        ),
{
    lemma_offer_head();
    let rest = json::json_text(sdp) + "}"@;
    let said = seq![("sdp"@, json::Value::Text(sdp))];
    let kind = ("type"@, json::Value::Text("offer"@));
    lemma_read_description(sdp);
    assert("\"sdp\":"@ + json::json_text(sdp) + "}"@ =~= "\"sdp\":"@ + rest);
    lemma_read_kind("offer"@, "\"sdp\":"@ + rest, said);
    lemma_read_object(
        "\"type\":\""@ + "offer"@ + "\","@ + ("\"sdp\":"@ + rest),
        seq![kind] + said,
    );
    lemma_regroup(seq!['{'], "\"type\":\""@, "offer"@, "\","@, "\"sdp\":"@, rest);
    assert(wire_text(Signal::Offer { sdp }) =~= "{\"type\":\"offer\",\"sdp\":"@ + rest);
    assert(seq![kind] + said =~= seq![kind, ("sdp"@, json::Value::Text(sdp))]);
}

proof fn lemma_answer_read_back(sdp: Seq<char>)
    ensures
        json::read_object(wire_text(Signal::Answer { sdp })) == Some(
            (
                seq![
                    ("type"@, json::Value::Text("answer"@)),
                    ("sdp"@, json::Value::Text(sdp)),
                ],
                Seq::<char>::empty(),
            ),
        ),
{
    lemma_answer_head();
    let rest = json::json_text(sdp) + "}"@;
    let said = seq![("sdp"@, json::Value::Text(sdp))];
    let kind = ("type"@, json::Value::Text("answer"@));
    lemma_read_description(sdp);
    assert("\"sdp\":"@ + json::json_text(sdp) + "}"@ =~= "\"sdp\":"@ + rest);
    lemma_read_kind("answer"@, "\"sdp\":"@ + rest, said);
    lemma_read_object(
        "\"type\":\""@ + "answer"@ + "\","@ + ("\"sdp\":"@ + rest),
        seq![kind] + said,
    );
    lemma_regroup(seq!['{'], "\"type\":\""@, "answer"@, "\","@, "\"sdp\":"@, rest);
    assert(wire_text(Signal::Answer { sdp }) =~= "{\"type\":\"answer\",\"sdp\":"@ + rest);
    assert(seq![kind] + said =~= seq![kind, ("sdp"@, json::Value::Text(sdp))]);
}

proof fn lemma_ice_read_back(candidate: Seq<char>, sdp_m_line_index: nat)
    ensures
        json::read_object(wire_text(Signal::Ice { candidate, sdp_m_line_index })) == Some(
            (
                seq![
                    ("type"@, json::Value::Text("ice"@)),
                    ("candidate"@, json::Value::Text(candidate)),
                    ("sdpMLineIndex"@, json::Value::Number(sdp_m_line_index as int)),
                ],
                Seq::<char>::empty(),
            ),
        ),
{
    lemma_ice_head();
    let index = text::decimal(sdp_m_line_index);
    let rest = json::json_text(candidate) + ",\"sdpMLineIndex\":"@ + index + "}"@;
    let address = ("candidate"@, json::Value::Text(candidate));
    let place = ("sdpMLineIndex"@, json::Value::Number(sdp_m_line_index as int));
    let said = seq![address, place];
    let kind = ("type"@, json::Value::Text("ice"@));
    lemma_read_candidate(candidate, sdp_m_line_index);
    assert("\"candidate\":"@ + json::json_text(candidate) + ",\"sdpMLineIndex\":"@ + index
        + "}"@ =~= "\"candidate\":"@ + rest);
    lemma_read_kind("ice"@, "\"candidate\":"@ + rest, said);
    lemma_read_object(
        "\"type\":\""@ + "ice"@ + "\","@ + ("\"candidate\":"@ + rest),
        seq![kind] + said,
    );
    lemma_regroup(seq!['{'], "\"type\":\""@, "ice"@, "\","@, "\"candidate\":"@, rest);
    assert(wire_text(Signal::Ice { candidate, sdp_m_line_index })
        =~= "{\"type\":\"ice\",\"candidate\":"@ + rest);
    assert(seq![kind] + said =~= seq![kind, address, place]);
}

/// The text of a message, read as JSON, is one object and nothing behind it: first the kind
/// of the message, then exactly what the message says, each under its key.
pub proof fn law_message_read_back(signal: Signal)
    ensures
        json::read_object(wire_text(signal)) == Some(
            (
                match signal {
                    Signal::Offer { sdp } => seq![
                        ("type"@, json::Value::Text("offer"@)),
                        ("sdp"@, json::Value::Text(sdp)),
                    ],
                    Signal::Answer { sdp } => seq![
                        ("type"@, json::Value::Text("answer"@)),
                        ("sdp"@, json::Value::Text(sdp)),
                    ],
                    Signal::Ice { candidate, sdp_m_line_index } => seq![
                        ("type"@, json::Value::Text("ice"@)),
                        ("candidate"@, json::Value::Text(candidate)),
                        ("sdpMLineIndex"@, json::Value::Number(sdp_m_line_index as int)),
                    ],
                },
                Seq::<char>::empty(),
            ),
        ),
{
    match signal {
        Signal::Offer { sdp } => lemma_offer_read_back(sdp),
        Signal::Answer { sdp } => lemma_answer_read_back(sdp),
        Signal::Ice { candidate, sdp_m_line_index } => lemma_ice_read_back(
            candidate,
            sdp_m_line_index,
        ),
    }
}

} // verus!
