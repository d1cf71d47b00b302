//! Subscription sockets: what is sent to subscribe, and what a frame that comes in is.
use vstd::prelude::*;
use crate::json::{
    json_text, member, parse_json, parsed, printed, record_push, text_of, whole, Document, Json,
};
use crate::lighter::tx_ws::FrameKind;
use crate::num::Num;
use crate::text::same_text;

verus! {

/// Thirty, the seconds without data after which a socket is given up.
pub const RECV_TIMEOUT_BITS: u64 = 0x403E_0000_0000_0000;

/// Five, the seconds before the first reconnect.
pub const RECONNECT_BASE_BITS: u64 = 0x4014_0000_0000_0000;

/// Sixty, the most seconds before a reconnect.
pub const RECONNECT_MAX_BITS: u64 = 0x404E_0000_0000_0000;

/// Twenty, the seconds between two keepalive frames.
pub const PING_INTERVAL_BITS: u64 = 0x4034_0000_0000_0000;

/// What a subscription socket is opened with. Times are in seconds.
#[derive(Clone, Debug)]
pub struct SubscribeOptions {
    pub channels: Vec<String>,
    /// Token of each channel that needs one.
    pub channel_auths: Vec<(String, String)>,
    pub recv_timeout: Num,
    pub reconnect_base: Num,
    pub reconnect_max: Num,
    pub ping_interval: Num,
    pub label: String,
}

impl SubscribeOptions {
    /// Options with the default times and no tokens.
    pub fn new(label: &str, channels: Vec<String>) -> (r: SubscribeOptions)
        ensures
            r.channels == channels,
            r.channel_auths@.len() == 0,
            r.recv_timeout.bits == RECV_TIMEOUT_BITS,
            r.reconnect_base.bits == RECONNECT_BASE_BITS,
            r.reconnect_max.bits == RECONNECT_MAX_BITS,
            r.ping_interval.bits == PING_INTERVAL_BITS,
            r.label@ == label@,
    {
        SubscribeOptions {
            channels,
            channel_auths: Vec::new(),
            recv_timeout: Num::new(RECV_TIMEOUT_BITS),
            reconnect_base: Num::new(RECONNECT_BASE_BITS),
            reconnect_max: Num::new(RECONNECT_MAX_BITS),
            ping_interval: Num::new(PING_INTERVAL_BITS),
            label: label.to_owned(),
        }
    }
}

/// The token of a channel: of several the last counts.
pub open spec fn token_of(auths: Seq<(String, String)>, channel: Seq<char>) -> Option<Seq<char>>
    decreases auths.len(),
{
    if auths.len() == 0 {
        None
    } else if auths.last().0@ == channel {
        Some(auths.last().1@)
    } else {
        token_of(auths.drop_last(), channel)
    }
}

/// The token of a channel.
pub fn find_token<'a>(auths: &'a Vec<(String, String)>, channel: &str) -> (r: Option<&'a str>)
    ensures
        match r {
            Some(t) => token_of(auths@, channel@) == Some(t@),
            None => token_of(auths@, channel@) is None,
        },
{
    let mut i: usize = auths.len();
    proof {
        assert(auths@.take(auths@.len() as int) =~= auths@);
    }
    while i > 0
        invariant
            i <= auths@.len(),
            token_of(auths@, channel@) == token_of(auths@.take(i as int), channel@),
        decreases i,
    {
        proof {
            assert(auths@.take(i as int).drop_last() =~= auths@.take(i - 1));
        }
        if same_text(auths[i - 1].0.as_str(), channel) {
            return Some(auths[i - 1].1.as_str());
        }
        i = i - 1;
    }
    None
}

/// The frame that subscribes to a channel.
pub open spec fn subscribe_document(channel: Seq<char>, auth: Option<Seq<char>>) -> Document {
    let plain = Map::empty().insert("type"@, Document::Text("subscribe"@)).insert(
        "channel"@,
        Document::Text(channel),
    );
    Document::Record(
        match auth {
            Some(t) => plain.insert("auth"@, Document::Text(t)),
            None => plain,
        },
    )
}

/// The frame that subscribes to a channel, with the channel's token where it has one.
pub fn subscribe_frame(channel: &str, auth: Option<&str>) -> (r: String)
    ensures
        r@ == printed(
            subscribe_document(
                channel@,
                match auth {
                    Some(t) => Some(t@),
                    None => None,
                },
            ),
        ),
{
    let mut frame: Vec<(String, Json)> = Vec::new();
    let (k1, v1): (String, Json) = ("type".to_owned(), Json::Text("subscribe".to_owned()));
    let (k2, v2): (String, Json) = ("channel".to_owned(), Json::Text(channel.to_owned()));
    proof {
        record_push(frame@, k1, v1);
        record_push(frame@.push((k1, v1)), k2, v2);
    }
    frame.push((k1, v1));
    frame.push((k2, v2));
    if let Some(t) = auth {
        let (k3, v3): (String, Json) = ("auth".to_owned(), Json::Text(t.to_owned()));
        proof {
            record_push(frame@, k3, v3);
        }
        frame.push((k3, v3));
    }
    let doc: Json = Json::Record(frame);
    proof {
        reveal_with_fuel(whole, 2);
        assert(whole(doc@));
    }
    json_text(&doc)
}

/// The type that a frame names.
pub open spec fn frame_type(d: Document) -> Option<Seq<char>> {
    match member(d, "type"@) {
        Some(t) => text_of(t),
        None => None,
    }
}

/// What a frame on a subscription socket is.
pub open spec fn ws_frame_kind(d: Document) -> FrameKind {
    match frame_type(d) {
        Some(t) => if t == "ping"@ {
            FrameKind::Ping
        } else if t == "subscribed"@ {
            FrameKind::Ignored
        } else {
            FrameKind::Payload
        },
        None => FrameKind::Payload,
    }
}

/// What to do about a text frame on a subscription socket.
#[derive(Clone, Debug)]
pub enum WsStep {
    /// Answer with a pong.
    Pong,
    /// Nothing.
    Ignore,
    /// Hand it on, with the type that it names; empty where it names none.
    Deliver(String),
}

/// What to do about a document that came in on a subscription socket.
pub fn route_document(d: &Json) -> (r: WsStep)
    ensures
        match ws_frame_kind(d@) {
            FrameKind::Ping => r is Pong,
            FrameKind::Ignored => r is Ignore,
            FrameKind::Payload => r matches WsStep::Deliver(t) && t@ == match frame_type(d@) {
                Some(x) => x,
                None => Seq::empty(),
            },
        },
{
    match d.get("type") {
        Some(t) => match t.as_str() {
            Some(x) => if same_text(x, "ping") {
                WsStep::Pong
            } else if same_text(x, "subscribed") {
                WsStep::Ignore
            } else {
                WsStep::Deliver(x.to_owned())
            },
            None => WsStep::Deliver(String::new()),
        },
        None => WsStep::Deliver(String::new()),
    }
}

/// What to do about a text frame on a subscription socket: what is no JSON is passed over, a
/// ping is answered, a confirmation is passed over, and everything else is handed on.
pub fn route_frame(text: &str) -> (r: WsStep)
    ensures
        match parsed(text@) {
            None => r is Ignore,
            Some(d) => match ws_frame_kind(d) {
                FrameKind::Ping => r is Pong,
                FrameKind::Ignored => r is Ignore,
                FrameKind::Payload => r matches WsStep::Deliver(t) && t@ == match frame_type(d) {
                    Some(x) => x,
                    None => Seq::empty(),
                },
            },
        },
{
    match parse_json(text) {
        None => WsStep::Ignore,
        Some(d) => route_document(&d),
    }
}

/// The token of a channel is that of the last entry under its name; there is none exactly where no
/// entry is.
pub proof fn the_last_token_counts(auths: Seq<(String, String)>, channel: Seq<char>)
    ensures
        match token_of(auths, channel) {
            Some(t) => exists|i: int|
                0 <= i < auths.len() && (#[trigger] auths[i]).0@ == channel && auths[i].1@ == t
                    && forall|j: int| i < j < auths.len() ==> (#[trigger] auths[j]).0@ != channel,
            None => forall|i: int| 0 <= i < auths.len() ==> (#[trigger] auths[i]).0@ != channel,
        },
    decreases auths.len(),
{
    if auths.len() > 0 {
        let rest = auths.drop_last();
        let n = auths.len() - 1;
        if auths.last().0@ == channel {
            assert(auths[n].0@ == channel);
        } else {
            the_last_token_counts(rest, channel);
            match token_of(rest, channel) {
                Some(t) => {
                    let i = choose|i: int|
                        0 <= i < rest.len() && (#[trigger] rest[i]).0@ == channel && rest[i].1@ == t
                            && forall|j: int|
                            i < j < rest.len() ==> (#[trigger] rest[j]).0@ != channel;
                    assert(auths[i] == rest[i]);
                    assert forall|j: int| i < j < auths.len() implies (#[trigger] auths[j]).0@
                        != channel by {
                        if j < n {
                            assert(auths[j] == rest[j]);
                        }
                    }
                },
                None => {
                    assert forall|i: int| 0 <= i < auths.len() implies (#[trigger] auths[i]).0@
                        != channel by {
                        if i < n {
                            assert(auths[i] == rest[i]);
                        }
                    }
                },
            }
        }
    }
}

/// The frame that subscribes names the channel, and carries the token exactly where there is one.
pub proof fn subscriptions_name_their_channel(channel: Seq<char>, auth: Option<Seq<char>>)
    ensures
        ({
            let d = subscribe_document(channel, auth);
            &&& member(d, "type"@) == Some(Document::Text("subscribe"@))
            &&& member(d, "channel"@) == Some(Document::Text(channel))
            &&& auth is None ==> member(d, "auth"@) is None
            &&& auth is Some ==> member(d, "auth"@) == Some(Document::Text(auth->0))
        }),
{
    reveal_strlit("type");
    reveal_strlit("channel");
    reveal_strlit("auth");
    assert("type"@ != "channel"@ && "type"@ != "auth"@ && "channel"@ != "auth"@) by {
        assert("type"@[0] == 't' && "channel"@[0] == 'c' && "auth"@[0] == 'a');
    }
}

/// What a frame on a subscription socket is, by its type: a ping, a confirmation, or, of any other
/// type and of none, one to be handed on.
pub proof fn subscription_frames_go_by_their_type(d: Document, t: Seq<char>)
    ensures
        ({
            let k = ws_frame_kind(d);
            &&& member(d, "type"@) == Some(Document::Text(t)) ==> {
                &&& frame_type(d) == Some(t)
                &&& k == FrameKind::Ping <==> t == "ping"@
                &&& k == FrameKind::Ignored <==> t != "ping"@ && t == "subscribed"@
            }
            &&& member(d, "type"@) is None ==> k == FrameKind::Payload && frame_type(d) is None
            &&& member(d, "type"@) is Some && !(member(d, "type"@)->0 is Text) ==> k
                == FrameKind::Payload && frame_type(d) is None
        }),
{
}

/// A socket that says nothing for thirty seconds is given up, it is pinged every twenty, and it is
/// opened again after five seconds at first and sixty at most: these are the bits of those numbers.
pub proof fn sockets_wait_by_default()
    ensures
        RECV_TIMEOUT_BITS == 0x403E_0000_0000_0000,
        RECONNECT_BASE_BITS == 0x4014_0000_0000_0000,
        RECONNECT_MAX_BITS == 0x404E_0000_0000_0000,
        PING_INTERVAL_BITS == 0x4034_0000_0000_0000,
{
}

} // verus!
