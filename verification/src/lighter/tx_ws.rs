//! Replies on the transaction socket, and the frames sent over it.
use vstd::prelude::*;
use crate::json::{
    built, integer_of, item_documents, json_text, list_items, member,
    parse_json, parsed, printed, record_push, text_of, whole, Document, Json,
};
use crate::text::same_text;
use crate::types::{TxSendResult, TxSendStatus};

verus! {

/// The exchange's code for success, with the HTTP one made the same.
pub open spec fn plain_code(code: i64) -> i64 {
    if code == 200 {
        0
    } else {
        code
    }
}

/// A message as raw text: that of a JSON string itself, empty where there is none, and the print
/// of anything else.
pub open spec fn message_text(m: Option<Document>) -> Seq<char> {
    match m {
        Some(Document::Text(t)) => t,
        Some(Document::Null) => Seq::empty(),
        None => Seq::empty(),
        Some(d) => printed(built(d)),
    }
}

/// The integer that a member is.
pub open spec fn member_integer(d: Document, key: Seq<char>) -> Option<i64> {
    match member(d, key) {
        Some(x) => integer_of(x),
        None => None,
    }
}

/// The code and message of a reply: those of its error where it has one, else its own.
pub open spec fn reply_code_message(d: Document) -> (i64, Seq<char>) {
    let error = member(d, "error"@);
    let own = if member(d, "code"@) is Some {
        member(d, "code"@)
    } else {
        member(d, "status_code"@)
    };
    match error {
        Some(Document::Record(m)) => {
            let e = Document::Record(m);
            let code = member_integer(e, "code"@);
            (
                plain_code(
                    match code {
                        Some(c) => c,
                        None => (-1) as i64,
                    },
                ),
                message_text(member(e, "message"@)),
            )
        },
        Some(e) => if e is Null {
            own_code_message(d, own)
        } else {
            ((-1) as i64, printed(built(e)))
        },
        None => own_code_message(d, own),
    }
}

/// The code and message of a reply that names no error.
pub open spec fn own_code_message(d: Document, code: Option<Document>) -> (i64, Seq<char>) {
    let number = match code {
        Some(x) => integer_of(x),
        None => None,
    };
    (
        plain_code(
            match number {
                Some(c) => c,
                None => 0,
            },
        ),
        message_text(member(d, "message"@)),
    )
}

/// A message as raw text.
fn extract_message(v: Option<&Json>) -> (r: String)
    ensures
        r@ == message_text(
            match v {
                Some(j) => Some(j@),
                None => None,
            },
        ),
{
    match v {
        Some(Json::Text(s)) => s.clone(),
        Some(Json::Null) => String::new(),
        Some(other) => json_text(other),
        None => String::new(),
    }
}

/// The code and message of a reply, a code of 200 counting as 0.
pub fn code_message(resp: &Json) -> (r: (i64, String))
    ensures
        (r.0, r.1@) == reply_code_message(resp@),
{
    if let Some(err) = resp.get("error") {
        if err.is_record() {
            let code: i64 = match err.get("code") {
                Some(c) => match c.as_i64() {
                    Some(n) => n,
                    None => -1,
                },
                None => -1,
            };
            let msg: String = extract_message(err.get("message"));
            return (if code == 200 { 0 } else { code }, msg);
        } else if !err.is_null() {
            return (-1, json_text(err));
        }
    }
    let own: Option<&Json> = match resp.get("code") {
        Some(c) => Some(c),
        None => resp.get("status_code"),
    };
    let code: i64 = match own {
        Some(c) => match c.as_i64() {
            Some(n) => n,
            None => 0,
        },
        None => 0,
    };
    let msg: String = extract_message(resp.get("message"));
    (if code == 200 { 0 } else { code }, msg)
}

/// What a reply means for the batch.
pub open spec fn reply_status(code: i64) -> TxSendStatus {
    if code == 0 {
        TxSendStatus::Accepted
    } else {
        TxSendStatus::Rejected
    }
}

/// The outcome that a reply tells.
pub fn reply_result(resp: &Json) -> (r: TxSendResult)
    ensures
        (r.code, r.message@) == reply_code_message(resp@),
        r.status == reply_status(r.code),
        r.quota_remaining == member_integer(resp@, "volume_quota_remaining"@),
{
    let (code, message): (i64, String) = code_message(resp);
    let quota: Option<i64> = match resp.get("volume_quota_remaining") {
        Some(q) => q.as_i64(),
        None => None,
    };
    let status: TxSendStatus = if code == 0 {
        TxSendStatus::Accepted
    } else {
        TxSendStatus::Rejected
    };
    TxSendResult { status, code, message, quota_remaining: quota }
}

/// What to do about a frame that came in.
#[derive(Clone, Copy, Debug, PartialEq, Eq, Structural)]
pub enum FrameKind {
    /// Answer with a pong and go on reading.
    Ping,
    /// Go on reading.
    Ignored,
    /// It is what was waited for.
    Payload,
}

/// What a frame on the transaction socket is.
pub open spec fn tx_frame_kind(d: Document) -> FrameKind {
    match member(d, "type"@) {
        Some(t) => match text_of(t) {
            Some(x) => if x == "ping"@ {
                FrameKind::Ping
            } else if x == "connected"@ || x == "subscribed"@ {
                FrameKind::Ignored
            } else {
                FrameKind::Payload
            },
            None => FrameKind::Payload,
        },
        None => FrameKind::Payload,
    }
}

/// What a frame on the transaction socket is.
pub fn classify_tx_frame(v: &Json) -> (r: FrameKind)
    ensures
        r == tx_frame_kind(v@),
{
    match v.get("type") {
        Some(t) => match t.as_str() {
            Some(x) => if same_text(x, "ping") {
                FrameKind::Ping
            } else if same_text(x, "connected") || same_text(x, "subscribed") {
                FrameKind::Ignored
            } else {
                FrameKind::Payload
            },
            None => FrameKind::Payload,
        },
        None => FrameKind::Payload,
    }
}

/// What a text frame brings while a reply is waited for.
#[derive(Debug)]
pub enum ReplyStep {
    /// Answer with a pong and go on reading.
    Pong,
    /// Go on reading.
    Wait,
    /// The outcome of the batch.
    Done(TxSendResult),
}

/// Reads one text frame while a reply is waited for: what is no JSON is passed over, a ping is
/// answered, and the first frame that is neither greeting nor confirmation is the reply.
pub fn read_reply(text: &str) -> (r: ReplyStep)
    ensures
        match parsed(text@) {
            None => r is Wait,
            Some(d) => match tx_frame_kind(d) {
                FrameKind::Ping => r is Pong,
                FrameKind::Ignored => r is Wait,
                FrameKind::Payload => r matches ReplyStep::Done(x) && (x.code, x.message@)
                    == reply_code_message(d) && x.status == reply_status(x.code)
                    && x.quota_remaining == member_integer(d, "volume_quota_remaining"@),
            },
        },
{
    match parse_json(text) {
        None => ReplyStep::Wait,
        Some(v) => match classify_tx_frame(&v) {
            FrameKind::Ping => ReplyStep::Pong,
            FrameKind::Ignored => ReplyStep::Wait,
            FrameKind::Payload => ReplyStep::Done(reply_result(&v)),
        },
    }
}

/// How far the sending of a batch came before it failed.
#[derive(Clone, Debug)]
pub enum SendFailure {
    /// No connection: nothing was written.
    Connect,
    /// Writing failed: part of the frame may be out.
    Write(String),
    /// The connection broke before the reply.
    Disconnected,
    /// No reply came in time.
    Timeout,
}

/// What a failure means for the batch: only where nothing was written is it safe to send again.
pub open spec fn failure_status(f: SendFailure) -> TxSendStatus {
    match f {
        SendFailure::Connect => TxSendStatus::NotSent,
        _ => TxSendStatus::Unknown,
    }
}

/// How a failure is named.
pub open spec fn failure_text(f: SendFailure) -> Seq<char> {
    match f {
        SendFailure::Connect => "connect_failed"@,
        SendFailure::Write(e) => "send_failed:"@ + e@,
        SendFailure::Disconnected => "disconnected_after_send"@,
        SendFailure::Timeout => "response_timeout"@,
    }
}

/// The outcome of a batch whose sending failed.
pub fn failure_result(failure: SendFailure) -> (r: TxSendResult)
    ensures
        r.status == failure_status(failure),
        r.code == -1,
        r.message@ == failure_text(failure),
        r.quota_remaining is None,
{
    match failure {
        SendFailure::Connect => TxSendResult::not_sent("connect_failed".to_owned()),
        SendFailure::Write(e) => TxSendResult::unknown(
            vstd::string::StringExecFns::concat("send_failed:".to_owned(), e.as_str()),
        ),
        SendFailure::Disconnected => TxSendResult::unknown("disconnected_after_send".to_owned()),
        SendFailure::Timeout => TxSendResult::unknown("response_timeout".to_owned()),
    }
}

/// The list of transaction types as a document.
pub open spec fn types_document(types: Seq<u8>) -> Document {
    Document::List(Seq::new(types.len(), |i: int| Document::Unsigned(types[i] as u64)))
}

/// The list of signed transactions as a document.
pub open spec fn infos_document(infos: Seq<String>) -> Document {
    Document::List(Seq::new(infos.len(), |i: int| Document::Text(infos[i]@)))
}

/// The frame that sends a batch: both lists are in it as texts of their own.
pub open spec fn batch_document(types: Seq<u8>, infos: Seq<String>) -> Document {
    Document::Record(
        Map::empty().insert("type"@, Document::Text("jsonapi/sendtxbatch"@)).insert(
            "data"@,
            data_document(types, infos),
        ),
    )
}

/// The data of the frame that sends a batch.
pub open spec fn data_document(types: Seq<u8>, infos: Seq<String>) -> Document {
    Document::Record(
        Map::empty().insert("tx_types"@, Document::Text(printed(types_document(types)))).insert(
            "tx_infos"@,
            Document::Text(printed(infos_document(infos))),
        ),
    )
}

/// The list of transaction types in print.
pub fn types_text(tx_types: &Vec<u8>) -> (r: String)
    ensures
        r@ == printed(types_document(tx_types@)),
{
    let mut items: Vec<Json> = Vec::new();
    let mut i: usize = 0;
    while i < tx_types.len()
        invariant
            i <= tx_types@.len(),
            items@.len() == i,
            forall|k: int|
                0 <= k < i ==> #[trigger] items@[k] == Json::Unsigned(tx_types@[k] as u64),
        decreases tx_types@.len() - i,
    {
        items.push(Json::Unsigned(tx_types[i] as u64));
        i = i + 1;
    }
    let list: Json = Json::List(items);
    proof {
        list_items(items@);
        assert(item_documents(items@) =~= Seq::new(
            tx_types@.len(),
            |i: int| Document::Unsigned(tx_types@[i] as u64),
        ));
        assert(list@ == types_document(tx_types@));
        reveal_with_fuel(whole, 2);
        assert(whole(list@));
    }
    json_text(&list)
}

/// The list of signed transactions in print.
pub fn infos_text(tx_infos: &Vec<String>) -> (r: String)
    ensures
        r@ == printed(infos_document(tx_infos@)),
{
    let mut items: Vec<Json> = Vec::new();
    let mut i: usize = 0;
    while i < tx_infos.len()
        invariant
            i <= tx_infos@.len(),
            items@.len() == i,
            forall|k: int| 0 <= k < i ==> #[trigger] items@[k] == Json::Text(tx_infos@[k]),
        decreases tx_infos@.len() - i,
    {
        items.push(Json::Text(tx_infos[i].clone()));
        i = i + 1;
    }
    let list: Json = Json::List(items);
    proof {
        list_items(items@);
        assert(item_documents(items@) =~= Seq::new(
            tx_infos@.len(),
            |i: int| Document::Text(tx_infos@[i]@),
        ));
        assert(list@ == infos_document(tx_infos@));
        reveal_with_fuel(whole, 2);
        assert(whole(list@));
    }
    json_text(&list)
}

/// The frame that sends a batch.
pub fn batch_frame(tx_types: &Vec<u8>, tx_infos: &Vec<String>) -> (r: String)
    ensures
        r@ == printed(batch_document(tx_types@, tx_infos@)),
{
    let types: String = types_text(tx_types);
    let infos: String = infos_text(tx_infos);
    let mut data: Vec<(String, Json)> = Vec::new();
    let (types_key, types_value): (String, Json) = ("tx_types".to_owned(), Json::Text(types));
    let (infos_key, infos_value): (String, Json) = ("tx_infos".to_owned(), Json::Text(infos));
    proof {
        record_push(data@, types_key, types_value);
        record_push(data@.push((types_key, types_value)), infos_key, infos_value);
    }
    data.push((types_key, types_value));
    data.push((infos_key, infos_value));
    let mut frame: Vec<(String, Json)> = Vec::new();
    let (type_key, type_value): (String, Json) = (
        "type".to_owned(),
        Json::Text("jsonapi/sendtxbatch".to_owned()),
    );
    let (data_key, data_value): (String, Json) = ("data".to_owned(), Json::Record(data));
    proof {
        record_push(frame@, type_key, type_value);
        record_push(frame@.push((type_key, type_value)), data_key, data_value);
    }
    frame.push((type_key, type_value));
    frame.push((data_key, data_value));
    let doc: Json = Json::Record(frame);
    proof {
        assert(doc@ == batch_document(tx_types@, tx_infos@));
        reveal_with_fuel(whole, 3);
        assert(whole(data_document(tx_types@, tx_infos@)));
        assert(whole(doc@));
    }
    json_text(&doc)
}

/// When a reply says that the batch was taken: where it names no error, and its code, or else its
/// status code, is 0 or 200, or is none; or where it names one whose own code is 0 or 200. An error
/// that is no record is always a refusal, and so is one without a code.
pub proof fn replies_are_judged_by_their_code(d: Document, e: Document, n: i64)
    ensures
        ({
            let taken = reply_status(reply_code_message(d).0) == TxSendStatus::Accepted;
            let error = member(d, "error"@);
            let unnamed = error is None || error == Some(Document::Null);
            &&& unnamed && member(d, "code"@) == Some(Document::Signed(n)) ==> (taken <==> n == 0
                || n == 200)
            &&& unnamed && n >= 0 && member(d, "code"@) == Some(Document::Unsigned(n as u64)) ==> (
            taken <==> n == 0 || n == 200)
            &&& unnamed && member(d, "code"@) is None && n >= 0 && member(d, "status_code"@)
                == Some(Document::Unsigned(n as u64)) ==> (taken <==> n == 0 || n == 200)
            &&& unnamed && member(d, "code"@) is None && member(d, "status_code"@) is None ==> taken
            &&& error == Some(e) && e is Record && n >= 0 && member(e, "code"@) == Some(
                Document::Unsigned(n as u64),
            ) ==> (taken <==> n == 0 || n == 200)
            &&& error == Some(e) && e is Record && member(e, "code"@) == Some(Document::Signed(n))
                ==> (taken <==> n == 0 || n == 200)
            &&& error == Some(e) && e is Record && member(e, "code"@) is None ==> !taken
            &&& error == Some(e) && !(e is Record) && !(e is Null) ==> !taken
        }),
{
}

/// What a reply says in words, and its code: those of its error where it names one, and its own
/// otherwise; a message that is no text is given as it is printed, and a missing one is empty. A code
/// of 200 counts as 0, and an error without a code as -1.
pub proof fn replies_speak_through_their_error(
    d: Document,
    e: Document,
    n: i64,
    text: Seq<char>,
)
    ensures
        ({
            let (code, said) = reply_code_message(d);
            let error = member(d, "error"@);
            let unnamed = error is None || error == Some(Document::Null);
            let plain = if n == 200 {
                0i64
            } else {
                n
            };
            &&& unnamed && member(d, "message"@) == Some(Document::Text(text)) ==> said == text
            &&& unnamed && (member(d, "message"@) is None || member(d, "message"@) == Some(
                Document::Null,
            )) ==> said.len() == 0
            &&& unnamed && member(d, "code"@) == Some(Document::Signed(n)) ==> code == plain
            &&& unnamed && n >= 0 && member(d, "code"@) == Some(Document::Unsigned(n as u64))
                ==> code == plain
            &&& error == Some(e) && e is Record && member(e, "message"@) == Some(
                Document::Text(text),
            ) ==> said == text
            &&& error == Some(e) && e is Record && member(e, "code"@) == Some(Document::Signed(n))
                ==> code == plain
            &&& error == Some(e) && e is Record && n >= 0 && member(e, "code"@) == Some(
                Document::Unsigned(n as u64),
            ) ==> code == plain
            &&& error == Some(e) && e is Record && member(e, "code"@) is None ==> code == -1
            &&& error == Some(e) && !(e is Record) && !(e is Null) ==> code == -1 && said == printed(
                built(e),
            )
        }),
{
}

/// What a frame on the transaction socket is, by its type: a ping, a greeting or a confirmation, or,
/// of any other type and of none, the reply.
pub proof fn transaction_frames_go_by_their_type(d: Document, t: Seq<char>)
    ensures
        ({
            let k = tx_frame_kind(d);
            &&& member(d, "type"@) == Some(Document::Text(t)) ==> {
                &&& k == FrameKind::Ping <==> t == "ping"@
                &&& k == FrameKind::Ignored <==> t != "ping"@ && (t == "connected"@ || t
                    == "subscribed"@)
            }
            &&& member(d, "type"@) is None ==> k == FrameKind::Payload
            &&& member(d, "type"@) is Some && !(member(d, "type"@)->0 is Text) ==> k
                == FrameKind::Payload
        }),
{
}

/// Only a batch that could not be connected for counts as not sent; a failure after anything may
/// have been written leaves the outcome unknown. Each failure is told apart by its name.
pub proof fn failures_after_a_write_stay_unknown(f: SendFailure)
    ensures
        failure_status(f) == TxSendStatus::NotSent <==> f is Connect,
        failure_status(f) == TxSendStatus::Unknown <==> f is Write || f is Disconnected || f
            is Timeout,
        f is Connect ==> failure_text(f) == "connect_failed"@,
        f is Disconnected ==> failure_text(f) == "disconnected_after_send"@,
        f is Timeout ==> failure_text(f) == "response_timeout"@,
        f matches SendFailure::Write(e) ==> failure_text(f) == "send_failed:"@ + e@,
{
}

/// The frame of a batch: of its type, with the list of types and the list of signed transactions in
/// its data, each printed as a text of its own, item for item in the order of the batch.
pub proof fn frames_carry_the_whole_batch(types: Seq<u8>, infos: Seq<String>, i: int)
    ensures
        ({
            let d = batch_document(types, infos);
            let data = member(d, "data"@);
            &&& member(d, "type"@) == Some(Document::Text("jsonapi/sendtxbatch"@))
            &&& data is Some
            &&& member(data->0, "tx_types"@) == Some(
                Document::Text(printed(types_document(types))),
            )
            &&& member(data->0, "tx_infos"@) == Some(
                Document::Text(printed(infos_document(infos))),
            )
            &&& types_document(types) matches Document::List(a) && a.len() == types.len() && (0 <= i
                < types.len() ==> a[i] == Document::Unsigned(types[i] as u64))
            &&& infos_document(infos) matches Document::List(b) && b.len() == infos.len() && (0 <= i
                < infos.len() ==> b[i] == Document::Text(infos[i]@))
        }),
{
    reveal_strlit("type");
    reveal_strlit("data");
    reveal_strlit("tx_types");
    reveal_strlit("tx_infos");
    assert("type"@ != "data"@) by {
        assert("type"@[0] == 't' && "data"@[0] == 'd');
    }
    assert("tx_types"@ != "tx_infos"@) by {
        assert("tx_types"@[3] == 't' && "tx_infos"@[3] == 'i');
    }
}

} // verus!
