//! The liveness probe that a validation relay runs for a server, and the
//! check of a server's info page.
//!
//! A probe is one command on a fresh connection to the relay, tagged with a
//! correlation identifier, and the first reply that carries the identifier.
//! The caller owns the connection: it sends the request of a `ProbeSession`
//! and hands each message that arrives to it.

use crate::text::{
    chars_of, contains, decimal, has_substring, lowercase, push_decimal, string_of, trim_chars,
    trimmed,
};
use vstd::prelude::*;
use vstd::string::StringExecFns;

verus! {

/// Seconds after which the request for an info page is given up.
pub const INFO_PAGE_TIMEOUT_SECS: u64 = 5;

/// Milliseconds to wait after a message that did not settle a probe.
pub const POLL_INTERVAL_MILLIS: u64 = 100;

/// The members of a relay message that a probe reads.
#[derive(Debug)]
pub struct Reply {
    /// The correlation identifier, where the message has one as a string.
    pub corr_id: Option<String>,
    /// The type of the response, where the message has one as a string.
    pub kind: Option<String>,
    /// Whether the response is free of a failure member, or has a null one.
    pub failure_absent: bool,
}

/// A `Reply` with its strings as character sequences.
pub struct ReplyView {
    pub corr_id: Option<Seq<char>>,
    pub kind: Option<Seq<char>>,
    pub failure_absent: bool,
}

/// What the connection to the relay brought when it was read.
#[derive(Debug)]
pub enum Inbound {
    /// A text message.
    Text(String),
    /// Any other message: binary data, a ping, a close.
    Other,
    /// Nothing: the connection is closed or broke.
    Closed,
}

/// Why an attempt to probe ended without an answer.
#[derive(Clone, Copy, Debug, PartialEq, Eq, Structural)]
pub enum ProbeError {
    /// The connection to the relay could not be made or broke while the
    /// request was sent.
    ConnectionFailed,
}

/// One probe: the identifier that joins request and reply, and the request.
#[derive(Debug)]
pub struct ProbeSession {
    pub corr_id: String,
    pub request: String,
}

/// The JSON text of an object with two string members, as `serde_json`
/// writes it.
pub uninterp spec fn json_object(
    first_key: Seq<char>,
    first: Seq<char>,
    second_key: Seq<char>,
    second: Seq<char>,
) -> Seq<char>;

/// What `serde_json` reads from `text`: nothing where `text` is no JSON
/// document; else the member `id_key` where it is a string, the member
/// `kind_key` of the member `body_key` where it is a string, and whether the
/// member `failure_key` of the member `body_key` is null or missing.
pub uninterp spec fn json_members(
    text: Seq<char>,
    id_key: Seq<char>,
    body_key: Seq<char>,
    kind_key: Seq<char>,
    failure_key: Seq<char>,
) -> Option<ReplyView>;

impl View for Reply {
    type V = ReplyView;

    open spec fn view(&self) -> ReplyView {
        ReplyView {
            corr_id: match self.corr_id {
                Some(id) => Some(id@),
                None => None,
            },
            kind: match self.kind {
                Some(kind) => Some(kind@),
                None => None,
            },
            failure_absent: self.failure_absent,
        }
    }
}

/// The view of a reply that may be missing.
pub open spec fn reply_view(reply: Option<Reply>) -> Option<ReplyView> {
    match reply {
        Some(r) => Some(r@),
        None => None,
    }
}

/// The type of the response that reports a finished test.
pub open spec fn test_result_type() -> Seq<char> {
    "serverTestResult"@
}

/// The text in a page that shows the product.
pub open spec fn product_marker() -> Seq<char> {
    "simplex"@
}

/// The command that asks the relay to test the server at `uri`.
pub open spec fn test_command(uri: Seq<char>) -> Seq<char> {
    "/_server test 1 "@ + trimmed(uri)
}

/// The request that carries the test command for `uri` under `corr_id`.
pub open spec fn test_request(corr_id: Seq<char>, uri: Seq<char>) -> Seq<char> {
    json_object("corrId"@, corr_id, "cmd"@, test_command(uri))
}

/// What a relay message says of the probe `corr_id`.
pub open spec fn reply_of(text: Seq<char>) -> Option<ReplyView> {
    json_members(text, "corrId"@, "resp"@, "type"@, "testFailure"@)
}

/// What a decoded message settles for the probe `corr_id`: nothing unless it
/// carries that identifier and reports a finished test; then the server is
/// alive if and only if the report is free of a failure. Any other content
/// under the identifier is passed over like a message for another probe.
pub open spec fn verdict(corr_id: Seq<char>, reply: Option<ReplyView>) -> Option<bool> {
    match reply {
        Some(r) => if r.corr_id == Some(corr_id) && r.kind == Some(test_result_type()) {
            Some(r.failure_absent)
        } else {
            None
        },
        None => None,
    }
}

/// What a read of the connection settles for the probe `corr_id`: a text
/// message what its content settles, any other message nothing, and the end
/// of the connection that the server is not alive.
pub open spec fn message_verdict(corr_id: Seq<char>, message: Inbound) -> Option<bool> {
    match message {
        Inbound::Text(text) => verdict(corr_id, reply_of(text@)),
        Inbound::Other => None,
        Inbound::Closed => Some(false),
    }
}

/// The result of a probe on whose connection `messages` arrived before it
/// closed: what the first message that settles it says, and not alive where
/// none does.
pub open spec fn test_result(corr_id: Seq<char>, messages: Seq<Inbound>) -> bool
    decreases messages.len(),
{
    if messages.len() == 0 {
        false
    } else {
        match message_verdict(corr_id, messages[0]) {
            Some(alive) => alive,
            None => test_result(corr_id, messages.drop_first()),
        }
    }
}

/// The first reply decides a probe: the result is what the first message
/// that settles the probe says, whatever arrives after it.
pub proof fn lemma_first_reply_decides(
    corr_id: Seq<char>,
    earlier: Seq<Inbound>,
    reply: Inbound,
    later: Seq<Inbound>,
    alive: bool,
)
    requires
        forall|i: int| 0 <= i < earlier.len() ==> message_verdict(corr_id, earlier[i]) is None,
        message_verdict(corr_id, reply) == Some(alive),
    ensures
        test_result(corr_id, earlier.push(reply) + later) == alive,
    decreases earlier.len(),
{
    let all = earlier.push(reply) + later;
    if earlier.len() == 0 {
        assert(all[0] == reply);
    } else {
        assert(all[0] == earlier[0]);
        assert(all.drop_first() =~= earlier.drop_first().push(reply) + later);
        lemma_first_reply_decides(corr_id, earlier.drop_first(), reply, later, alive);
    }
}

/// A probe without a reply finds the server not alive: where no message
/// settles the probe before the connection closes, the result is negative.
pub proof fn lemma_no_reply_is_not_alive(corr_id: Seq<char>, messages: Seq<Inbound>)
    requires
        forall|i: int| 0 <= i < messages.len() ==> message_verdict(corr_id, messages[i]) is None,
    ensures
        !test_result(corr_id, messages),
    decreases messages.len(),
{
    if messages.len() > 0 {
        lemma_no_reply_is_not_alive(corr_id, messages.drop_first());
    }
}

/// The address of the info page of `domain`: plain HTTP behind a proxy,
/// HTTPS without one.
pub open spec fn page_url(domain: Seq<char>, via_proxy: bool) -> Seq<char> {
    if via_proxy {
        "http://"@ + domain
    } else {
        "https://"@ + domain
    }
}

/// The body of a page shows the product marker, in any case of letters.
pub open spec fn shows_marker(body: Seq<char>) -> bool {
    has_substring(lowercase(body), product_marker())
}

/// `rand::random` draws a `u32` from the generator of the thread. Nothing is
/// claimed of the number.
#[verifier::external_body]
fn random_token() -> u32 {
    rand::random::<u32>()
}

/// Builds a `serde_json::Map` of the two members, each value a
/// `serde_json::Value::String`, and writes it with `to_string`. The result is
/// a function of the four strings; the contract gives it a name.
#[verifier::external_body]
fn encode_object(first_key: &str, first: &str, second_key: &str, second: &str) -> (text: String)
    ensures
        text@ == json_object(first_key@, first@, second_key@, second@),
{
    let mut object = serde_json::Map::new();
    object.insert(first_key.to_owned(), serde_json::Value::String(first.to_owned()));
    object.insert(second_key.to_owned(), serde_json::Value::String(second.to_owned()));
    serde_json::Value::Object(object).to_string()
}

/// Reads `text` with `serde_json::from_str` as a `serde_json::Value` and
/// picks three members by index, `as_str` and `is_null`. Indexing a value
/// that is no object, or by a key it lacks, gives null. The result is a
/// function of the five strings; the contract gives it a name.
#[verifier::external_body]
fn decode_members(text: &str, id_key: &str, body_key: &str, kind_key: &str, failure_key: &str) -> (reply:
    Option<Reply>)
    ensures
        reply_view(reply) == json_members(text@, id_key@, body_key@, kind_key@, failure_key@),
{
    match serde_json::from_str::<serde_json::Value>(text) {
        Ok(value) => Some(
            Reply {
                corr_id: value[id_key].as_str().map(str::to_owned),
                kind: value[body_key][kind_key].as_str().map(str::to_owned),
                failure_absent: value[body_key][failure_key].is_null(),
            },
        ),
        Err(_) => None,
    }
}

/// The correlation identifier made from `token`: its decimal digits.
pub fn correlation_id(token: u32) -> (corr_id: String)
    ensures
        corr_id@ == decimal(token as nat),
{
    let mut corr_id = String::new();
    push_decimal(&mut corr_id, token);
    corr_id
}

/// The command that asks the relay to test the server at `uri`. White space
/// around the address is left out.
pub fn command_for(uri: &str) -> (cmd: String)
    ensures
        cmd@ == test_command(uri@),
{
    let chars = chars_of(uri);
    let kept = trim_chars(&chars);
    let target = string_of(&kept);
    let mut cmd = String::from_str("/_server test 1 ");
    cmd.append(target.as_str());
    cmd
}

/// The members of a relay message that a probe reads, or nothing where the
/// message is no JSON document.
pub fn decode_reply(text: &str) -> (reply: Option<Reply>)
    ensures
        reply_view(reply) == reply_of(text@),
{
    decode_members(text, "corrId", "resp", "type", "testFailure")
}

/// What a decoded message settles for the probe `corr_id`. A message without
/// that identifier, or with it and no report of a finished test, settles
/// nothing and is passed over.
pub fn judge(corr_id: &str, reply: &Option<Reply>) -> (settled: Option<bool>)
    ensures
        settled == verdict(corr_id@, reply_view(*reply)),
{
    match reply {
        Some(r) => {
            let same_id = match &r.corr_id {
                Some(id) => same_text(id.as_str(), corr_id),
                None => false,
            };
            let finished = match &r.kind {
                Some(kind) => same_text(kind.as_str(), "serverTestResult"),
                None => false,
            };
            if same_id && finished {
                Some(r.failure_absent)
            } else {
                None
            }
        },
        None => None,
    }
}

/// Whether two strings hold the same characters.
fn same_text(a: &str, b: &str) -> (r: bool)
    ensures
        r == (a@ == b@),
{
    let x = chars_of(a);
    let y = chars_of(b);
    crate::text::same_chars(&x, &y)
}

impl ProbeSession {
    /// This is the probe of the server at `uri` under the identifier made
    /// from `token`.
    pub open spec fn probes(&self, uri: Seq<char>, token: u32) -> bool {
        &&& self.corr_id@ == decimal(token as nat)
        &&& self.request@ == test_request(self.corr_id@, uri)
    }

    /// The probe of the server at `uri` under the identifier made from
    /// `token`.
    pub fn new(uri: &str, token: u32) -> (session: ProbeSession)
        ensures
            session.probes(uri@, token),
    {
        let corr_id = correlation_id(token);
        let cmd = command_for(uri);
        let request = encode_object("corrId", corr_id.as_str(), "cmd", cmd.as_str());
        ProbeSession { corr_id, request }
    }

    /// A probe of the server at `uri` under a fresh random identifier.
    pub fn open(uri: &str) -> (session: ProbeSession)
        ensures
            exists|token: u32| session.probes(uri@, token),
    {
        ProbeSession::new(uri, random_token())
    }

    /// What `message` settles for this probe: `Some` with the result where
    /// it is the reply, `None` where the caller is to keep reading.
    pub fn on_message(&self, message: &Inbound) -> (settled: Option<bool>)
        ensures
            settled == message_verdict(self.corr_id@, *message),
    {
        match message {
            Inbound::Text(text) => {
                let reply = decode_reply(text.as_str());
                judge(self.corr_id.as_str(), &reply)
            },
            Inbound::Other => None,
            Inbound::Closed => Some(false),
        }
    }
}

/// The result of the probe `session` on whose connection `messages` arrived
/// before it closed. The first report of a finished test under the
/// identifier of the probe decides; what arrives after it is not read.
pub fn test_server(session: &ProbeSession, messages: &Vec<Inbound>) -> (alive: bool)
    ensures
        alive == test_result(session.corr_id@, messages@),
{
    let mut i: usize = 0;
    assert(messages@.skip(0) == messages@);
    while i < messages.len()
        invariant
            i <= messages.len(),
            test_result(session.corr_id@, messages@) == test_result(
                session.corr_id@,
                messages@.skip(i as int),
            ),
        decreases messages.len() - i,
    {
        assert(messages@.skip(i as int).drop_first() == messages@.skip(i + 1));
        match session.on_message(&messages[i]) {
            Some(alive) => {
                return alive;
            },
            None => {},
        }
        i += 1;
    }
    false
}

/// The address of the info page of `domain`.
pub fn info_page_url(domain: &str, via_proxy: bool) -> (url: String)
    ensures
        url@ == page_url(domain@, via_proxy),
{
    let mut url = if via_proxy {
        String::from_str("http://")
    } else {
        String::from_str("https://")
    };
    url.append(domain);
    url
}

/// Whether a text that is already in lower case holds the product marker.
pub fn holds_marker(lowered: &str) -> (r: bool)
    ensures
        r == has_substring(lowered@, product_marker()),
{
    let hay = chars_of(lowered);
    let marker = chars_of("simplex");
    contains(&hay, &marker)
}

/// Whether the info page of a server is available, given the body that the
/// request for it brought, or `None` where the request failed, timed out or
/// brought no text. A page is available if and only if its body shows the
/// product marker in any case of letters.
pub fn is_info_page_available(body: Option<&str>) -> (available: bool)
    ensures
        available == match body {
            Some(text) => shows_marker(text@),
            None => false,
        },
{
    match body {
        Some(text) => {
            let lowered = text.to_lowercase();
            holds_marker(lowered.as_str())
        },
        None => false,
    }
}

} // verus!
