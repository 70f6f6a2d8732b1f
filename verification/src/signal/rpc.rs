//! The client of the Signal process: its requests, which of them wait for an
//! answer, and when the process is started again.
use vstd::arithmetic::power2::{lemma2_to64, lemma_pow2_unfold, pow2};
use vstd::prelude::*;

use crate::json::{a_member_is_found, lookup, opt_str_view, JsonValue, JsonView};
use crate::signal::{JsonRpcNotification, SignalMessage};
use crate::text::{
    chars_of, decimal, decimal_is_injective, decimal_of, has_text, same_text,
    text_is_found_where_it_stands, trim, trimmed, views,
};

verus! {

/// An answer of the Signal process.
#[derive(Debug)]
pub struct JsonRpcResponse {
    pub jsonrpc: String,
    pub id: Option<String>,
    pub result: Option<JsonValue>,
    pub error: Option<JsonRpcError>,
}

/// Why the Signal process did not do what it was asked for.
#[derive(Debug)]
pub struct JsonRpcError {
    pub code: i32,
    pub message: String,
    /// Further details as they are shown in messages.
    pub data: String,
}

/// A request to the Signal process under its id.
pub struct RpcCall {
    pub id: String,
    pub payload: JsonValue,
}

// ---------------------------------------------------------------------------
// Requests
// ---------------------------------------------------------------------------

/// Whether a phone number is a plus sign and seven to fifteen digits.
pub open spec fn is_phone_number(s: Seq<char>) -> bool {
    &&& 8 <= s.len() <= 16
    &&& s[0] == '+'
    &&& forall|i: int| 1 <= i < s.len() ==> '0' <= #[trigger] s[i] <= '9'
}

/// The error of a phone number that is none.
pub open spec fn phone_error(s: Seq<char>) -> Seq<char> {
    "Invalid phone number format '"@ + s + "': expected E.164 (e.g. +12345678901)"@
}

/// Decides whether a text is a phone number.
pub fn valid_phone(s: &str) -> (r: bool)
    ensures
        r == is_phone_number(s@),
{
    let chars = chars_of(s);
    if chars.len() < 8 || chars.len() > 16 || chars[0] != '+' {
        return false;
    }
    let mut i: usize = 1;
    while i < chars.len()
        invariant
            1 <= i <= chars@.len(),
            chars@ == s@,
            forall|j: int| 1 <= j < i ==> '0' <= #[trigger] s@[j] <= '9',
        decreases chars@.len() - i,
    {
        if chars[i] < '0' || chars[i] > '9' {
            return false;
        }
        i += 1;
    }
    true
}

/// The number of the first account in a list of linked accounts.
pub open spec fn linked_number_in(accounts: JsonView) -> Option<Seq<char>> {
    match accounts.member("accounts"@) {
        Some(list) => match list.head() {
            Some(account) => match account.member("number"@) {
                Some(number) => number.characters(),
                None => None,
            },
            None => None,
        },
        None => None,
    }
}

/// Finds the number of the first linked account.
pub fn linked_number(accounts: &JsonValue) -> (r: Option<&str>)
    ensures
        opt_str_view(r) == linked_number_in(accounts@),
{
    match accounts.get("accounts") {
        Some(list) => match list.first() {
            Some(account) => match account.get("number") {
                Some(number) => number.as_str(),
                None => None,
            },
            None => None,
        },
        None => None,
    }
}

/// A request in JSON.
pub open spec fn call_json(method: Seq<char>, params: JsonView, id: Seq<char>) -> JsonView {
    JsonView::object().with("jsonrpc"@, JsonView::Text("2.0"@)).with(
        "method"@,
        JsonView::Text(method),
    ).with("params"@, params).with("id"@, JsonView::Text(id))
}

/// To whom a request is addressed: to the group where there is one, else to the
/// recipient.
pub open spec fn address_json(recipient: Seq<char>, group_id: Option<Seq<char>>) -> JsonView {
    match group_id {
        Some(gid) => JsonView::object().with("groupId"@, JsonView::Text(gid)),
        None => JsonView::object().with(
            "recipient"@,
            JsonView::List(seq![JsonView::Text(recipient)]),
        ),
    }
}

/// The parameters of a message.
pub open spec fn message_json(
    recipient: Seq<char>,
    group_id: Option<Seq<char>>,
    message: Seq<char>,
    attachment: Option<Seq<char>>,
) -> JsonView {
    let plain = address_json(recipient, group_id).with("message"@, JsonView::Text(message));
    match attachment {
        Some(file) => plain.with("attachment"@, JsonView::List(seq![JsonView::Text(file)])),
        None => plain,
    }
}

/// The parameters of a read receipt.
pub open spec fn receipt_json(recipient: Seq<char>, target_timestamp: u64) -> JsonView {
    JsonView::object().with("recipient"@, JsonView::Text(recipient)).with(
        "targetTimestamp"@,
        JsonView::Number(target_timestamp as int),
    ).with("type"@, JsonView::Text("read"@))
}

fn call_value(method: &str, params: JsonValue, id: &str) -> (r: JsonValue)
    ensures
        r@ == call_json(method@, params@, id@),
{
    JsonValue::object().with("jsonrpc", JsonValue::text("2.0")).with(
        "method",
        JsonValue::text(method),
    ).with("params", params).with("id", JsonValue::text(id))
}

fn address_value(recipient: &str, group_id: Option<&str>) -> (r: JsonValue)
    ensures
        r@ == address_json(recipient@, opt_str_view(group_id)),
{
    match group_id {
        Some(gid) => JsonValue::object().with("groupId", JsonValue::text(gid)),
        None => JsonValue::object().with(
            "recipient",
            JsonValue::singleton(JsonValue::text(recipient)),
        ),
    }
}

// ---------------------------------------------------------------------------
// State
// ---------------------------------------------------------------------------

/// Seconds before the first restart of the process.
pub const INITIAL_RESTART_DELAY_SECS: u64 = 1;

/// Seconds beyond which the wait before a restart does not grow.
pub const MAX_RESTART_DELAY_SECS: u64 = 60;

/// A process that lived for more seconds than this is restarted like the first.
pub const STABLE_AFTER_SECS: u64 = 10;

/// What the client knows.
#[verifier::ext_equal]
pub struct SignalView {
    pub user_phone: Seq<char>,
    pub next_request_id: usize,
    /// The ids of the requests that wait for an answer.
    pub pending: Set<Seq<char>>,
    /// Whether the process is up.
    pub running: bool,
    /// Whether the process was never started.
    pub first_spawn: bool,
    /// Seconds to wait before the next restart.
    pub restart_delay_secs: u64,
}

/// The client of the Signal process.
pub struct SignalClient {
    user_phone: String,
    next_request_id: usize,
    pending: Vec<String>,
    running: bool,
    first_spawn: bool,
    restart_delay_secs: u64,
}

impl View for SignalClient {
    type V = SignalView;

    closed spec fn view(&self) -> SignalView {
        SignalView {
            user_phone: self.user_phone@,
            next_request_id: self.next_request_id,
            pending: views(self.pending@).to_set(),
            running: self.running,
            first_spawn: self.first_spawn,
            restart_delay_secs: self.restart_delay_secs,
        }
    }
}

/// The request number after `n`.
pub open spec fn next_number(n: usize) -> usize {
    if n == usize::MAX {
        0
    } else {
        (n + 1) as usize
    }
}

/// The client after it has made one more request.
pub open spec fn after_call(s: SignalView) -> SignalView {
    SignalView {
        next_request_id: next_number(s.next_request_id),
        pending: s.pending.insert(decimal(s.next_request_id as nat)),
        ..s
    }
}

/// The client of a phone number before its first request.
pub open spec fn fresh_client(user_phone: Seq<char>) -> SignalView {
    SignalView {
        user_phone,
        next_request_id: 1,
        pending: Set::empty(),
        running: false,
        first_spawn: true,
        restart_delay_secs: INITIAL_RESTART_DELAY_SECS,
    }
}

/// How waiting for an answer ended.
pub enum SendOutcome {
    /// The request could not be handed to the process.
    NotSent,
    /// There is an answer.
    Answered(Result<(), String>),
    /// Nobody is left to answer.
    Dropped,
    /// There was no answer in time.
    TimedOut,
}

/// What the sender of a request learns.
pub open spec fn outcome_view(outcome: SendOutcome) -> Result<(), Seq<char>> {
    match outcome {
        SendOutcome::NotSent => Err("Failed to send payload to background task"@),
        SendOutcome::Answered(Ok(())) => Ok(()),
        SendOutcome::Answered(Err(e)) => Err(e@),
        SendOutcome::Dropped => Err("Signal CLI response channel dropped unexpectedly"@),
        SendOutcome::TimedOut => Err("Signal command timed out after 30s"@),
    }
}

/// The view of the answer to a request.
pub open spec fn answer_view(r: Result<(), String>) -> Result<(), Seq<char>> {
    match r {
        Ok(()) => Ok(()),
        Err(e) => Err(e@),
    }
}

/// The ids without `id`.
fn remove_id(ids: &mut Vec<String>, id: &str) -> (r: bool)
    requires
        views(old(ids)@).no_duplicates(),
    ensures
        views(final(ids)@).no_duplicates(),
        views(final(ids)@).to_set() == views(old(ids)@).to_set().remove(id@),
        r == views(old(ids)@).to_set().contains(id@),
{
    let ghost before = views(ids@);
    let mut i: usize = 0;
    while i < ids.len()
        invariant
            i <= ids@.len(),
            before == views(ids@),
            before == views(old(ids)@),
            before.no_duplicates(),
            forall|j: int| 0 <= j < i ==> #[trigger] before[j] != id@,
        decreases ids@.len() - i,
    {
        if same_text(ids[i].as_str(), id) {
            assert(before[i as int] == id@);
            let _ = ids.remove(i);
            proof {
                let after = views(ids@);
                assert(after =~= before.remove(i as int));
                assert forall|x: Seq<char>|
                    after.to_set().contains(x) <==> before.to_set().remove(id@).contains(x) by {
                    if after.contains(x) {
                        let k = choose|k: int| 0 <= k < after.len() && after[k] == x;
                        let m = if k < i {
                            k
                        } else {
                            k + 1
                        };
                        assert(before[m] == x);
                        assert(m != i);
                    }
                    if before.contains(x) && x != id@ {
                        let m = choose|m: int| 0 <= m < before.len() && before[m] == x;
                        let k = if m < i {
                            m
                        } else {
                            m - 1
                        };
                        assert(after[k] == x);
                    }
                }
                assert(after.to_set() =~= before.to_set().remove(id@));
                assert forall|a: int, b: int|
                    0 <= a < after.len() && 0 <= b < after.len() && a != b implies after[a]
                    != after[b] by {
                    let m = if a < i {
                        a
                    } else {
                        a + 1
                    };
                    let n = if b < i {
                        b
                    } else {
                        b + 1
                    };
                    assert(after[a] == before[m] && after[b] == before[n]);
                }
            }
            return true;
        }
        i += 1;
    }
    proof {
        if before.contains(id@) {
            let k = choose|k: int| 0 <= k < before.len() && before[k] == id@;
            assert(before[k] != id@);
        }
        assert(before.to_set().remove(id@) =~= before.to_set());
    }
    false
}

/// What happened to the process or on its lines.
pub enum SignalEvent {
    /// The process is down and has to be started. It was last started so many
    /// seconds ago.
    SpawnDue { since_last_secs: u64 },
    /// The process is up.
    Spawned,
    /// The process could not be started.
    SpawnFailed,
    /// A request has to be written.
    Payload { payload: JsonValue },
    /// A request could not be written.
    WriteFailed,
    /// A request could not be put into words.
    NotSerialized { payload: JsonValue, reason: String },
    /// No request will come any more.
    InputClosed,
    /// The process wrote a line, which reads as the given notification and as
    /// the given response.
    Line {
        text: String,
        notification: Option<JsonRpcNotification>,
        response: Option<JsonRpcResponse>,
    },
    /// Nobody takes messages any more.
    ReceiverGone,
    /// The process will not write any more.
    OutputClosed,
}

/// What has to be done.
pub enum SignalAction {
    /// Nothing but to go on.
    Continue,
    /// Start the process after so many seconds.
    Spawn { after_secs: u64 },
    /// Write the request as one line.
    Write,
    /// Give a request its answer.
    Resolve { id: String, result: Result<(), String> },
    /// Hand a message on.
    Forward { received: SignalMessage },
    /// Kill the process and give all these requests the same error.
    Restart { ids: Vec<String>, message: String },
    /// Kill the process and end.
    Stop,
}

/// The id in a request.
pub open spec fn payload_id(payload: JsonView) -> Option<Seq<char>> {
    match payload.member("id"@) {
        Some(id) => id.characters(),
        None => None,
    }
}

/// The answer to a request that a response brings.
pub open spec fn response_result(id: Seq<char>, error: Option<JsonRpcError>) -> Result<
    (),
    Seq<char>,
> {
    match error {
        Some(e) => Err(
            "Signal Command Failed (ID: "@ + id + "): "@ + e.message@ + " - "@ + e.data@,
        ),
        None => Ok(()),
    }
}

/// One request, where it waits, gets its answer, and nothing else changes.
pub open spec fn resolves(
    s: SignalView,
    id: Option<Seq<char>>,
    result: Result<(), Seq<char>>,
    t: SignalView,
    a: SignalAction,
) -> bool {
    match id {
        Some(id) => if s.pending.contains(id) {
            &&& t == (SignalView { pending: s.pending.remove(id), ..s })
            &&& a matches SignalAction::Resolve { id: i, result: r } && i@ == id && answer_view(r)
                == result
        } else {
            t == s && a is Continue
        },
        None => t == s && a is Continue,
    }
}

/// The process goes down, and all requests that wait get the same error.
pub open spec fn restarts(
    s: SignalView,
    message: Seq<char>,
    t: SignalView,
    a: SignalAction,
) -> bool {
    &&& t == (SignalView { running: false, pending: Set::empty(), ..s })
    &&& a matches SignalAction::Restart { ids, message: m } && m@ == message && views(
        ids@,
    ).no_duplicates() && views(ids@).to_set() == s.pending
}

/// Seconds to wait before a restart.
pub open spec fn restart_delay(s: SignalView, since_last_secs: u64) -> u64 {
    if since_last_secs > STABLE_AFTER_SECS {
        INITIAL_RESTART_DELAY_SECS
    } else {
        s.restart_delay_secs
    }
}

/// Seconds to wait before the restart after one that was waited for `delay`
/// seconds.
pub open spec fn longer_delay(delay: int) -> int {
    if 2 * delay < MAX_RESTART_DELAY_SECS {
        2 * delay
    } else {
        MAX_RESTART_DELAY_SECS as int
    }
}

/// What an event makes of the client and what has to be done.
pub open spec fn step(s: SignalView, e: SignalEvent, t: SignalView, a: SignalAction) -> bool {
    match e {
        SignalEvent::SpawnDue { since_last_secs } => if s.first_spawn {
            t == (SignalView { first_spawn: false, ..s }) && a == (SignalAction::Spawn {
                after_secs: 0,
            })
        } else {
            let delay = restart_delay(s, since_last_secs);
            t == (SignalView { restart_delay_secs: longer_delay(delay as int) as u64, ..s }) && a
                == (SignalAction::Spawn { after_secs: delay })
        },
        SignalEvent::Spawned => t == (SignalView { running: true, ..s }) && a is Continue,
        SignalEvent::SpawnFailed => t == (SignalView { running: false, ..s }) && a is Continue,
        SignalEvent::Payload { payload } => if s.running {
            t == s && a is Write
        } else {
            resolves(
                s,
                payload_id(payload@),
                Err("Signal-cli not running, dropped request"@),
                t,
                a,
            )
        },
        SignalEvent::WriteFailed => restarts(
            s,
            "Signal-cli stdin write failed, process restarting"@,
            t,
            a,
        ),
        SignalEvent::NotSerialized { payload, reason } => resolves(
            s,
            payload_id(payload@),
            Err("Failed to serialize payload: "@ + reason@),
            t,
            a,
        ),
        SignalEvent::InputClosed => t == (SignalView { running: false, ..s }) && a is Stop,
        SignalEvent::Line { text, notification, response } => if trimmed(text@).len() == 0 {
            t == s && a is Continue
        } else {
            match (notification, response) {
                (Some(n), _) => t == s && if n.method@ == "receive"@ {
                    a == (SignalAction::Forward { received: n.params })
                } else {
                    a is Continue
                },
                (None, Some(r)) => match r.id {
                    Some(id) => resolves(s, Some(id@), response_result(id@, r.error), t, a),
                    None => t == s && a is Continue,
                },
                (None, None) => t == s && a is Continue,
            }
        },
        SignalEvent::ReceiverGone => t == (SignalView { running: false, ..s }) && a is Stop,
        SignalEvent::OutputClosed => restarts(
            s,
            "Signal-cli process restarted before command could complete"@,
            t,
            a,
        ),
    }
}

impl SignalClient {
    /// No id waits twice, and the wait before a restart is in its bounds.
    pub closed spec fn wf(self) -> bool {
        &&& views(self.pending@).no_duplicates()
        &&& INITIAL_RESTART_DELAY_SECS <= self.restart_delay_secs <= MAX_RESTART_DELAY_SECS
    }

    fn fresh(user_phone: &str) -> (r: Self)
        ensures
            r.wf(),
            r@ == fresh_client(user_phone@),
    {
        let r = SignalClient {
            user_phone: user_phone.to_string(),
            next_request_id: 1,
            pending: Vec::new(),
            running: false,
            first_spawn: true,
            restart_delay_secs: INITIAL_RESTART_DELAY_SECS,
        };
        assert(r@.pending =~= Set::empty());
        r
    }

    /// The client of a phone number.
    pub fn new(user_phone: &str) -> (r: Result<Self, String>)
        ensures
            r is Ok <==> is_phone_number(user_phone@),
            r matches Ok(client) ==> client.wf() && client@ == fresh_client(user_phone@),
            r matches Err(e) ==> e@ == phone_error(user_phone@),
    {
        if !valid_phone(user_phone) {
            let mut message = "Invalid phone number format '".to_string();
            message.append(user_phone);
            message.append("': expected E.164 (e.g. +12345678901)");
            return Err(message);
        }
        Ok(SignalClient::fresh(user_phone))
    }

    /// A client of no phone number.
    pub fn new_dummy() -> (r: Self)
        ensures
            r.wf(),
            r@ == fresh_client("dummy"@),
    {
        SignalClient::fresh("dummy")
    }

    /// The phone number of the client.
    pub fn user_phone(&self) -> (r: &str)
        ensures
            r@ == self@.user_phone,
    {
        self.user_phone.as_str()
    }

    /// The arguments with which the process is started.
    pub fn command_args(&self, data_path: &str) -> (r: Vec<String>)
        ensures
            views(r@) == seq![
                "--config"@,
                data_path@,
                "-u"@,
                self@.user_phone,
                "--output=json"@,
                "jsonRpc"@,
                "--receive-mode=on-start"@,
                "--send-read-receipts"@,
            ],
    {
        let mut args: Vec<String> = Vec::new();
        args.push("--config".to_string());
        args.push(data_path.to_string());
        args.push("-u".to_string());
        args.push(self.user_phone.clone());
        args.push("--output=json".to_string());
        args.push("jsonRpc".to_string());
        args.push("--receive-mode=on-start".to_string());
        args.push("--send-read-receipts".to_string());
        assert(views(args@) =~= seq![
            "--config"@,
            data_path@,
            "-u"@,
            self@.user_phone,
            "--output=json"@,
            "jsonRpc"@,
            "--receive-mode=on-start"@,
            "--send-read-receipts"@,
        ]);
        args
    }

    /// The id of the next request, which from now on waits for its answer.
    fn next_id(&mut self) -> (r: String)
        requires
            old(self).wf(),
        ensures
            final(self).wf(),
            final(self)@ == after_call(old(self)@),
            r@ == decimal(old(self)@.next_request_id as nat),
    {
        let n = self.next_request_id;
        let id = decimal_of(n as u64);
        self.next_request_id = if n == usize::MAX {
            0
        } else {
            n + 1
        };
        let _ = remove_id(&mut self.pending, id.as_str());
        let ghost before = views(self.pending@);
        self.pending.push(id.clone());
        proof {
            let after = views(self.pending@);
            assert(after =~= before.push(id@));
            assert(!before.to_set().contains(id@));
            assert(!before.contains(id@));
            assert forall|x: Seq<char>|
                after.to_set().contains(x) <==> before.to_set().insert(id@).contains(x) by {
                if before.contains(x) {
                    let k = choose|k: int| 0 <= k < before.len() && before[k] == x;
                    assert(after[k] == x);
                }
                assert(after[before.len() as int] == id@);
            }
            assert(after.to_set() =~= before.to_set().insert(id@));
            assert(self@.pending =~= after_call(old(self)@).pending);
            assert forall|a: int, b: int|
                0 <= a < after.len() && 0 <= b < after.len() && a != b implies after[a]
                != after[b] by {
                if a == before.len() {
                    assert(before.contains(before[b]));
                } else if b == before.len() {
                    assert(before.contains(before[a]));
                }
            }
        }
        id
    }

    /// A message to a group or a recipient, with a file where one is given.
    pub fn send_message(
        &mut self,
        recipient: &str,
        group_id: Option<&str>,
        message: &str,
        attachment: Option<&str>,
    ) -> (r: RpcCall)
        requires
            old(self).wf(),
        ensures
            final(self).wf(),
            final(self)@ == after_call(old(self)@),
            r.id@ == decimal(old(self)@.next_request_id as nat),
            r.payload@ == call_json(
                "send"@,
                message_json(
                    recipient@,
                    opt_str_view(group_id),
                    message@,
                    opt_str_view(attachment),
                ),
                r.id@,
            ),
    {
        let plain = address_value(recipient, group_id).with("message", JsonValue::text(message));
        let params = match attachment {
            Some(file) => plain.with("attachment", JsonValue::singleton(JsonValue::text(file))),
            None => plain,
        };
        let id = self.next_id();
        let payload = call_value("send", params, id.as_str());
        RpcCall { id, payload }
    }

    /// A receipt that a message was read.
    pub fn send_receipt(&mut self, recipient: &str, target_timestamp: u64) -> (r: RpcCall)
        requires
            old(self).wf(),
        ensures
            final(self).wf(),
            final(self)@ == after_call(old(self)@),
            r.id@ == decimal(old(self)@.next_request_id as nat),
            r.payload@ == call_json(
                "sendReceipt"@,
                receipt_json(recipient@, target_timestamp),
                r.id@,
            ),
    {
        let params = JsonValue::object().with("recipient", JsonValue::text(recipient)).with(
            "targetTimestamp",
            JsonValue::Unsigned(target_timestamp),
        ).with("type", JsonValue::text("read"));
        let id = self.next_id();
        let payload = call_value("sendReceipt", params, id.as_str());
        RpcCall { id, payload }
    }

    /// The sign that the bot types.
    pub fn send_typing(&mut self, recipient: &str, group_id: Option<&str>) -> (r: RpcCall)
        requires
            old(self).wf(),
        ensures
            final(self).wf(),
            final(self)@ == after_call(old(self)@),
            r.id@ == decimal(old(self)@.next_request_id as nat),
            r.payload@ == call_json(
                "sendTyping"@,
                address_json(recipient@, opt_str_view(group_id)),
                r.id@,
            ),
    {
        let params = address_value(recipient, group_id);
        let id = self.next_id();
        let payload = call_value("sendTyping", params, id.as_str());
        RpcCall { id, payload }
    }

    /// The sign that the bot does not type any more.
    pub fn stop_typing(&mut self, recipient: &str, group_id: Option<&str>) -> (r: RpcCall)
        requires
            old(self).wf(),
        ensures
            final(self).wf(),
            final(self)@ == after_call(old(self)@),
            r.id@ == decimal(old(self)@.next_request_id as nat),
            r.payload@ == call_json(
                "sendTyping"@,
                address_json(recipient@, opt_str_view(group_id)).with("stop"@, JsonView::Bool(true)),
                r.id@,
            ),
    {
        let params = address_value(recipient, group_id).with("stop", JsonValue::Bool(true));
        let id = self.next_id();
        let payload = call_value("sendTyping", params, id.as_str());
        RpcCall { id, payload }
    }

    /// Ends the wait for the answer to a request.
    pub fn settle(&mut self, id: &str, outcome: SendOutcome) -> (r: Result<(), String>)
        requires
            old(self).wf(),
        ensures
            final(self).wf(),
            final(self)@ == (SignalView {
                pending: if outcome is Answered {
                    old(self)@.pending
                } else {
                    old(self)@.pending.remove(id@)
                },
                ..old(self)@
            }),
            answer_view(r) == outcome_view(outcome),
    {
        match outcome {
            SendOutcome::NotSent => {
                let _ = remove_id(&mut self.pending, id);
                Err("Failed to send payload to background task".to_string())
            },
            SendOutcome::Answered(answer) => answer,
            SendOutcome::Dropped => {
                let _ = remove_id(&mut self.pending, id);
                Err("Signal CLI response channel dropped unexpectedly".to_string())
            },
            SendOutcome::TimedOut => {
                let _ = remove_id(&mut self.pending, id);
                Err("Signal command timed out after 30s".to_string())
            },
        }
    }

    fn resolve(&mut self, id: Option<&str>, result: Result<(), String>) -> (r: SignalAction)
        requires
            old(self).wf(),
        ensures
            final(self).wf(),
            resolves(old(self)@, opt_str_view(id), answer_view(result), final(self)@, r),
    {
        match id {
            Some(id) => {
                if remove_id(&mut self.pending, id) {
                    SignalAction::Resolve { id: id.to_string(), result }
                } else {
                    assert(old(self)@.pending.remove(id@) =~= old(self)@.pending);
                    SignalAction::Continue
                }
            },
            None => SignalAction::Continue,
        }
    }

    fn restart(&mut self, message: &str) -> (r: SignalAction)
        requires
            old(self).wf(),
        ensures
            final(self).wf(),
            restarts(old(self)@, message@, final(self)@, r),
    {
        let mut ids: Vec<String> = Vec::new();
        std::mem::swap(&mut ids, &mut self.pending);
        self.running = false;
        assert(self@.pending =~= Set::empty());
        SignalAction::Restart { ids, message: message.to_string() }
    }

    /// Takes an event in and says what has to be done.
    pub fn handle(&mut self, event: SignalEvent) -> (r: SignalAction)
        requires
            old(self).wf(),
        ensures
            final(self).wf(),
            step(old(self)@, event, final(self)@, r),
    {
        match event {
            SignalEvent::SpawnDue { since_last_secs } => {
                if self.first_spawn {
                    self.first_spawn = false;
                    return SignalAction::Spawn { after_secs: 0 };
                }
                let delay: u64 = if since_last_secs > STABLE_AFTER_SECS {
                    INITIAL_RESTART_DELAY_SECS
                } else {
                    self.restart_delay_secs
                };
                self.restart_delay_secs = if 2 * delay < MAX_RESTART_DELAY_SECS {
                    2 * delay
                } else {
                    MAX_RESTART_DELAY_SECS
                };
                SignalAction::Spawn { after_secs: delay }
            },
            SignalEvent::Spawned => {
                self.running = true;
                SignalAction::Continue
            },
            SignalEvent::SpawnFailed => {
                self.running = false;
                SignalAction::Continue
            },
            SignalEvent::Payload { payload } => {
                if self.running {
                    return SignalAction::Write;
                }
                let id = id_in(&payload);
                self.resolve(id, Err("Signal-cli not running, dropped request".to_string()))
            },
            SignalEvent::WriteFailed => self.restart(
                "Signal-cli stdin write failed, process restarting",
            ),
            SignalEvent::NotSerialized { payload, reason } => {
                let mut message = "Failed to serialize payload: ".to_string();
                message.append(reason.as_str());
                let id = id_in(&payload);
                self.resolve(id, Err(message))
            },
            SignalEvent::InputClosed => {
                self.running = false;
                SignalAction::Stop
            },
            SignalEvent::Line { text, notification, response } => {
                if trim(text.as_str()).as_str().unicode_len() == 0 {
                    return SignalAction::Continue;
                }
                if let Some(n) = notification {
                    return if same_text(n.method.as_str(), "receive") {
                        SignalAction::Forward { received: n.params }
                    } else {
                        SignalAction::Continue
                    };
                }
                if let Some(r) = response {
                    if let Some(id) = r.id {
                        let result = result_in(id.as_str(), &r.error);
                        return self.resolve(Some(id.as_str()), result);
                    }
                }
                SignalAction::Continue
            },
            SignalEvent::ReceiverGone => {
                self.running = false;
                SignalAction::Stop
            },
            SignalEvent::OutputClosed => self.restart(
                "Signal-cli process restarted before command could complete",
            ),
        }
    }
}

fn id_in(payload: &JsonValue) -> (r: Option<&str>)
    ensures
        opt_str_view(r) == payload_id(payload@),
{
    match payload.get("id") {
        Some(id) => id.as_str(),
        None => None,
    }
}

fn result_in(id: &str, error: &Option<JsonRpcError>) -> (r: Result<(), String>)
    ensures
        answer_view(r) == response_result(id@, *error),
{
    match error {
        Some(e) => {
            let mut message = "Signal Command Failed (ID: ".to_string();
            message.append(id);
            message.append("): ");
            message.append(e.message.as_str());
            message.append(" - ");
            message.append(e.data.as_str());
            Err(message)
        },
        None => Ok(()),
    }
}

// ---------------------------------------------------------------------------
// Laws
// ---------------------------------------------------------------------------

/// The requests that an action answers.
pub open spec fn answered(a: SignalAction) -> Set<Seq<char>> {
    match a {
        SignalAction::Resolve { id, .. } => set![id@],
        SignalAction::Restart { ids, .. } => views(ids@).to_set(),
        _ => Set::empty(),
    }
}

/// Whatever happens, a request that waits is either answered or goes on
/// waiting, never both, and no other request is answered.
pub proof fn each_request_is_answered_once(
    s: SignalView,
    e: SignalEvent,
    t: SignalView,
    a: SignalAction,
)
    requires
        step(s, e, t, a),
    ensures
        answered(a).disjoint(t.pending),
        answered(a).union(t.pending) == s.pending,
{
    assert(answered(a).union(t.pending) =~= s.pending);
}

/// A request names the id under which it waits.
pub proof fn requests_carry_their_id(method: Seq<char>, params: JsonView, id: Seq<char>)
    ensures
        payload_id(call_json(method, params, id)) == Some(id),
{
    reveal_strlit("jsonrpc");
    reveal_strlit("method");
    reveal_strlit("params");
    reveal_strlit("id");
    let all = call_json(method, params, id)->Object_0;
    assert(all.len() == 4);
    assert("id"@.len() == 2 && "jsonrpc"@.len() == 7 && "method"@.len() == 6 && "params"@.len()
        == 6);
    let one = all.drop_first();
    let two = one.drop_first();
    let three = two.drop_first();
    assert(all[0].0 == "jsonrpc"@);
    assert(one[0] == all[1] && all[1].0 == "method"@);
    assert(two[0] == all[2] && all[2].0 == "params"@);
    assert(three[0] == all[3] && all[3].0 == "id"@);
    reveal_with_fuel(lookup, 5);
}

/// A response with the id of a request that waits answers that request, which
/// then waits no more.
pub proof fn a_response_answers_its_request(
    s: SignalView,
    text: String,
    response: JsonRpcResponse,
    t: SignalView,
    a: SignalAction,
)
    requires
        trimmed(text@).len() > 0,
        response.id is Some,
        s.pending.contains(response.id->0@),
        step(
            s,
            SignalEvent::Line { text, notification: None, response: Some(response) },
            t,
            a,
        ),
    ensures
        a matches SignalAction::Resolve { id, result } && id@ == response.id->0@ && answer_view(
            result,
        ) == response_result(id@, response.error),
        t.pending == s.pending.remove(response.id->0@),
{
}

/// A process that goes down leaves no request waiting.
pub proof fn a_restart_answers_all(s: SignalView, e: SignalEvent, t: SignalView, a: SignalAction)
    requires
        step(s, e, t, a),
        a is Restart,
    ensures
        t.pending == Set::<Seq<char>>::empty(),
        answered(a) == s.pending,
        !t.running,
{
}

/// A request is written only while the process is up, and only a process that
/// is up goes on so.
pub proof fn requests_go_to_a_running_process(
    s: SignalView,
    e: SignalEvent,
    t: SignalView,
    a: SignalAction,
)
    requires
        step(s, e, t, a),
    ensures
        a is Write ==> s.running && t == s,
        t.running ==> s.running || e is Spawned,
{
}

/// The number of the request after `k` others, where the first has number `n`.
pub open spec fn number_after(n: usize, k: nat) -> usize
    decreases k,
{
    if k == 0 {
        n
    } else {
        next_number(number_after(n, (k - 1) as nat))
    }
}

proof fn lemma_number_after(n: usize, k: nat)
    requires
        k <= usize::MAX,
    ensures
        number_after(n, k) == if n + k <= usize::MAX {
            n + k
        } else {
            n + k - usize::MAX - 1
        },
    decreases k,
{
    if k > 0 {
        lemma_number_after(n, (k - 1) as nat);
    }
}

/// Among as many requests as there are numbers, no two have the same id.
pub proof fn request_ids_are_unique(n: usize, i: nat, j: nat)
    requires
        i < j <= usize::MAX,
    ensures
        decimal(number_after(n, i) as nat) != decimal(number_after(n, j) as nat),
{
    lemma_number_after(n, i);
    lemma_number_after(n, j);
    if decimal(number_after(n, i) as nat) == decimal(number_after(n, j) as nat) {
        decimal_is_injective(number_after(n, i) as nat, number_after(n, j) as nat);
    }
}

/// The wait before restart number `n`, counted from zero, of a process that
/// never lives long.
pub open spec fn nth_delay(n: nat) -> int
    decreases n,
{
    if n == 0 {
        INITIAL_RESTART_DELAY_SECS as int
    } else {
        longer_delay(nth_delay((n - 1) as nat))
    }
}

/// The waits before restarts double from one second up to a minute.
pub proof fn restart_delays_double(n: nat)
    ensures
        nth_delay(n) == if pow2(n) < MAX_RESTART_DELAY_SECS {
            pow2(n) as int
        } else {
            MAX_RESTART_DELAY_SECS as int
        },
    decreases n,
{
    lemma2_to64();
    if n > 0 {
        restart_delays_double((n - 1) as nat);
        lemma_pow2_unfold(n);
    }
}

/// The wait before a restart stays between one second and a minute.
pub proof fn restart_delays_stay_in_bounds(
    s: SignalView,
    e: SignalEvent,
    t: SignalView,
    a: SignalAction,
)
    requires
        step(s, e, t, a),
        INITIAL_RESTART_DELAY_SECS <= s.restart_delay_secs <= MAX_RESTART_DELAY_SECS,
    ensures
        INITIAL_RESTART_DELAY_SECS <= t.restart_delay_secs <= MAX_RESTART_DELAY_SECS,
        a matches SignalAction::Spawn { after_secs } ==> after_secs <= MAX_RESTART_DELAY_SECS,
{
}

/// A request carries its method, its parameters and its id.
pub proof fn requests_carry_method_and_parameters(
    method: Seq<char>,
    params: JsonView,
    id: Seq<char>,
)
    ensures
        ({
            let call = call_json(method, params, id);
            &&& call.member("jsonrpc"@) == Some(JsonView::Text("2.0"@))
            &&& call.member("method"@) == Some(JsonView::Text(method))
            &&& call.member("params"@) == Some(params)
            &&& call.member("id"@) == Some(JsonView::Text(id))
        }),
{
    reveal_strlit("jsonrpc");
    reveal_strlit("method");
    reveal_strlit("params");
    reveal_strlit("id");
    let a = "jsonrpc"@;
    let b = "method"@;
    let c = "params"@;
    let d = "id"@;
    assert(a.len() == 7 && b.len() == 6 && c.len() == 6 && d.len() == 2);
    assert(b[0] == 'm' && c[0] == 'p');
    let none = JsonView::object();
    let version = JsonView::Text("2.0"@);
    let one = none.with(a, version);
    let two = one.with(b, JsonView::Text(method));
    let three = two.with(c, params);
    a_member_is_found(none, a, version, b);
    a_member_is_found(none, a, version, c);
    a_member_is_found(none, a, version, d);
    a_member_is_found(one, b, JsonView::Text(method), a);
    a_member_is_found(one, b, JsonView::Text(method), c);
    a_member_is_found(one, b, JsonView::Text(method), d);
    a_member_is_found(two, c, params, a);
    a_member_is_found(two, c, params, b);
    a_member_is_found(two, c, params, d);
    a_member_is_found(three, d, JsonView::Text(id), a);
    a_member_is_found(three, d, JsonView::Text(id), b);
    a_member_is_found(three, d, JsonView::Text(id), c);
}

/// Whether parameters are addressed: to the group where there is one and then to
/// nobody else, else to the recipient alone.
pub open spec fn is_addressed_to(
    params: JsonView,
    recipient: Seq<char>,
    group_id: Option<Seq<char>>,
) -> bool {
    match group_id {
        Some(gid) => params.member("groupId"@) == Some(JsonView::Text(gid)) && params.member(
            "recipient"@,
        ) is None,
        None => params.member("groupId"@) is None && (params.member("recipient"@) matches Some(
            JsonView::List(list),
        ) && list.len() == 1 && list[0] == JsonView::Text(recipient)),
    }
}

proof fn lemma_address(recipient: Seq<char>, group_id: Option<Seq<char>>, other: Seq<char>)
    ensures
        address_json(recipient, group_id) is Object,
        is_addressed_to(address_json(recipient, group_id), recipient, group_id),
        other != "groupId"@ && other != "recipient"@ ==> address_json(
            recipient,
            group_id,
        ).member(other) is None,
{
    reveal_strlit("groupId");
    reveal_strlit("recipient");
    let none = JsonView::object();
    let list = JsonView::List(seq![JsonView::Text(recipient)]);
    assert("groupId"@.len() == 7 && "recipient"@.len() == 9);
    if let Some(gid) = group_id {
        a_member_is_found(none, "groupId"@, JsonView::Text(gid), "recipient"@);
        a_member_is_found(none, "groupId"@, JsonView::Text(gid), other);
    } else {
        a_member_is_found(none, "recipient"@, list, "groupId"@);
        a_member_is_found(none, "recipient"@, list, other);
    }
}

/// A message carries its text and the file that is attached, where one is, and
/// is addressed to the group where there is one, else to the recipient.
pub proof fn messages_carry_text_and_address(
    recipient: Seq<char>,
    group_id: Option<Seq<char>>,
    message: Seq<char>,
    attachment: Option<Seq<char>>,
)
    ensures
        ({
            let params = message_json(recipient, group_id, message, attachment);
            &&& is_addressed_to(params, recipient, group_id)
            &&& params.member("message"@) == Some(JsonView::Text(message))
            &&& attachment is None ==> params.member("attachment"@) is None
            &&& attachment matches Some(file) ==> (params.member("attachment"@) matches Some(
                JsonView::List(files),
            ) && files.len() == 1 && files[0] == JsonView::Text(file))
        }),
{
    reveal_strlit("groupId");
    reveal_strlit("recipient");
    reveal_strlit("message");
    reveal_strlit("attachment");
    let a = "groupId"@;
    let b = "recipient"@;
    let c = "message"@;
    let d = "attachment"@;
    assert(a.len() == 7 && b.len() == 9 && c.len() == 7 && d.len() == 10);
    assert(a[0] == 'g' && c[0] == 'm');
    let address = address_json(recipient, group_id);
    let text = JsonView::Text(message);
    lemma_address(recipient, group_id, c);
    lemma_address(recipient, group_id, d);
    let plain = address.with(c, text);
    a_member_is_found(address, c, text, a);
    a_member_is_found(address, c, text, b);
    a_member_is_found(address, c, text, d);
    if let Some(file) = attachment {
        let files = JsonView::List(seq![JsonView::Text(file)]);
        a_member_is_found(plain, d, files, a);
        a_member_is_found(plain, d, files, b);
        a_member_is_found(plain, d, files, c);
    }
}

/// A receipt names the recipient, the time of the message, and that it was read.
pub proof fn receipts_name_what_was_read(recipient: Seq<char>, target_timestamp: u64)
    ensures
        ({
            let params = receipt_json(recipient, target_timestamp);
            &&& params.member("recipient"@) == Some(JsonView::Text(recipient))
            &&& params.member("targetTimestamp"@) == Some(
                JsonView::Number(target_timestamp as int),
            )
            &&& params.member("type"@) == Some(JsonView::Text("read"@))
        }),
{
    reveal_strlit("recipient");
    reveal_strlit("targetTimestamp");
    reveal_strlit("type");
    let a = "recipient"@;
    let b = "targetTimestamp"@;
    let c = "type"@;
    assert(a.len() == 9 && b.len() == 15 && c.len() == 4);
    let none = JsonView::object();
    let to = JsonView::Text(recipient);
    let time = JsonView::Number(target_timestamp as int);
    let read = JsonView::Text("read"@);
    a_member_is_found(none, a, to, b);
    a_member_is_found(none, a, to, c);
    a_member_is_found(none.with(a, to), b, time, a);
    a_member_is_found(none.with(a, to), b, time, c);
    a_member_is_found(none.with(a, to).with(b, time), c, read, a);
    a_member_is_found(none.with(a, to).with(b, time), c, read, b);
}

/// The sign that the bot types and the one that it stops go to the same place;
/// they differ by the member that says to stop.
pub proof fn typing_stops_where_it_started(recipient: Seq<char>, group_id: Option<Seq<char>>)
    ensures
        ({
            let start = address_json(recipient, group_id);
            let stop = start.with("stop"@, JsonView::Bool(true));
            &&& is_addressed_to(start, recipient, group_id)
            &&& is_addressed_to(stop, recipient, group_id)
            &&& start.member("stop"@) is None
            &&& stop.member("stop"@) == Some(JsonView::Bool(true))
        }),
{
    reveal_strlit("groupId");
    reveal_strlit("recipient");
    reveal_strlit("stop");
    let start = address_json(recipient, group_id);
    assert("stop"@.len() == 4 && "groupId"@.len() == 7 && "recipient"@.len() == 9);
    lemma_address(recipient, group_id, "stop"@);
    a_member_is_found(start, "stop"@, JsonView::Bool(true), "groupId"@);
    a_member_is_found(start, "stop"@, JsonView::Bool(true), "recipient"@);
}

/// A phone number is a plus sign and seven to fifteen digits, and nothing else
/// is one.
pub proof fn phone_numbers_are_a_plus_and_digits(digits: Seq<char>, s: Seq<char>)
    ensures
        is_phone_number(seq!['+'] + digits) <==> 7 <= digits.len() <= 15 && forall|i: int|
            0 <= i < digits.len() ==> '0' <= #[trigger] digits[i] <= '9',
        s.len() == 0 || s[0] != '+' ==> !is_phone_number(s),
{
    let whole = seq!['+'] + digits;
    if is_phone_number(whole) {
        assert forall|i: int| 0 <= i < digits.len() implies '0' <= #[trigger] digits[i] <= '9' by {
            assert(whole[i + 1] == digits[i]);
        }
    }
    if 7 <= digits.len() <= 15 && forall|i: int|
        0 <= i < digits.len() ==> '0' <= #[trigger] digits[i] <= '9' {
        assert forall|i: int| 1 <= i < whole.len() implies '0' <= #[trigger] whole[i] <= '9' by {
            assert(whole[i] == digits[i - 1]);
        }
    }
}

/// The linked number is that of the first account in the list.
pub proof fn the_first_account_is_linked(
    accounts: JsonView,
    list: Seq<JsonView>,
    number: Seq<char>,
)
    requires
        accounts.member("accounts"@) == Some(JsonView::List(list)),
    ensures
        list.len() > 0 && list[0].member("number"@) == Some(JsonView::Text(number))
            ==> linked_number_in(accounts) == Some(number),
        list.len() == 0 ==> linked_number_in(accounts) is None,
{
}

/// A message that the process received is handed on as it is, and other
/// notifications are not; neither changes what is known.
pub proof fn received_messages_are_handed_on(
    s: SignalView,
    text: String,
    notification: JsonRpcNotification,
    response: Option<JsonRpcResponse>,
    t: SignalView,
    a: SignalAction,
)
    requires
        trimmed(text@).len() > 0,
        step(
            s,
            SignalEvent::Line { text, notification: Some(notification), response },
            t,
            a,
        ),
    ensures
        t == s,
        notification.method@ == "receive"@ ==> a == (SignalAction::Forward {
            received: notification.params,
        }),
        notification.method@ != "receive"@ ==> a is Continue,
{
}

/// A request succeeds exactly where its answer names no error; the error says
/// which request failed and what the process said of it.
pub proof fn answers_tell_of_errors(id: Seq<char>, error: Option<JsonRpcError>)
    ensures
        error is None ==> response_result(id, error) == Ok::<(), Seq<char>>(()),
        error matches Some(e) ==> (response_result(id, error) matches Err(message) && has_text(
            message,
            id,
        ) && has_text(message, e.message@) && has_text(message, e.data@)),
{
    if let Some(e) = error {
        let a = "Signal Command Failed (ID: "@;
        let b = "): "@;
        let c = " - "@;
        let message = a + id + b + e.message@ + c + e.data@;
        text_is_found_where_it_stands(a, id, b + e.message@ + c + e.data@);
        assert(a + id + (b + e.message@ + c + e.data@) =~= message);
        text_is_found_where_it_stands(a + id + b, e.message@, c + e.data@);
        assert(a + id + b + e.message@ + (c + e.data@) =~= message);
        text_is_found_where_it_stands(a + id + b + e.message@ + c, e.data@, Seq::empty());
        assert(a + id + b + e.message@ + c + e.data@ + Seq::<char>::empty() =~= message);
    }
}

/// The sender of a request learns the answer as it came, and an error where none
/// came.
pub proof fn senders_learn_the_answer(answer: Result<(), String>)
    ensures
        outcome_view(SendOutcome::Answered(answer)) == answer_view(answer),
        outcome_view(SendOutcome::NotSent) is Err,
        outcome_view(SendOutcome::Dropped) is Err,
        outcome_view(SendOutcome::TimedOut) is Err,
{
}

/// The process is started at once the first time. Later it is started after the
/// wait that is due, which doubles up to a minute; after a life of more than ten
/// seconds the wait is one second again.
pub proof fn restarts_wait_longer_each_time(
    s: SignalView,
    since_last_secs: u64,
    t: SignalView,
    a: SignalAction,
)
    requires
        step(s, SignalEvent::SpawnDue { since_last_secs }, t, a),
        1 <= s.restart_delay_secs <= 60,
    ensures
        a matches SignalAction::Spawn { after_secs } && (s.first_spawn ==> after_secs == 0
            && t.restart_delay_secs == s.restart_delay_secs && !t.first_spawn) && (!s.first_spawn
            && since_last_secs > 10 ==> after_secs == 1 && t.restart_delay_secs == 2) && (
        !s.first_spawn && since_last_secs <= 10 ==> after_secs == s.restart_delay_secs && (
        s.restart_delay_secs <= 30 ==> t.restart_delay_secs == 2 * s.restart_delay_secs) && (
        s.restart_delay_secs > 30 ==> t.restart_delay_secs == 60)),
        t.pending == s.pending,
        t.running == s.running,
{
}

/// A request that comes while the process is down gets an error at once, where
/// it waits for an answer.
pub proof fn requests_fail_while_the_process_is_down(
    s: SignalView,
    payload: JsonValue,
    id: Seq<char>,
    t: SignalView,
    a: SignalAction,
)
    requires
        step(s, SignalEvent::Payload { payload }, t, a),
        payload@.member("id"@) == Some(JsonView::Text(id)),
    ensures
        s.running ==> a is Write && t == s,
        !s.running && s.pending.contains(id) ==> (a matches SignalAction::Resolve {
            id: i,
            result,
        } && i@ == id && result is Err) && t.pending == s.pending.remove(id),
        !s.running && !s.pending.contains(id) ==> a is Continue && t == s,
{
}

/// A new client has made no request, counts them from one, waits for no answer,
/// and starts the process at once.
pub proof fn a_new_client_has_done_nothing(user_phone: Seq<char>, id: Seq<char>)
    ensures
        ({
            let client = fresh_client(user_phone);
            &&& client.user_phone == user_phone
            &&& client.next_request_id == 1
            &&& !client.pending.contains(id)
            &&& !client.running
            &&& client.first_spawn
            &&& client.restart_delay_secs == 1
        }),
{
}

/// A request is given the number that is due, waits under it, and the next one
/// is given the next number; nothing else changes.
pub proof fn requests_are_numbered_in_order(s: SignalView, other: Seq<char>)
    ensures
        ({
            let t = after_call(s);
            let id = decimal(s.next_request_id as nat);
            &&& t.pending.contains(id)
            &&& other != id ==> t.pending.contains(other) == s.pending.contains(other)
            &&& s.next_request_id < usize::MAX ==> t.next_request_id == s.next_request_id + 1
            &&& s.next_request_id == usize::MAX ==> t.next_request_id == 0
            &&& t.user_phone == s.user_phone
            &&& t.running == s.running
            &&& t.restart_delay_secs == s.restart_delay_secs
        }),
{
}

/// A process that can no longer be written to or that ends is started again, and
/// those who wait are told which of the two it was.
pub proof fn broken_lines_restart_the_process(
    s: SignalView,
    e: SignalEvent,
    t: SignalView,
    a: SignalAction,
)
    requires
        step(s, e, t, a),
    ensures
        a is Restart <==> e is WriteFailed || e is OutputClosed,
        e is WriteFailed ==> (a matches SignalAction::Restart { message, .. } && message@
            == "Signal-cli stdin write failed, process restarting"@),
        e is OutputClosed ==> (a matches SignalAction::Restart { message, .. } && message@
            == "Signal-cli process restarted before command could complete"@),
        a is Stop <==> e is InputClosed || e is ReceiverGone,
        e is Spawned ==> t.running,
        e is SpawnFailed || e is InputClosed || e is ReceiverGone ==> !t.running && t.pending
            == s.pending,
{
}

} // verus!
