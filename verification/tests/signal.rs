use piotr::json::JsonValue;
use piotr::signal::rpc::{
    linked_number, valid_phone, JsonRpcError, JsonRpcResponse, RpcCall, SendOutcome, SignalAction,
    SignalClient, SignalEvent,
};
use piotr::signal::{
    DataMessage, EditMessage, Envelope, GroupInfo, JsonRpcNotification, Mention, Quote, Reaction,
    ReceiptMessage, SignalMessage, SyncDataMessage, SyncMessage,
};
use serde_json::Value;

fn json_of(v: &Value) -> JsonValue {
    match v {
        Value::Null => JsonValue::Null,
        Value::Bool(b) => JsonValue::Bool(*b),
        Value::Number(n) => {
            if let Some(u) = n.as_u64() {
                JsonValue::Unsigned(u)
            } else if let Some(i) = n.as_i64() {
                JsonValue::Negative(i)
            } else {
                JsonValue::Real(n.as_f64().unwrap().to_bits())
            }
        }
        Value::String(s) => JsonValue::Text(s.clone()),
        Value::Array(items) => JsonValue::List(items.iter().map(json_of).collect()),
        Value::Object(members) => {
            JsonValue::Object(members.iter().map(|(k, v)| (k.clone(), json_of(v))).collect())
        }
    }
}

fn value_of(j: &JsonValue) -> Value {
    match j {
        JsonValue::Null => Value::Null,
        JsonValue::Bool(b) => Value::Bool(*b),
        JsonValue::Unsigned(n) => Value::from(*n),
        JsonValue::Negative(n) => Value::from(*n),
        JsonValue::Real(bits) => Value::from(f64::from_bits(*bits)),
        JsonValue::Text(s) => Value::String(s.clone()),
        JsonValue::List(items) => Value::Array(items.iter().map(value_of).collect()),
        JsonValue::Object(members) => {
            Value::Object(members.iter().map(|(k, v)| (k.clone(), value_of(v))).collect())
        }
    }
}

// --- reading JSON into the types of the library ---

fn s(v: &Value, key: &str) -> Option<String> {
    v.get(key).and_then(|x| x.as_str()).map(|x| x.to_string())
}

fn n(v: &Value, key: &str) -> Option<u64> {
    v.get(key).and_then(|x| x.as_u64())
}

fn b(v: &Value, key: &str) -> Option<bool> {
    v.get(key).and_then(|x| x.as_bool())
}

fn texts(v: &Value, key: &str) -> Option<Vec<String>> {
    v.get(key).and_then(|x| x.as_array()).map(|l| l.iter().map(|x| x.to_string()).collect())
}

fn mentions(v: &Value) -> Option<Vec<Mention>> {
    v.get("mentions").and_then(|x| x.as_array()).map(|l| {
        l.iter()
            .map(|m| Mention {
                name: s(m, "name"),
                number: s(m, "number"),
                uuid: s(m, "uuid"),
                start: n(m, "start").map(|x| x as usize),
                length: n(m, "length").map(|x| x as usize),
            })
            .collect()
    })
}

fn quote(v: &Value) -> Option<Quote> {
    v.get("quote").map(|q| Quote {
        id: n(q, "id"),
        author: s(q, "author"),
        author_number: s(q, "authorNumber"),
        author_uuid: s(q, "authorUuid"),
        text: s(q, "text"),
        mentions: mentions(q),
        attachments: texts(q, "attachments"),
    })
}

fn reaction(v: &Value) -> Option<Reaction> {
    v.get("reaction").map(|r| Reaction {
        emoji: s(r, "emoji"),
        target_author: s(r, "targetAuthor"),
        target_author_number: s(r, "targetAuthorNumber"),
        target_author_uuid: s(r, "targetAuthorUuid"),
        target_sent_timestamp: n(r, "targetSentTimestamp"),
        is_remove: b(r, "isRemove").unwrap_or(false),
    })
}

fn group(v: &Value) -> Option<GroupInfo> {
    v.get("groupInfo").map(|g| GroupInfo {
        group_id: s(g, "groupId").unwrap(),
        group_name: s(g, "groupName"),
        revision: g.get("revision").and_then(|x| x.as_i64()).map(|x| x as i32),
        group_type: s(g, "type"),
    })
}

fn data(v: &Value) -> Option<DataMessage> {
    v.get("dataMessage").map(|d| DataMessage {
        message: s(d, "message"),
        timestamp: n(d, "timestamp"),
        destination: s(d, "destination"),
        destination_number: s(d, "destinationNumber"),
        destination_uuid: s(d, "destinationUuid"),
        expires_in_seconds: n(d, "expiresInSeconds").map(|x| x as u32),
        view_once: b(d, "viewOnce"),
        group_info: group(d),
        quote: quote(d),
        reaction: reaction(d),
        mentions: mentions(d),
        attachments: texts(d, "attachments"),
    })
}

fn edit(v: &Value) -> Option<EditMessage> {
    v.get("editMessage").map(|e| EditMessage {
        target_sent_timestamp: n(e, "targetSentTimestamp"),
        data_message: data(e),
    })
}

fn sync(v: &Value) -> Option<SyncMessage> {
    v.get("syncMessage").map(|y| SyncMessage {
        sent_message: y.get("sentMessage").map(|m| SyncDataMessage {
            destination: s(m, "destination"),
            destination_number: s(m, "destinationNumber"),
            destination_uuid: s(m, "destinationUuid"),
            data_message: data(m),
            edit_message: edit(m),
            message: s(m, "message"),
            timestamp: n(m, "timestamp"),
            group_info: group(m),
            quote: quote(m),
            reaction: reaction(m),
            mentions: mentions(m),
        }),
        read_messages: texts(y, "readMessages"),
    })
}

fn envelope(v: &Value) -> Envelope {
    Envelope {
        source: s(v, "source"),
        source_number: s(v, "sourceNumber"),
        source_uuid: s(v, "sourceUuid"),
        timestamp: n(v, "timestamp"),
        source_name: s(v, "sourceName"),
        source_device: n(v, "sourceDevice").map(|x| x as u32),
        data_message: data(v),
        edit_message: edit(v),
        sync_message: sync(v),
        receipt_message: v.get("receiptMessage").map(|r| ReceiptMessage {
            when: n(r, "when"),
            is_delivery: b(r, "isDelivery"),
            is_read: b(r, "isRead"),
            is_viewed: b(r, "isViewed"),
            timestamps: None,
        }),
        typing_message: v.get("typingMessage").map(|t| t.to_string()),
    }
}

fn notification(text: &str) -> Option<JsonRpcNotification> {
    let v: Value = serde_json::from_str(text).ok()?;
    let params = v.get("params")?;
    Some(JsonRpcNotification {
        jsonrpc: s(&v, "jsonrpc"),
        method: s(&v, "method")?,
        params: SignalMessage {
            account: s(params, "account"),
            envelope: params.get("envelope").map(envelope),
        },
    })
}

fn response(text: &str) -> Option<JsonRpcResponse> {
    let v: Value = serde_json::from_str(text).ok()?;
    Some(JsonRpcResponse {
        jsonrpc: s(&v, "jsonrpc")?,
        id: s(&v, "id"),
        result: v.get("result").map(json_of),
        error: v.get("error").map(|e| JsonRpcError {
            code: e["code"].as_i64().unwrap() as i32,
            message: s(e, "message").unwrap(),
            data: format!("{:?}", e.get("data")),
        }),
    })
}

fn envelope_in(text: &str) -> Envelope {
    envelope(&serde_json::from_str::<Value>(text).unwrap())
}

#[test]
fn test_parse_json_rpc_notification() {
    let raw_json = r#"{
        "method": "receive",
        "params": {
            "envelope": {
                "source": "+1234567890",
                "timestamp": 1678886400000,
                "dataMessage": {
                    "message": "Hello from signal",
                    "timestamp": 1678886400000
                }
            }
        }
    }"#;

    let parsed = notification(raw_json);
    assert!(parsed.is_some());

    let notif = parsed.unwrap();
    assert_eq!(notif.method, "receive");
    assert!(notif.params.envelope.is_some());

    let envelope = notif.params.envelope.unwrap();
    assert_eq!(envelope.effective_source(), "+1234567890");
    assert_eq!(envelope.effective_timestamp(), 1678886400000);

    assert!(envelope.data_message.is_some());
    let data_message = envelope.data_message.unwrap();
    assert_eq!(data_message.message.as_deref(), Some("Hello from signal"));
}

#[test]
fn test_parse_sync_message() {
    let raw_json = r#"{
        "jsonrpc": "2.0",
        "method": "receive",
        "params": {
            "account": "+12506410032",
            "envelope": {
                "source": "+12506410032",
                "sourceNumber": "+12506410032",
                "sourceUuid": "1f040322-4555-45b4-a35e-b1bc794ffbe3",
                "timestamp": 1678886400000,
                "syncMessage": {
                    "sentMessage": {
                        "destination": "+12506410032",
                        "destinationNumber": "+12506410032",
                        "timestamp": 1678886400000,
                        "message": "Note to self test"
                    }
                }
            }
        }
    }"#;

    let parsed = notification(raw_json);
    assert!(parsed.is_some());

    let notif = parsed.unwrap();
    assert_eq!(notif.method, "receive");
    let envelope = notif.params.envelope.unwrap();
    assert_eq!(envelope.effective_source(), "+12506410032");
    assert_eq!(envelope.effective_timestamp(), 1678886400000);
    assert!(envelope.effective_data_message().is_some());
    assert_eq!(
        envelope.effective_data_message().unwrap().message.as_deref(),
        Some("Note to self test")
    );
}

#[test]
fn test_parse_json_rpc_response_success() {
    let raw_json = r#"{
        "jsonrpc": "2.0",
        "id": "1",
        "result": {
            "timestamp": 1678886400000
        }
    }"#;

    let parsed = response(raw_json);
    assert!(parsed.is_some());

    let response = parsed.unwrap();
    assert_eq!(response.id.as_deref(), Some("1"));
    assert!(response.result.is_some());
    assert!(response.error.is_none());
}

#[test]
fn test_parse_json_rpc_response_error() {
    let raw_json = r#"{
        "jsonrpc": "2.0",
        "id": "2",
        "error": {
            "code": -32602,
            "message": "Invalid params"
        }
    }"#;

    let parsed = response(raw_json);
    assert!(parsed.is_some());

    let response = parsed.unwrap();
    assert_eq!(response.id.as_deref(), Some("2"));
    assert!(response.result.is_none());
    assert!(response.error.is_some());

    let error = response.error.unwrap();
    assert_eq!(error.code, -32602);
    assert_eq!(error.message, "Invalid params");
}

#[test]
fn test_parse_missing_optional_fields() {
    let raw_json = r#"{
        "method": "receive",
        "params": {
            "envelope": {
                "source": "+1234567890",
                "timestamp": 1678886400000
            }
        }
    }"#;

    let parsed = notification(raw_json);
    assert!(
        parsed.is_some(),
        "Should parse envelope safely even if dataMessage is entirely missing"
    );

    let notif = parsed.unwrap();
    let env = notif.params.envelope.unwrap();
    assert!(env.data_message.is_none());
    assert!(env.effective_data_message().is_none());
}

#[test]
fn test_parse_nested_sync_message() {
    let raw_json = r#"{
        "jsonrpc": "2.0",
        "method": "receive",
        "params": {
            "account": "+12506410032",
            "envelope": {
                "source": "+12506410032",
                "sourceNumber": "+12506410032",
                "sourceUuid": "1f040322-4555-45b4-a35e-b1bc794ffbe3",
                "timestamp": 1678886400000,
                "syncMessage": {
                    "sentMessage": {
                        "destination": "+12506410032",
                        "destinationNumber": "+12506410032",
                        "destinationUuid": "1f040322-4555-45b4-a35e-b1bc794ffbe3",
                        "dataMessage": {
                            "timestamp": 1678886400000,
                            "message": "Real nested sync message test"
                        }
                    }
                }
            }
        }
    }"#;

    let parsed = notification(raw_json);
    assert!(parsed.is_some());

    let notif = parsed.unwrap();
    let envelope = notif.params.envelope.unwrap();
    assert_eq!(envelope.effective_source(), "+12506410032");
    assert_eq!(envelope.effective_timestamp(), 1678886400000);
    let dm = envelope.effective_data_message();
    assert!(dm.is_some());
    let data = dm.unwrap();
    assert_eq!(data.message.as_deref(), Some("Real nested sync message test"));
    assert_eq!(data.destination.as_deref(), Some("+12506410032"));
}

#[test]
fn test_parse_adversarial_quotes() {
    let mut long_text = String::new();
    for _ in 0..10_000 {
        long_text.push_str("A");
    }
    let raw_json = format!(
        r#"{{
        "method": "receive",
        "params": {{
            "envelope": {{
                "source": "+1",
                "timestamp": 123,
                "dataMessage": {{
                    "message": "reply",
                    "timestamp": 123,
                    "quote": {{
                        "id": 1,
                        "author": "+2",
                        "text": "{}"
                    }}
                }}
            }}
        }}
    }}"#,
        long_text
    );

    let parsed = notification(&raw_json);
    assert!(parsed.is_some());

    let quote = parsed
        .unwrap()
        .params
        .envelope
        .unwrap()
        .effective_data_message()
        .unwrap()
        .quote
        .unwrap();
    assert_eq!(quote.text.as_deref().unwrap().len(), 10_000);
}

#[test]
fn sources_and_times_have_an_order() {
    assert_eq!(envelope_in("{}").effective_source(), "unknown");
    assert_eq!(envelope_in(r#"{"sourceUuid": "u"}"#).effective_source(), "u");
    assert_eq!(
        envelope_in(r#"{"sourceUuid": "u", "sourceNumber": "n"}"#).effective_source(),
        "n"
    );
    assert_eq!(envelope_in("{}").effective_timestamp(), 0);
    assert_eq!(
        envelope_in(r#"{"dataMessage": {"timestamp": 5}}"#).effective_timestamp(),
        5
    );
    assert_eq!(
        envelope_in(r#"{"editMessage": {"dataMessage": {"timestamp": 6}}}"#).effective_timestamp(),
        6
    );
    assert_eq!(
        envelope_in(
            r#"{"syncMessage": {"sentMessage": {"timestamp": 8, "dataMessage": {"timestamp": 7}}}}"#
        )
        .effective_timestamp(),
        7
    );
    assert_eq!(
        envelope_in(r#"{"syncMessage": {"sentMessage": {"timestamp": 8}}}"#).effective_timestamp(),
        8
    );
}

#[test]
fn corrections_count_as_messages() {
    let e = envelope_in(r#"{"editMessage": {"dataMessage": {"message": "new"}}}"#);
    assert_eq!(e.effective_data_message().unwrap().message.as_deref(), Some("new"));
    let e = envelope_in(
        r#"{"syncMessage": {"sentMessage": {"destination": "d", "message": "flat",
            "editMessage": {"dataMessage": {"message": "edited"}}}}}"#,
    );
    let d = e.effective_data_message().unwrap();
    assert_eq!(d.message.as_deref(), Some("edited"));
    assert_eq!(d.destination.as_deref(), Some("d"));
    let e = envelope_in(
        r#"{"syncMessage": {"sentMessage": {"message": "flat", "editMessage": {}}}}"#,
    );
    assert!(e.effective_data_message().is_none());
    let e = envelope_in(r#"{"syncMessage": {"sentMessage": {"destination": "d"}}}"#);
    assert!(e.effective_data_message().is_none());
    let e = envelope_in(
        r#"{"syncMessage": {"sentMessage": {"destination": "d",
            "dataMessage": {"message": "m", "destination": "own"}}}}"#,
    );
    assert_eq!(e.effective_data_message().unwrap().destination.as_deref(), Some("own"));
}

// --- requests ---

fn client() -> SignalClient {
    SignalClient::new("+12345678901").unwrap()
}

fn payload(call: &RpcCall) -> Value {
    value_of(&call.payload)
}

#[test]
fn phone_numbers_are_checked() {
    for ok in ["+1234567", "+123456789012345"] {
        assert!(valid_phone(ok));
        assert_eq!(SignalClient::new(ok).unwrap().user_phone(), ok);
    }
    for bad in ["", "+", "+123456", "+1234567890123456", "12345678", "+123456a", "+12345٣", "++1234567"] {
        assert!(!valid_phone(bad));
        let error = SignalClient::new(bad).err().unwrap();
        assert_eq!(
            error,
            format!(
                "Invalid phone number format '{}': expected E.164 (e.g. +12345678901)",
                bad
            )
        );
    }
    assert_eq!(SignalClient::new_dummy().user_phone(), "dummy");
}

#[test]
fn the_process_is_started_with_its_arguments() {
    assert_eq!(
        client().command_args("/data"),
        vec![
            "--config",
            "/data",
            "-u",
            "+12345678901",
            "--output=json",
            "jsonRpc",
            "--receive-mode=on-start",
            "--send-read-receipts"
        ]
    );
}

#[test]
fn the_linked_number_is_found() {
    let v = |t: &str| json_of(&serde_json::from_str::<Value>(t).unwrap());
    assert_eq!(
        linked_number(&v(r#"{"accounts": [{"number": "+1"}, {"number": "+2"}]}"#)),
        Some("+1")
    );
    for none in ["[]", "{}", r#"{"accounts": []}"#, r#"{"accounts": [{"number": 1}]}"#, r#"{"accounts": {"0": {"number": "+1"}}}"#] {
        assert_eq!(linked_number(&v(none)), None);
    }
}

#[test]
fn test_serialization_send_message() {
    let recipient = "+1234567890";
    let message = "Hello";

    let call = client().send_message(recipient, None, message, None);
    let params = &payload(&call)["params"];

    assert_eq!(params["recipient"][0], "+1234567890");
    assert_eq!(params["message"], "Hello");
}

#[test]
fn test_serialization_typing_group() {
    let group_id = "some_base64_group_id_string=";
    let mut client = client();

    let send_params = payload(&client.send_typing("+1", Some(group_id)))["params"].clone();
    let stop_params = payload(&client.stop_typing("+1", Some(group_id)))["params"].clone();

    assert!(send_params["groupId"].is_string());
    assert_eq!(send_params["groupId"], group_id);

    assert!(stop_params["groupId"].is_string());
    assert_eq!(stop_params["groupId"], group_id);
    assert_eq!(stop_params["stop"], true);
}

#[test]
fn requests_have_their_form() {
    let mut c = client();
    let call = c.send_message("+1234567890", None, "Hello World", None);
    assert_eq!(call.id, "1");
    let expected: Value = serde_json::from_str(
        r#"{"jsonrpc":"2.0","method":"send","params":{"recipient":["+1234567890"],"message":"Hello World"},"id":"1"}"#,
    )
    .unwrap();
    assert_eq!(payload(&call), expected);

    let call = c.send_message("+1", Some("g"), "m", Some("/tmp/x.png"));
    let expected: Value = serde_json::from_str(
        r#"{"jsonrpc":"2.0","method":"send","params":{"groupId":"g","message":"m","attachment":["/tmp/x.png"]},"id":"2"}"#,
    )
    .unwrap();
    assert_eq!(payload(&call), expected);

    let call = c.send_receipt("+1", 1678886400000);
    let expected: Value = serde_json::from_str(
        r#"{"jsonrpc":"2.0","method":"sendReceipt","params":{"recipient":"+1","targetTimestamp":1678886400000,"type":"read"},"id":"3"}"#,
    )
    .unwrap();
    assert_eq!(payload(&call), expected);

    let call = c.send_typing("+1", None);
    let expected: Value = serde_json::from_str(
        r#"{"jsonrpc":"2.0","method":"sendTyping","params":{"recipient":["+1"]},"id":"4"}"#,
    )
    .unwrap();
    assert_eq!(payload(&call), expected);

    let call = c.stop_typing("+1", None);
    let expected: Value = serde_json::from_str(
        r#"{"jsonrpc":"2.0","method":"sendTyping","params":{"recipient":["+1"],"stop":true},"id":"5"}"#,
    )
    .unwrap();
    assert_eq!(payload(&call), expected);
}

#[test]
fn request_ids_do_not_repeat() {
    let mut c = client();
    let mut seen = std::collections::HashSet::new();
    for _ in 0..1000 {
        assert!(seen.insert(c.send_typing("+1", None).id));
    }
    assert!(seen.contains("1000"));
}

// --- answers ---

fn line(text: &str) -> SignalEvent {
    SignalEvent::Line {
        text: text.to_string(),
        notification: notification(text),
        response: response(text),
    }
}

fn is_continue(a: SignalAction) -> bool {
    matches!(a, SignalAction::Continue)
}

#[test]
fn responses_answer_their_request_once() {
    let mut c = client();
    c.handle(SignalEvent::Spawned);
    let id = c.send_typing("+1", None).id;
    let text = r#"{"jsonrpc": "2.0", "id": "1", "result": {}}"#;
    match c.handle(line(text)) {
        SignalAction::Resolve { id: i, result } => {
            assert_eq!(i, id);
            assert_eq!(result, Ok(()));
        }
        _ => panic!("no answer"),
    }
    assert!(is_continue(c.handle(line(text))));
}

#[test]
fn errors_are_passed_on() {
    let mut c = client();
    let _ = c.send_typing("+1", None);
    let text = r#"{"jsonrpc": "2.0", "id": "1", "error": {"code": -1, "message": "no", "data": "d"}}"#;
    match c.handle(line(text)) {
        SignalAction::Resolve { result, .. } => assert_eq!(
            result,
            Err("Signal Command Failed (ID: 1): no - Some(String(\"d\"))".to_string())
        ),
        _ => panic!("no answer"),
    }
    assert!(is_continue(c.handle(line(r#"{"jsonrpc": "2.0", "error": {"code": 1, "message": "x"}}"#))));
}

#[test]
fn lines_are_told_apart() {
    let mut c = client();
    assert!(is_continue(c.handle(line(" \t "))));
    assert!(is_continue(c.handle(line("garbage"))));
    assert!(is_continue(c.handle(line(r#"{"method": "other", "params": {}}"#))));
    match c.handle(line(r#"{"method": "receive", "params": {"account": "+9"}}"#)) {
        SignalAction::Forward { received } => assert_eq!(received.account.as_deref(), Some("+9")),
        _ => panic!("not forwarded"),
    }
}

#[test]
fn requests_are_written_while_the_process_is_up() {
    let mut c = client();
    let call = c.send_typing("+1", None);
    match c.handle(SignalEvent::Payload { payload: call.payload }) {
        SignalAction::Resolve { id, result } => {
            assert_eq!(id, "1");
            assert_eq!(result, Err("Signal-cli not running, dropped request".to_string()));
        }
        _ => panic!("not dropped"),
    }
    c.handle(SignalEvent::Spawned);
    let call = c.send_typing("+1", None);
    assert!(matches!(
        c.handle(SignalEvent::Payload { payload: call.payload }),
        SignalAction::Write
    ));
    let call = c.send_typing("+1", None);
    match c.handle(SignalEvent::NotSerialized { payload: call.payload, reason: "why".to_string() }) {
        SignalAction::Resolve { id, result } => {
            assert_eq!(id, "3");
            assert_eq!(result, Err("Failed to serialize payload: why".to_string()));
        }
        _ => panic!("not resolved"),
    }
    assert!(is_continue(c.handle(SignalEvent::NotSerialized {
        payload: JsonValue::Null,
        reason: String::new()
    })));
}

#[test]
fn a_restart_fails_all_that_wait() {
    for (event, text) in [
        (SignalEvent::WriteFailed, "Signal-cli stdin write failed, process restarting"),
        (
            SignalEvent::OutputClosed,
            "Signal-cli process restarted before command could complete",
        ),
    ] {
        let mut c = client();
        c.handle(SignalEvent::Spawned);
        let _ = c.send_typing("+1", None);
        let _ = c.send_receipt("+1", 2);
        match c.handle(event) {
            SignalAction::Restart { mut ids, message } => {
                ids.sort();
                assert_eq!(ids, vec!["1", "2"]);
                assert_eq!(message, text);
            }
            _ => panic!("no restart"),
        }
        match c.handle(SignalEvent::OutputClosed) {
            SignalAction::Restart { ids, .. } => assert!(ids.is_empty()),
            _ => panic!("no restart"),
        }
    }
}

#[test]
fn the_end_of_either_side_stops_the_process() {
    let mut c = client();
    c.handle(SignalEvent::Spawned);
    assert!(matches!(c.handle(SignalEvent::InputClosed), SignalAction::Stop));
    c.handle(SignalEvent::Spawned);
    assert!(matches!(c.handle(SignalEvent::ReceiverGone), SignalAction::Stop));
}

fn spawn_delay(c: &mut SignalClient, since_last_secs: u64) -> u64 {
    match c.handle(SignalEvent::SpawnDue { since_last_secs }) {
        SignalAction::Spawn { after_secs } => after_secs,
        _ => panic!("not started"),
    }
}

#[test]
fn restarts_wait_longer_and_longer() {
    let mut c = client();
    assert_eq!(spawn_delay(&mut c, 0), 0);
    for expected in [1, 2, 4, 8, 16, 32, 60, 60] {
        assert_eq!(spawn_delay(&mut c, 10), expected);
        assert!(is_continue(c.handle(SignalEvent::SpawnFailed)));
    }
    assert_eq!(spawn_delay(&mut c, 11), 1);
    assert_eq!(spawn_delay(&mut c, 3), 2);
}

#[test]
fn waiting_ends_in_one_of_four_ways() {
    let mut c = client();
    let cases: Vec<(SendOutcome, Result<(), String>)> = vec![
        (
            SendOutcome::NotSent,
            Err("Failed to send payload to background task".to_string()),
        ),
        (SendOutcome::Answered(Ok(())), Ok(())),
        (SendOutcome::Answered(Err("e".to_string())), Err("e".to_string())),
        (
            SendOutcome::Dropped,
            Err("Signal CLI response channel dropped unexpectedly".to_string()),
        ),
        (SendOutcome::TimedOut, Err("Signal command timed out after 30s".to_string())),
    ];
    for (outcome, expected) in cases {
        let forgotten = !matches!(outcome, SendOutcome::Answered(_));
        let id = c.send_typing("+1", None).id;
        assert_eq!(c.settle(&id, outcome), expected);
        let late = c.handle(SignalEvent::Line {
            text: "x".to_string(),
            notification: None,
            response: Some(JsonRpcResponse {
                jsonrpc: "2.0".to_string(),
                id: Some(id),
                result: None,
                error: None,
            }),
        });
        assert_eq!(is_continue(late), forgotten);
    }
}
