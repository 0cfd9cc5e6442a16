use serde_json::{Number as JsonNumber, Value};
use signal_serve::byte_map::ByteMap;
use signal_serve::contacts::{find_by_phone, find_contact, readable_contacts, Contact};
use signal_serve::ident::Uuid;
use signal_serve::json::{Json, Number, Object};
use signal_serve::message::{Delivery, Message};
use signal_serve::params::{group_id_bytes, msg_text, recipients, RpcError};
use signal_serve::rpc::{
    dispatch, dispatch_failed, handle_get_attachment, handle_send_attachments, Session, Step,
};
use signal_serve::session::{Action, Event};
use signal_serve::state::{AppState, Pending};

const ALICE: &str = "67e55044-10b1-426f-9247-bb680e5fe0c8";
const BOB: &str = "00112233-4455-6677-8899-aabbccddeeff";

fn from_value(value: &Value) -> Json {
    match value {
        Value::Null => Json::Null,
        Value::Bool(b) => Json::Bool(*b),
        Value::Number(n) => Json::Number(if let Some(u) = n.as_u64() {
            Number::Unsigned(u)
        } else if let Some(i) = n.as_i64() {
            Number::Negative(i)
        } else {
            Number::Fraction(n.as_f64().unwrap().to_bits())
        }),
        Value::String(s) => Json::Text(s.clone()),
        Value::Array(items) => Json::Array(items.iter().map(from_value).collect()),
        Value::Object(members) => {
            let mut object = Object::new();
            for (name, value) in members {
                object.insert(name, from_value(value));
            }
            Json::Object(object)
        }
    }
}

fn to_value(json: &Json) -> Value {
    match json {
        Json::Null => Value::Null,
        Json::Bool(b) => Value::Bool(*b),
        Json::Number(Number::Unsigned(n)) => Value::from(*n),
        Json::Number(Number::Negative(n)) => Value::from(*n),
        Json::Number(Number::Fraction(bits)) => {
            Value::Number(JsonNumber::from_f64(f64::from_bits(*bits)).unwrap())
        }
        Json::Text(s) => Value::String(s.clone()),
        Json::Array(items) => Value::Array(items.iter().map(to_value).collect()),
        Json::Object(object) => {
            let mut members = serde_json::Map::new();
            for (name, value) in &object.members {
                members.insert(name.clone(), to_value(value));
            }
            Value::Object(members)
        }
    }
}

fn json(text: &str) -> Json {
    from_value(&serde_json::from_str(text).unwrap())
}

fn object(text: &str) -> Object {
    match json(text) {
        Json::Object(object) => object,
        other => panic!("not an object: {:?}", other),
    }
}

fn assert_json(actual: &Json, expected: &str) {
    let expected: Value = serde_json::from_str(expected).unwrap();
    assert_eq!(to_value(actual), expected);
}

fn contact(uuid: &str, phone: Option<&str>, name: &str) -> Contact {
    Contact {
        uuid: Uuid::parse(uuid).unwrap(),
        phone_number: phone.map(|p| p.to_string()),
        name: name.to_string(),
    }
}

fn book() -> Vec<Contact> {
    vec![
        contact(ALICE, Some("+15551234567"), "Alice"),
        contact(BOB, None, "Bob"),
        contact("ffffffff-0000-0000-0000-000000000001", Some("+491701234567"), "Carol"),
    ]
}

fn listing() -> Vec<Result<Contact, String>> {
    let mut listing: Vec<Result<Contact, String>> = book().into_iter().map(Ok).collect();
    listing.insert(1, Err("unreadable".to_string()));
    listing
}

fn start(request: &str) -> Step {
    dispatch(&AppState::new(), &json(request), 1000)
}

fn waits(step: Step) -> (Session, Action) {
    match step {
        Step::Wait(session, action) => (session, action),
        Step::Reply(json) => panic!("already answered: {:?}", json),
    }
}

fn reply(step: Step) -> Json {
    match step {
        Step::Reply(json) => json,
        Step::Wait(session, action) => panic!("still waiting: {:?} {:?}", session, action),
    }
}

fn delivery(action: Action) -> Delivery {
    match action {
        Action::Deliver(delivery) => delivery,
        other => panic!("not a delivery: {:?}", other),
    }
}

/// Lists the contacts, sends all messages, and hands back the messages and the answer.
fn run_with_contacts(step: Step) -> (Vec<Delivery>, Json) {
    let (session, action) = waits(step);
    assert!(matches!(action, Action::LoadContacts));
    let mut step = session.step(Event::Contacts(Ok(listing())), 2000);
    let mut sent = Vec::new();
    loop {
        match step {
            Step::Reply(json) => return (sent, json),
            Step::Wait(session, action) => {
                sent.push(delivery(action));
                let now = 3000 + sent.len() as u64;
                step = session.step(Event::Delivered(Ok(())), now);
            }
        }
    }
}

fn error_message(json: &Json) -> String {
    let error = json.get("error").expect("no error");
    assert_eq!(to_value(error.get("code").unwrap()), Value::from(-1));
    assert!(json.get("result").is_none());
    error.get("message").unwrap().as_str().unwrap().to_string()
}

#[test]
fn list_contacts_returns_array() {
    let (session, action) = waits(start(
        r#"{"jsonrpc": "2.0", "method": "listContacts", "params": {}, "id": "e2e_1"}"#,
    ));
    assert!(matches!(action, Action::LoadContacts));
    let answer = reply(session.step(Event::Contacts(Ok(listing())), 0));
    assert_json(
        &answer,
        r#"{"jsonrpc": "2.0", "id": "e2e_1", "result": {"contacts": [
            {"uuid": "67e55044-10b1-426f-9247-bb680e5fe0c8", "number": "+15551234567", "name": "Alice"},
            {"uuid": "00112233-4455-6677-8899-aabbccddeeff", "number": "", "name": "Bob"},
            {"uuid": "ffffffff-0000-0000-0000-000000000001", "number": "+491701234567", "name": "Carol"}
        ]}}"#,
    );
}

#[test]
fn send_message_to_self() {
    let (sent, answer) = run_with_contacts(start(
        r#"{"method": "send", "id": 7, "params": {
            "recipient": ["00112233-4455-6677-8899-aabbccddeeff"], "message": "e2e send test 5"}}"#,
    ));
    assert_json(
        &answer,
        r#"{"jsonrpc": "2.0", "id": 7, "result": {"timestamp": 1000, "results": [
            {"recipient": "00112233-4455-6677-8899-aabbccddeeff", "status": "sent"}]}}"#,
    );
    assert_eq!(sent.len(), 1);
    assert!(sent[0].recipient.same(&Uuid::parse(BOB).unwrap()));
    assert_eq!(sent[0].timestamp, 1000);
    match &sent[0].message {
        Message::Data { body, attachments, reaction } => {
            assert_eq!(body.as_deref(), Some("e2e send test 5"));
            assert!(attachments.is_empty());
            assert!(reaction.is_none());
        }
        other => panic!("{:?}", other),
    }
}

#[test]
fn send_reports_every_recipient_in_order() {
    let (sent, answer) = run_with_contacts(start(
        r#"{"method": "send", "params": {
            "recipient": ["+1999", "+15551234567", 5, "491701234567"], "message": "hi"}}"#,
    ));
    assert_json(
        &answer,
        r#"{"jsonrpc": "2.0", "id": null, "result": {"timestamp": 1000, "results": [
            {"recipient": "+1999", "status": "failed", "error": "contact not found"},
            {"recipient": "+15551234567", "status": "sent"},
            {"recipient": "491701234567", "status": "sent"}]}}"#,
    );
    let names: Vec<String> = sent.iter().map(|d| d.recipient.to_text()).collect();
    assert_eq!(names, vec![ALICE, "ffffffff-0000-0000-0000-000000000001"]);
}

#[test]
fn send_without_recipients_answers_no_results() {
    let (sent, answer) = run_with_contacts(start(r#"{"method": "send", "id": 1.5}"#));
    assert!(sent.is_empty());
    assert_json(
        &answer,
        r#"{"jsonrpc": "2.0", "id": 1.5, "result": {"timestamp": 1000, "results": []}}"#,
    );
}

#[test]
fn send_to_group_sends_once() {
    let (session, action) = waits(start(
        r#"{"method": "send", "id": -3, "params": {"groupId": "grün", "message": "all",
            "recipient": ["+15551234567"]}}"#,
    ));
    match action {
        Action::SendToGroup { group, message, timestamp } => {
            assert_eq!(group, "gr\u{fc}n".as_bytes());
            assert_eq!(timestamp, 1000);
            assert!(matches!(message, Message::Data { body: Some(text), .. } if text == "all"));
        }
        other => panic!("{:?}", other),
    }
    assert_json(
        &reply(session.step(Event::GroupSent(Ok(())), 1)),
        r#"{"jsonrpc": "2.0", "id": -3, "result": {"timestamp": 1000,
            "results": [{"recipient": "group", "status": "sent"}]}}"#,
    );
}

#[test]
fn failed_delivery_ends_the_request() {
    let (session, _) = waits(start(
        r#"{"method": "send", "id": 1, "params": {"recipient": ["+15551234567", "+491701234567"]}}"#,
    ));
    let (session, action) = waits(session.step(Event::Contacts(Ok(listing())), 0));
    assert_eq!(delivery(action).recipient.to_text(), ALICE);
    let answer = reply(session.step(Event::Delivered(Err("no route".to_string())), 0));
    assert_eq!(error_message(&answer), "no route");
}

#[test]
fn failed_listing_ends_the_request() {
    let (session, _) = waits(start(r#"{"method": "listContacts"}"#));
    let answer = reply(session.step(Event::Contacts(Err("locked".to_string())), 0));
    assert_eq!(error_message(&answer), "locked");
}

#[test]
fn send_typing_returns_timestamp() {
    let (sent, answer) = run_with_contacts(start(
        r#"{"method": "sendTyping", "id": 2, "params": {
            "recipient": ["67e55044-10b1-426f-9247-bb680e5fe0c8", "nobody"]}}"#,
    ));
    assert_json(&answer, r#"{"jsonrpc": "2.0", "id": 2, "result": {"timestamp": 1000}}"#);
    assert_eq!(sent.len(), 1);
    assert!(matches!(sent[0].message, Message::TypingStarted { timestamp: 1000 }));
}

#[test]
fn send_typing_without_recipients_answers_at_once() {
    assert_json(
        &reply(start(r#"{"method": "sendTyping", "id": 2, "params": {"recipient": []}}"#)),
        r#"{"jsonrpc": "2.0", "id": 2, "result": {"timestamp": 1000}}"#,
    );
}

#[test]
fn send_reaction_returns_timestamp() {
    let (sent, answer) = run_with_contacts(start(
        r#"{"method": "sendReaction", "id": 3, "params": {
            "recipient": ["67e55044-10b1-426f-9247-bb680e5fe0c8"], "emoji": "👍",
            "targetAuthor": "67e55044-10b1-426f-9247-bb680e5fe0c8",
            "targetTimestamp": 77, "remove": false}}"#,
    ));
    assert_json(&answer, r#"{"jsonrpc": "2.0", "id": 3, "result": {"timestamp": 1000}}"#);
    assert_eq!(sent.len(), 1);
    match &sent[0].message {
        Message::Data { body: None, reaction: Some(reaction), .. } => {
            assert_eq!(reaction.emoji, "👍");
            assert!(!reaction.remove);
            assert_eq!(reaction.target_author_aci.as_deref(), Some(ALICE));
            assert_eq!(
                reaction.target_author_aci_binary,
                Some(Uuid::parse(ALICE).unwrap().to_vec())
            );
            assert_eq!(reaction.target_sent_timestamp, 77);
        }
        other => panic!("{:?}", other),
    }
}

#[test]
fn reaction_to_an_unknown_author_has_no_target() {
    let (sent, _) = run_with_contacts(start(
        r#"{"method": "sendReaction", "params": {"recipient": ["+491701234567"],
            "emoji": "x", "message": "y", "targetAuthor": "nobody"}}"#,
    ));
    match &sent[0].message {
        Message::Data { reaction: Some(reaction), .. } => {
            assert_eq!(reaction.emoji, "x");
            assert_eq!(reaction.target_author_aci, None);
            assert_eq!(reaction.target_author_aci_binary, None);
            assert_eq!(reaction.target_sent_timestamp, 0);
        }
        other => panic!("{:?}", other),
    }
}

#[test]
fn reaction_names_its_target_by_phone() {
    let (sent, _) = run_with_contacts(start(
        r#"{"method": "sendReaction", "params": {"recipient": ["+491701234567"],
            "message": "x", "targetAuthor": "+15551234567", "targetTimestamp": 77}}"#,
    ));
    match &sent[0].message {
        Message::Data { body: None, reaction: Some(reaction), .. } => {
            assert_eq!(reaction.emoji, "x");
            assert!(!reaction.remove);
            assert_eq!(reaction.target_author_aci.as_deref(), Some(ALICE));
            assert_eq!(
                reaction.target_author_aci_binary,
                Some(Uuid::parse(ALICE).unwrap().to_vec())
            );
            assert_eq!(reaction.target_sent_timestamp, 77);
        }
        other => panic!("{:?}", other),
    }
}

#[test]
fn unknown_method_returns_error() {
    let answer = reply(start(
        r#"{"jsonrpc": "2.0", "method": "nonexistentMethod", "params": {}, "id": "e2e_9"}"#,
    ));
    assert!(error_message(&answer).contains("Unknown method"));
    assert_json(
        &answer,
        r#"{"jsonrpc": "2.0", "id": "e2e_9",
            "error": {"code": -1, "message": "Unknown method: nonexistentMethod"}}"#,
    );
    assert_eq!(error_message(&reply(start("[]"))), "Unknown method: ");
    assert_eq!(error_message(&reply(start(r#"{"method": 4}"#))), "Unknown method: ");
}

#[test]
fn missing_recipient_returns_error() {
    let answer = reply(start(
        r#"{"method": "sendAttachments",
            "params": {"recipient": [], "attachments": [], "message": "x"}}"#,
    ));
    assert!(error_message(&answer).contains("recipient"));
    assert_eq!(error_message(&answer), "missing or empty recipient array");
}

#[test]
fn attachments_are_checked_before_the_upload() {
    let refused = |params: &str| match handle_send_attachments(&object(params)) {
        Err(e) => e,
        Ok(progress) => panic!("{:?}", progress),
    };
    assert!(matches!(refused("{}"), RpcError::NoRecipient));
    assert!(matches!(refused(r#"{"recipient": ["a"]}"#), RpcError::MissingAttachments));
    assert!(matches!(
        refused(r#"{"recipient": ["a"], "attachments": []}"#),
        RpcError::EmptyAttachments
    ));
    assert!(matches!(
        refused(r#"{"recipient": ["a"], "attachments": [{"bytes": "AAAA"}, 4, {"bytes": "?"}]}"#),
        RpcError::MissingBytes
    ));
    let bad = refused(r#"{"recipient": ["a"], "attachments": [{"bytes": "AA?A"}]}"#);
    assert!(matches!(&bad, RpcError::BadBase64(_)));
    assert_eq!(bad.message(), "Invalid symbol 63, offset 2.");
    let bad = refused(r#"{"recipient": ["a"], "attachments": [{"bytes": "AA"}]}"#);
    assert_eq!(bad.message(), "Invalid padding");
}

#[test]
fn error_messages_are_fixed() {
    assert_eq!(RpcError::MissingAttachmentId.message(), "missing attachmentId");
    assert_eq!(
        RpcError::NotCached.message(),
        "attachment not found in cache \u{2014} may have expired or never arrived"
    );
    assert_eq!(RpcError::MissingAttachments.message(), "missing attachments array");
    assert_eq!(RpcError::EmptyAttachments.message(), "attachments array is empty");
    assert_eq!(
        RpcError::MissingBytes.message(),
        "each attachment needs 'bytes' field (base64)"
    );
    assert_eq!(RpcError::UploadsFailed.message(), "all attachment uploads failed");
    assert_eq!(RpcError::Service("down".to_string()).message(), "down");
}

#[test]
fn attachments_go_out_after_the_upload() {
    let (session, action) = waits(start(
        r#"{"method": "send_multiple_images", "id": 4, "params": {
            "recipient": ["+15551234567", "00112233-4455-6677-8899-aabbccddeeff", "nobody"],
            "attachments": [
                {"bytes": "aGVsbG8=", "contentType": "image/png", "filename": "a.png",
                 "caption": "c", "width": 4294967298, "height": 7},
                {"bytes": ""}
            ]}}"#,
    ));
    match action {
        Action::Upload(files) => {
            assert_eq!(files.len(), 2);
            assert_eq!(files[0].data, b"hello");
            assert_eq!(files[0].content_type, "image/png");
            assert_eq!(files[0].file_name.as_deref(), Some("a.png"));
            assert_eq!(files[0].caption.as_deref(), Some("c"));
            assert_eq!(files[0].width, Some(2));
            assert_eq!(files[0].height, Some(7));
            assert_eq!(files[1].data, b"");
            assert_eq!(files[1].content_type, "application/octet-stream");
            assert_eq!(files[1].file_name, None);
            assert_eq!(files[1].width, None);
        }
        other => panic!("{:?}", other),
    }
    let step = session.step(Event::Uploaded(Ok(vec![Ok(41), Err("full".to_string())])), 1500);
    let (sent, answer) = run_with_contacts(step);
    assert_eq!(sent.len(), 2);
    assert_eq!(sent[0].timestamp, 1500);
    assert_eq!(sent[0].recipient.to_text(), ALICE);
    assert_eq!(sent[1].timestamp, 1500);
    assert_eq!(sent[1].recipient.to_text(), BOB);
    match &sent[0].message {
        Message::Data { body, attachments, .. } => {
            assert_eq!(body, &None);
            assert_eq!(attachments, &vec![41]);
        }
        other => panic!("{:?}", other),
    }
    assert_json(
        &answer,
        r#"{"jsonrpc": "2.0", "id": 4, "result": {"timestamp": 3002, "results": [
            {"recipient": "+15551234567", "status": "sent"},
            {"recipient": "00112233-4455-6677-8899-aabbccddeeff", "status": "sent"},
            {"recipient": "nobody", "status": "not_found"}]}}"#,
    );
}

#[test]
fn attachments_without_upload_are_refused() {
    let request = r#"{"method": "sendAttachments", "params": {
        "recipient": ["+1"], "attachments": [{"bytes": "AAAA"}]}}"#;
    let (session, _) = waits(start(request));
    let answer = reply(session.step(Event::Uploaded(Ok(vec![Err("full".to_string())])), 0));
    assert_eq!(error_message(&answer), "all attachment uploads failed");
    let (session, _) = waits(start(request));
    let answer = reply(session.step(Event::Uploaded(Err("offline".to_string())), 0));
    assert_eq!(error_message(&answer), "offline");
}

#[test]
fn get_attachment_fetches_what_is_cached() {
    let mut state = AppState::new();
    state.pending_attachments.insert(
        vec![1, 2, 3, 250],
        Pending { handle: 9, content_type: None },
    );
    let request = json(
        r#"{"method": "getAttachment", "id": 5, "params": {"attachmentId": "AQID+g=="}}"#,
    );
    let (session, action) = waits(dispatch(&state, &request, 0));
    assert!(matches!(action, Action::Download { handle: 9 }));
    assert_json(
        &reply(session.step(Event::Downloaded(Ok(b"hello".to_vec())), 0)),
        r#"{"jsonrpc": "2.0", "id": 5, "result": {
            "data": "aGVsbG8=", "contentType": "application/octet-stream", "size": 5}}"#,
    );
    let (session, _) = waits(dispatch(&state, &request, 0));
    let answer = reply(session.step(Event::Downloaded(Err("gone".to_string())), 0));
    assert_eq!(error_message(&answer), "gone");
}

#[test]
fn get_attachment_refuses_what_is_not_cached() {
    let state = AppState::new();
    let refused = |params: &str| match handle_get_attachment(&state, &object(params)) {
        Err(e) => e,
        Ok(progress) => panic!("{:?}", progress),
    };
    assert!(matches!(refused("{}"), RpcError::MissingAttachmentId));
    assert!(matches!(refused(r#"{"attachmentId": 1}"#), RpcError::MissingAttachmentId));
    assert!(matches!(refused(r#"{"attachmentId": "!"}"#), RpcError::BadBase64(_)));
    assert!(matches!(refused(r#"{"attachmentId": "AQ=="}"#), RpcError::NotCached));
    assert!(matches!(refused(r#"{"attachmentId": "AR=="}"#), RpcError::BadBase64(_)));
}

#[test]
fn broken_dispatch_has_a_fixed_answer() {
    assert_json(
        &dispatch_failed(),
        r#"{"jsonrpc": "2.0", "error": {"code": -1, "message": "dispatch failed"}, "id": null}"#,
    );
}

#[test]
fn uuid_goes_before_phone_number() {
    let contacts = vec![
        contact(BOB, Some("67e5504410b1426f9247bb680e5fe0c8"), "decoy"),
        contact(ALICE, None, "Alice"),
    ];
    for address in [
        "67e55044-10b1-426f-9247-bb680e5fe0c8",
        "+67E55044-10B1-426F-9247-BB680E5FE0C8",
        "67e5504410b1426f9247bb680e5fe0c8",
        "{67e55044-10b1-426f-9247-bb680e5fe0c8}",
        "urn:uuid:67e55044-10b1-426f-9247-bb680e5fe0c8",
    ] {
        assert_eq!(find_contact(&contacts, address).unwrap().name, "Alice");
    }
    assert_eq!(
        find_by_phone(&contacts, "67e5504410b1426f9247bb680e5fe0c8").unwrap().name,
        "decoy"
    );
    assert!(find_contact(&contacts, "++67e5504410b1426f9247bb680e5fe0c8").is_none());
}

#[test]
fn phone_number_is_searched_for_the_address() {
    let contacts = book();
    assert_eq!(find_contact(&contacts, "+15551234567").unwrap().name, "Alice");
    assert_eq!(find_contact(&contacts, "15551234567").unwrap().name, "Alice");
    assert_eq!(find_contact(&contacts, "1234567").unwrap().name, "Alice");
    assert_eq!(find_contact(&contacts, "0123").unwrap().name, "Carol");
    assert_eq!(find_contact(&contacts, "").unwrap().name, "Alice");
    assert!(find_contact(&contacts, "99").is_none());
    assert!(find_contact(&contacts, "ffffffff-ffff-ffff-ffff-ffffffffffff").is_none());
}

#[test]
fn unreadable_contacts_are_passed_over() {
    let names: Vec<String> = readable_contacts(listing()).into_iter().map(|c| c.name).collect();
    assert_eq!(names, vec!["Alice", "Bob", "Carol"]);
}

#[test]
fn uuid_is_written_in_lower_case_with_hyphens() {
    let uuid = Uuid::parse("67E5504410B1426F9247BB680E5FE0C8").unwrap();
    assert_eq!(uuid.to_text(), ALICE);
    assert!(uuid.same(&Uuid::parse(&uuid.to_text()).unwrap()));
    assert!(!uuid.same(&Uuid::parse(BOB).unwrap()));
    assert_eq!(uuid.to_vec()[0], 0x67);
    assert!(Uuid::parse("67E5504410B1426F9247BB680E5FE0C").is_none());
    assert!(Uuid::parse("67E5504410B1426F9247BB680E5FE0CG").is_none());
}

#[test]
fn parameters_are_read_leniently() {
    let params = object(r#"{"message": "m", "recipient": ["a", 1, null, "b"], "groupId": "g"}"#);
    assert_eq!(msg_text(&params), "m");
    assert_eq!(recipients(&params), vec!["a", "b"]);
    assert_eq!(group_id_bytes(&params), Some(vec![b'g']));
    let params = object(r#"{"message": 1, "recipient": "a", "groupId": []}"#);
    assert_eq!(msg_text(&params), "");
    assert!(recipients(&params).is_empty());
    assert_eq!(group_id_bytes(&params), None);
}

#[test]
fn later_member_takes_the_place_of_an_earlier_one() {
    let mut object = Object::new();
    object.insert("a", Json::number(1));
    object.insert("b", Json::integer(-2));
    object.insert("a", Json::text("x"));
    assert_eq!(object.get("a").unwrap().as_str(), Some("x"));
    assert_eq!(object.get_u64("b"), None);
    assert!(object.get("c").is_none());
    assert_json(&Json::Object(object.copy()), r#"{"a": "x", "b": -2}"#);
}

#[test]
fn byte_map_replaces_values() {
    let mut map: ByteMap<u8> = ByteMap::new();
    map.insert(vec![1], 10);
    map.insert(vec![1, 2], 20);
    map.insert(vec![1], 30);
    assert_eq!(map.get(&vec![1]), Some(&30));
    assert_eq!(map.get(&vec![1, 2]), Some(&20));
    assert_eq!(map.get(&vec![]), None);
}

#[test]
fn events_of_ordinary_size_can_be_taken_up() {
    assert!(signal_serve::rpc::can_resume(&Event::Downloaded(Ok(vec![1, 2, 3]))));
    assert!(signal_serve::rpc::can_resume(&Event::Delivered(Ok(()))));
}
