use serde_json::Value;
use signal_serve::contacts::Contact;
use signal_serve::ident::Uuid;
use signal_serve::json::{Json, Number, Object};
use signal_serve::rpc::{dispatch, Step};
use signal_serve::session::Action;
use signal_serve::sse::{
    events_handler, first_task, received_to_sse_envelope, resolved_envelope, run_message_listener,
    AttachmentPointer, Content, ContentBody, DataMessage, Feed, ListenerEvent, ListenerTask,
    Received, Sent, StreamAction,
};
use signal_serve::state::{AppState, ServiceId};
use signal_serve::ws::{first_ping_secs, handle_ws, WsAction, WsEvent};

const ALICE: &str = "67e55044-10b1-426f-9247-bb680e5fe0c8";

fn to_value(json: &Json) -> Value {
    match json {
        Json::Null => Value::Null,
        Json::Bool(b) => Value::Bool(*b),
        Json::Number(Number::Unsigned(n)) => Value::from(*n),
        Json::Number(Number::Negative(n)) => Value::from(*n),
        Json::Number(Number::Fraction(bits)) => Value::from(f64::from_bits(*bits)),
        Json::Text(s) => Value::String(s.clone()),
        Json::Array(items) => Value::Array(items.iter().map(to_value).collect()),
        Json::Object(object) => {
            let mut members = serde_json::Map::new();
            for (name, value) in &object.members {
                members.insert(name.clone(), to_value(value));
            }
            Value::Object(members)
        }
    }
}

fn assert_json(actual: &Json, expected: &str) {
    let expected: Value = serde_json::from_str(expected).unwrap();
    assert_eq!(to_value(actual), expected);
}

fn pointer(handle: usize, uuid: Option<Vec<u8>>) -> AttachmentPointer {
    AttachmentPointer {
        handle,
        client_uuid: uuid,
        content_type: None,
        file_name: None,
        size: None,
        caption: None,
        width: None,
        height: None,
        flags: None,
        cdn_number: None,
    }
}

fn content(body: ContentBody) -> Received {
    Received::Content(Content {
        sender: ServiceId::Aci(Uuid::parse(ALICE).unwrap()),
        sender_text: ALICE.to_string(),
        timestamp: 1234,
        body,
    })
}

fn data(body: Option<&str>, attachments: Vec<AttachmentPointer>) -> DataMessage {
    DataMessage { body: body.map(|b| b.to_string()), attachments }
}

fn alice(phone: Option<&str>) -> Contact {
    Contact {
        uuid: Uuid::parse(ALICE).unwrap(),
        phone_number: phone.map(|p| p.to_string()),
        name: "Alice".to_string(),
    }
}

#[test]
fn sse_receives_data_message() {
    let envelope =
        received_to_sse_envelope(&content(ContentBody::DataMessage(data(Some("hi"), vec![]))));
    assert_json(
        &envelope,
        r#"{"type": "message", "envelope": {"source": "67e55044-10b1-426f-9247-bb680e5fe0c8",
            "sourceUuid": "67e55044-10b1-426f-9247-bb680e5fe0c8", "timestamp": 1234,
            "dataMessage": {"timestamp": 1234, "message": "hi"}}}"#,
    );
    assert!(to_value(&envelope)["envelope"]["dataMessage"].is_object());
}

#[test]
fn attachments_are_shown_with_their_identifier() {
    let mut full = pointer(1, Some(vec![1, 2, 3, 250]));
    full.content_type = Some("image/png".to_string());
    full.file_name = Some("a.png".to_string());
    full.size = Some(5);
    full.caption = Some("c".to_string());
    full.width = Some(6);
    full.height = Some(7);
    full.flags = Some(8);
    full.cdn_number = Some(9);
    assert_json(
        &received_to_sse_envelope(&content(ContentBody::DataMessage(data(
            None,
            vec![full, pointer(2, None)],
        )))),
        r#"{"type": "message", "envelope": {"source": "67e55044-10b1-426f-9247-bb680e5fe0c8",
            "sourceUuid": "67e55044-10b1-426f-9247-bb680e5fe0c8", "timestamp": 1234,
            "dataMessage": {"timestamp": 1234, "attachments": [
                {"id": "AQID+g==", "contentType": "image/png", "fileName": "a.png", "size": 5,
                 "caption": "c", "width": 6, "height": 7, "flags": 8, "cdnNumber": 9},
                {"id": "", "contentType": "application/octet-stream", "fileName": null,
                 "size": null, "caption": null, "width": null, "height": null, "flags": null,
                 "cdnNumber": null}]}}}"#,
    );
}

#[test]
fn other_messages_have_their_own_envelopes() {
    assert_json(
        &received_to_sse_envelope(&Received::QueueEmpty),
        r#"{"envelope": {"queueEmpty": true}}"#,
    );
    assert_json(
        &received_to_sse_envelope(&Received::Contacts),
        r#"{"envelope": {"contactsSynced": true}}"#,
    );
    let head = r#""source": "67e55044-10b1-426f-9247-bb680e5fe0c8",
        "sourceUuid": "67e55044-10b1-426f-9247-bb680e5fe0c8", "timestamp": 1234"#;
    assert_json(
        &received_to_sse_envelope(&content(ContentBody::TypingMessage)),
        &format!(r#"{{"type": "message", "envelope": {{{head}, "typingMessage": {{"action": 1}}}}}}"#),
    );
    assert_json(
        &received_to_sse_envelope(&content(ContentBody::Other)),
        &format!(r#"{{"type": "message", "envelope": {{{head}}}}}"#),
    );
    assert_json(
        &received_to_sse_envelope(&content(ContentBody::SynchronizeMessage { sent: None })),
        &format!(r#"{{"type": "message", "envelope": {{{head}, "syncMessage": {{}}}}}}"#),
    );
    let sent = Some(Sent { message: Some(data(Some("m"), vec![])) });
    assert_json(
        &received_to_sse_envelope(&content(ContentBody::SynchronizeMessage { sent })),
        &format!(r#"{{"type": "message", "envelope": {{{head}, "syncMessage": {{"message": "m"}}}}}}"#),
    );
}

#[test]
fn timestamps_before_the_epoch_are_negative() {
    let msg = Received::Content(Content {
        sender: ServiceId::Pni(Uuid::parse(ALICE).unwrap()),
        sender_text: "PNI:x".to_string(),
        timestamp: -5,
        body: ContentBody::Other,
    });
    assert_json(
        &received_to_sse_envelope(&msg),
        r#"{"type": "message", "envelope": {"source": "PNI:x", "sourceUuid": "PNI:x", "timestamp": -5}}"#,
    );
}

#[test]
fn known_phone_number_is_the_source() {
    assert_json(
        &resolved_envelope(&content(ContentBody::Other), &Some("+1555".to_string())),
        r#"{"type": "message", "envelope": {"source": "+1555", "sourceUuid": "+1555", "timestamp": 1234}}"#,
    );
}

#[test]
fn listener_notes_phones_and_files_and_publishes() {
    let mut state = AppState::new();
    let step = run_message_listener(
        &mut state,
        first_task(),
        ListenerEvent::Contacts(Ok(vec![Ok(alice(Some("+1555")))])),
    );
    assert!(step.publish.is_none());
    assert_eq!(step.refresh_error, None);
    assert!(matches!(step.next, ListenerTask::OpenStream));
    let step = run_message_listener(&mut state, step.next, ListenerEvent::Stream(Ok(())));
    assert!(step.publish.is_none());
    assert!(matches!(step.next, ListenerTask::NextMessage));
    let msg = content(ContentBody::DataMessage(data(None, vec![pointer(3, Some(vec![1]))])));
    let step = run_message_listener(&mut state, step.next, ListenerEvent::Message(Some(msg)));
    assert!(matches!(step.next, ListenerTask::NextMessage));
    let shown = to_value(&step.publish.unwrap());
    assert_eq!(shown["envelope"]["source"], Value::from("+1555"));
    let id = shown["envelope"]["dataMessage"]["attachments"][0]["id"].as_str().unwrap().to_string();

    let mut params = Object::new();
    params.insert("attachmentId", Json::Text(id));
    let mut req = Object::new();
    req.insert("method", Json::text("getAttachment"));
    req.insert("params", Json::Object(params));
    match dispatch(&state, &Json::Object(req), 0) {
        Step::Wait(_, Action::Download { handle }) => assert_eq!(handle, 3),
        other => panic!("{:?}", other),
    }

    let step = run_message_listener(&mut state, step.next, ListenerEvent::Message(None));
    assert!(step.publish.is_none());
    assert!(matches!(step.next, ListenerTask::Sleep(1)));
    let step = run_message_listener(&mut state, step.next, ListenerEvent::Slept);
    assert!(matches!(step.next, ListenerTask::OpenStream));
    let failed = ListenerEvent::Stream(Err("down".to_string()));
    let step = run_message_listener(&mut state, step.next, failed);
    assert!(matches!(step.next, ListenerTask::Sleep(5)));
}

#[test]
fn change_of_contacts_is_announced_after_the_listing() {
    let mut state = AppState::new();
    let change = ListenerEvent::Message(Some(Received::Contacts));
    let step = run_message_listener(&mut state, ListenerTask::NextMessage, change);
    assert!(step.publish.is_none());
    assert!(matches!(step.next, ListenerTask::ReloadContacts));
    let listed = ListenerEvent::Contacts(Err("locked".to_string()));
    let step = run_message_listener(&mut state, step.next, listed);
    assert_eq!(step.refresh_error.as_deref(), Some("locked"));
    assert_json(&step.publish.unwrap(), r#"{"envelope": {"contactsSynced": true}}"#);
    assert!(matches!(step.next, ListenerTask::NextMessage));
}

#[test]
fn refresh_stops_at_the_first_unreadable_contact() {
    let mut state = AppState::new();
    let bob = Contact {
        uuid: Uuid::parse("00112233-4455-6677-8899-aabbccddeeff").unwrap(),
        phone_number: Some("+2".to_string()),
        name: String::new(),
    };
    let bob_id = ServiceId::Aci(bob.uuid);
    let alice_id = ServiceId::Aci(Uuid::parse(ALICE).unwrap());
    let listing = vec![Ok(alice(Some("+1"))), Err("broken".to_string()), Ok(bob)];
    assert_eq!(state.refresh_contact_phones(listing), Err("broken".to_string()));
    assert_eq!(state.phone_for_service_id(&alice_id), Some("+1".to_string()));
    assert_eq!(state.phone_for_service_id(&bob_id), None);
    assert_eq!(state.refresh_contact_phones(vec![Ok(alice(Some("+3")))]), Ok(()));
    assert_eq!(state.phone_for_service_id(&alice_id), Some("+3".to_string()));
    assert_eq!(state.refresh_contact_phones(vec![Ok(alice(None))]), Ok(()));
    assert_eq!(state.phone_for_service_id(&alice_id), Some("+3".to_string()));
    assert_eq!(
        state.phone_for_service_id(&ServiceId::Pni(Uuid::parse(ALICE).unwrap())),
        None
    );
}

#[test]
fn event_stream_passes_messages_on() {
    assert!(matches!(
        events_handler(Feed::Data("x".to_string())),
        StreamAction::Yield(data) if data == "x"
    ));
    assert!(matches!(events_handler(Feed::Lagged(3)), StreamAction::Wait));
    assert!(matches!(events_handler(Feed::Closed), StreamAction::Stop));
}

#[test]
fn websocket_forwards_pings_and_hangs_up() {
    let data = WsEvent::Broadcast(Feed::Data("x".to_string()));
    assert!(matches!(handle_ws(data), WsAction::SendText(data) if data == "x"));
    assert!(matches!(handle_ws(WsEvent::Broadcast(Feed::Lagged(1))), WsAction::Wait));
    assert!(matches!(handle_ws(WsEvent::Broadcast(Feed::Closed)), WsAction::HangUp));
    assert!(matches!(handle_ws(WsEvent::Tick), WsAction::SendPing(b) if b == b"keepalive"));
    assert!(matches!(handle_ws(WsEvent::Sent { ok: true }), WsAction::Wait));
    assert!(matches!(handle_ws(WsEvent::Sent { ok: false }), WsAction::HangUp));
    assert!(matches!(handle_ws(WsEvent::Frame { close: false }), WsAction::Wait));
    assert!(matches!(handle_ws(WsEvent::Frame { close: true }), WsAction::HangUp));
    assert!(matches!(handle_ws(WsEvent::Ended), WsAction::HangUp));
}

#[test]
fn known_phones_and_files_stay_until_replaced() {
    let mut state = AppState::new();
    let bob = ServiceId::Aci(Uuid { bytes: [7; 16] });
    let listed = ListenerEvent::Contacts(Ok(vec![Ok(alice(Some("+1555")))]));
    run_message_listener(&mut state, ListenerTask::LoadContacts, listed);
    let first = content(ContentBody::DataMessage(data(None, vec![pointer(3, Some(vec![1]))])));
    let event = ListenerEvent::Message(Some(first));
    assert!(signal_serve::sse::can_be_shown(&event));
    run_message_listener(&mut state, ListenerTask::NextMessage, event);

    let other = content(ContentBody::DataMessage(data(None, vec![pointer(4, Some(vec![2]))])));
    let event = ListenerEvent::Message(Some(other));
    run_message_listener(&mut state, ListenerTask::NextMessage, event);
    let listed = ListenerEvent::Contacts(Ok(vec![Ok(alice(None))]));
    run_message_listener(&mut state, ListenerTask::ReloadContacts, listed);
    let sender = ServiceId::Aci(Uuid::parse(ALICE).unwrap());
    assert_eq!(state.phone_for_service_id(&sender), Some("+1555".to_string()));
    assert_eq!(state.phone_for_service_id(&bob), None);
    assert_eq!(state.pending_attachments.get(&vec![1]).unwrap().handle, 3);
    assert_eq!(state.pending_attachments.get(&vec![2]).unwrap().handle, 4);

    let again = content(ContentBody::DataMessage(data(None, vec![pointer(5, Some(vec![1]))])));
    let event = ListenerEvent::Message(Some(again));
    run_message_listener(&mut state, ListenerTask::NextMessage, event);
    let listed = ListenerEvent::Contacts(Ok(vec![Ok(alice(Some("+1666")))]));
    run_message_listener(&mut state, ListenerTask::ReloadContacts, listed);
    assert_eq!(state.phone_for_service_id(&sender), Some("+1666".to_string()));
    assert_eq!(state.pending_attachments.get(&vec![1]).unwrap().handle, 5);
}

#[test]
fn listener_starts_with_the_contacts_and_reports_unreadable_ones() {
    assert!(matches!(first_task(), ListenerTask::LoadContacts));
    let mut state = AppState::new();
    let listing = vec![Ok(alice(Some("+1"))), Err("broken".to_string()), Err("late".to_string())];
    let listed = ListenerEvent::Contacts(Ok(listing));
    let step = run_message_listener(&mut state, first_task(), listed);
    assert_eq!(step.refresh_error.as_deref(), Some("broken"));
    assert!(step.publish.is_none());
    assert!(matches!(step.next, ListenerTask::OpenStream));
    let listed = ListenerEvent::Contacts(Ok(vec![Err("broken".to_string())]));
    let step = run_message_listener(&mut state, ListenerTask::ReloadContacts, listed);
    assert_eq!(step.refresh_error.as_deref(), Some("broken"));
    assert_json(&step.publish.unwrap(), r#"{"envelope": {"contactsSynced": true}}"#);
}

#[test]
fn first_ping_comes_after_one_period() {
    assert_eq!(first_ping_secs(), 15);
}

#[test]
fn websocket_sends_texts_in_order_and_pings_between() {
    let events = vec![
        WsEvent::Broadcast(Feed::Data("a".to_string())),
        WsEvent::Sent { ok: true },
        WsEvent::Broadcast(Feed::Lagged(2)),
        WsEvent::Tick,
        WsEvent::Frame { close: false },
        WsEvent::Broadcast(Feed::Data("b".to_string())),
    ];
    let frames: Vec<String> = events
        .into_iter()
        .filter_map(|event| match handle_ws(event) {
            WsAction::SendText(text) => Some(text),
            WsAction::SendPing(bytes) => Some(format!("ping {}", String::from_utf8(bytes).unwrap())),
            WsAction::Wait => None,
            WsAction::HangUp => panic!("hung up"),
        })
        .collect();
    assert_eq!(frames, vec!["a", "ping keepalive", "b"]);
}

#[test]
fn event_stream_yields_all_messages_up_to_the_end() {
    let feeds = vec![
        Feed::Data("a".to_string()),
        Feed::Lagged(4),
        Feed::Data("b".to_string()),
        Feed::Closed,
        Feed::Data("c".to_string()),
    ];
    let mut yielded: Vec<String> = Vec::new();
    for feed in feeds {
        match events_handler(feed) {
            StreamAction::Yield(data) => yielded.push(data),
            StreamAction::Wait => {}
            StreamAction::Stop => break,
        }
    }
    assert_eq!(yielded, vec!["a", "b"]);
}
