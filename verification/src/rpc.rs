//! Requests: what each method does, and how it goes on after each action of the shell.
use vstd::pervasive::unreached;
use vstd::prelude::*;

use crate::codec::{base64_text, decoded, encodable, encode, is_encodable, refusal};
use crate::contacts::{contact_match, find_contact, readable, readable_contacts, Contact};
use crate::ident::{hyphenated, Uuid};
use crate::json::{
    array_member, items_view, lemma_items_view, signed, text_member, u64_member, unsigned, Json,
    JsonView, Object,
};
use crate::message::{
    deliveries_view, text_message, text_view, Delivery, DeliveryView, Message, MessageView,
    Reaction, ReactionView,
};
use crate::params::{
    decode_text, default_content_type, group_id, group_id_bytes, members_of, message_text,
    msg_text, parse_uploads, recipient_list, recipients, uploads_of, RpcError, RpcErrorView,
};
use crate::session::{
    deliveries_to, make_deliveries, make_entries, outcome_view, result_entries, timestamp_json,
    timestamp_object, Action, ActionView, Event, Mode, Order, OrderView, Outcome, Progress,
    ProgressView, Report, ReportView, Stage, StageView,
};
use crate::state::{AppState, Pending};
use crate::text::same_text;

verus! {

/// The code of every error.
pub const ERROR_CODE: i64 = -1;

/// What an outcome in specifications is.
pub type OutcomeView = Result<ProgressView, RpcErrorView>;

/// How `send` starts: with a message to a group, or with the contacts.
pub open spec fn send_start(params: Map<Seq<char>, JsonView>, now: u64) -> OutcomeView {
    match group_id(params) {
        Some(group) => Ok(
            ProgressView::Wait(
                StageView::SendingToGroup { timestamp: now },
                ActionView::SendToGroup {
                    group,
                    message: text_message(message_text(params)),
                    timestamp: now,
                },
            ),
        ),
        None => Ok(
            ProgressView::Wait(
                StageView::Resolving(
                    OrderView::Send {
                        text: message_text(params),
                        recipients: recipient_list(params),
                        timestamp: now,
                    },
                ),
                ActionView::LoadContacts,
            ),
        ),
    }
}

/// Starts `send`.
pub fn handle_send(params: &Object, now: u64) -> (outcome: Outcome)
    ensures
        outcome_view(outcome) == send_start(params@, now),
{
    let text: String = msg_text(params);
    match group_id_bytes(params) {
        Some(group) => Ok(
            Progress::Wait(
                Stage::SendingToGroup { timestamp: now },
                Action::SendToGroup { group, message: Message::text(text), timestamp: now },
            ),
        ),
        None => Ok(
            Progress::Wait(
                Stage::Resolving(
                    Order::Send { text, recipients: recipients(params), timestamp: now },
                ),
                Action::LoadContacts,
            ),
        ),
    }
}

/// How `sendTyping` starts. Without recipients there is nothing to do.
pub open spec fn typing_start(params: Map<Seq<char>, JsonView>, now: u64) -> OutcomeView {
    if recipient_list(params).len() == 0 {
        Ok(ProgressView::Finished(timestamp_json(now)))
    } else {
        Ok(
            ProgressView::Wait(
                StageView::Resolving(
                    OrderView::Typing { recipients: recipient_list(params), timestamp: now },
                ),
                ActionView::LoadContacts,
            ),
        )
    }
}

/// Starts `sendTyping`.
pub fn handle_send_typing(params: &Object, now: u64) -> (outcome: Outcome)
    ensures
        outcome_view(outcome) == typing_start(params@, now),
{
    let list: Vec<String> = recipients(params);
    if list.len() == 0 {
        return Ok(Progress::Finished(timestamp_object(now)));
    }
    Ok(
        Progress::Wait(
            Stage::Resolving(Order::Typing { recipients: list, timestamp: now }),
            Action::LoadContacts,
        ),
    )
}

/// The emoji of a reaction. Without one, the text of the message takes its place.
pub open spec fn emoji_of(params: Map<Seq<char>, JsonView>) -> Seq<char> {
    match text_member(params, "emoji"@) {
        Some(emoji) => emoji,
        None => message_text(params),
    }
}

/// The author of the message that a reaction is for, empty if none is given.
pub open spec fn target_author(params: Map<Seq<char>, JsonView>) -> Seq<char> {
    match text_member(params, "targetAuthor"@) {
        Some(author) => author,
        None => Seq::empty(),
    }
}

/// When the message that a reaction is for was sent, zero if that is not given.
pub open spec fn target_timestamp(params: Map<Seq<char>, JsonView>) -> u64 {
    match u64_member(params, "targetTimestamp"@) {
        Some(timestamp) => timestamp,
        None => 0,
    }
}

/// How `sendReaction` starts.
pub open spec fn reaction_start(params: Map<Seq<char>, JsonView>, now: u64) -> OutcomeView {
    Ok(
        ProgressView::Wait(
            StageView::Resolving(
                OrderView::Reaction {
                    emoji: emoji_of(params),
                    target_author: target_author(params),
                    target_timestamp: target_timestamp(params),
                    recipients: recipient_list(params),
                    timestamp: now,
                },
            ),
            ActionView::LoadContacts,
        ),
    )
}

/// Starts `sendReaction`.
pub fn handle_send_reaction(params: &Object, now: u64) -> (outcome: Outcome)
    ensures
        outcome_view(outcome) == reaction_start(params@, now),
{
    let emoji: String = match params.get_text("emoji") {
        Some(emoji) => emoji.clone(),
        None => msg_text(params),
    };
    let target_author: String = match params.get_text("targetAuthor") {
        Some(author) => author.clone(),
        None => String::new(),
    };
    let target_timestamp: u64 = match params.get_u64("targetTimestamp") {
        Some(timestamp) => timestamp,
        None => 0,
    };
    Ok(
        Progress::Wait(
            Stage::Resolving(
                Order::Reaction {
                    emoji,
                    target_author,
                    target_timestamp,
                    recipients: recipients(params),
                    timestamp: now,
                },
            ),
            Action::LoadContacts,
        ),
    )
}

/// How `listContacts` starts.
pub open spec fn list_start() -> OutcomeView {
    Ok(ProgressView::Wait(StageView::Listing, ActionView::LoadContacts))
}

/// Starts `listContacts`.
pub fn handle_list_contacts() -> (outcome: Outcome)
    ensures
        outcome_view(outcome) == list_start(),
{
    Ok(Progress::Wait(Stage::Listing, Action::LoadContacts))
}

/// How `getAttachment` starts: the identifier is Base64 for the key of the attachment.
pub open spec fn get_attachment_start(
    params: Map<Seq<char>, JsonView>,
    pending: Map<Seq<u8>, Pending>,
) -> OutcomeView {
    match text_member(params, "attachmentId"@) {
        None => Err(RpcErrorView::MissingAttachmentId),
        Some(id) => match decoded(id) {
            None => Err(RpcErrorView::BadBase64(refusal(id))),
            Some(key) => if pending.contains_key(key) {
                Ok(
                    ProgressView::Wait(
                        StageView::Downloading { content_type: text_view(pending[key].content_type) },
                        ActionView::Download { handle: pending[key].handle },
                    ),
                )
            } else {
                Err(RpcErrorView::NotCached)
            },
        },
    }
}

/// Starts `getAttachment`.
pub fn handle_get_attachment(state: &AppState, params: &Object) -> (outcome: Outcome)
    requires
        state.wf(),
    ensures
        outcome_view(outcome) == get_attachment_start(params@, state.pending_attachments@),
{
    match params.get_text("attachmentId") {
        None => Err(RpcError::MissingAttachmentId),
        Some(id) => match decode_text(id.as_str()) {
            Err(e) => Err(e),
            Ok(key) => match state.pending_attachments.get(&key) {
                None => Err(RpcError::NotCached),
                Some(pending) => Ok(
                    Progress::Wait(
                        Stage::Downloading { content_type: pending.content_type.clone() },
                        Action::Download { handle: pending.handle },
                    ),
                ),
            },
        },
    }
}

/// How `sendAttachments` starts: with an upload, once everything about it is in order.
pub open spec fn attachments_start(params: Map<Seq<char>, JsonView>) -> OutcomeView {
    if recipient_list(params).len() == 0 {
        Err(RpcErrorView::NoRecipient)
    } else {
        match array_member(params, "attachments"@) {
            None => Err(RpcErrorView::MissingAttachments),
            Some(items) => if items.len() == 0 {
                Err(RpcErrorView::EmptyAttachments)
            } else {
                match uploads_of(items) {
                    Err(e) => Err(e),
                    Ok(files) => Ok(
                        ProgressView::Wait(
                            StageView::Uploading {
                                recipients: recipient_list(params),
                                text: message_text(params),
                            },
                            ActionView::Upload(files),
                        ),
                    ),
                }
            },
        }
    }
}

/// Starts `sendAttachments`.
pub fn handle_send_attachments(params: &Object) -> (outcome: Outcome)
    ensures
        outcome_view(outcome) == attachments_start(params@),
{
    let list: Vec<String> = recipients(params);
    if list.len() == 0 {
        return Err(RpcError::NoRecipient);
    }
    match params.get_array("attachments") {
        None => Err(RpcError::MissingAttachments),
        Some(items) => {
            proof {
                lemma_items_view(items@);
            }
            if items.len() == 0 {
                return Err(RpcError::EmptyAttachments);
            }
            match parse_uploads(items) {
                Err(e) => Err(e),
                Ok(files) => Ok(
                    Progress::Wait(
                        Stage::Uploading { recipients: list, text: msg_text(params) },
                        Action::Upload(files),
                    ),
                ),
            }
        },
    }
}

/// How a request starts.
pub open spec fn method_start(
    method: Seq<char>,
    params: Map<Seq<char>, JsonView>,
    pending: Map<Seq<u8>, Pending>,
    now: u64,
) -> OutcomeView {
    if method == "send"@ {
        send_start(params, now)
    } else if method == "sendTyping"@ {
        typing_start(params, now)
    } else if method == "sendReaction"@ {
        reaction_start(params, now)
    } else if method == "listContacts"@ {
        list_start()
    } else if method == "getAttachment"@ {
        get_attachment_start(params, pending)
    } else if method == "sendAttachments"@ || method == "send_multiple_images"@ {
        attachments_start(params)
    } else {
        Err(RpcErrorView::UnknownMethod(method))
    }
}

/// Starts a method.
pub fn start_method(state: &AppState, method: &str, params: &Object, now: u64) -> (outcome: Outcome)
    requires
        state.wf(),
    ensures
        outcome_view(outcome) == method_start(method@, params@, state.pending_attachments@, now),
{
    if same_text(method, "send") {
        handle_send(params, now)
    } else if same_text(method, "sendTyping") {
        handle_send_typing(params, now)
    } else if same_text(method, "sendReaction") {
        handle_send_reaction(params, now)
    } else if same_text(method, "listContacts") {
        handle_list_contacts()
    } else if same_text(method, "getAttachment") {
        handle_get_attachment(state, params)
    } else if same_text(method, "sendAttachments") || same_text(method, "send_multiple_images") {
        handle_send_attachments(params)
    } else {
        Err(RpcError::UnknownMethod(method.to_owned()))
    }
}

/// How a contact is listed.
pub open spec fn contact_json(contact: Contact) -> JsonView {
    JsonView::Object(
        Map::<Seq<char>, JsonView>::empty().insert(
            "uuid"@,
            JsonView::Text(hyphenated(contact.uuid@)),
        ).insert(
            "number"@,
            JsonView::Text(
                match contact.phone_number {
                    Some(phone) => phone@,
                    None => Seq::empty(),
                },
            ),
        ).insert("name"@, JsonView::Text(contact.name@)),
    )
}

/// The list of the contacts.
pub open spec fn contacts_json(contacts: Seq<Contact>) -> JsonView {
    JsonView::Object(
        Map::<Seq<char>, JsonView>::empty().insert(
            "contacts"@,
            JsonView::Array(contacts.map_values(|c: Contact| contact_json(c))),
        ),
    )
}

fn contact_object(contact: &Contact) -> (json: Json)
    ensures
        json@ == contact_json(*contact),
{
    let number: String = match &contact.phone_number {
        Some(phone) => phone.clone(),
        None => String::new(),
    };
    let mut object = Object::new();
    object.insert("uuid", Json::Text(contact.uuid.to_text()));
    object.insert("number", Json::Text(number));
    object.insert("name", Json::Text(contact.name.clone()));
    Json::Object(object)
}

/// Lists the contacts.
pub fn list_contacts(contacts: &Vec<Contact>) -> (json: Json)
    ensures
        json@ == contacts_json(contacts@),
{
    let mut items: Vec<Json> = Vec::new();
    let mut i: usize = 0;
    while i < contacts.len()
        invariant
            i <= contacts.len(),
            items@.len() == i,
            forall|k: int| 0 <= k < i ==> (#[trigger] items@[k])@ == contact_json(contacts@[k]),
        decreases contacts.len() - i,
    {
        items.push(contact_object(&contacts[i]));
        i = i + 1;
    }
    proof {
        lemma_items_view(items@);
        assert(items_view(items@) =~= contacts@.map_values(|c: Contact| contact_json(c)));
    }
    let mut object = Object::new();
    object.insert("contacts", Json::Array(items));
    Json::Object(object)
}

/// The message that carries a reaction. Its target is found as a recipient is.
pub open spec fn reaction_message(
    contacts: Seq<Contact>,
    emoji: Seq<char>,
    target_author: Seq<char>,
    target_timestamp: u64,
) -> MessageView {
    let author = contact_match(contacts, target_author);
    MessageView::Data {
        body: None,
        attachments: Seq::empty(),
        reaction: Some(
            ReactionView {
                emoji,
                remove: false,
                target_author_aci: match author {
                    Some(i) => Some(hyphenated(contacts[i].uuid@)),
                    None => None,
                },
                target_sent_timestamp: target_timestamp,
                target_author_aci_binary: match author {
                    Some(i) => Some(contacts[i].uuid@),
                    None => None,
                },
            },
        ),
    }
}

fn make_reaction(
    contacts: &Vec<Contact>,
    emoji: String,
    target_author: &str,
    target_timestamp: u64,
) -> (message: Message)
    ensures
        message@ == reaction_message(contacts@, emoji@, target_author@, target_timestamp),
{
    let author: Option<Uuid> = match find_contact(contacts, target_author) {
        Some(contact) => Some(contact.uuid),
        None => None,
    };
    let reaction = Reaction {
        emoji,
        remove: false,
        target_author_aci: match &author {
            Some(uuid) => Some(uuid.to_text()),
            None => None,
        },
        target_sent_timestamp: target_timestamp,
        target_author_aci_binary: match &author {
            Some(uuid) => Some(uuid.to_vec()),
            None => None,
        },
    };
    Message::Data { body: None, attachments: Vec::new(), reaction: Some(reaction) }
}

/// The message that carries files. An empty text is left out.
pub open spec fn files_message(text: Seq<char>, files: Seq<usize>) -> MessageView {
    MessageView::Data {
        body: if text.len() == 0 {
            None
        } else {
            Some(text)
        },
        attachments: files,
        reaction: None,
    }
}

/// The messages that an order asks for.
pub open spec fn order_queue(order: OrderView, contacts: Seq<Contact>) -> Seq<DeliveryView> {
    match order {
        OrderView::Send { text, recipients, timestamp } => deliveries_to(
            contacts,
            recipients,
            text_message(text),
            timestamp,
        ),
        OrderView::Typing { recipients, timestamp } => deliveries_to(
            contacts,
            recipients,
            MessageView::TypingStarted { timestamp },
            timestamp,
        ),
        OrderView::Reaction { emoji, target_author, target_timestamp, recipients, timestamp } =>
            deliveries_to(
            contacts,
            recipients,
            reaction_message(contacts, emoji, target_author, target_timestamp),
            timestamp,
        ),
        OrderView::Attachments { files, text, recipients, timestamp } => deliveries_to(
            contacts,
            recipients,
            files_message(text, files),
            timestamp,
        ),
    }
}

/// What an order answers in the end.
pub open spec fn order_report(order: OrderView, contacts: Seq<Contact>) -> ReportView {
    match order {
        OrderView::Send { text, recipients, timestamp } => ReportView::Results {
            timestamp,
            entries: result_entries(Mode::Plain, contacts, recipients),
        },
        OrderView::Typing { recipients, timestamp } => ReportView::Timestamp(timestamp),
        OrderView::Reaction { emoji, target_author, target_timestamp, recipients, timestamp } =>
            ReportView::Timestamp(timestamp),
        OrderView::Attachments { files, text, recipients, timestamp } => ReportView::ResultsNow {
            entries: result_entries(Mode::Attachments, contacts, recipients),
        },
    }
}

/// Sends the first message of the queue, or answers if there is none left.
pub open spec fn deliver_next(
    queue: Seq<DeliveryView>,
    report: ReportView,
    now: u64,
) -> OutcomeView {
    if queue.len() == 0 {
        Ok(ProgressView::Finished(report.json(now)))
    } else {
        Ok(
            ProgressView::Wait(
                StageView::Delivering { queue: queue.drop_first(), report },
                ActionView::Deliver(queue[0]),
            ),
        )
    }
}

fn next_delivery(queue: Vec<Delivery>, report: Report, now: u64) -> (outcome: Outcome)
    ensures
        outcome_view(outcome) == deliver_next(deliveries_view(queue@), report@, now),
{
    let mut queue: Vec<Delivery> = queue;
    if queue.len() == 0 {
        return Ok(Progress::Finished(report.into_json(now)));
    }
    let ghost all = queue@;
    let first: Delivery = queue.remove(0);
    assert(deliveries_view(queue@) =~= deliveries_view(all).drop_first());
    Ok(Progress::Wait(Stage::Delivering { queue, report }, Action::Deliver(first)))
}

/// How an order goes on once the contacts are known.
pub open spec fn order_next(order: OrderView, contacts: Seq<Contact>, now: u64) -> OutcomeView {
    deliver_next(order_queue(order, contacts), order_report(order, contacts), now)
}

fn resume_order(order: Order, contacts: &Vec<Contact>, now: u64) -> (outcome: Outcome)
    ensures
        outcome_view(outcome) == order_next(order@, contacts@, now),
{
    match order {
        Order::Send { text, recipients, timestamp } => {
            let message = Message::text(text);
            let queue: Vec<Delivery> = make_deliveries(
                contacts,
                &recipients,
                &message,
                timestamp,
            );
            let entries: Vec<Json> = make_entries(Mode::Plain, contacts, &recipients);
            next_delivery(queue, Report::Results { timestamp, entries }, now)
        },
        Order::Typing { recipients, timestamp } => {
            let message = Message::TypingStarted { timestamp };
            let queue: Vec<Delivery> = make_deliveries(
                contacts,
                &recipients,
                &message,
                timestamp,
            );
            next_delivery(queue, Report::Timestamp(timestamp), now)
        },
        Order::Reaction { emoji, target_author, target_timestamp, recipients, timestamp } => {
            let message = make_reaction(contacts, emoji, target_author.as_str(), target_timestamp);
            let queue: Vec<Delivery> = make_deliveries(
                contacts,
                &recipients,
                &message,
                timestamp,
            );
            next_delivery(queue, Report::Timestamp(timestamp), now)
        },
        Order::Attachments { files, text, recipients, timestamp } => {
            let body: Option<String> = if text.as_str().is_empty() {
                None
            } else {
                Some(text)
            };
            let message = Message::Data { body, attachments: files, reaction: None };
            let queue: Vec<Delivery> = make_deliveries(
                contacts,
                &recipients,
                &message,
                timestamp,
            );
            let entries: Vec<Json> = make_entries(Mode::Attachments, contacts, &recipients);
            next_delivery(queue, Report::ResultsNow { entries }, now)
        },
    }
}

/// The handles of the files that were uploaded, in order.
pub open spec fn uploaded(results: Seq<Result<usize, String>>) -> Seq<usize>
    decreases results.len(),
{
    if results.len() == 0 {
        Seq::empty()
    } else {
        match results.last() {
            Ok(handle) => uploaded(results.drop_last()).push(handle),
            Err(_) => uploaded(results.drop_last()),
        }
    }
}

fn uploaded_files(results: &Vec<Result<usize, String>>) -> (files: Vec<usize>)
    ensures
        files@ == uploaded(results@),
{
    let mut files: Vec<usize> = Vec::new();
    let mut i: usize = 0;
    while i < results.len()
        invariant
            i <= results.len(),
            files@ == uploaded(results@.take(i as int)),
        decreases results.len() - i,
    {
        proof {
            assert(results@.take(i + 1).drop_last() == results@.take(i as int));
        }
        if let Ok(handle) = &results[i] {
            files.push(*handle);
        }
        i = i + 1;
    }
    assert(results@.take(i as int) == results@);
    files
}

/// The answer for a message that went to a group.
pub open spec fn group_json(timestamp: u64) -> JsonView {
    JsonView::Object(
        Map::<Seq<char>, JsonView>::empty().insert("timestamp"@, unsigned(timestamp)).insert(
            "results"@,
            JsonView::Array(
                seq![
                    JsonView::Object(
                        Map::<Seq<char>, JsonView>::empty().insert(
                            "recipient"@,
                            JsonView::Text("group"@),
                        ).insert("status"@, JsonView::Text("sent"@)),
                    ),
                ],
            ),
        ),
    )
}

fn group_object(timestamp: u64) -> (json: Json)
    ensures
        json@ == group_json(timestamp),
{
    let mut entry = Object::new();
    entry.insert("recipient", Json::text("group"));
    entry.insert("status", Json::text("sent"));
    let ghost view = entry@;
    let mut entries: Vec<Json> = Vec::new();
    entries.push(Json::Object(entry));
    proof {
        lemma_items_view(entries@);
        assert(items_view(entries@) =~= seq![JsonView::Object(view)]);
    }
    let mut object = Object::new();
    object.insert("timestamp", Json::number(timestamp));
    object.insert("results", Json::Array(entries));
    Json::Object(object)
}

/// The answer with a fetched attachment.
pub open spec fn attachment_answer(bytes: Seq<u8>, content_type: Option<Seq<char>>) -> JsonView {
    JsonView::Object(
        Map::<Seq<char>, JsonView>::empty().insert("data"@, JsonView::Text(base64_text(bytes))).insert(
            "contentType"@,
            JsonView::Text(
                match content_type {
                    Some(content_type) => content_type,
                    None => default_content_type(),
                },
            ),
        ).insert("size"@, unsigned(bytes.len() as u64)),
    )
}

fn attachment_object(bytes: &Vec<u8>, content_type: Option<String>) -> (json: Json)
    requires
        encodable(bytes@.len()),
    ensures
        json@ == attachment_answer(bytes@, text_view(content_type)),
{
    let content_type: String = match content_type {
        Some(content_type) => content_type,
        None => "application/octet-stream".to_owned(),
    };
    let mut object = Object::new();
    object.insert("data", Json::Text(encode(bytes)));
    object.insert("contentType", Json::Text(content_type));
    object.insert("size", Json::number(bytes.len() as u64));
    Json::Object(object)
}

/// Whether a request at this stage waits for such an event.
pub open spec fn awaits(stage: StageView, event: Event) -> bool {
    match stage {
        StageView::SendingToGroup { .. } => event is GroupSent,
        StageView::Listing | StageView::Resolving(_) => event is Contacts,
        StageView::Delivering { .. } => event is Delivered,
        StageView::Uploading { .. } => event is Uploaded,
        StageView::Downloading { .. } => event is Downloaded,
    }
}

/// Whether what the event brings can be written out.
pub open spec fn fits(event: Event) -> bool {
    match event {
        Event::Downloaded(Ok(bytes)) => encodable(bytes@.len()),
        _ => true,
    }
}

/// Whether what the event brings can be written out.
pub fn can_resume(event: &Event) -> (can: bool)
    ensures
        can == fits(*event),
{
    match event {
        Event::Downloaded(Ok(bytes)) => is_encodable(bytes.len()),
        _ => true,
    }
}

/// What the service failed with, if it failed.
pub open spec fn failure(event: Event) -> Option<String> {
    match event {
        Event::GroupSent(Err(e)) => Some(e),
        Event::Contacts(Err(e)) => Some(e),
        Event::Delivered(Err(e)) => Some(e),
        Event::Uploaded(Err(e)) => Some(e),
        Event::Downloaded(Err(e)) => Some(e),
        _ => None,
    }
}

/// How a request goes on after an event. A failure of the service ends it.
pub open spec fn resumed(stage: StageView, event: Event, now: u64) -> OutcomeView {
    match failure(event) {
        Some(e) => Err(RpcErrorView::Service(e@)),
        None => match stage {
            StageView::SendingToGroup { timestamp } => Ok(
                ProgressView::Finished(group_json(timestamp)),
            ),
            StageView::Listing => Ok(
                ProgressView::Finished(contacts_json(readable(event->Contacts_0->Ok_0@))),
            ),
            StageView::Resolving(order) => order_next(
                order,
                readable(event->Contacts_0->Ok_0@),
                now,
            ),
            StageView::Delivering { queue, report } => deliver_next(queue, report, now),
            StageView::Uploading { recipients, text } => {
                let files = uploaded(event->Uploaded_0->Ok_0@);
                if files.len() == 0 {
                    Err(RpcErrorView::UploadsFailed)
                } else {
                    Ok(
                        ProgressView::Wait(
                            StageView::Resolving(
                                OrderView::Attachments { files, text, recipients, timestamp: now },
                            ),
                            ActionView::LoadContacts,
                        ),
                    )
                }
            },
            StageView::Downloading { content_type } => Ok(
                ProgressView::Finished(
                    attachment_answer(event->Downloaded_0->Ok_0@, content_type),
                ),
            ),
        },
    }
}

/// Goes on with a request after an event.
pub fn resume(stage: Stage, event: Event, now: u64) -> (outcome: Outcome)
    requires
        awaits(stage@, event),
        fits(event),
    ensures
        outcome_view(outcome) == resumed(stage@, event, now),
{
    match (stage, event) {
        (Stage::SendingToGroup { timestamp }, Event::GroupSent(Ok(_))) => Ok(
            Progress::Finished(group_object(timestamp)),
        ),
        (Stage::Listing, Event::Contacts(Ok(listing))) => {
            let contacts: Vec<Contact> = readable_contacts(listing);
            Ok(Progress::Finished(list_contacts(&contacts)))
        },
        (Stage::Resolving(order), Event::Contacts(Ok(listing))) => {
            let contacts: Vec<Contact> = readable_contacts(listing);
            resume_order(order, &contacts, now)
        },
        (Stage::Delivering { queue, report }, Event::Delivered(Ok(_))) => next_delivery(
            queue,
            report,
            now,
        ),
        (Stage::Uploading { recipients, text }, Event::Uploaded(Ok(results))) => {
            let files: Vec<usize> = uploaded_files(&results);
            if files.len() == 0 {
                return Err(RpcError::UploadsFailed);
            }
            Ok(
                Progress::Wait(
                    Stage::Resolving(
                        Order::Attachments { files, text, recipients, timestamp: now },
                    ),
                    Action::LoadContacts,
                ),
            )
        },
        (Stage::Downloading { content_type }, Event::Downloaded(Ok(bytes))) => Ok(
            Progress::Finished(attachment_object(&bytes, content_type)),
        ),
        (_, Event::GroupSent(Err(e))) => Err(RpcError::Service(e)),
        (_, Event::Contacts(Err(e))) => Err(RpcError::Service(e)),
        (_, Event::Delivered(Err(e))) => Err(RpcError::Service(e)),
        (_, Event::Uploaded(Err(e))) => Err(RpcError::Service(e)),
        (_, Event::Downloaded(Err(e))) => Err(RpcError::Service(e)),
        _ => unreached(),
    }
}

/// A request that is under way.
#[derive(Debug)]
pub struct Session {
    /// The identifier that the caller gave the request.
    pub id: Json,
    pub stage: Stage,
}

/// What happens next with a request.
#[derive(Debug)]
pub enum Step {
    /// The shell performs the action and resumes the session with what came of it.
    Wait(Session, Action),
    /// The caller gets this answer.
    Reply(Json),
}

#[verifier::ext_equal]
pub enum StepView {
    Wait { id: JsonView, stage: StageView, action: ActionView },
    Reply(JsonView),
}

impl View for Step {
    type V = StepView;

    open spec fn view(&self) -> StepView {
        match self {
            Step::Wait(session, action) => StepView::Wait {
                id: session.id@,
                stage: session.stage@,
                action: action@,
            },
            Step::Reply(json) => StepView::Reply(json@),
        }
    }
}

/// The members that every answer has: the version of the protocol and the request's identifier.
pub open spec fn response_head(id: JsonView) -> Map<Seq<char>, JsonView> {
    Map::<Seq<char>, JsonView>::empty().insert("jsonrpc"@, JsonView::Text("2.0"@)).insert("id"@, id)
}

/// An error object.
pub open spec fn error_json(message: Seq<char>) -> JsonView {
    JsonView::Object(
        Map::<Seq<char>, JsonView>::empty().insert("message"@, JsonView::Text(message)).insert(
            "code"@,
            signed(ERROR_CODE),
        ),
    )
}

/// The answer with a result.
pub open spec fn success(id: JsonView, result: JsonView) -> JsonView {
    JsonView::Object(response_head(id).insert("result"@, result))
}

/// The answer with an error.
pub open spec fn refused(id: JsonView, message: Seq<char>) -> JsonView {
    JsonView::Object(response_head(id).insert("error"@, error_json(message)))
}

/// What an outcome means for the request with this identifier.
pub open spec fn settled(id: JsonView, outcome: OutcomeView) -> StepView {
    match outcome {
        Ok(ProgressView::Wait(stage, action)) => StepView::Wait { id, stage, action },
        Ok(ProgressView::Finished(result)) => StepView::Reply(success(id, result)),
        Err(e) => StepView::Reply(refused(id, e.message())),
    }
}

fn response_object(id: Json) -> (object: Object)
    ensures
        object@ == response_head(id@),
{
    let mut object = Object::new();
    object.insert("jsonrpc", Json::text("2.0"));
    object.insert("id", id);
    object
}

fn error_object(message: String) -> (json: Json)
    ensures
        json@ == error_json(message@),
{
    let mut object = Object::new();
    object.insert("message", Json::Text(message));
    object.insert("code", Json::integer(ERROR_CODE));
    Json::Object(object)
}

fn settle(id: Json, outcome: Outcome) -> (step: Step)
    ensures
        step@ == settled(id@, outcome_view(outcome)),
{
    match outcome {
        Ok(Progress::Wait(stage, action)) => Step::Wait(Session { id, stage }, action),
        Ok(Progress::Finished(result)) => {
            let mut object: Object = response_object(id);
            object.insert("result", result);
            Step::Reply(Json::Object(object))
        },
        Err(e) => {
            let mut object: Object = response_object(id);
            object.insert("error", error_object(e.message()));
            Step::Reply(Json::Object(object))
        },
    }
}

/// The name of the method that a request calls, empty if it names none.
pub open spec fn method_of(req: JsonView) -> Seq<char> {
    match req.get("method"@) {
        Some(value) => match value.as_text() {
            Some(method) => method,
            None => Seq::empty(),
        },
        None => Seq::empty(),
    }
}

/// The parameters of a request, none if they are not an object.
pub open spec fn params_of(req: JsonView) -> Map<Seq<char>, JsonView> {
    match req.get("params"@) {
        Some(value) => members_of(value),
        None => Map::empty(),
    }
}

/// The identifier of a request, `null` if it has none.
pub open spec fn id_of(req: JsonView) -> JsonView {
    match req.get("id"@) {
        Some(id) => id,
        None => JsonView::Null,
    }
}

/// How a request starts.
pub open spec fn dispatched(req: JsonView, pending: Map<Seq<u8>, Pending>, now: u64) -> StepView {
    settled(id_of(req), method_start(method_of(req), params_of(req), pending, now))
}

/// Starts a request.
pub fn dispatch(state: &AppState, req: &Json, now: u64) -> (step: Step)
    requires
        state.wf(),
    ensures
        step@ == dispatched(req@, state.pending_attachments@, now),
{
    let method: &str = match req.get("method") {
        Some(Json::Text(method)) => method.as_str(),
        _ => {
            proof {
                reveal_strlit("");
                assert(""@ =~= Seq::empty());
            }
            ""
        },
    };
    let none = Object::new();
    let params: &Object = match req.get("params") {
        Some(Json::Object(object)) => object,
        _ => &none,
    };
    let id: Json = match req.get("id") {
        Some(id) => id.copy(),
        None => Json::Null,
    };
    settle(id, start_method(state, method, params, now))
}

/// The step after an event.
pub open spec fn stepped(id: JsonView, stage: StageView, event: Event, now: u64) -> StepView {
    settled(id, resumed(stage, event, now))
}

impl Session {
    /// Goes on with the request after what came of the last action. `now` is the current time.
    pub fn step(self, event: Event, now: u64) -> (step: Step)
        requires
            awaits(self.stage@, event),
            fits(event),
        ensures
            step@ == stepped(self.id@, self.stage@, event, now),
    {
        settle(self.id, resume(self.stage, event, now))
    }
}

/// The answer for a request whose handling broke down.
pub fn dispatch_failed() -> (json: Json)
    ensures
        json@ == refused(JsonView::Null, "dispatch failed"@),
{
    let mut object: Object = response_object(Json::Null);
    object.insert("error", error_object("dispatch failed".to_owned()));
    Json::Object(object)
}

} // verus!
