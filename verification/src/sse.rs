//! The event stream: how received messages are noted and shown to clients.
use vstd::prelude::*;

use crate::codec::{base64_text, encodable, encode, is_encodable};
use crate::contacts::{good_entries, Listing};
use crate::json::{
    items_view, lemma_items_view, optional_number, optional_text, signed, Json, JsonView, Object,
};
use crate::message::copy_bytes;
use crate::params::default_content_type;
use crate::state::{phone_of, phones_noted, AppState, Pending, ServiceId};

verus! {

/// Seconds between two signs of life on an idle event stream.
pub const SSE_KEEPALIVE_SECS: u64 = 30;

/// What a sign of life says.
pub const SSE_KEEPALIVE_TEXT: &'static str = "keepalive";

/// How many messages the broadcast channel holds for a slow subscriber.
pub const CHANNEL_CAPACITY: usize = 256;

/// Seconds to wait after messages could not be received.
pub const RETRY_SECS: u64 = 5;

/// Seconds to wait after the messages have ended.
pub const REOPEN_SECS: u64 = 1;

/// What a subscriber gets from the broadcast channel.
#[derive(Debug)]
pub enum Feed {
    /// A message.
    Data(String),
    /// The subscriber was too slow and missed so many messages.
    Lagged(u64),
    /// There will be no more messages.
    Closed,
}

/// What an event stream does.
#[derive(Debug)]
pub enum StreamAction {
    Yield(String),
    Wait,
    Stop,
}

/// What an event stream does: messages are passed on, gaps are passed over, and the stream ends
/// with the broadcast.
pub open spec fn stream_action(feed: Feed) -> StreamAction {
    match feed {
        Feed::Data(data) => StreamAction::Yield(data),
        Feed::Lagged(_) => StreamAction::Wait,
        Feed::Closed => StreamAction::Stop,
    }
}

/// Decides what an event stream does.
pub fn events_handler(feed: Feed) -> (action: StreamAction)
    ensures
        action == stream_action(feed),
{
    match feed {
        Feed::Data(data) => StreamAction::Yield(data),
        Feed::Lagged(_) => StreamAction::Wait,
        Feed::Closed => StreamAction::Stop,
    }
}

/// Whether nothing that the broadcast channel gave ends the stream.
pub open spec fn streams_on(feeds: Seq<Feed>) -> bool {
    forall|i: int| 0 <= i < feeds.len() ==> !(stream_action(#[trigger] feeds[i]) is Stop)
}

/// The texts that a stream yields while the broadcast channel gives these things.
pub open spec fn yielded(feeds: Seq<Feed>) -> Seq<Seq<char>>
    decreases feeds.len(),
{
    if feeds.len() == 0 {
        Seq::empty()
    } else {
        let before = yielded(feeds.drop_last());
        if !streams_on(feeds.drop_last()) {
            before
        } else {
            match stream_action(feeds.last()) {
                StreamAction::Yield(data) => before.push(data@),
                _ => before,
            }
        }
    }
}

/// The messages that the broadcast channel gave, in order.
pub open spec fn data_given(feeds: Seq<Feed>) -> Seq<Seq<char>>
    decreases feeds.len(),
{
    if feeds.len() == 0 {
        Seq::empty()
    } else {
        match feeds.last() {
            Feed::Data(data) => data_given(feeds.drop_last()).push(data@),
            _ => data_given(feeds.drop_last()),
        }
    }
}

/// As long as the broadcast goes on, a stream yields exactly the messages that it is given, in
/// order, across gaps too.
pub proof fn law_messages_are_streamed(feeds: Seq<Feed>)
    requires
        forall|i: int| 0 <= i < feeds.len() ==> !(#[trigger] feeds[i] is Closed),
    ensures
        streams_on(feeds),
        yielded(feeds) == data_given(feeds),
    decreases feeds.len(),
{
    if feeds.len() > 0 {
        let rest = feeds.drop_last();
        assert forall|i: int| 0 <= i < rest.len() implies !(#[trigger] rest[i] is Closed) by {
            assert(rest[i] == feeds[i]);
        }
        law_messages_are_streamed(rest);
    }
}

/// The end of the broadcast ends a stream, and nothing is yielded after it.
pub proof fn law_nothing_is_streamed_after_the_end(feeds: Seq<Feed>, i: int)
    requires
        0 <= i < feeds.len(),
        feeds[i] is Closed,
    ensures
        stream_action(feeds[i]) is Stop,
        yielded(feeds) == yielded(feeds.take(i)),
    decreases feeds.len(),
{
    let rest = feeds.drop_last();
    if i < rest.len() {
        assert(rest[i] == feeds[i]);
        assert(!streams_on(rest));
        assert(rest.take(i) =~= feeds.take(i));
        law_nothing_is_streamed_after_the_end(rest, i);
    } else {
        assert(rest =~= feeds.take(i));
    }
}

/// A file that came with a message.
#[derive(Debug)]
pub struct AttachmentPointer {
    /// The handle under which the shell keeps what it needs to fetch the file.
    pub handle: usize,
    pub client_uuid: Option<Vec<u8>>,
    pub content_type: Option<String>,
    pub file_name: Option<String>,
    pub size: Option<u32>,
    pub caption: Option<String>,
    pub width: Option<u32>,
    pub height: Option<u32>,
    pub flags: Option<u32>,
    pub cdn_number: Option<u32>,
}

/// A text with files.
#[derive(Debug)]
pub struct DataMessage {
    pub body: Option<String>,
    pub attachments: Vec<AttachmentPointer>,
}

/// What another device of the account has sent.
#[derive(Debug)]
pub struct Sent {
    pub message: Option<DataMessage>,
}

/// What was received.
#[derive(Debug)]
pub enum ContentBody {
    DataMessage(DataMessage),
    SynchronizeMessage { sent: Option<Sent> },
    TypingMessage,
    Other,
}

/// A message with its sender and time.
#[derive(Debug)]
pub struct Content {
    pub sender: ServiceId,
    /// The sender's service identifier as text.
    pub sender_text: String,
    /// Milliseconds since the Unix epoch.
    pub timestamp: i64,
    pub body: ContentBody,
}

/// What the service hands over.
#[derive(Debug)]
pub enum Received {
    /// All waiting messages have been handed over.
    QueueEmpty,
    /// The contacts have changed.
    Contacts,
    Content(Content),
}

/// Whether the identifier of a file can be written out.
pub open spec fn pointer_fits(pointer: AttachmentPointer) -> bool {
    pointer.client_uuid is Some ==> encodable(pointer.client_uuid->0@.len())
}

/// Whether the identifiers of all files can be written out.
pub open spec fn data_fits(data: DataMessage) -> bool {
    forall|i: int| 0 <= i < data.attachments@.len() ==> #[trigger] pointer_fits(data.attachments@[i])
}

/// Whether the identifiers of all files in a message can be written out.
pub open spec fn body_fits(body: ContentBody) -> bool {
    match body {
        ContentBody::DataMessage(data) => data_fits(data),
        ContentBody::SynchronizeMessage { sent: Some(Sent { message: Some(data) }) } => data_fits(
            data,
        ),
        _ => true,
    }
}

/// Whether the identifiers of all files in what was received can be written out.
pub open spec fn received_fits(msg: Received) -> bool {
    match msg {
        Received::Content(content) => body_fits(content.body),
        _ => true,
    }
}

/// The identifier under which a client can ask for a file: the Base64 text of its client UUID.
pub open spec fn attachment_id(pointer: AttachmentPointer) -> Seq<char> {
    match pointer.client_uuid {
        Some(uuid) => base64_text(uuid@),
        None => Seq::empty(),
    }
}

/// How a file is shown.
pub open spec fn attachment_json(pointer: AttachmentPointer) -> JsonView {
    JsonView::Object(
        Map::<Seq<char>, JsonView>::empty().insert(
            "id"@,
            JsonView::Text(attachment_id(pointer)),
        ).insert(
            "contentType"@,
            JsonView::Text(
                match pointer.content_type {
                    Some(content_type) => content_type@,
                    None => default_content_type(),
                },
            ),
        ).insert("fileName"@, optional_text(pointer.file_name)).insert(
            "size"@,
            optional_number(pointer.size),
        ).insert("caption"@, optional_text(pointer.caption)).insert(
            "width"@,
            optional_number(pointer.width),
        ).insert("height"@, optional_number(pointer.height)).insert(
            "flags"@,
            optional_number(pointer.flags),
        ).insert("cdnNumber"@, optional_number(pointer.cdn_number)),
    )
}

/// How the files of a message are shown.
pub open spec fn attachments_json(pointers: Seq<AttachmentPointer>) -> JsonView {
    JsonView::Array(pointers.map_values(|p: AttachmentPointer| attachment_json(p)))
}

/// The members with the text and the files of a message, where it has them.
pub open spec fn with_data(
    members: Map<Seq<char>, JsonView>,
    data: DataMessage,
) -> Map<Seq<char>, JsonView> {
    let with_text = match data.body {
        Some(body) => members.insert("message"@, JsonView::Text(body@)),
        None => members,
    };
    if data.attachments@.len() == 0 {
        with_text
    } else {
        with_text.insert("attachments"@, attachments_json(data.attachments@))
    }
}

/// The members that every message has: its source, twice, and its time.
pub open spec fn content_head(content: Content) -> Map<Seq<char>, JsonView> {
    Map::<Seq<char>, JsonView>::empty().insert(
        "source"@,
        JsonView::Text(content.sender_text@),
    ).insert("sourceUuid"@, JsonView::Text(content.sender_text@)).insert(
        "timestamp"@,
        signed(content.timestamp),
    )
}

/// The members with which a message is shown.
pub open spec fn content_members(content: Content) -> Map<Seq<char>, JsonView> {
    let head = content_head(content);
    match content.body {
        ContentBody::DataMessage(data) => head.insert(
            "dataMessage"@,
            JsonView::Object(
                with_data(
                    Map::<Seq<char>, JsonView>::empty().insert(
                        "timestamp"@,
                        signed(content.timestamp),
                    ),
                    data,
                ),
            ),
        ),
        ContentBody::SynchronizeMessage { sent } => head.insert(
            "syncMessage"@,
            JsonView::Object(
                match sent {
                    Some(Sent { message: Some(data) }) => with_data(Map::empty(), data),
                    _ => Map::empty(),
                },
            ),
        ),
        ContentBody::TypingMessage => head.insert(
            "typingMessage"@,
            JsonView::Object(
                Map::<Seq<char>, JsonView>::empty().insert("action"@, signed(1)),
            ),
        ),
        ContentBody::Other => head,
    }
}

/// The members of the envelope in which something received is shown.
pub open spec fn envelope_members(msg: Received) -> Map<Seq<char>, JsonView> {
    match msg {
        Received::QueueEmpty => Map::<Seq<char>, JsonView>::empty().insert(
            "queueEmpty"@,
            JsonView::Bool(true),
        ),
        Received::Contacts => Map::<Seq<char>, JsonView>::empty().insert(
            "contactsSynced"@,
            JsonView::Bool(true),
        ),
        Received::Content(content) => content_members(content),
    }
}

/// What is sent to clients: the envelope, and for a message the word that it is one.
pub open spec fn in_envelope(msg: Received, members: Map<Seq<char>, JsonView>) -> JsonView {
    let enclosed = Map::<Seq<char>, JsonView>::empty().insert(
        "envelope"@,
        JsonView::Object(members),
    );
    JsonView::Object(
        if msg is Content {
            enclosed.insert("type"@, JsonView::Text("message"@))
        } else {
            enclosed
        },
    )
}

/// The members with a phone number in place of the source.
pub open spec fn with_phone(
    members: Map<Seq<char>, JsonView>,
    phone: Option<String>,
) -> Map<Seq<char>, JsonView> {
    match phone {
        Some(phone) => members.insert("source"@, JsonView::Text(phone@)).insert(
            "sourceUuid"@,
            JsonView::Text(phone@),
        ),
        None => members,
    }
}

fn attachment_to_json(pointer: &AttachmentPointer) -> (json: Json)
    requires
        pointer_fits(*pointer),
    ensures
        json@ == attachment_json(*pointer),
{
    let id: String = match &pointer.client_uuid {
        Some(uuid) => encode(uuid),
        None => String::new(),
    };
    let content_type: String = match &pointer.content_type {
        Some(content_type) => content_type.clone(),
        None => "application/octet-stream".to_owned(),
    };
    let mut object = Object::new();
    object.insert("id", Json::Text(id));
    object.insert("contentType", Json::Text(content_type));
    object.insert("fileName", Json::optional_text(&pointer.file_name));
    object.insert("size", Json::optional_number(pointer.size));
    object.insert("caption", Json::optional_text(&pointer.caption));
    object.insert("width", Json::optional_number(pointer.width));
    object.insert("height", Json::optional_number(pointer.height));
    object.insert("flags", Json::optional_number(pointer.flags));
    object.insert("cdnNumber", Json::optional_number(pointer.cdn_number));
    Json::Object(object)
}

/// Adds the text and the files of a message, where it has them.
fn add_data(object: &mut Object, data: &DataMessage)
    requires
        data_fits(*data),
    ensures
        final(object)@ == with_data(old(object)@, *data),
{
    if let Some(body) = &data.body {
        object.insert("message", Json::Text(body.clone()));
    }
    if data.attachments.len() > 0 {
        let mut items: Vec<Json> = Vec::new();
        let mut i: usize = 0;
        while i < data.attachments.len()
            invariant
                data_fits(*data),
                i <= data.attachments.len(),
                items@.len() == i,
                forall|k: int|
                    0 <= k < i ==> (#[trigger] items@[k])@ == attachment_json(data.attachments@[k]),
            decreases data.attachments.len() - i,
        {
            assert(pointer_fits(data.attachments@[i as int]));
            items.push(attachment_to_json(&data.attachments[i]));
            i = i + 1;
        }
        proof {
            lemma_items_view(items@);
            assert(items_view(items@) =~= data.attachments@.map_values(
                |p: AttachmentPointer| attachment_json(p),
            ));
        }
        object.insert("attachments", Json::Array(items));
    }
}

fn content_object(content: &Content) -> (object: Object)
    requires
        body_fits(content.body),
    ensures
        object@ == content_members(*content),
{
    let mut object = Object::new();
    object.insert("source", Json::Text(content.sender_text.clone()));
    object.insert("sourceUuid", Json::Text(content.sender_text.clone()));
    object.insert("timestamp", Json::integer(content.timestamp));
    match &content.body {
        ContentBody::DataMessage(data) => {
            let mut inner = Object::new();
            inner.insert("timestamp", Json::integer(content.timestamp));
            add_data(&mut inner, data);
            object.insert("dataMessage", Json::Object(inner));
        },
        ContentBody::SynchronizeMessage { sent } => {
            let mut inner = Object::new();
            if let Some(sent) = sent {
                if let Some(data) = &sent.message {
                    add_data(&mut inner, data);
                }
            }
            object.insert("syncMessage", Json::Object(inner));
        },
        ContentBody::TypingMessage => {
            let mut inner = Object::new();
            inner.insert("action", Json::integer(1));
            object.insert("typingMessage", Json::Object(inner));
        },
        ContentBody::Other => {},
    }
    object
}

fn envelope_object(msg: &Received) -> (object: Object)
    requires
        received_fits(*msg),
    ensures
        object@ == envelope_members(*msg),
{
    match msg {
        Received::QueueEmpty => {
            let mut object = Object::new();
            object.insert("queueEmpty", Json::Bool(true));
            object
        },
        Received::Contacts => {
            let mut object = Object::new();
            object.insert("contactsSynced", Json::Bool(true));
            object
        },
        Received::Content(content) => content_object(content),
    }
}

fn enclose(msg: &Received, members: Object) -> (json: Json)
    ensures
        json@ == in_envelope(*msg, members@),
{
    let mut object = Object::new();
    object.insert("envelope", Json::Object(members));
    if let Received::Content(_) = msg {
        object.insert("type", Json::text("message"));
    }
    Json::Object(object)
}

/// Shows something received, with the service identifier of its sender as its source.
pub fn received_to_sse_envelope(msg: &Received) -> (json: Json)
    requires
        received_fits(*msg),
    ensures
        json@ == in_envelope(*msg, envelope_members(*msg)),
{
    enclose(msg, envelope_object(msg))
}

/// Shows something received, with a phone number as its source if one is known.
pub fn resolved_envelope(msg: &Received, phone: &Option<String>) -> (json: Json)
    requires
        received_fits(*msg),
    ensures
        json@ == in_envelope(*msg, with_phone(envelope_members(*msg), *phone)),
{
    let mut object: Object = envelope_object(msg);
    if let Some(phone) = phone {
        object.insert("source", Json::Text(phone.clone()));
        object.insert("sourceUuid", Json::Text(phone.clone()));
    }
    enclose(msg, object)
}

/// The attachments that can be fetched once the first `n` of these files are noted.
pub open spec fn files_noted(
    pending: Map<Seq<u8>, Pending>,
    pointers: Seq<AttachmentPointer>,
    n: nat,
) -> Map<Seq<u8>, Pending>
    decreases n,
{
    if n == 0 {
        pending
    } else {
        let before = files_noted(pending, pointers, (n - 1) as nat);
        let pointer = pointers[n - 1];
        match pointer.client_uuid {
            Some(uuid) => before.insert(
                uuid@,
                Pending { handle: pointer.handle, content_type: pointer.content_type },
            ),
            None => before,
        }
    }
}

/// The attachments that can be fetched once a message has been noted. Only the files of a data
/// message are.
pub open spec fn message_noted(
    pending: Map<Seq<u8>, Pending>,
    msg: Received,
) -> Map<Seq<u8>, Pending> {
    match msg {
        Received::Content(Content { body: ContentBody::DataMessage(data), .. }) => files_noted(
            pending,
            data.attachments@,
            data.attachments@.len(),
        ),
        _ => pending,
    }
}

/// Notes the files that came with a message, so that clients can ask for them.
pub fn cache_attachments(state: &mut AppState, msg: &Received)
    requires
        old(state).wf(),
    ensures
        final(state).wf(),
        final(state).contact_phones == old(state).contact_phones,
        final(state).pending_attachments@ == message_noted(
            old(state).pending_attachments@,
            *msg,
        ),
{
    if let Received::Content(content) = msg {
        if let ContentBody::DataMessage(data) = &content.body {
            let ghost pending = state.pending_attachments@;
            let ghost phones = state.contact_phones;
            let mut i: usize = 0;
            while i < data.attachments.len()
                invariant
                    i <= data.attachments.len(),
                    state.wf(),
                    state.contact_phones == phones,
                    state.pending_attachments@ == files_noted(
                        pending,
                        data.attachments@,
                        i as nat,
                    ),
                decreases data.attachments.len() - i,
            {
                let pointer: &AttachmentPointer = &data.attachments[i];
                if let Some(uuid) = &pointer.client_uuid {
                    let entry = Pending {
                        handle: pointer.handle,
                        content_type: pointer.content_type.clone(),
                    };
                    state.pending_attachments.insert(copy_bytes(uuid), entry);
                }
                i = i + 1;
            }
        }
    }
}

/// What the listener has to have done next.
#[derive(Clone, Copy, Debug)]
pub enum ListenerTask {
    /// List the contacts, before anything is received.
    LoadContacts,
    /// Open a stream of messages.
    OpenStream,
    /// Wait for the next message of the stream.
    NextMessage,
    /// List the contacts, because they have changed.
    ReloadContacts,
    /// Wait for so many seconds.
    Sleep(u64),
}

/// What came of a task.
#[derive(Debug)]
pub enum ListenerEvent {
    Contacts(Result<Listing, String>),
    Stream(Result<(), String>),
    /// The next message, or none if the stream has ended.
    Message(Option<Received>),
    Slept,
}

/// What the listener publishes, and what it has to have done next.
#[derive(Debug)]
pub struct ListenerStep {
    pub publish: Option<Json>,
    /// Why the phone numbers were not all noted, after a listing.
    pub refresh_error: Option<String>,
    pub next: ListenerTask,
}

/// What the listener has to have done first, before anything is received.
pub fn first_task() -> (task: ListenerTask)
    ensures
        task == ListenerTask::LoadContacts,
{
    ListenerTask::LoadContacts
}

/// Whether the event can come of the task.
pub open spec fn answers(task: ListenerTask, event: ListenerEvent) -> bool {
    match task {
        ListenerTask::LoadContacts | ListenerTask::ReloadContacts => event is Contacts,
        ListenerTask::OpenStream => event is Stream,
        ListenerTask::NextMessage => event is Message,
        ListenerTask::Sleep(_) => event is Slept,
    }
}

/// Whether what the event brings can be shown.
pub open spec fn event_fits(event: ListenerEvent) -> bool {
    match event {
        ListenerEvent::Message(Some(msg)) => received_fits(msg),
        _ => true,
    }
}

fn data_can_be_shown(data: &DataMessage) -> (can: bool)
    ensures
        can == data_fits(*data),
{
    let mut i: usize = 0;
    while i < data.attachments.len()
        invariant
            i <= data.attachments.len(),
            forall|k: int| 0 <= k < i ==> #[trigger] pointer_fits(data.attachments@[k]),
        decreases data.attachments.len() - i,
    {
        if let Some(uuid) = &data.attachments[i].client_uuid {
            if !is_encodable(uuid.len()) {
                assert(!pointer_fits(data.attachments@[i as int]));
                return false;
            }
        }
        i = i + 1;
    }
    true
}

/// Whether what the event brings can be shown.
pub fn can_be_shown(event: &ListenerEvent) -> (can: bool)
    ensures
        can == event_fits(*event),
{
    match event {
        ListenerEvent::Message(Some(Received::Content(content))) => match &content.body {
            ContentBody::DataMessage(data) => data_can_be_shown(data),
            ContentBody::SynchronizeMessage { sent: Some(Sent { message: Some(data) }) } =>
                data_can_be_shown(data),
            _ => true,
        },
        _ => true,
    }
}

/// The task after an event.
pub open spec fn next_task(task: ListenerTask, event: ListenerEvent) -> ListenerTask {
    match event {
        ListenerEvent::Contacts(_) => if task is LoadContacts {
            ListenerTask::OpenStream
        } else {
            ListenerTask::NextMessage
        },
        ListenerEvent::Stream(Ok(_)) => ListenerTask::NextMessage,
        ListenerEvent::Stream(Err(_)) => ListenerTask::Sleep(RETRY_SECS),
        ListenerEvent::Message(Some(Received::Contacts)) => ListenerTask::ReloadContacts,
        ListenerEvent::Message(Some(_)) => ListenerTask::NextMessage,
        ListenerEvent::Message(None) => ListenerTask::Sleep(REOPEN_SECS),
        ListenerEvent::Slept => ListenerTask::OpenStream,
    }
}

/// The source that is shown for something received: the phone number of the sender, if known.
pub open spec fn source_phone(phones: Map<Seq<u8>, String>, msg: Received) -> Option<String> {
    match msg {
        Received::Content(content) => phone_of(phones, content.sender),
        _ => None,
    }
}

/// What is published after an event. A change of the contacts is published after they have been
/// listed, anything else that was received at once.
pub open spec fn published(
    phones: Map<Seq<u8>, String>,
    task: ListenerTask,
    event: ListenerEvent,
) -> Option<JsonView> {
    match event {
        ListenerEvent::Contacts(_) => if task is LoadContacts {
            None
        } else {
            Some(in_envelope(Received::Contacts, envelope_members(Received::Contacts)))
        },
        ListenerEvent::Message(Some(Received::Contacts)) => None,
        ListenerEvent::Message(Some(msg)) => Some(
            in_envelope(msg, with_phone(envelope_members(msg), source_phone(phones, msg))),
        ),
        _ => None,
    }
}

/// The phone numbers after an event.
pub open spec fn phones_after(
    phones: Map<Seq<u8>, String>,
    event: ListenerEvent,
) -> Map<Seq<u8>, String> {
    match event {
        ListenerEvent::Contacts(Ok(listing)) => phones_noted(
            phones,
            listing@,
            good_entries(listing@),
        ),
        _ => phones,
    }
}

/// Why an event did not have all phone numbers noted: the contacts could not be listed, or an
/// entry could not be read.
pub open spec fn refresh_failure(event: ListenerEvent) -> Option<String> {
    match event {
        ListenerEvent::Contacts(Err(e)) => Some(e),
        ListenerEvent::Contacts(Ok(listing)) => {
            let n = good_entries(listing@);
            if n < listing@.len() {
                Some(listing@[n as int]->Err_0)
            } else {
                None
            }
        },
        _ => None,
    }
}

/// The attachments that can be fetched after an event.
pub open spec fn pending_after(
    pending: Map<Seq<u8>, Pending>,
    event: ListenerEvent,
) -> Map<Seq<u8>, Pending> {
    match event {
        ListenerEvent::Message(Some(msg)) => message_noted(pending, msg),
        _ => pending,
    }
}

/// One turn of the message listener: notes what came of the last task, and says what to publish
/// and what to do next. The listener starts with `first_task`.
pub fn run_message_listener(
    state: &mut AppState,
    task: ListenerTask,
    event: ListenerEvent,
) -> (step: ListenerStep)
    requires
        old(state).wf(),
        answers(task, event),
        event_fits(event),
    ensures
        final(state).wf(),
        final(state).contact_phones@ == phones_after(old(state).contact_phones@, event),
        final(state).pending_attachments@ == pending_after(
            old(state).pending_attachments@,
            event,
        ),
        step.next == next_task(task, event),
        step.refresh_error == refresh_failure(event),
        match step.publish {
            Some(json) => published(old(state).contact_phones@, task, event) == Some(json@),
            None => published(old(state).contact_phones@, task, event) is None,
        },
{
    match event {
        ListenerEvent::Contacts(result) => {
            let refresh_error: Option<String> = match result {
                Ok(listing) => match state.refresh_contact_phones(listing) {
                    Ok(_) => None,
                    Err(e) => Some(e),
                },
                Err(e) => Some(e),
            };
            match task {
                ListenerTask::LoadContacts => ListenerStep {
                    publish: None,
                    refresh_error,
                    next: ListenerTask::OpenStream,
                },
                _ => ListenerStep {
                    publish: Some(received_to_sse_envelope(&Received::Contacts)),
                    refresh_error,
                    next: ListenerTask::NextMessage,
                },
            }
        },
        ListenerEvent::Stream(Ok(_)) => ListenerStep {
            publish: None,
            refresh_error: None,
            next: ListenerTask::NextMessage,
        },
        ListenerEvent::Stream(Err(_)) => ListenerStep {
            publish: None,
            refresh_error: None,
            next: ListenerTask::Sleep(RETRY_SECS),
        },
        ListenerEvent::Message(Some(msg)) => {
            if let Received::Contacts = &msg {
                return ListenerStep {
                    publish: None,
                    refresh_error: None,
                    next: ListenerTask::ReloadContacts,
                };
            }
            let phone: Option<String> = match &msg {
                Received::Content(content) => state.phone_for_service_id(&content.sender),
                _ => None,
            };
            let json: Json = resolved_envelope(&msg, &phone);
            cache_attachments(state, &msg);
            ListenerStep {
                publish: Some(json),
                refresh_error: None,
                next: ListenerTask::NextMessage,
            }
        },
        ListenerEvent::Message(None) => ListenerStep {
            publish: None,
            refresh_error: None,
            next: ListenerTask::Sleep(REOPEN_SECS),
        },
        ListenerEvent::Slept => ListenerStep {
            publish: None,
            refresh_error: None,
            next: ListenerTask::OpenStream,
        },
    }
}

} // verus!
