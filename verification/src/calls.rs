//! What calls come to: each law speaks of what a function was given and of what it gave back.
use std::time::SystemTime;
use vstd::prelude::*;
use vstd::utf8::encode_utf8;

use crate::clock::{millis_in, now_ts, span_to, stamp_at, timestamp};
use crate::codec::{base64_text, is_encodable};
use crate::contacts::{
    contact_match, find_by_phone, find_contact, good_entries, phone_match, readable, Contact,
    Listing,
};
use crate::effects::{
    array_field, bare, field, has_number, has_uuid, law_answers_are_read,
    law_connection_ends_when_due, law_contacts_are_shown, law_database_lies_in_the_store,
    law_file_is_fetched_by_its_key, law_files_request_is_taken_as_asked,
    law_first_recipient_comes_first, law_found_contact_is_meant,
    law_group_message_is_taken_as_asked, law_listing_is_read_up_to_the_first_error,
    law_meant_contact_is_found, law_message_is_shown_as_it_is, law_messages_say_what_was_asked,
    law_number_finds_the_first, law_occurs_is_standing_in, law_only_received_files_can_be_fetched,
    law_orders_are_taken_as_asked,
    law_parameters_are_read, law_unresolved_message_is_shown, number_field, shows_data, shows_time,
    stands_in, text_field,
};
use crate::ident::{hyphenated, Uuid};
use crate::json::{Json, JsonView, Number, Object};
use crate::laws::{
    brings_file, gives_phone, law_events_have_envelopes, law_phone_is_the_source,
    lemma_last_phone, lemma_method_names, stage_fits,
};
use crate::link::{link_notice, link_page, link_result, NOTICE_HEAD, PAGE_HEAD};
use crate::message::{text_message, texts, Message, MessageView, UploadView};
use crate::params::{
    group_id_bytes, msg_text, recipient_list, recipients, uploads_of, RpcErrorView,
};
use crate::rpc::{
    can_resume, contacts_json, dispatch, dispatch_failed, dispatched, files_message, id_of,
    order_queue, reaction_message, stepped, uploaded, Session, Step,
};
use crate::server::{health_check, store_url};
use crate::session::{deliveries_to, Action, ActionView, Event, OrderView, StageView};
use crate::sse::{
    cache_attachments, can_be_shown, envelope_members, event_fits, events_handler, first_task,
    in_envelope, next_task, pending_after, phones_after, published, received_to_sse_envelope,
    refresh_failure, resolved_envelope, run_message_listener, Content, ContentBody, Feed,
    ListenerEvent, ListenerStep, ListenerTask, Received, Sent, StreamAction,
};
use crate::state::{AppState, ServiceId};
use crate::text::{contains, same_text, strip_plus};
use crate::ws::{first_ping_secs, handle_ws, WsAction, WsEvent};

verus! {

/// A contact that is found is one that the address means, by its UUID or by its whole number. No
/// contact before it has that UUID, and none before it has the number if it was found by that.
/// If nothing is found, no contact is meant.
pub proof fn law_find_contact(
    contacts: Vec<Contact>,
    addr: &str,
    found: Option<&Contact>,
    k: int,
)
    requires
        call_ensures(find_contact, (&contacts, addr), found),
        0 <= k < contacts@.len(),
    ensures
        found matches Some(contact) ==> {
            &&& contacts@.contains(*contact)
            &&& has_uuid(*contact, addr@) || has_number(*contact, addr@)
            &&& has_uuid(contacts@[k], addr@) ==> contact.uuid@ == contacts@[k].uuid@
        },
        found is None ==> !has_uuid(contacts@[k], addr@) && !has_number(contacts@[k], addr@),
        (forall|j: int| 0 <= j < contacts@.len() ==> !has_uuid(#[trigger] contacts@[j], addr@))
            && has_number(contacts@[k], addr@) && (forall|j: int|
            0 <= j < k ==> !has_number(#[trigger] contacts@[j], addr@)) ==> found == Some(
            &contacts@[k],
        ),
{
    law_meant_contact_is_found(contacts@, addr@, k);
    if let Some(i) = contact_match(contacts@, addr@) {
        law_found_contact_is_meant(contacts@, addr@, i);
        if forall|j: int| 0 <= j < contacts@.len() ==> !has_uuid(#[trigger] contacts@[j], addr@) {
            assert(!has_uuid(contacts@[i], addr@));
        }
    }
}

/// A search by phone number finds the first contact in whose number the whole address stands,
/// and nothing only if there is none.
pub proof fn law_find_by_phone(
    contacts: Vec<Contact>,
    address: &str,
    found: Option<&Contact>,
    k: int,
)
    requires
        call_ensures(find_by_phone, (&contacts, address), found),
        0 <= k < contacts@.len(),
    ensures
        found matches Some(contact) ==> contacts@.contains(*contact) && has_number(
            *contact,
            address@,
        ),
        found is None ==> !has_number(contacts@[k], address@),
        has_number(contacts@[k], address@) && (forall|j: int|
            0 <= j < k ==> !has_number(#[trigger] contacts@[j], address@)) ==> found == Some(
            &contacts@[k],
        ),
{
    law_meant_contact_is_found(contacts@, address@, k);
    if let Some(i) = phone_match(contacts@, address@) {
        law_number_finds_the_first(contacts@, address@, i, k);
    }
}

/// Whether the next thing to be done is to send this contact this text, and nothing else.
pub open spec fn sends_text(step: Step, contact: Contact, text: Seq<char>, time: u64) -> bool {
    &&& step matches Step::Wait(next, Action::Deliver(delivery))
    &&& delivery.recipient.bytes@ == contact.uuid.bytes@
    &&& delivery.timestamp == time
    &&& delivery.message matches Message::Data { body, attachments, reaction }
    &&& body matches Some(body)
    &&& body@ == text
    &&& attachments@.len() == 0
    &&& reaction is None
}

/// Whether the next thing to be done is to tell this contact that typing has started.
pub open spec fn sends_typing(step: Step, contact: Contact, time: u64) -> bool {
    &&& step matches Step::Wait(next, Action::Deliver(delivery))
    &&& delivery.recipient.bytes@ == contact.uuid.bytes@
    &&& delivery.timestamp == time
    &&& delivery.message == (Message::TypingStarted { timestamp: time })
}

/// The contact that an address means.
pub open spec fn named(contacts: Seq<Contact>, address: Seq<char>) -> Option<Contact> {
    match contact_match(contacts, address) {
        Some(i) => Some(contacts[i]),
        None => None,
    }
}

/// Whether the next thing to be done is to send this contact this emoji, for the message of this
/// author and this time.
pub open spec fn sends_reaction(
    step: Step,
    contact: Contact,
    emoji: Seq<char>,
    author: Option<Contact>,
    target: u64,
    time: u64,
) -> bool {
    &&& step matches Step::Wait(next, Action::Deliver(delivery))
    &&& delivery.recipient.bytes@ == contact.uuid.bytes@
    &&& delivery.timestamp == time
    &&& delivery.message matches Message::Data { body, attachments, reaction }
    &&& body is None
    &&& attachments@.len() == 0
    &&& reaction matches Some(reaction)
    &&& reaction.emoji@ == emoji
    &&& !reaction.remove
    &&& reaction.target_sent_timestamp == target
    &&& match author {
        Some(author) => {
            &&& reaction.target_author_aci matches Some(aci)
            &&& aci@ == hyphenated(author.uuid.bytes@)
            &&& reaction.target_author_aci_binary matches Some(binary)
            &&& binary@ == author.uuid.bytes@
        },
        None => reaction.target_author_aci is None && reaction.target_author_aci_binary is None,
    }
}

/// Whether the next thing to be done is to send this contact these files, with this text as the
/// body unless it is empty.
pub open spec fn sends_files(
    step: Step,
    contact: Contact,
    text: Seq<char>,
    files: Seq<usize>,
    time: u64,
) -> bool {
    &&& step matches Step::Wait(next, Action::Deliver(delivery))
    &&& delivery.recipient.bytes@ == contact.uuid.bytes@
    &&& delivery.timestamp == time
    &&& delivery.message matches Message::Data { body, attachments, reaction }
    &&& text.len() > 0 ==> body is Some && body->0@ == text
    &&& text.len() == 0 ==> body is None
    &&& attachments@ == files
    &&& reaction is None
}

/// What a request that sends messages does once the contacts are listed: the first recipient that
/// means a contact is sent the first message.
proof fn lemma_first_message(
    session: Session,
    order: OrderView,
    addresses: Seq<Seq<char>>,
    message: MessageView,
    time: u64,
    listing: Listing,
    at: u64,
    k: int,
    second: Step,
)
    requires
        session.stage@ == StageView::Resolving(order),
        order_queue(order, readable(listing@)) == deliveries_to(
            readable(listing@),
            addresses,
            message,
            time,
        ),
        0 <= k < addresses.len(),
        contact_match(readable(listing@), addresses[k]) is Some,
        forall|j: int|
            0 <= j < k ==> contact_match(readable(listing@), #[trigger] addresses[j]) is None,
        call_ensures(Session::step, (session, Event::Contacts(Ok(listing)), at), second),
    ensures
        ({
            let known = readable(listing@);
            &&& second matches Step::Wait(next, Action::Deliver(delivery))
            &&& delivery.recipient.bytes@ == known[contact_match(
                known,
                addresses[k],
            )->0].uuid.bytes@
            &&& delivery@ == order_queue(order, known)[0]
            &&& order_queue(order, known).len() > 0
        }),
{
    let known = readable(listing@);
    law_first_recipient_comes_first(known, addresses, message, time, k);
    assert(second@ == stepped(session.id@, session.stage@, Event::Contacts(Ok(listing)), at));
    assert(second@ is Wait);
    assert(second@->action == ActionView::Deliver(order_queue(order, known)[0]));
    match second {
        Step::Wait(next, Action::Deliver(delivery)) => {
            assert(delivery@ == order_queue(order, known)[0]);
        },
        _ => {},
    }
}

/// A `send` asks for the contacts. Once they are listed, the first recipient that means a contact
/// is sent the text that was given, and nothing else, with the time of the request.
pub proof fn law_send_calls(
    state: AppState,
    req: Json,
    params: Map<Seq<char>, JsonView>,
    now: u64,
    first: Step,
    text: Seq<char>,
    listing: Listing,
    at: u64,
    k: int,
)
    requires
        call_ensures(dispatch, (&state, &req, now), first),
        text_field(req@, "method"@) == Some("send"@),
        field(req@, "params"@) == Some(JsonView::Object(params)),
        text_field(JsonView::Object(params), "groupId"@) is None,
        text_field(JsonView::Object(params), "message"@) == Some(text),
        0 <= k < recipient_list(params).len(),
        contact_match(readable(listing@), recipient_list(params)[k]) is Some,
        forall|j: int|
            0 <= j < k ==> contact_match(
                readable(listing@),
                #[trigger] recipient_list(params)[j],
            ) is None,
    ensures
        first matches Step::Wait(session, action) && action is LoadContacts && forall|second: Step|
            #[trigger]
            call_ensures(Session::step, (session, Event::Contacts(Ok(listing)), at), second)
                ==> sends_text(
                second,
                readable(listing@)[contact_match(readable(listing@), recipient_list(params)[k])->0],
                text,
                now,
            ),
{
    law_orders_are_taken_as_asked(req@, params, state.pending_attachments@, now);
    if let Step::Wait(session, action) = first {
        let order = session.stage@->Resolving_0;
        let recipients = recipient_list(params);
        assert forall|second: Step| #[trigger]
            call_ensures(
                Session::step,
                (session, Event::Contacts(Ok(listing)), at),
                second,
            ) implies sends_text(
                second,
                readable(listing@)[contact_match(readable(listing@), recipient_list(params)[k])->0],
                text,
                now,
            ) by {
            let message = text_message(text);
            lemma_first_message(
                session,
                order,
                recipients,
                message,
                now,
                listing,
                at,
                k,
                second,
            );
            law_messages_say_what_was_asked(order, readable(listing@), 0);
        }
    }
}

/// A `sendTyping` asks for the contacts. Once they are listed, the first recipient that means a
/// contact is told that typing has started, with the time of the request.
pub proof fn law_send_typing_calls(
    state: AppState,
    req: Json,
    params: Map<Seq<char>, JsonView>,
    now: u64,
    first: Step,
    listing: Listing,
    at: u64,
    k: int,
)
    requires
        call_ensures(dispatch, (&state, &req, now), first),
        text_field(req@, "method"@) == Some("sendTyping"@),
        field(req@, "params"@) == Some(JsonView::Object(params)),
        0 <= k < recipient_list(params).len(),
        contact_match(readable(listing@), recipient_list(params)[k]) is Some,
        forall|j: int|
            0 <= j < k ==> contact_match(
                readable(listing@),
                #[trigger] recipient_list(params)[j],
            ) is None,
    ensures
        first matches Step::Wait(session, action) && action is LoadContacts && forall|second: Step|
            #[trigger]
            call_ensures(Session::step, (session, Event::Contacts(Ok(listing)), at), second)
                ==> sends_typing(
                second,
                readable(listing@)[contact_match(readable(listing@), recipient_list(params)[k])->0],
                now,
            ),
{
    law_orders_are_taken_as_asked(req@, params, state.pending_attachments@, now);
    if let Step::Wait(session, action) = first {
        let order = session.stage@->Resolving_0;
        let recipients = recipient_list(params);
        assert forall|second: Step| #[trigger]
            call_ensures(
                Session::step,
                (session, Event::Contacts(Ok(listing)), at),
                second,
            ) implies sends_typing(
                second,
                readable(listing@)[contact_match(readable(listing@), recipient_list(params)[k])->0],
                now,
            ) by {
            let message = MessageView::TypingStarted { timestamp: now };
            lemma_first_message(
                session,
                order,
                recipients,
                message,
                now,
                listing,
                at,
                k,
                second,
            );
            law_messages_say_what_was_asked(order, readable(listing@), 0);
        }
    }
}

/// A `sendReaction` asks for the contacts. Once they are listed, the first recipient that means a
/// contact is sent the emoji that was given, for the message that was sent at the given time by
/// the contact that the given author means.
pub proof fn law_send_reaction_calls(
    state: AppState,
    req: Json,
    params: Map<Seq<char>, JsonView>,
    now: u64,
    first: Step,
    emoji: Seq<char>,
    author: Seq<char>,
    target: u64,
    listing: Listing,
    at: u64,
    k: int,
)
    requires
        call_ensures(dispatch, (&state, &req, now), first),
        text_field(req@, "method"@) == Some("sendReaction"@),
        field(req@, "params"@) == Some(JsonView::Object(params)),
        text_field(JsonView::Object(params), "emoji"@) == Some(emoji),
        text_field(JsonView::Object(params), "targetAuthor"@) == Some(author),
        number_field(JsonView::Object(params), "targetTimestamp"@) == Some(target),
        0 <= k < recipient_list(params).len(),
        contact_match(readable(listing@), recipient_list(params)[k]) is Some,
        forall|j: int|
            0 <= j < k ==> contact_match(
                readable(listing@),
                #[trigger] recipient_list(params)[j],
            ) is None,
    ensures
        first matches Step::Wait(session, action) && action is LoadContacts && forall|second: Step|
            #[trigger]
            call_ensures(Session::step, (session, Event::Contacts(Ok(listing)), at), second)
                ==> sends_reaction(
                second,
                readable(listing@)[contact_match(readable(listing@), recipient_list(params)[k])->0],
                emoji,
                named(readable(listing@), author),
                target,
                now,
            ),
{
    law_orders_are_taken_as_asked(req@, params, state.pending_attachments@, now);
    if let Step::Wait(session, action) = first {
        let order = session.stage@->Resolving_0;
        let recipients = recipient_list(params);
        assert forall|second: Step| #[trigger]
            call_ensures(
                Session::step,
                (session, Event::Contacts(Ok(listing)), at),
                second,
            ) implies sends_reaction(
                second,
                readable(listing@)[contact_match(readable(listing@), recipient_list(params)[k])->0],
                emoji,
                named(readable(listing@), author),
                target,
                now,
            ) by {
            let known = readable(listing@);
            let message = reaction_message(known, emoji, author, target);
            lemma_first_message(
                session,
                order,
                recipients,
                message,
                now,
                listing,
                at,
                k,
                second,
            );
            law_messages_say_what_was_asked(order, known, 0);
        }
    }
}

/// A request for files asks for an upload of all files, and, once they are uploaded, for the
/// contacts. Once those are listed, the first recipient that means a contact is sent the files
/// that could be uploaded, with the text that was given, at the time of the upload.
pub proof fn law_send_attachments_calls(
    state: AppState,
    req: Json,
    params: Map<Seq<char>, JsonView>,
    now: u64,
    first: Step,
    items: Seq<JsonView>,
    files: Seq<UploadView>,
    text: Seq<char>,
    results: Vec<Result<usize, String>>,
    uploaded_at: u64,
    listing: Listing,
    at: u64,
    k: int,
)
    requires
        call_ensures(dispatch, (&state, &req, now), first),
        text_field(req@, "method"@) == Some("sendAttachments"@) || text_field(req@, "method"@)
            == Some("send_multiple_images"@),
        field(req@, "params"@) == Some(JsonView::Object(params)),
        text_field(JsonView::Object(params), "message"@) == Some(text),
        array_field(JsonView::Object(params), "attachments"@) == Some(items),
        items.len() > 0,
        uploads_of(items) == Ok::<Seq<UploadView>, RpcErrorView>(files),
        uploaded(results@).len() > 0,
        0 <= k < recipient_list(params).len(),
        contact_match(readable(listing@), recipient_list(params)[k]) is Some,
        forall|j: int|
            0 <= j < k ==> contact_match(
                readable(listing@),
                #[trigger] recipient_list(params)[j],
            ) is None,
    ensures
        first matches Step::Wait(session, action) && {
            &&& action@ == ActionView::Upload(files)
            &&& forall|second: Step, third: Step, next: Session|
                (#[trigger] call_ensures(
                    Session::step,
                    (session, Event::Uploaded(Ok(results)), uploaded_at),
                    second,
                ) && second == Step::Wait(next, Action::LoadContacts) && #[trigger] call_ensures(
                    Session::step,
                    (next, Event::Contacts(Ok(listing)), at),
                    third,
                )) ==> sends_files(
                    third,
                    readable(listing@)[contact_match(
                        readable(listing@),
                        recipient_list(params)[k],
                    )->0],
                    text,
                    uploaded(results@),
                    uploaded_at,
                )
            &&& forall|second: Step|
                #[trigger]
                call_ensures(
                    Session::step,
                    (session, Event::Uploaded(Ok(results)), uploaded_at),
                    second,
                ) ==> second is Wait && second->Wait_1 is LoadContacts
        },
{
    law_files_request_is_taken_as_asked(
        req@,
        params,
        state.pending_attachments@,
        now,
        items,
        files,
        results,
        uploaded_at,
    );
    let recipients = recipient_list(params);
    let known = readable(listing@);
    if let Step::Wait(session, action) = first {
        assert forall|second: Step| #[trigger]
            call_ensures(
                Session::step,
                (session, Event::Uploaded(Ok(results)), uploaded_at),
                second,
            ) implies second is Wait && second->Wait_1 is LoadContacts && (
        second->Wait_0).stage@ == StageView::Resolving(
            OrderView::Attachments {
                files: uploaded(results@),
                text,
                recipients,
                timestamp: uploaded_at,
            },
        ) by {
            assert(second@ == stepped(
                session.id@,
                session.stage@,
                Event::Uploaded(Ok(results)),
                uploaded_at,
            ));
            assert(second@ is Wait);
            match second {
                Step::Wait(next, Action::LoadContacts) => {},
                _ => {},
            }
        }
        assert forall|second: Step, third: Step, next: Session|
            (#[trigger] call_ensures(
                Session::step,
                (session, Event::Uploaded(Ok(results)), uploaded_at),
                second,
            ) && second == Step::Wait(next, Action::LoadContacts) && #[trigger] call_ensures(
                Session::step,
                (next, Event::Contacts(Ok(listing)), at),
                third,
            )) implies sends_files(
            third,
            known[contact_match(known, recipients[k])->0],
            text,
            uploaded(results@),
            uploaded_at,
        ) by {
            let order = next.stage@->Resolving_0;
            lemma_first_message(
                next,
                order,
                recipients,
                files_message(text, uploaded(results@)),
                uploaded_at,
                listing,
                at,
                k,
                third,
            );
            law_messages_say_what_was_asked(order, known, 0);
        }
    }
}

/// A `send` to a group asks for a message to the group whose identifier has the bytes of the
/// given text, with the text that was given.
pub proof fn law_send_to_group_call(
    state: AppState,
    req: Json,
    params: Map<Seq<char>, JsonView>,
    now: u64,
    step: Step,
    name: Seq<char>,
    text: Seq<char>,
)
    requires
        call_ensures(dispatch, (&state, &req, now), step),
        text_field(req@, "method"@) == Some("send"@),
        field(req@, "params"@) == Some(JsonView::Object(params)),
        text_field(JsonView::Object(params), "groupId"@) == Some(name),
        text_field(JsonView::Object(params), "message"@) == Some(text),
    ensures
        ({
            &&& step matches Step::Wait(session, Action::SendToGroup { group, message, timestamp })
            &&& group@ == encode_utf8(name)
            &&& timestamp == now
            &&& message matches Message::Data { body, attachments, reaction }
            &&& body is Some
            &&& body->0@ == text
            &&& attachments@.len() == 0
            &&& reaction is None
        }),
{
    law_group_message_is_taken_as_asked(req@, params, state.pending_attachments@, now, name);
    match step {
        Step::Wait(session, Action::SendToGroup { group, message, timestamp }) => {},
        _ => {},
    }
}

/// A `getAttachment` asks for the file that is kept under the key whose Base64 text was given.
/// Once it is fetched, the answer holds its bytes and the media type that is kept with it.
pub proof fn law_get_attachment_calls(
    state: AppState,
    req: Json,
    params: Map<Seq<char>, JsonView>,
    now: u64,
    first: Step,
    key: Seq<u8>,
    bytes: Vec<u8>,
    at: u64,
)
    requires
        call_ensures(dispatch, (&state, &req, now), first),
        text_field(req@, "method"@) == Some("getAttachment"@),
        field(req@, "params"@) == Some(JsonView::Object(params)),
        text_field(JsonView::Object(params), "attachmentId"@) == Some(base64_text(key)),
        state.pending_attachments@.contains_key(key),
    ensures
        ({
            let kept = state.pending_attachments@[key];
            &&& first matches Step::Wait(session, Action::Download { handle })
            &&& handle == kept.handle
            &&& forall|second: Step|
                #[trigger]
                call_ensures(Session::step, (session, Event::Downloaded(Ok(bytes)), at), second)
                    ==> answers_with_file(second, id_of(req@), bytes@, kept.content_type)
        }),
{
    let pending = state.pending_attachments@;
    law_file_is_fetched_by_its_key(
        req@,
        params,
        pending,
        now,
        key,
        base64_text(key),
        bytes,
        at,
    );
    if let Step::Wait(session, Action::Download { handle }) = first {
        assert forall|second: Step| #[trigger]
            call_ensures(
                Session::step,
                (session, Event::Downloaded(Ok(bytes)), at),
                second,
            ) implies answers_with_file(
            second,
            id_of(req@),
            bytes@,
            pending[key].content_type,
        ) by {
            assert(second@ == stepped(
                session.id@,
                session.stage@,
                Event::Downloaded(Ok(bytes)),
                at,
            ));
        }
    }
}

/// Whether a step answers a request with these bytes and this media type.
pub open spec fn answers_with_file(
    step: Step,
    id: JsonView,
    bytes: Seq<u8>,
    content_type: Option<String>,
) -> bool {
    &&& step matches Step::Reply(answer)
    &&& field(answer@, "id"@) == Some(id)
    &&& field(answer@, "result"@) matches Some(result)
    &&& text_field(result, "data"@) == Some(base64_text(bytes))
    &&& text_field(result, "contentType"@) == Some(
        match content_type {
            Some(content_type) => content_type@,
            None => "application/octet-stream"@,
        },
    )
}

/// A `listContacts` asks for the contacts. Once they are listed, the answer shows each that could
/// be read, in order.
pub proof fn law_list_contacts_calls(
    state: AppState,
    req: Json,
    now: u64,
    first: Step,
    listing: Listing,
    at: u64,
    k: int,
)
    requires
        call_ensures(dispatch, (&state, &req, now), first),
        text_field(req@, "method"@) == Some("listContacts"@),
        0 <= k < readable(listing@).len(),
    ensures
        first matches Step::Wait(session, action) && action is LoadContacts && forall|second: Step|
            #[trigger]
            call_ensures(Session::step, (session, Event::Contacts(Ok(listing)), at), second)
                ==> lists_contact(second, readable(listing@), k),
{
    lemma_method_names();
    law_contacts_are_shown(readable(listing@), k);
    law_answers_are_read(id_of(req@), contacts_json(readable(listing@)), Seq::empty());
    if let Step::Wait(session, action) = first {
        assert forall|second: Step| #[trigger]
            call_ensures(
                Session::step,
                (session, Event::Contacts(Ok(listing)), at),
                second,
            ) implies lists_contact(second, readable(listing@), k) by {
            assert(second@ == stepped(
                session.id@,
                session.stage@,
                Event::Contacts(Ok(listing)),
                at,
            ));
        }
    }
}

/// Whether a step answers a request with a list in which this contact stands in its place.
pub open spec fn lists_contact(step: Step, contacts: Seq<Contact>, k: int) -> bool {
    &&& step matches Step::Reply(answer)
    &&& field(answer@, "result"@) matches Some(result)
    &&& array_field(result, "contacts"@) matches Some(items)
    &&& items.len() == contacts.len()
    &&& text_field(items[k], "uuid"@) == Some(hyphenated(contacts[k].uuid.bytes@))
    &&& text_field(items[k], "name"@) == Some(contacts[k].name@)
    &&& text_field(items[k], "number"@) == Some(
        match contacts[k].phone_number {
            Some(phone) => phone@,
            None => Seq::empty(),
        },
    )
}

/// A call goes on from where the last one left the request.
pub proof fn law_step_calls(session: Session, event: Event, now: u64, step: Step)
    requires
        call_ensures(Session::step, (session, event, now), step),
    ensures
        step@ == stepped(session.id@, session.stage@, event, now),
{
}

/// A call starts a request as `dispatched` says.
pub proof fn law_dispatch_call(state: AppState, req: Json, now: u64, step: Step)
    requires
        call_ensures(dispatch, (&state, &req, now), step),
    ensures
        step@ == dispatched(req@, state.pending_attachments@, now),
{
}

/// A request whose handling broke down is answered with an error for no request.
pub proof fn law_dispatch_failed_call(answer: Json)
    requires
        call_ensures(dispatch_failed, (), answer),
    ensures
        text_field(answer@, "jsonrpc"@) == Some("2.0"@),
        field(answer@, "id"@) == Some(JsonView::Null),
        field(answer@, "result"@) is None,
        field(answer@, "error"@) matches Some(error) && {
            &&& text_field(error, "message"@) == Some("dispatch failed"@)
            &&& field(error, "code"@) == Some(JsonView::Number(Number::Negative(-1i64)))
        },
{
    law_answers_are_read(JsonView::Null, JsonView::Null, "dispatch failed"@);
}

/// One turn of the listener says what to publish and what to do next as the laws on messages
/// have it, notes the phone numbers of a listing and the files of a message, and touches nothing
/// else.
pub proof fn law_run_message_listener_call(task: ListenerTask, event: ListenerEvent)
    ensures
        forall|state: &mut AppState, step: ListenerStep| #[trigger]
            call_ensures(run_message_listener, (state, task, event), step) ==> {
                let before = *state;
                let after = *final(state);
                &&& step.next == next_task(task, event)
                &&& step.refresh_error == refresh_failure(event)
                &&& step.publish is Some <==> published(before.contact_phones@, task, event) is Some
                &&& step.publish is Some ==> step.publish->0@ == published(
                    before.contact_phones@,
                    task,
                    event,
                )->0
                &&& after.contact_phones@ == phones_after(before.contact_phones@, event)
                &&& after.pending_attachments@ == pending_after(
                    before.pending_attachments@,
                    event,
                )
                &&& !(event is Contacts) ==> after.contact_phones@ == before.contact_phones@
                &&& !(event is Message) ==> after.pending_attachments@
                    == before.pending_attachments@
            },
{
}

/// A message that is shown without a known phone number has the service identifier of its sender
/// as its source, and its own text and files.
pub proof fn law_received_to_sse_envelope_call(content: Content, json: Json)
    requires
        call_ensures(received_to_sse_envelope, (&Received::Content(content),), json),
    ensures
        text_field(json@, "type"@) == Some("message"@),
        field(json@, "envelope"@) matches Some(envelope) && {
            &&& text_field(envelope, "source"@) == Some(content.sender_text@)
            &&& text_field(envelope, "sourceUuid"@) == Some(content.sender_text@)
            &&& shows_time(envelope, content.timestamp)
            &&& content.body matches ContentBody::DataMessage(data) ==> {
                &&& field(envelope, "dataMessage"@) matches Some(inner)
                &&& shows_data(inner, data)
                &&& shows_time(inner, content.timestamp)
            }
            &&& content.body matches ContentBody::SynchronizeMessage {
                sent: Some(Sent { message: Some(data) }),
            } ==> {
                &&& field(envelope, "syncMessage"@) matches Some(inner)
                &&& shows_data(inner, data)
            }
        },
{
    law_unresolved_message_is_shown(content);
    law_message_is_shown_as_it_is(Map::empty(), content);
}

/// A message that is shown with a known phone number has that number as its source, and is shown
/// as without it in all else.
pub proof fn law_resolved_envelope_call(
    msg: Received,
    phone: Option<String>,
    json: Json,
    name: Seq<char>,
)
    requires
        call_ensures(resolved_envelope, (&msg, &phone), json),
        name != "source"@,
        name != "sourceUuid"@,
    ensures
        ({
            let plain = in_envelope(msg, envelope_members(msg));
            &&& field(json@, "envelope"@) matches Some(envelope)
            &&& phone matches Some(number) ==> text_field(envelope, "source"@) == Some(number@)
            &&& phone matches Some(number) ==> text_field(envelope, "sourceUuid"@) == Some(number@)
            &&& field(plain, "envelope"@) matches Some(other)
            &&& field(envelope, name) == field(other, name)
            &&& field(json@, "type"@) == field(plain, "type"@)
        }),
{
    law_events_have_envelopes(msg, phone);
    law_events_have_envelopes(msg, None);
    if let Some(number) = phone {
        law_phone_is_the_source(envelope_members(msg), number, name);
    }
}

/// An event stream passes each message on, passes over gaps, and ends with the broadcast.
pub proof fn law_events_handler_call(data: String, missed: u64, a: StreamAction)
    ensures
        call_ensures(events_handler, (Feed::Data(data),), a) ==> a == StreamAction::Yield(data),
        call_ensures(events_handler, (Feed::Lagged(missed),), a) ==> a == StreamAction::Wait,
        call_ensures(events_handler, (Feed::Closed,), a) ==> a == StreamAction::Stop,
{
}

/// A connection sends each message as it is and a ping at each tick.
pub proof fn law_handle_ws_call(event: WsEvent, data: String, action: WsAction)
    requires
        call_ensures(handle_ws, (event,), action),
    ensures
        event == WsEvent::Broadcast(Feed::Data(data)) ==> action is SendText
            && action->SendText_0@ == data@,
        event is Tick ==> action is SendPing && action->SendPing_0@ == encode_utf8("keepalive"@),
        action is HangUp <==> match event {
            WsEvent::Broadcast(feed) => feed is Closed,
            WsEvent::Tick => false,
            WsEvent::Sent { ok } => !ok,
            WsEvent::Frame { close } => close,
            WsEvent::Ended => true,
        },
{
    law_connection_ends_when_due(event);
    match action {
        WsAction::SendText(text) => {},
        WsAction::SendPing(bytes) => {},
        WsAction::Wait => {},
        WsAction::HangUp => {},
    }
}

/// The listener starts with the contacts, and the first ping comes after fifteen seconds.
pub proof fn law_first_things_calls(task: ListenerTask, secs: u64)
    ensures
        call_ensures(first_task, (), task) ==> task == ListenerTask::LoadContacts,
        call_ensures(first_ping_secs, (), secs) ==> secs == 15,
{
}

/// The store URL leads to the database in the store directory.
pub proof fn law_store_url_call(path: &str, url: String)
    requires
        call_ensures(store_url, (path,), url),
    ensures
        path@.len() > 0 && path@.last() != '/' ==> url@ == "sqlite://"@ + path@
            + "/signal-serve.db"@,
        path@.len() > 0 && path@.last() == '/' ==> url@ == "sqlite://"@ + path@
            + "signal-serve.db"@,
        path@.len() == 0 ==> url@ == "sqlite://"@ + "signal-serve.db"@,
{
    if path@.len() > 0 && path@.last() != '/' {
        law_database_lies_in_the_store(path@);
        assert(url@ =~= "sqlite://"@ + path@ + "/signal-serve.db"@);
    } else {
        assert(url@ =~= "sqlite://"@ + path@ + "signal-serve.db"@);
        assert(path@.len() == 0 ==> "sqlite://"@ + path@ =~= "sqlite://"@);
    }
}

/// A healthy server answers that it has nothing to say.
pub proof fn law_health_check_call(status: u16)
    requires
        call_ensures(health_check, (), status),
    ensures
        status == 204,
{
}

/// The page and the notice for linking show the URL itself, the page twice, and differ between
/// two URLs in nothing but the URL.
pub proof fn law_link_texts_calls(url: &str, other: &str, page: String, page2: String, note: String)
    requires
        call_ensures(link_page, (url,), page),
        call_ensures(link_page, (other,), page2),
        call_ensures(link_notice, (url,), note),
    ensures
        stands_in(url@, page@),
        stands_in(url@, note@),
        page@.len() - 2 * url@.len() == page2@.len() - 2 * other@.len(),
        url@ == other@ ==> page@ == page2@,
        url@.len() == other@.len() && page@ == page2@ ==> url@ == other@,
{
    let at = PAGE_HEAD@.len() as int;
    assert(page@.subrange(at, at + url@.len()) =~= url@);
    assert(page2@.subrange(at, at + other@.len()) =~= other@);
    let start = NOTICE_HEAD@.len() as int;
    assert(note@.subrange(start, start + url@.len()) =~= url@);
}

/// Linking fails if the link fails or showing its URL does, and the error of the link goes first.
pub proof fn law_link_result_call(
    linked: Result<(), String>,
    shown: Result<(), String>,
    result: Result<(), String>,
)
    requires
        call_ensures(link_result::<String>, (linked, shown), result),
    ensures
        result is Ok <==> linked is Ok && shown is Ok,
        linked matches Err(e) ==> result == Err::<(), String>(e),
        linked is Ok ==> result == shown,
{
}

/// A timestamp is the number of milliseconds as long as that fits.
pub proof fn law_timestamp_call(millis: u128, ts: u64)
    ensures
        call_ensures(timestamp, (Some(millis),), ts) && millis <= u64::MAX ==> ts == millis,
        call_ensures(timestamp, (None::<u128>,), ts) ==> ts == 0,
{
}

/// The time is that of a reading of the clock.
pub proof fn law_now_ts_call(ts: u64)
    requires
        call_ensures(now_ts, (), ts),
    ensures
        exists|reading: SystemTime| match span_to(reading) {
            Ok(elapsed) => ts == millis_in(elapsed) as int % 0x1_0000_0000_0000_0000,
            Err(_) => ts == 0,
        } && #[trigger] stamp_at(reading) == ts,
{
    let reading = choose|reading: SystemTime| ts == #[trigger] stamp_at(reading);
    assert(stamp_at(reading) == ts);
}

/// The parameters are read from their members as they stand there.
pub proof fn law_parameter_calls(
    params: Object,
    text: String,
    list: Vec<String>,
    group: Option<Vec<u8>>,
)
    requires
        call_ensures(msg_text, (&params,), text),
        call_ensures(recipients, (&params,), list),
        call_ensures(group_id_bytes, (&params,), group),
    ensures
        ({
            let json = JsonView::Object(params@);
            &&& text_field(json, "message"@) matches Some(given) ==> text@ == given
            &&& text_field(json, "message"@) is None ==> text@.len() == 0
            &&& list@.len() == recipient_list(params@).len()
            &&& forall|k: int|
                0 <= k < list@.len() ==> (#[trigger] list@[k])@ == recipient_list(params@)[k]
            &&& text_field(json, "groupId"@) matches Some(name) ==> group is Some && group->0@
                == encode_utf8(name)
            &&& text_field(json, "groupId"@) is None ==> group is None
        }),
{
    law_parameters_are_read(params@);
    assert(texts(list@) == recipient_list(params@));
    assert forall|k: int| 0 <= k < list@.len() implies (#[trigger] list@[k])@
        == recipient_list(params@)[k] by {
        assert(texts(list@)[k] == list@[k]@);
    }
}

/// A search for a text finds it exactly if the whole of it stands there, and a plus sign is taken
/// off the start of an address once.
pub proof fn law_text_calls(whole: &str, part: &str, found: bool, rest: &str, same: bool)
    requires
        call_ensures(contains, (whole, part), found),
        call_ensures(strip_plus, (whole,), rest),
        call_ensures(same_text, (whole, part), same),
    ensures
        found == stands_in(part@, whole@),
        rest@ == bare(whole@),
        same == (whole@ == part@),
{
    law_occurs_is_standing_in(part@, whole@);
}

/// A phone number is known for an account exactly if one is noted under its bytes.
pub proof fn law_phone_for_service_id_call(state: AppState, uuid: Uuid, phone: Option<String>)
    ensures
        call_ensures(AppState::phone_for_service_id, (&state, &ServiceId::Aci(uuid)), phone)
            ==> phone == if state.contact_phones@.contains_key(uuid.bytes@) {
            Some(state.contact_phones@[uuid.bytes@])
        } else {
            None
        },
        call_ensures(AppState::phone_for_service_id, (&state, &ServiceId::Pni(uuid)), phone)
            ==> phone is None,
{
}

/// A refresh notes the phone number of every contact up to the first entry that cannot be read,
/// keeps what it does not replace, and gives back the error of that entry.
pub proof fn law_refresh_contact_phones_call(listing: Listing, k: int, key: Seq<u8>)
    requires
        0 <= k < good_entries(listing@),
        gives_phone(listing@[k], key),
        forall|j: int| k < j < good_entries(listing@) ==> !#[trigger] gives_phone(listing@[j], key),
    ensures
        forall|state: &mut AppState, result: Result<(), String>| #[trigger]
            call_ensures(AppState::refresh_contact_phones, (state, listing), result) ==> {
                let after = *final(state);
                &&& after.contact_phones@.contains_key(key)
                &&& Some(after.contact_phones@[key]) == listing@[k]->Ok_0.phone_number
                &&& after.pending_attachments@ == (*state).pending_attachments@
                &&& result is Ok <==> forall|j: int|
                    0 <= j < listing@.len() ==> (#[trigger] listing@[j]) is Ok
            },
{
    assert forall|state: &mut AppState, result: Result<(), String>| #[trigger]
        call_ensures(AppState::refresh_contact_phones, (state, listing), result) implies {
        let after = *final(state);
        &&& after.contact_phones@.contains_key(key)
        &&& Some(after.contact_phones@[key]) == listing@[k]->Ok_0.phone_number
        &&& after.pending_attachments@ == (*state).pending_attachments@
        &&& result is Ok <==> forall|j: int|
            0 <= j < listing@.len() ==> (#[trigger] listing@[j]) is Ok
    } by {
        let n = good_entries(listing@);
        law_listing_is_read_up_to_the_first_error(listing@, 0);
        lemma_last_phone((*state).contact_phones@, listing@, k, n, key);
        assert forall|j: int| 0 <= j < n implies (#[trigger] listing@[j]) is Ok by {
            law_listing_is_read_up_to_the_first_error(listing@, j);
        }
        if n < listing@.len() {
            assert(listing@[n as int] is Err);
        }
    }
}

/// Nothing is known at the start.
pub proof fn law_app_state_new_call(state: AppState, key: Seq<u8>)
    requires
        call_ensures(AppState::new, (), state),
    ensures
        state.wf(),
        !state.pending_attachments@.contains_key(key),
        !state.contact_phones@.contains_key(key),
{
}

/// A value is read as a text, an array or a number exactly if it is one, and an object by the
/// names of its members.
pub proof fn law_json_calls(
    json: Json,
    name: &str,
    value: Option<&Json>,
    text: Option<&str>,
    items: Option<&Vec<Json>>,
    n: Option<u64>,
)
    requires
        call_ensures(Json::get, (&json, name), value),
        call_ensures(Json::as_str, (&json,), text),
        call_ensures(Json::as_array, (&json,), items),
        call_ensures(Json::as_u64, (&json,), n),
    ensures
        field(json@, name@) matches Some(held) ==> value is Some && value->0@ == held,
        field(json@, name@) is None ==> value is None,
        json@ matches JsonView::Text(held) ==> text is Some && text->0@ == held,
        !(json@ is Text) ==> text is None,
        json@ matches JsonView::Array(held) ==> items is Some && Json::Array(*items->0)@
            == JsonView::Array(held),
        !(json@ is Array) ==> items is None,
        json@ matches JsonView::Number(Number::Unsigned(held)) ==> n == Some(held),
        !(json@ matches JsonView::Number(Number::Unsigned(_))) ==> n is None,
{
}

/// The tests of size say yes exactly if the Base64 texts are not longer than memory allows.
pub proof fn law_size_calls(bytes: Vec<u8>, event: ListenerEvent, a: bool, b: bool, c: bool)
    requires
        call_ensures(is_encodable, (bytes.len(),), a),
        call_ensures(can_resume, (&Event::Downloaded(Ok(bytes)),), b),
        call_ensures(can_be_shown, (&event,), c),
    ensures
        a == (base64_text(bytes@).len() <= isize::MAX),
        b == (base64_text(bytes@).len() <= isize::MAX),
        c == event_fits(event),
        !(event is Message) ==> c,
{
}

/// The files of a data message are noted, and of no other.
pub proof fn law_cache_attachments_call(msg: Received, key: Seq<u8>)
    ensures
        forall|state: &mut AppState, done: ()| #[trigger]
            call_ensures(cache_attachments, (state, &msg), done) ==> {
                let after = *final(state);
                &&& after.contact_phones@ == (*state).contact_phones@
                &&& after.pending_attachments@.contains_key(key) <==> (
                *state).pending_attachments@.contains_key(key) || brings_file(
                    ListenerEvent::Message(Some(msg)),
                    key,
                )
            },
{
    assert forall|state: &mut AppState, done: ()| #[trigger]
        call_ensures(cache_attachments, (state, &msg), done) implies {
        let after = *final(state);
        &&& after.contact_phones@ == (*state).contact_phones@
        &&& after.pending_attachments@.contains_key(key) <==> (
        *state).pending_attachments@.contains_key(key) || brings_file(
            ListenerEvent::Message(Some(msg)),
            key,
        )
    } by {
        law_only_received_files_can_be_fetched(
            (*state).pending_attachments@,
            ListenerEvent::Message(Some(msg)),
            key,
        );
    }
}

/// Every request, every address and every path may be asked about, in any state that is in order.
pub proof fn law_every_input_is_accepted(
    state: AppState,
    req: Json,
    now: u64,
    contacts: Vec<Contact>,
    address: &str,
    feed: Feed,
    event: WsEvent,
)
    requires
        state.wf(),
    ensures
        call_requires(dispatch, (&state, &req, now)),
        call_requires(find_contact, (&contacts, address)),
        call_requires(find_by_phone, (&contacts, address)),
        call_requires(store_url, (address,)),
        call_requires(link_page, (address,)),
        call_requires(link_notice, (address,)),
        call_requires(events_handler, (feed,)),
        call_requires(handle_ws, (event,)),
        call_requires(dispatch_failed, ()),
        call_requires(now_ts, ()),
{
}

/// What comes of the action that a request waits for may be handed to it, be it a failure or not,
/// as long as it can be written out.
pub proof fn law_every_event_is_accepted(
    session: Session,
    action: Action,
    e: String,
    listing: Listing,
    results: Vec<Result<usize, String>>,
    bytes: Vec<u8>,
    now: u64,
)
    requires
        stage_fits(session.stage@, action@),
    ensures
        action is SendToGroup ==> call_requires(
            Session::step,
            (session, Event::GroupSent(Ok(())), now),
        ) && call_requires(Session::step, (session, Event::GroupSent(Err(e)), now)),
        action is LoadContacts ==> call_requires(
            Session::step,
            (session, Event::Contacts(Ok(listing)), now),
        ) && call_requires(Session::step, (session, Event::Contacts(Err(e)), now)),
        action is Deliver ==> call_requires(
            Session::step,
            (session, Event::Delivered(Ok(())), now),
        ) && call_requires(Session::step, (session, Event::Delivered(Err(e)), now)),
        action is Upload ==> call_requires(
            Session::step,
            (session, Event::Uploaded(Ok(results)), now),
        ) && call_requires(Session::step, (session, Event::Uploaded(Err(e)), now)),
        action is Download ==> call_requires(
            Session::step,
            (session, Event::Downloaded(Err(e)), now),
        ) && (base64_text(bytes@).len() <= isize::MAX ==> call_requires(
            Session::step,
            (session, Event::Downloaded(Ok(bytes)), now),
        )),
{
}

} // verus!
