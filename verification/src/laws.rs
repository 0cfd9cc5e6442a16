//! What holds of requests and messages as a whole.
use vstd::prelude::*;

use crate::codec::{base64_text, decoded, law_base64_round_trip};
use crate::contacts::{contact_match, good_entries, law_listed_uuid_found, readable, Contact};
use crate::ident::{hyphenated, Uuid};
use crate::json::{array_member, member, signed, text_member, unsigned, JsonView};
use crate::message::{
    text_message, text_view, DeliveryView, MessageView, ReactionView, UploadView,
};
use crate::params::{group_id, message_text, recipient_list, uploads_of, RpcErrorView};
use crate::rpc::{
    attachment_answer, awaits, contacts_json, deliver_next, dispatched, emoji_of, error_json, failure,
    files_message, get_attachment_start, group_json, id_of, method_of, method_start, order_queue,
    order_report, params_of, reaction_message, refused, resumed, settled, stepped, success,
    target_author, target_timestamp, uploaded, StepView, ERROR_CODE,
};
use crate::session::{
    deliveries_to, result_entries, result_entry, results_json, timestamp_json, ActionView,
    Event, Mode, OrderView, ProgressView, ReportView, StageView,
};
use crate::sse::{
    answers, attachment_id, content_members, envelope_members, files_noted, in_envelope,
    message_noted, next_task, pending_after, phones_after, published, with_phone,
    AttachmentPointer, Content, ContentBody, DataMessage, ListenerEvent, ListenerTask, Received,
    REOPEN_SECS, RETRY_SECS,
};
use crate::state::{phone_of, phones_noted, Pending, ServiceId};

verus! {

/// What the shell did for a request, and how the request stood in the end, if the actions were
/// answered in turn by these events at these times.
pub open spec fn run(step: StepView, events: Seq<(Event, u64)>) -> (Seq<ActionView>, StepView)
    decreases events.len(),
{
    match step {
        StepView::Reply(_) => (Seq::empty(), step),
        StepView::Wait { id, stage, action } => if events.len() == 0 {
            (Seq::empty(), step)
        } else {
            let rest = run(
                stepped(id, stage, events[0].0, events[0].1),
                events.drop_first(),
            );
            (seq![action] + rest.0, rest.1)
        },
    }
}

/// Whether all events say that a message was sent.
pub open spec fn all_delivered(events: Seq<(Event, u64)>) -> bool {
    forall|i: int| 0 <= i < events.len() ==> (#[trigger] events[i]).0 == Event::Delivered(Ok(()))
}

/// The actions that send these messages.
pub open spec fn deliver_all(queue: Seq<DeliveryView>) -> Seq<ActionView> {
    queue.map_values(|d: DeliveryView| ActionView::Deliver(d))
}

/// A queue of messages that can all be sent is sent in order, each message once, and then the
/// report is the answer. `now` is the time at which the queue was made up.
pub proof fn law_queue_is_sent(
    id: JsonView,
    queue: Seq<DeliveryView>,
    report: ReportView,
    now: u64,
    events: Seq<(Event, u64)>,
)
    requires
        events.len() == queue.len(),
        all_delivered(events),
    ensures
        run(settled(id, deliver_next(queue, report, now)), events) == (
            deliver_all(queue),
            StepView::Reply(
                success(
                    id,
                    report.json(
                        if events.len() == 0 {
                            now
                        } else {
                            events.last().1
                        },
                    ),
                ),
            ),
        ),
    decreases queue.len(),
{
    if queue.len() == 0 {
        assert(deliver_all(queue) =~= Seq::empty());
    } else {
        let rest = events.drop_first();
        assert(events[0].0 == Event::Delivered(Ok(())));
        assert forall|i: int| 0 <= i < rest.len() implies (#[trigger] rest[i]).0
            == Event::Delivered(Ok(())) by {
            assert(events[i + 1].0 == Event::Delivered(Ok(())));
        }
        law_queue_is_sent(id, queue.drop_first(), report, events[0].1, rest);
        assert(deliver_all(queue) =~= seq![ActionView::Deliver(queue[0])] + deliver_all(
            queue.drop_first(),
        ));
    }
}

/// A message that cannot be sent ends the request: the messages before it have been sent, those
/// behind it are not, and the answer is the error.
pub proof fn law_queue_stops_at_failure(
    id: JsonView,
    queue: Seq<DeliveryView>,
    report: ReportView,
    now: u64,
    events: Seq<(Event, u64)>,
    failed: int,
    message: String,
)
    requires
        0 <= failed < queue.len(),
        failed < events.len(),
        all_delivered(events.take(failed)),
        events[failed].0 == Event::Delivered(Err(message)),
    ensures
        run(settled(id, deliver_next(queue, report, now)), events) == (
            deliver_all(queue.take(failed + 1)),
            StepView::Reply(refused(id, message@)),
        ),
    decreases queue.len(),
{
    let rest = events.drop_first();
    assert(deliver_all(queue.take(failed + 1)) =~= seq![ActionView::Deliver(queue[0])]
        + deliver_all(queue.drop_first().take(failed)));
    if failed == 0 {
        assert(deliver_all(queue.drop_first().take(0)) =~= Seq::empty());
        assert(run(StepView::Reply(refused(id, message@)), rest) == (
            Seq::<ActionView>::empty(),
            StepView::Reply(refused(id, message@)),
        ));
        assert(stepped(
            id,
            StageView::Delivering { queue: queue.drop_first(), report },
            events[0].0,
            events[0].1,
        ) == StepView::Reply(refused(id, message@)));
        assert(seq![ActionView::Deliver(queue[0])] + Seq::<ActionView>::empty()
            =~= seq![ActionView::Deliver(queue[0])]);
    } else {
        assert(events.take(failed)[0].0 == Event::Delivered(Ok(())));
        assert forall|i: int| 0 <= i < failed - 1 implies (#[trigger] rest.take(failed - 1)[i]).0
            == Event::Delivered(Ok(())) by {
            assert(events.take(failed)[i + 1].0 == Event::Delivered(Ok(())));
        }
        law_queue_stops_at_failure(
            id,
            queue.drop_first(),
            report,
            events[0].1,
            rest,
            failed - 1,
            message,
        );
    }
}

/// A request that sends messages, once its contacts are listed and all its messages can be sent,
/// sends exactly the messages that it is for and then answers with its report.
pub proof fn law_order_is_carried_out(
    id: JsonView,
    order: OrderView,
    contacts: Vec<Result<Contact, String>>,
    listed_at: u64,
    events: Seq<(Event, u64)>,
)
    requires
        events.len() == order_queue(order, readable(contacts@)).len(),
        all_delivered(events),
    ensures
        ({
            let known = readable(contacts@);
            let waiting = StepView::Wait {
                id,
                stage: StageView::Resolving(order),
                action: ActionView::LoadContacts,
            };
            let listed = seq![(Event::Contacts(Ok(contacts)), listed_at)];
            let last = if events.len() == 0 {
                listed_at
            } else {
                events.last().1
            };
            run(waiting, listed + events) == (
                seq![ActionView::LoadContacts] + deliver_all(order_queue(order, known)),
                StepView::Reply(success(id, order_report(order, known).json(last))),
            )
        }),
{
    let known = readable(contacts@);
    let listed = seq![(Event::Contacts(Ok(contacts)), listed_at)];
    assert((listed + events).drop_first() =~= events);
    law_queue_is_sent(
        id,
        order_queue(order, known),
        order_report(order, known),
        listed_at,
        events,
    );
}

/// A `send` to recipients, from the request to the answer: the contacts are listed, each
/// recipient that means a contact is sent the text once, in order, and the answer reports every
/// recipient.
pub proof fn law_send_is_carried_out(
    req: JsonView,
    pending: Map<Seq<u8>, Pending>,
    now: u64,
    contacts: Vec<Result<Contact, String>>,
    listed_at: u64,
    events: Seq<(Event, u64)>,
)
    requires
        method_of(req) == "send"@,
        group_id(params_of(req)) is None,
        all_delivered(events),
        events.len() == deliveries_to(
            readable(contacts@),
            recipient_list(params_of(req)),
            text_message(message_text(params_of(req))),
            now,
        ).len(),
    ensures
        ({
            let known = readable(contacts@);
            let recipients = recipient_list(params_of(req));
            let message = text_message(message_text(params_of(req)));
            run(
                dispatched(req, pending, now),
                seq![(Event::Contacts(Ok(contacts)), listed_at)] + events,
            ) == (
                seq![ActionView::LoadContacts] + deliver_all(
                    deliveries_to(known, recipients, message, now),
                ),
                StepView::Reply(
                    success(
                        id_of(req),
                        results_json(now, result_entries(Mode::Plain, known, recipients)),
                    ),
                ),
            )
        }),
{
    let order = OrderView::Send {
        text: message_text(params_of(req)),
        recipients: recipient_list(params_of(req)),
        timestamp: now,
    };
    law_order_is_carried_out(id_of(req), order, contacts, listed_at, events);
}

/// A `sendAttachments`, from the request to the answer: the files are uploaded, the contacts are
/// listed, each recipient that means a contact is sent the files that could be uploaded, and the
/// answer reports every recipient.
pub proof fn law_attachments_are_carried_out(
    req: JsonView,
    pending: Map<Seq<u8>, Pending>,
    now: u64,
    files: Seq<UploadView>,
    results: Vec<Result<usize, String>>,
    uploaded_at: u64,
    contacts: Vec<Result<Contact, String>>,
    listed_at: u64,
    events: Seq<(Event, u64)>,
)
    requires
        method_of(req) == "sendAttachments"@ || method_of(req) == "send_multiple_images"@,
        recipient_list(params_of(req)).len() > 0,
        array_member(params_of(req), "attachments"@) is Some,
        files.len() > 0,
        uploads_of(array_member(params_of(req), "attachments"@)->0) == Ok::<
            Seq<UploadView>,
            RpcErrorView,
        >(files),
        uploaded(results@).len() > 0,
        all_delivered(events),
        events.len() == deliveries_to(
            readable(contacts@),
            recipient_list(params_of(req)),
            files_message(message_text(params_of(req)), uploaded(results@)),
            uploaded_at,
        ).len(),
    ensures
        ({
            let known = readable(contacts@);
            let recipients = recipient_list(params_of(req));
            let message = files_message(message_text(params_of(req)), uploaded(results@));
            let last = if events.len() == 0 {
                listed_at
            } else {
                events.last().1
            };
            run(
                dispatched(req, pending, now),
                seq![(Event::Uploaded(Ok(results)), uploaded_at)] + (seq![
                    (Event::Contacts(Ok(contacts)), listed_at),
                ] + events),
            ) == (
                seq![ActionView::Upload(files)] + (seq![ActionView::LoadContacts] + deliver_all(
                    deliveries_to(known, recipients, message, uploaded_at),
                )),
                StepView::Reply(
                    success(
                        id_of(req),
                        results_json(last, result_entries(Mode::Attachments, known, recipients)),
                    ),
                ),
            )
        }),
{
    lemma_method_names();
    let items = array_member(params_of(req), "attachments"@)->0;
    assert(items.len() > 0);
    let order = OrderView::Attachments {
        files: uploaded(results@),
        text: message_text(params_of(req)),
        recipients: recipient_list(params_of(req)),
        timestamp: uploaded_at,
    };
    let listed = seq![(Event::Contacts(Ok(contacts)), listed_at)] + events;
    let all = seq![(Event::Uploaded(Ok(results)), uploaded_at)] + listed;
    assert(all.drop_first() =~= listed);
    law_order_is_carried_out(id_of(req), order, contacts, listed_at, events);
}

/// A `sendTyping`, from the request to the answer: without recipients nothing is done, otherwise
/// the contacts are listed and each recipient that means a contact is told once, in order.
pub proof fn law_typing_is_carried_out(
    req: JsonView,
    pending: Map<Seq<u8>, Pending>,
    now: u64,
    contacts: Vec<Result<Contact, String>>,
    listed_at: u64,
    events: Seq<(Event, u64)>,
)
    requires
        method_of(req) == "sendTyping"@,
        all_delivered(events),
        events.len() == deliveries_to(
            readable(contacts@),
            recipient_list(params_of(req)),
            MessageView::TypingStarted { timestamp: now },
            now,
        ).len(),
    ensures
        ({
            let recipients = recipient_list(params_of(req));
            let message = MessageView::TypingStarted { timestamp: now };
            run(
                dispatched(req, pending, now),
                seq![(Event::Contacts(Ok(contacts)), listed_at)] + events,
            ) == (
                if recipients.len() == 0 {
                    Seq::empty()
                } else {
                    seq![ActionView::LoadContacts] + deliver_all(
                        deliveries_to(readable(contacts@), recipients, message, now),
                    )
                },
                StepView::Reply(success(id_of(req), timestamp_json(now))),
            )
        }),
{
    lemma_method_names();
    let order = OrderView::Typing { recipients: recipient_list(params_of(req)), timestamp: now };
    law_order_is_carried_out(id_of(req), order, contacts, listed_at, events);
}

/// A `sendReaction`, from the request to the answer: the contacts are listed, and each recipient
/// that means a contact is sent the reaction once, in order.
pub proof fn law_reaction_is_carried_out(
    req: JsonView,
    pending: Map<Seq<u8>, Pending>,
    now: u64,
    contacts: Vec<Result<Contact, String>>,
    listed_at: u64,
    events: Seq<(Event, u64)>,
)
    requires
        method_of(req) == "sendReaction"@,
        all_delivered(events),
        events.len() == deliveries_to(
            readable(contacts@),
            recipient_list(params_of(req)),
            reaction_message(
                readable(contacts@),
                emoji_of(params_of(req)),
                target_author(params_of(req)),
                target_timestamp(params_of(req)),
            ),
            now,
        ).len(),
    ensures
        ({
            let known = readable(contacts@);
            let message = reaction_message(
                known,
                emoji_of(params_of(req)),
                target_author(params_of(req)),
                target_timestamp(params_of(req)),
            );
            run(
                dispatched(req, pending, now),
                seq![(Event::Contacts(Ok(contacts)), listed_at)] + events,
            ) == (
                seq![ActionView::LoadContacts] + deliver_all(
                    deliveries_to(
                        known,
                        recipient_list(params_of(req)),
                        message,
                        now,
                    ),
                ),
                StepView::Reply(success(id_of(req), timestamp_json(now))),
            )
        }),
{
    lemma_method_names();
    let order = OrderView::Reaction {
        emoji: emoji_of(params_of(req)),
        target_author: target_author(params_of(req)),
        target_timestamp: target_timestamp(params_of(req)),
        recipients: recipient_list(params_of(req)),
        timestamp: now,
    };
    law_order_is_carried_out(id_of(req), order, contacts, listed_at, events);
}

/// A request whose first action is answered by its result does that action and nothing else.
proof fn lemma_one_action(
    id: JsonView,
    stage: StageView,
    action: ActionView,
    event: Event,
    at: u64,
    result: JsonView,
)
    requires
        resumed(stage, event, at) == Ok::<ProgressView, RpcErrorView>(
            ProgressView::Finished(result),
        ),
    ensures
        run(StepView::Wait { id, stage, action }, seq![(event, at)]) == (
            seq![action],
            StepView::Reply(success(id, result)),
        ),
{
    let events = seq![(event, at)];
    let reply = StepView::Reply(success(id, result));
    assert(stepped(id, stage, events[0].0, events[0].1) == reply);
    assert(run(reply, events.drop_first()) == (Seq::<ActionView>::empty(), reply));
    assert(run(StepView::Wait { id, stage, action }, events).0 =~= seq![action]);
}

/// A `listContacts`, from the request to the answer: the contacts are listed once, and every
/// contact that could be read is shown, in order.
pub proof fn law_contacts_are_listed(
    req: JsonView,
    pending: Map<Seq<u8>, Pending>,
    now: u64,
    contacts: Vec<Result<Contact, String>>,
    listed_at: u64,
)
    requires
        method_of(req) == "listContacts"@,
    ensures
        run(dispatched(req, pending, now), seq![(Event::Contacts(Ok(contacts)), listed_at)]) == (
            seq![ActionView::LoadContacts],
            StepView::Reply(success(id_of(req), contacts_json(readable(contacts@)))),
        ),
{
    lemma_method_names();
    lemma_one_action(
        id_of(req),
        StageView::Listing,
        ActionView::LoadContacts,
        Event::Contacts(Ok(contacts)),
        listed_at,
        contacts_json(readable(contacts@)),
    );
}

/// A `getAttachment` for a file that can be fetched, from the request to the answer: that file is
/// fetched once, and the answer holds its bytes.
pub proof fn law_attachment_is_fetched(
    req: JsonView,
    pending: Map<Seq<u8>, Pending>,
    now: u64,
    key: Seq<u8>,
    bytes: Vec<u8>,
    fetched_at: u64,
)
    requires
        method_of(req) == "getAttachment"@,
        text_member(params_of(req), "attachmentId"@) == Some(base64_text(key)),
        pending.contains_key(key),
    ensures
        run(dispatched(req, pending, now), seq![(Event::Downloaded(Ok(bytes)), fetched_at)]) == (
            seq![ActionView::Download { handle: pending[key].handle }],
            StepView::Reply(
                success(
                    id_of(req),
                    attachment_answer(bytes@, text_view(pending[key].content_type)),
                ),
            ),
        ),
{
    lemma_method_names();
    law_base64_round_trip(key);
    lemma_one_action(
        id_of(req),
        StageView::Downloading { content_type: text_view(pending[key].content_type) },
        ActionView::Download { handle: pending[key].handle },
        Event::Downloaded(Ok(bytes)),
        fetched_at,
        attachment_answer(bytes@, text_view(pending[key].content_type)),
    );
}

/// A failure of the service, at whatever stage, is the answer to the request.
pub proof fn law_failure_is_answered(id: JsonView, stage: StageView, event: Event, now: u64)
    requires
        failure(event) is Some,
    ensures
        stepped(id, stage, event, now) == StepView::Reply(
            refused(id, failure(event)->0@),
        ),
{
}

/// The test for an address that means a contact.
pub open spec fn is_known(contacts: Seq<Contact>) -> spec_fn(Seq<char>) -> bool {
    |address: Seq<char>| contact_match(contacts, address) is Some
}

/// The message for an address that means a contact.
pub open spec fn delivery_for(
    contacts: Seq<Contact>,
    message: MessageView,
    timestamp: u64,
) -> spec_fn(Seq<char>) -> DeliveryView {
    |address: Seq<char>|
        DeliveryView {
            recipient: contacts[contact_match(contacts, address)->0].uuid@,
            message,
            timestamp,
        }
}

/// Every address is reported once, in order, and reported as sent exactly if a message goes to
/// the contact that it means: the messages are those for the addresses that mean a contact.
pub proof fn law_reported_as_sent(
    mode: Mode,
    contacts: Seq<Contact>,
    addresses: Seq<Seq<char>>,
    message: MessageView,
    timestamp: u64,
)
    ensures
        result_entries(mode, contacts, addresses).len() == addresses.len(),
        forall|i: int|
            0 <= i < addresses.len() ==> #[trigger] result_entries(mode, contacts, addresses)[i]
                == result_entry(mode, addresses[i], is_known(contacts)(addresses[i])),
        deliveries_to(contacts, addresses, message, timestamp) == addresses.filter(
            is_known(contacts),
        ).map_values(delivery_for(contacts, message, timestamp)),
    decreases addresses.len(),
{
    let known = is_known(contacts);
    let make = delivery_for(contacts, message, timestamp);
    reveal(Seq::filter);
    if addresses.len() == 0 {
        assert(addresses.filter(known).map_values(make) =~= Seq::empty());
    } else {
        law_reported_as_sent(mode, contacts, addresses.drop_last(), message, timestamp);
        let before = addresses.drop_last().filter(known);
        assert(before.push(addresses.last()).map_values(make) =~= before.map_values(make).push(
            make(addresses.last()),
        ));
    }
}

/// All messages of a request carry the same content and the same timestamp.
pub proof fn law_messages_agree(
    contacts: Seq<Contact>,
    addresses: Seq<Seq<char>>,
    message: MessageView,
    timestamp: u64,
)
    ensures
        ({
            let queue = deliveries_to(contacts, addresses, message, timestamp);
            &&& queue.len() <= addresses.len()
            &&& forall|i: int|
                0 <= i < queue.len() ==> (#[trigger] queue[i]).message == message
                    && queue[i].timestamp == timestamp
        }),
    decreases addresses.len(),
{
    if addresses.len() > 0 {
        law_messages_agree(contacts, addresses.drop_last(), message, timestamp);
    }
}

/// The UUID of a contact, as the list of contacts shows it, is an address to which one message
/// goes, and which is reported as sent.
proof fn lemma_listed_uuid(
    mode: Mode,
    contacts: Seq<Contact>,
    i: int,
    message: MessageView,
    timestamp: u64,
)
    requires
        0 <= i < contacts.len(),
    ensures
        ({
            let address = hyphenated(contacts[i].uuid@);
            &&& deliveries_to(contacts, seq![address], message, timestamp) == seq![
                DeliveryView { recipient: contacts[i].uuid@, message, timestamp },
            ]
            &&& result_entries(mode, contacts, seq![address]) == seq![
                result_entry(mode, address, true),
            ]
        }),
{
    let address = hyphenated(contacts[i].uuid@);
    law_listed_uuid_found(contacts, i, false);
    assert(seq![address].drop_last() =~= Seq::empty());
    assert(deliveries_to(contacts, Seq::empty(), message, timestamp) =~= Seq::empty());
    assert(result_entries(mode, contacts, seq![address]) =~= seq![
        result_entry(mode, address, true),
    ]);
}

/// A message to the UUID of a contact, as the list of contacts shows it, goes to that account and
/// is reported as sent.
pub proof fn law_send_to_listed_uuid(
    contacts: Seq<Contact>,
    i: int,
    text: Seq<char>,
    timestamp: u64,
)
    requires
        0 <= i < contacts.len(),
    ensures
        ({
            let address = hyphenated(contacts[i].uuid@);
            let order = OrderView::Send { text, recipients: seq![address], timestamp };
            &&& order_queue(order, contacts) == seq![
                DeliveryView {
                    recipient: contacts[i].uuid@,
                    message: text_message(text),
                    timestamp,
                },
            ]
            &&& order_report(order, contacts) == ReportView::Results {
                timestamp,
                entries: seq![result_entry(Mode::Plain, address, true)],
            }
        }),
{
    lemma_listed_uuid(Mode::Plain, contacts, i, text_message(text), timestamp);
}

/// A sign of typing for the UUID of a contact, as the list of contacts shows it, goes to that
/// account.
pub proof fn law_typing_to_listed_uuid(contacts: Seq<Contact>, i: int, timestamp: u64)
    requires
        0 <= i < contacts.len(),
    ensures
        ({
            let address = hyphenated(contacts[i].uuid@);
            let order = OrderView::Typing { recipients: seq![address], timestamp };
            &&& order_queue(order, contacts) == seq![
                DeliveryView {
                    recipient: contacts[i].uuid@,
                    message: MessageView::TypingStarted { timestamp },
                    timestamp,
                },
            ]
            &&& order_report(order, contacts) == ReportView::Timestamp(timestamp)
        }),
{
    let message = MessageView::TypingStarted { timestamp };
    lemma_listed_uuid(Mode::Plain, contacts, i, message, timestamp);
}

/// Files for the UUID of a contact, as the list of contacts shows it, go to that account and are
/// reported as sent.
pub proof fn law_files_to_listed_uuid(
    contacts: Seq<Contact>,
    i: int,
    text: Seq<char>,
    files: Seq<usize>,
    timestamp: u64,
)
    requires
        0 <= i < contacts.len(),
    ensures
        ({
            let address = hyphenated(contacts[i].uuid@);
            let order = OrderView::Attachments {
                files,
                text,
                recipients: seq![address],
                timestamp,
            };
            &&& order_queue(order, contacts) == seq![
                DeliveryView {
                    recipient: contacts[i].uuid@,
                    message: files_message(text, files),
                    timestamp,
                },
            ]
            &&& order_report(order, contacts) == ReportView::ResultsNow {
                entries: seq![result_entry(Mode::Attachments, address, true)],
            }
        }),
{
    lemma_listed_uuid(Mode::Attachments, contacts, i, files_message(text, files), timestamp);
}

/// A reaction whose target is given by the UUID of a contact, as the list of contacts shows it,
/// names that account as the author, as text and as bytes.
pub proof fn law_reaction_to_listed_uuid(
    contacts: Seq<Contact>,
    i: int,
    emoji: Seq<char>,
    target_timestamp: u64,
)
    requires
        0 <= i < contacts.len(),
    ensures
        ({
            let author = hyphenated(contacts[i].uuid@);
            reaction_message(contacts, emoji, author, target_timestamp) == (MessageView::Data {
                body: None,
                attachments: Seq::empty(),
                reaction: Some(
                    ReactionView {
                        emoji,
                        remove: false,
                        target_author_aci: Some(author),
                        target_sent_timestamp: target_timestamp,
                        target_author_aci_binary: Some(contacts[i].uuid@),
                    },
                ),
            })
        }),
{
    law_listed_uuid_found(contacts, i, false);
}

/// The names of the members of an answer are different names.
pub proof fn lemma_answer_names()
    ensures
        "jsonrpc"@ != "id"@,
        "jsonrpc"@ != "result"@,
        "jsonrpc"@ != "error"@,
        "id"@ != "result"@,
        "id"@ != "error"@,
        "result"@ != "error"@,
        "message"@ != "code"@,
{
    reveal_strlit("jsonrpc");
    reveal_strlit("id");
    reveal_strlit("result");
    reveal_strlit("error");
    reveal_strlit("message");
    reveal_strlit("code");
    assert("jsonrpc"@.len() == 7 && "id"@.len() == 2 && "result"@.len() == 6 && "error"@.len() == 5
        && "message"@.len() == 7 && "code"@.len() == 4);
}

/// Whether an object has members under these names and no others.
pub open spec fn has_members(json: JsonView, names: Set<Seq<char>>) -> bool {
    json matches JsonView::Object(members) && members.dom() == names
}

/// Whether an answer is well formed: it names the protocol and the request, has either a result,
/// or an error with a message and the one error code, and has nothing else.
pub open spec fn is_answer(json: JsonView, id: JsonView) -> bool {
    &&& json.get("jsonrpc"@) == Some(JsonView::Text("2.0"@))
    &&& json.get("id"@) == Some(id)
    &&& json.get("result"@) is Some <==> json.get("error"@) is None
    &&& json.get("result"@) is Some ==> has_members(json, set!["jsonrpc"@, "id"@, "result"@])
    &&& json.get("error"@) matches Some(error) ==> {
        &&& has_members(json, set!["jsonrpc"@, "id"@, "error"@])
        &&& has_members(error, set!["message"@, "code"@])
        &&& error.get("code"@) == Some(signed(ERROR_CODE))
        &&& error.get("message"@) matches Some(message) && message is Text
    }
}

/// An answer with a result or with an error is well formed.
pub proof fn law_answers_are_well_formed(id: JsonView, result: JsonView, message: Seq<char>)
    ensures
        is_answer(success(id, result), id),
        success(id, result).get("result"@) == Some(result),
        is_answer(refused(id, message), id),
        refused(id, message).get("error"@) == Some(error_json(message)),
        error_json(message).get("message"@) == Some(JsonView::Text(message)),
{
    lemma_answer_names();
    assert(success(id, result)->Object_0.dom() =~= set!["jsonrpc"@, "id"@, "result"@]);
    assert(refused(id, message)->Object_0.dom() =~= set!["jsonrpc"@, "id"@, "error"@]);
    assert(error_json(message)->Object_0.dom() =~= set!["message"@, "code"@]);
}

/// However a request goes, an answer to it is well formed and carries the identifier of the
/// request.
pub proof fn law_every_answer_is_well_formed(
    req: JsonView,
    pending: Map<Seq<u8>, Pending>,
    now: u64,
    events: Seq<(Event, u64)>,
)
    ensures
        run(dispatched(req, pending, now), events).1 matches StepView::Reply(json) ==> is_answer(
            json,
            id_of(req),
        ),
{
    lemma_settled_answer(
        id_of(req),
        method_start(method_of(req), params_of(req), pending, now),
        events,
    );
}

proof fn lemma_settled_answer(
    id: JsonView,
    outcome: Result<ProgressView, RpcErrorView>,
    events: Seq<(Event, u64)>,
)
    ensures
        run(settled(id, outcome), events).1 matches StepView::Reply(json) ==> is_answer(json, id),
    decreases events.len(),
{
    match outcome {
        Ok(ProgressView::Wait(stage, action)) => {
            if events.len() > 0 {
                lemma_settled_answer(
                    id,
                    resumed(stage, events[0].0, events[0].1),
                    events.drop_first(),
                );
            }
        },
        Ok(ProgressView::Finished(result)) => {
            law_answers_are_well_formed(id, result, Seq::empty());
        },
        Err(e) => {
            law_answers_are_well_formed(id, JsonView::Null, e.message());
        },
    }
}

/// Whether the stage waits for what comes of the action.
pub open spec fn stage_fits(stage: StageView, action: ActionView) -> bool {
    match action {
        ActionView::SendToGroup { .. } => stage is SendingToGroup,
        ActionView::LoadContacts => stage is Listing || stage is Resolving,
        ActionView::Deliver(_) => stage is Delivering,
        ActionView::Upload(_) => stage is Uploading,
        ActionView::Download { .. } => stage is Downloading,
    }
}

/// A request always waits for what comes of the action that it has asked for.
pub proof fn law_stage_fits_action(
    req: JsonView,
    pending: Map<Seq<u8>, Pending>,
    id: JsonView,
    stage: StageView,
    event: Event,
    now: u64,
)
    ensures
        dispatched(req, pending, now) matches StepView::Wait {
            id: _,
            stage: first,
            action,
        } ==> stage_fits(first, action),
        stepped(id, stage, event, now) matches StepView::Wait {
            id: _,
            stage: next,
            action,
        } ==> stage_fits(next, action),
{
}

/// How many more actions a request can ask for after the one that it waits for.
pub open spec fn actions_left(stage: StageView) -> nat {
    match stage {
        StageView::SendingToGroup { .. } => 0,
        StageView::Resolving(OrderView::Send { recipients, .. }) => recipients.len(),
        StageView::Resolving(OrderView::Typing { recipients, .. }) => recipients.len(),
        StageView::Resolving(OrderView::Reaction { recipients, .. }) => recipients.len(),
        StageView::Listing => 0,
        StageView::Resolving(OrderView::Attachments { recipients, .. }) => recipients.len(),
        StageView::Delivering { queue, .. } => queue.len(),
        StageView::Uploading { recipients, .. } => recipients.len() + 1,
        StageView::Downloading { .. } => 0,
    }
}

/// Every request comes to an end: each step leaves fewer actions.
pub proof fn law_request_ends(id: JsonView, stage: StageView, event: Event, now: u64)
    requires
        awaits(stage, event),
    ensures
        stepped(id, stage, event, now) matches StepView::Wait {
            id: _,
            stage: next,
            action: _,
        } ==> actions_left(next) < actions_left(stage),
{
    if let StageView::Resolving(order) = stage {
        let contacts = readable(event->Contacts_0->Ok_0@);
        match order {
            OrderView::Send { text, recipients, timestamp } => {
                law_messages_agree(
                    contacts,
                    recipients,
                    text_message(text),
                    timestamp,
                );
            },
            OrderView::Typing { recipients, timestamp } => {
                law_messages_agree(
                    contacts,
                    recipients,
                    MessageView::TypingStarted { timestamp },
                    timestamp,
                );
            },
            OrderView::Reaction {
                emoji,
                target_author,
                target_timestamp,
                recipients,
                timestamp,
            } => {
                law_messages_agree(
                    contacts,
                    recipients,
                    reaction_message(contacts, emoji, target_author, target_timestamp),
                    timestamp,
                );
            },
            OrderView::Attachments { files, text, recipients, timestamp } => {
                law_messages_agree(
                    contacts,
                    recipients,
                    files_message(text, files),
                    timestamp,
                );
            },
        }
    }
}

/// The methods that there are.
pub open spec fn is_method(method: Seq<char>) -> bool {
    ||| method == "send"@
    ||| method == "sendTyping"@
    ||| method == "sendReaction"@
    ||| method == "listContacts"@
    ||| method == "getAttachment"@
    ||| method == "sendAttachments"@
    ||| method == "send_multiple_images"@
}

/// A request for a method that there is not is refused at once, by the name of that method.
pub proof fn law_unknown_method_is_refused(
    req: JsonView,
    pending: Map<Seq<u8>, Pending>,
    now: u64,
)
    requires
        !is_method(method_of(req)),
    ensures
        dispatched(req, pending, now) == StepView::Reply(
            refused(id_of(req), "Unknown method: "@ + method_of(req)),
        ),
{
}

/// The names of the methods are different names.
pub proof fn lemma_method_names()
    ensures
        "sendAttachments"@ != "send"@,
        "sendAttachments"@ != "sendTyping"@,
        "sendAttachments"@ != "sendReaction"@,
        "sendAttachments"@ != "listContacts"@,
        "sendAttachments"@ != "getAttachment"@,
        "send_multiple_images"@ != "send"@,
        "send_multiple_images"@ != "sendTyping"@,
        "send_multiple_images"@ != "sendReaction"@,
        "send_multiple_images"@ != "listContacts"@,
        "send_multiple_images"@ != "getAttachment"@,
        "getAttachment"@ != "send"@,
        "getAttachment"@ != "sendTyping"@,
        "getAttachment"@ != "sendReaction"@,
        "getAttachment"@ != "listContacts"@,
        "listContacts"@ != "send"@,
        "listContacts"@ != "sendTyping"@,
        "listContacts"@ != "sendReaction"@,
        "sendReaction"@ != "send"@,
        "sendReaction"@ != "sendTyping"@,
        "sendTyping"@ != "send"@,
{
    reveal_strlit("send");
    reveal_strlit("sendTyping");
    reveal_strlit("sendReaction");
    reveal_strlit("listContacts");
    reveal_strlit("getAttachment");
    reveal_strlit("sendAttachments");
    reveal_strlit("send_multiple_images");
    assert("send"@.len() == 4 && "sendTyping"@.len() == 10 && "sendReaction"@.len() == 12
        && "listContacts"@.len() == 12 && "getAttachment"@.len() == 13 && "sendAttachments"@.len()
        == 15 && "send_multiple_images"@.len() == 20);
    assert("sendReaction"@[0] == 's' && "listContacts"@[0] == 'l');
}

/// Attachments without a recipient are refused, whatever else is wrong with them.
pub proof fn law_attachments_need_a_recipient(
    req: JsonView,
    pending: Map<Seq<u8>, Pending>,
    now: u64,
)
    requires
        method_of(req) == "sendAttachments"@ || method_of(req) == "send_multiple_images"@,
        recipient_list(params_of(req)).len() == 0,
    ensures
        dispatched(req, pending, now) == StepView::Reply(
            refused(id_of(req), "missing or empty recipient array"@),
        ),
{
    lemma_method_names();
}

/// A message to a group is sent once, to the group alone, and no contact is looked up for it.
pub proof fn law_group_is_sent_to_once(
    req: JsonView,
    pending: Map<Seq<u8>, Pending>,
    now: u64,
    sent_at: u64,
)
    requires
        method_of(req) == "send"@,
        group_id(params_of(req)) is Some,
    ensures
        run(dispatched(req, pending, now), seq![(Event::GroupSent(Ok(())), sent_at)]) == (
            seq![
                ActionView::SendToGroup {
                    group: group_id(params_of(req))->0,
                    message: text_message(
                        message_text(params_of(req)),
                    ),
                    timestamp: now,
                },
            ],
            StepView::Reply(success(id_of(req), group_json(now))),
        ),
{
    lemma_one_action(
        id_of(req),
        StageView::SendingToGroup { timestamp: now },
        ActionView::SendToGroup {
            group: group_id(params_of(req))->0,
            message: text_message(message_text(params_of(req))),
            timestamp: now,
        },
        Event::GroupSent(Ok(())),
        sent_at,
        group_json(now),
    );
}

/// The key of a noted file leads to that file, as long as no later file has the same key.
proof fn lemma_noted(
    pending: Map<Seq<u8>, Pending>,
    pointers: Seq<AttachmentPointer>,
    i: int,
    n: nat,
)
    requires
        0 <= i < n <= pointers.len(),
        pointers[i].client_uuid is Some,
        forall|j: int|
            i < j < n && (#[trigger] pointers[j]).client_uuid is Some ==> pointers[j].client_uuid->0@
                != pointers[i].client_uuid->0@,
    ensures
        ({
            let key = pointers[i].client_uuid->0@;
            let noted = files_noted(pending, pointers, n);
            noted.contains_key(key) && noted[key] == (Pending {
                handle: pointers[i].handle,
                content_type: pointers[i].content_type,
            })
        }),
    decreases n,
{
    if i < n - 1 {
        assert(pointers[n - 1].client_uuid is Some ==> pointers[n - 1].client_uuid->0@
            != pointers[i].client_uuid->0@);
        lemma_noted(pending, pointers, i, (n - 1) as nat);
    }
}

/// A file that was shown can be fetched: asking for it by the identifier with which its message
/// was shown fetches that file, unless a later file of the message has the same client UUID.
pub proof fn law_shown_file_can_be_fetched(
    pending: Map<Seq<u8>, Pending>,
    msg: Received,
    data: DataMessage,
    i: int,
    params: Map<Seq<char>, JsonView>,
)
    requires
        msg matches Received::Content(content) && content.body == ContentBody::DataMessage(data),
        0 <= i < data.attachments@.len(),
        data.attachments@[i].client_uuid is Some,
        forall|j: int|
            i < j < data.attachments@.len() && (#[trigger] data.attachments@[j]).client_uuid is Some
                ==> data.attachments@[j].client_uuid->0@ != data.attachments@[i].client_uuid->0@,
        text_member(params, "attachmentId"@) == Some(attachment_id(data.attachments@[i])),
    ensures
        get_attachment_start(params, message_noted(pending, msg)) == Ok::<
            ProgressView,
            RpcErrorView,
        >(
            ProgressView::Wait(
                StageView::Downloading {
                    content_type: text_view(data.attachments@[i].content_type),
                },
                ActionView::Download { handle: data.attachments@[i].handle },
            ),
        ),
{
    let pointers = data.attachments@;
    law_base64_round_trip(pointers[i].client_uuid->0@);
    lemma_noted(pending, pointers, i, pointers.len());
}

/// What is fetched can be read back: the data of the answer are the bytes, and the size is theirs.
pub proof fn law_fetched_data_can_be_read(bytes: Seq<u8>, content_type: Option<Seq<char>>)
    ensures
        ({
            let answer = attachment_answer(bytes, content_type);
            &&& answer.get("data"@) == Some(JsonView::Text(base64_text(bytes)))
            &&& decoded(base64_text(bytes)) == Some(bytes)
            &&& answer.get("size"@) == Some(unsigned(bytes.len() as u64))
        }),
{
    law_base64_round_trip(bytes);
    reveal_strlit("data");
    reveal_strlit("contentType");
    reveal_strlit("size");
    assert("contentType"@.len() == 11 && "data"@.len() == 4 && "size"@.len() == 4);
    assert("data"@[0] == 'd' && "size"@[0] == 's');
}

proof fn lemma_files_kept(
    pending: Map<Seq<u8>, Pending>,
    pointers: Seq<AttachmentPointer>,
    n: nat,
    key: Seq<u8>,
)
    requires
        n <= pointers.len(),
        pending.contains_key(key),
    ensures
        files_noted(pending, pointers, n).contains_key(key),
        (forall|j: int|
            0 <= j < n && (#[trigger] pointers[j]).client_uuid is Some
                ==> pointers[j].client_uuid->0@ != key) ==> files_noted(pending, pointers, n)[key]
            == pending[key],
    decreases n,
{
    if n > 0 {
        lemma_files_kept(pending, pointers, (n - 1) as nat, key);
        if forall|j: int|
            0 <= j < n && (#[trigger] pointers[j]).client_uuid is Some
                ==> pointers[j].client_uuid->0@ != key {
            assert(pointers[n - 1].client_uuid is Some ==> pointers[n - 1].client_uuid->0@ != key);
        }
    }
}

/// Whether the event brings a file with this key.
pub open spec fn brings_file(event: ListenerEvent, key: Seq<u8>) -> bool {
    match event {
        ListenerEvent::Message(
            Some(Received::Content(Content { body: ContentBody::DataMessage(data), .. })),
        ) => exists|j: int|
            0 <= j < data.attachments@.len() && (#[trigger] data.attachments@[j]).client_uuid
                is Some && data.attachments@[j].client_uuid->0@ == key,
        _ => false,
    }
}

/// A file that can be fetched can be fetched from then on: no event takes it away, and only a
/// file with the same key takes its place.
pub proof fn law_files_stay(pending: Map<Seq<u8>, Pending>, event: ListenerEvent, key: Seq<u8>)
    requires
        pending.contains_key(key),
    ensures
        pending_after(pending, event).contains_key(key),
        !brings_file(event, key) ==> pending_after(pending, event)[key] == pending[key],
{
    if let ListenerEvent::Message(Some(Received::Content(content))) = event {
        if let ContentBody::DataMessage(data) = content.body {
            lemma_files_kept(pending, data.attachments@, data.attachments@.len(), key);
        }
    }
}

/// The attachments that can be fetched after a sequence of events.
pub open spec fn pending_after_all(
    pending: Map<Seq<u8>, Pending>,
    events: Seq<ListenerEvent>,
) -> Map<Seq<u8>, Pending>
    decreases events.len(),
{
    if events.len() == 0 {
        pending
    } else {
        pending_after(pending_after_all(pending, events.drop_last()), events.last())
    }
}

/// However many events follow, a file can be fetched as long as none of them brings a file with
/// the same key.
pub proof fn law_files_stay_through_all(
    pending: Map<Seq<u8>, Pending>,
    events: Seq<ListenerEvent>,
    key: Seq<u8>,
)
    requires
        pending.contains_key(key),
        forall|k: int| 0 <= k < events.len() ==> !brings_file(#[trigger] events[k], key),
    ensures
        pending_after_all(pending, events).contains_key(key),
        pending_after_all(pending, events)[key] == pending[key],
    decreases events.len(),
{
    if events.len() > 0 {
        let rest = events.drop_last();
        assert forall|k: int| 0 <= k < rest.len() implies !brings_file(#[trigger] rest[k], key) by {
            assert(rest[k] == events[k]);
        }
        law_files_stay_through_all(pending, rest, key);
        law_files_stay(pending_after_all(pending, rest), events.last(), key);
    }
}

/// A file that was shown can be fetched at any later time: after whatever events, asking for it
/// by the identifier with which its message was shown fetches that file, unless a later file has
/// the same client UUID.
pub proof fn law_shown_file_can_be_fetched_later(
    pending: Map<Seq<u8>, Pending>,
    msg: Received,
    data: DataMessage,
    i: int,
    events: Seq<ListenerEvent>,
    params: Map<Seq<char>, JsonView>,
)
    requires
        msg matches Received::Content(content) && content.body == ContentBody::DataMessage(data),
        0 <= i < data.attachments@.len(),
        data.attachments@[i].client_uuid is Some,
        forall|j: int|
            i < j < data.attachments@.len() && (#[trigger] data.attachments@[j]).client_uuid is Some
                ==> data.attachments@[j].client_uuid->0@ != data.attachments@[i].client_uuid->0@,
        forall|k: int|
            0 <= k < events.len() ==> !brings_file(
                #[trigger] events[k],
                data.attachments@[i].client_uuid->0@,
            ),
        text_member(params, "attachmentId"@) == Some(attachment_id(data.attachments@[i])),
    ensures
        get_attachment_start(
            params,
            pending_after_all(pending, seq![ListenerEvent::Message(Some(msg))] + events),
        ) == Ok::<ProgressView, RpcErrorView>(
            ProgressView::Wait(
                StageView::Downloading {
                    content_type: text_view(data.attachments@[i].content_type),
                },
                ActionView::Download { handle: data.attachments@[i].handle },
            ),
        ),
{
    let pointers = data.attachments@;
    let key = pointers[i].client_uuid->0@;
    law_base64_round_trip(key);
    lemma_noted(pending, pointers, i, pointers.len());
    lemma_first_event(pending, ListenerEvent::Message(Some(msg)), events);
    law_files_stay_through_all(message_noted(pending, msg), events, key);
}

/// What follows an event starts from what that event left.
proof fn lemma_first_event(
    pending: Map<Seq<u8>, Pending>,
    first: ListenerEvent,
    events: Seq<ListenerEvent>,
)
    ensures
        pending_after_all(pending, seq![first] + events) == pending_after_all(
            pending_after(pending, first),
            events,
        ),
    decreases events.len(),
{
    let all = seq![first] + events;
    if events.len() == 0 {
        assert(all.drop_last() =~= Seq::empty());
        assert(all.last() == first);
        assert(pending_after_all(pending, all.drop_last()) == pending);
    } else {
        assert(all.drop_last() =~= seq![first] + events.drop_last());
        lemma_first_event(pending, first, events.drop_last());
    }
}

proof fn lemma_phones_kept(
    phones: Map<Seq<u8>, String>,
    listing: Seq<Result<Contact, String>>,
    n: nat,
    key: Seq<u8>,
)
    requires
        n <= listing.len(),
        phones.contains_key(key),
    ensures
        phones_noted(phones, listing, n).contains_key(key),
        (forall|j: int| 0 <= j < listing.len() ==> !#[trigger] gives_phone(listing[j], key))
            ==> phones_noted(phones, listing, n)[key] == phones[key],
    decreases n,
{
    if n > 0 {
        lemma_phones_kept(phones, listing, (n - 1) as nat, key);
        if forall|j: int| 0 <= j < listing.len() ==> !#[trigger] gives_phone(listing[j], key) {
            assert(!gives_phone(listing[n - 1], key));
        }
    }
}

/// Whether an entry of a listing gives a phone number for this key.
pub open spec fn gives_phone(entry: Result<Contact, String>, key: Seq<u8>) -> bool {
    entry matches Ok(contact) && contact.phone_number is Some && contact.uuid@ == key
}

/// Whether the event brings a phone number for this key.
pub open spec fn brings_phone(event: ListenerEvent, key: Seq<u8>) -> bool {
    event matches ListenerEvent::Contacts(Ok(listing)) && exists|j: int|
        0 <= j < listing@.len() && #[trigger] gives_phone(listing@[j], key)
}

/// A phone number that is known is never forgotten: no event takes it away, and only a listing
/// that gives a phone number for the same account changes it.
pub proof fn law_phones_stay(phones: Map<Seq<u8>, String>, event: ListenerEvent, key: Seq<u8>)
    requires
        phones.contains_key(key),
    ensures
        phones_after(phones, event).contains_key(key),
        !brings_phone(event, key) ==> phones_after(phones, event)[key] == phones[key],
{
    if let ListenerEvent::Contacts(Ok(listing)) = event {
        lemma_good_prefix(listing@);
        lemma_phones_kept(phones, listing@, good_entries(listing@), key);
    }
}

/// A listing has no more good entries than entries.
proof fn lemma_good_prefix(listing: Seq<Result<Contact, String>>)
    ensures
        good_entries(listing) <= listing.len(),
    decreases listing.len(),
{
    if listing.len() > 0 {
        lemma_good_prefix(listing.drop_first());
    }
}

/// The names in an envelope that the phone number of the sender touches.
proof fn lemma_source_names()
    ensures
        "source"@ != "sourceUuid"@,
        "source"@ != "timestamp"@,
        "sourceUuid"@ != "timestamp"@,
{
    reveal_strlit("source");
    reveal_strlit("sourceUuid");
    reveal_strlit("timestamp");
    assert("source"@.len() == 6 && "sourceUuid"@.len() == 10 && "timestamp"@.len() == 9);
}

/// The names of the members of an event are different names.
proof fn lemma_event_names()
    ensures
        "type"@ != "envelope"@,
{
    reveal_strlit("type");
    reveal_strlit("envelope");
    assert("type"@.len() == 4 && "envelope"@.len() == 8);
}

/// A known phone number stands in both source members, and nothing else of the message changes.
pub proof fn law_phone_is_the_source(
    members: Map<Seq<char>, JsonView>,
    phone: String,
    name: Seq<char>,
)
    ensures
        ({
            let shown = with_phone(members, Some(phone));
            &&& text_member(shown, "source"@) == Some(phone@)
            &&& text_member(shown, "sourceUuid"@) == Some(phone@)
            &&& name != "source"@ && name != "sourceUuid"@ ==> member(shown, name)
                == member(members, name)
        }),
{
    lemma_source_names();
}

/// A message from an account whose phone number is known is published with that number as its
/// source.
pub proof fn law_known_sender_is_shown(
    phones: Map<Seq<u8>, String>,
    content: Content,
    phone: String,
)
    requires
        phone_of(phones, content.sender) == Some(phone),
    ensures
        ({
            let event = ListenerEvent::Message(Some(Received::Content(content)));
            let shown = published(phones, ListenerTask::NextMessage, event);
            &&& shown is Some
            &&& shown->0.get("envelope"@) matches Some(envelope)
            &&& envelope.get("source"@) == Some(JsonView::Text(phone@))
            &&& envelope.get("sourceUuid"@) == Some(JsonView::Text(phone@))
        }),
{
    lemma_event_names();
    law_phone_is_the_source(content_members(content), phone, Seq::empty());
}

/// The last phone number that the noted entries give for a key is the one that is known.
pub proof fn lemma_last_phone(
    phones: Map<Seq<u8>, String>,
    listing: Seq<Result<Contact, String>>,
    i: int,
    n: nat,
    key: Seq<u8>,
)
    requires
        0 <= i < n <= listing.len(),
        gives_phone(listing[i], key),
        forall|j: int| i < j < n ==> !#[trigger] gives_phone(listing[j], key),
    ensures
        phones_noted(phones, listing, n).contains_key(key),
        Some(phones_noted(phones, listing, n)[key]) == listing[i]->Ok_0.phone_number,
    decreases n,
{
    if i < n - 1 {
        assert(!gives_phone(listing[n - 1], key));
        lemma_last_phone(phones, listing, i, (n - 1) as nat, key);
    }
}

/// The phone number that a contact had when the contacts were listed is the one that is known for
/// its account, if the listing could be read that far and no later entry says otherwise.
pub proof fn law_listed_phone_is_known(
    phones: Map<Seq<u8>, String>,
    listing: Vec<Result<Contact, String>>,
    i: int,
    uuid: Uuid,
)
    requires
        0 <= i < good_entries(listing@),
        gives_phone(listing@[i], uuid@),
        forall|j: int| i < j < good_entries(listing@) ==> !#[trigger] gives_phone(listing@[j], uuid@),
    ensures
        phone_of(phones_after(phones, ListenerEvent::Contacts(Ok(listing))), ServiceId::Aci(uuid))
            == listing@[i]->Ok_0.phone_number,
{
    lemma_good_prefix(listing@);
    lemma_last_phone(phones, listing@, i, good_entries(listing@), uuid@);
}

/// A change of the contacts is announced only after they have been listed again: the message
/// leads to a listing and publishes nothing, and what comes of the listing publishes the change.
pub proof fn law_change_announced_after_listing(
    phones: Map<Seq<u8>, String>,
    event: ListenerEvent,
)
    requires
        event is Contacts,
    ensures
        ({
            let change = ListenerEvent::Message(Some(Received::Contacts));
            let task = next_task(ListenerTask::NextMessage, change);
            &&& published(phones, ListenerTask::NextMessage, change) is None
            &&& task == ListenerTask::ReloadContacts
            &&& answers(task, event)
            &&& published(phones, task, event) == Some(
                in_envelope(Received::Contacts, envelope_members(Received::Contacts)),
            )
            &&& next_task(task, event) == ListenerTask::NextMessage
        }),
{
}

/// Everything that is published has an envelope. It says that it is a message exactly if a
/// message was received.
pub proof fn law_events_have_envelopes(msg: Received, phone: Option<String>)
    ensures
        ({
            let members = with_phone(envelope_members(msg), phone);
            let shown = in_envelope(msg, members);
            &&& shown.get("envelope"@) == Some(JsonView::Object(members))
            &&& shown.get("type"@) == if msg is Content {
                Some(JsonView::Text("message"@))
            } else {
                None
            }
        }),
{
    lemma_event_names();
}

/// Whether the listener, from its start on, is given these tasks in turn when these events come
/// of them. The last task is still open.
pub open spec fn is_trace(tasks: Seq<ListenerTask>, events: Seq<ListenerEvent>) -> bool {
    &&& tasks.len() == events.len() + 1
    &&& tasks[0] == ListenerTask::LoadContacts
    &&& forall|i: int|
        0 <= i < events.len() ==> answers(tasks[i], #[trigger] events[i]) && tasks[i + 1]
            == next_task(tasks[i], events[i])
}

/// The contacts are listed once at the start, before the first stream is opened, and once for
/// each message that they have changed, before that change is announced. Nothing else has them
/// listed, and nothing else touches the phone numbers. A listing that fails ends nothing and
/// suppresses no announcement.
pub proof fn law_contacts_are_listed_when_due(
    phones: Map<Seq<u8>, String>,
    tasks: Seq<ListenerTask>,
    events: Seq<ListenerEvent>,
    i: int,
)
    requires
        is_trace(tasks, events),
        0 <= i < tasks.len(),
    ensures
        tasks[i] is LoadContacts <==> i == 0,
        i == 1 ==> tasks[i] == ListenerTask::OpenStream,
        tasks[i] is ReloadContacts <==> i > 0 && events[i - 1] == ListenerEvent::Message(
            Some(Received::Contacts),
        ),
        i < events.len() && tasks[i] is LoadContacts ==> published(phones, tasks[i], events[i])
            is None,
        i < events.len() && tasks[i] is ReloadContacts ==> {
            &&& published(phones, tasks[i], events[i]) == Some(
                in_envelope(Received::Contacts, envelope_members(Received::Contacts)),
            )
            &&& tasks[i + 1] == ListenerTask::NextMessage
        },
        i < events.len() && !(tasks[i] is LoadContacts) && !(tasks[i] is ReloadContacts)
            ==> phones_after(phones, events[i]) == phones,
{
    if i > 0 {
        assert(answers(tasks[i - 1], events[i - 1]) && tasks[i] == next_task(
            tasks[i - 1],
            events[i - 1],
        ));
    }
    if i < events.len() {
        assert(answers(tasks[i], events[i]) && tasks[i + 1] == next_task(tasks[i], events[i]));
    }
}

/// Everything else that is received is published at once, exactly once.
pub proof fn law_messages_are_published(phones: Map<Seq<u8>, String>, msg: Received)
    requires
        !(msg is Contacts),
    ensures
        ({
            let event = ListenerEvent::Message(Some(msg));
            &&& published(phones, ListenerTask::NextMessage, event) is Some
            &&& next_task(ListenerTask::NextMessage, event) == ListenerTask::NextMessage
        }),
{
}

/// A stream that cannot be opened, or has ended, is opened again after a pause: a longer one if it
/// could not be opened.
pub proof fn law_stream_is_reopened(failure: String)
    ensures
        ({
            let failed = next_task(ListenerTask::OpenStream, ListenerEvent::Stream(Err(failure)));
            let ended = next_task(ListenerTask::NextMessage, ListenerEvent::Message(None));
            &&& failed == ListenerTask::Sleep(RETRY_SECS)
            &&& ended == ListenerTask::Sleep(REOPEN_SECS)
            &&& RETRY_SECS > REOPEN_SECS
            &&& next_task(failed, ListenerEvent::Slept) == ListenerTask::OpenStream
            &&& next_task(ended, ListenerEvent::Slept) == ListenerTask::OpenStream
        }),
{
}

} // verus!
