//! What clients see: what requests and messages come to, read off what goes in and what comes out.
use std::time::SystemTime;
use vstd::prelude::*;
use vstd::utf8::encode_utf8;

use crate::clock::{millis_in, span_to, stamp_at, timestamp_of};
use crate::codec::{base64_text, encodable, law_base64_round_trip, refusal};
use crate::contacts::{
    by_phone, by_uuid, contact_match, first_where, good_entries, is_first, lemma_first_exists,
    lemma_good_entries, phone_match, readable, uuid_match, Contact,
};
use crate::ident::{denotes, hyphenated, lemma_denotes_one, parsed, Uuid};
use crate::json::{
    array_member, lemma_items_view, member, members_view, optional_number, optional_text, signed,
    text_member, u64_member, unsigned, Json, JsonView, Number, Object,
};
use crate::laws::{
    brings_file, gives_phone, law_answers_are_well_formed, lemma_answer_names, lemma_method_names,
};
use crate::message::{
    text_message, text_view, Delivery, DeliveryView, Message, MessageView, Reaction, Upload,
    UploadView,
};
use crate::params::{
    group_id, message_text, recipient_list, texts_among, upload_of, uploads_of, RpcErrorView,
};
use crate::rpc::{
    attachment_answer, contacts_json, dispatched, emoji_of, files_message, fits, group_json, id_of,
    method_of, order_queue, order_report, params_of, reaction_message, refused, stepped, success,
    target_author, target_timestamp, uploaded, Session, Step, StepView,
};
use crate::server::database_path;
use crate::session::{
    deliveries_to, result_entry, Action, ActionView, Event, Mode, OrderView, StageView,
};
use crate::sse::{
    attachment_json, envelope_members, files_noted, in_envelope, next_task, pending_after,
    phones_after, pointer_fits, published, refresh_failure, with_data, AttachmentPointer, Content,
    ContentBody, DataMessage, ListenerEvent, ListenerTask, Received, Sent, CHANNEL_CAPACITY,
    SSE_KEEPALIVE_SECS, SSE_KEEPALIVE_TEXT,
};
use crate::state::{phone_of, phones_noted, Pending, ServiceId};
use crate::text::{occurs, occurs_at};
use crate::ws::{ping_time, ws_action, WsAction, WsActionView, WsEvent, KEEPALIVE_SECS};

verus! {

/// What an object holds under a name.
pub open spec fn field(json: JsonView, name: Seq<char>) -> Option<JsonView> {
    match json {
        JsonView::Object(members) => if members.contains_key(name) {
            Some(members[name])
        } else {
            None
        },
        _ => None,
    }
}

/// The text that an object holds under a name.
pub open spec fn text_field(json: JsonView, name: Seq<char>) -> Option<Seq<char>> {
    match field(json, name) {
        Some(JsonView::Text(text)) => Some(text),
        _ => None,
    }
}

/// The number without sign or fraction that an object holds under a name.
pub open spec fn number_field(json: JsonView, name: Seq<char>) -> Option<u64> {
    match field(json, name) {
        Some(JsonView::Number(Number::Unsigned(n))) => Some(n),
        _ => None,
    }
}

/// The items of the array that an object holds under a name.
pub open spec fn array_field(json: JsonView, name: Seq<char>) -> Option<Seq<JsonView>> {
    match field(json, name) {
        Some(JsonView::Array(items)) => Some(items),
        _ => None,
    }
}

/// Whether an object holds something under each of these names and under no other.
pub open spec fn holds_only(json: JsonView, names: Set<Seq<char>>) -> bool {
    json matches JsonView::Object(members) && members.dom() == names
}

/// An object is read by the names of its members, and a member counts as a text, a number or an
/// array only if it is one.
pub proof fn law_json_is_read(json: JsonView, members: Map<Seq<char>, JsonView>, name: Seq<char>)
    ensures
        json.get(name) == field(json, name),
        json.as_text() == match json {
            JsonView::Text(text) => Some(text),
            _ => None,
        },
        json.as_array() == match json {
            JsonView::Array(items) => Some(items),
            _ => None,
        },
        json.as_u64() == match json {
            JsonView::Number(Number::Unsigned(n)) => Some(n),
            _ => None,
        },
        member(members, name) == field(JsonView::Object(members), name),
        text_member(members, name) == text_field(JsonView::Object(members), name),
        u64_member(members, name) == number_field(JsonView::Object(members), name),
        array_member(members, name) == array_field(JsonView::Object(members), name),
{
}

/// Numbers keep their value and their sign, and what is absent is `null`.
pub proof fn law_numbers_are_kept(n: u64, i: i64, small: u32, text: String)
    ensures
        unsigned(n) == JsonView::Number(Number::Unsigned(n)),
        i >= 0 ==> signed(i) == JsonView::Number(Number::Unsigned(i as u64)),
        i < 0 ==> signed(i) == JsonView::Number(Number::Negative(i)),
        optional_number(Some(small)) == JsonView::Number(Number::Unsigned(small as u64)),
        optional_number(None) == JsonView::Null,
        optional_text(Some(text)) == JsonView::Text(text@),
        optional_text(None) == JsonView::Null,
{
}

/// A JSON value says what it holds: texts their characters, and arrays what their items say, one
/// for one and in order.
pub proof fn law_json_says_what_it_holds(b: bool, n: Number, text: String, items: Vec<Json>, k: int)
    ensures
        Json::Null@ == JsonView::Null,
        Json::Bool(b)@ == JsonView::Bool(b),
        Json::Number(n)@ == JsonView::Number(n),
        Json::Text(text)@ == JsonView::Text(text@),
        Json::Array(items)@ is Array,
        Json::Array(items)@->Array_0.len() == items@.len(),
        0 <= k < items@.len() ==> Json::Array(items)@->Array_0[k] == items@[k]@,
{
    lemma_items_view(items@);
}

proof fn lemma_members(members: Seq<(String, Json)>, k: int)
    requires
        0 <= k < members.len(),
        forall|j: int| k < j < members.len() ==> (#[trigger] members[j]).0@ != members[k].0@,
    ensures
        members_view(members).contains_key(members[k].0@),
        members_view(members)[members[k].0@] == members[k].1@,
    decreases members.len(),
{
    let rest = members.drop_last();
    if k < rest.len() {
        assert forall|j: int| k < j < rest.len() implies (#[trigger] rest[j]).0@ != rest[k].0@ by {
            assert(members[j].0@ != members[k].0@);
        }
        lemma_members(rest, k);
        assert(members.last() == members[members.len() - 1]);
    }
}

proof fn lemma_no_member(members: Seq<(String, Json)>, name: Seq<char>)
    requires
        forall|j: int| 0 <= j < members.len() ==> (#[trigger] members[j]).0@ != name,
    ensures
        !members_view(members).contains_key(name),
    decreases members.len(),
{
    if members.len() > 0 {
        let rest = members.drop_last();
        assert forall|j: int| 0 <= j < rest.len() implies (#[trigger] rest[j]).0@ != name by {
            assert(members[j].0@ != name);
        }
        lemma_no_member(rest, name);
        assert(members.last() == members[members.len() - 1]);
    }
}

/// An object says under each name what was inserted last under it, and nothing under a name
/// under which nothing was inserted.
pub proof fn law_object_says_what_it_holds(object: Object, k: int, name: Seq<char>)
    requires
        0 <= k < object.members@.len(),
        forall|j: int|
            k < j < object.members@.len() ==> (#[trigger] object.members@[j]).0@
                != object.members@[k].0@,
        forall|j: int|
            0 <= j < object.members@.len() ==> (#[trigger] object.members@[j]).0@ != name,
    ensures
        field(Json::Object(object)@, object.members@[k].0@) == Some(object.members@[k].1@),
        field(Json::Object(object)@, name) is None,
        Json::Object(object)@ == JsonView::Object(object@),
{
    lemma_members(object.members@, k);
    lemma_no_member(object.members@, name);
}

/// An address without the plus sign at its start.
pub open spec fn bare(address: Seq<char>) -> Seq<char> {
    if address.len() > 0 && address[0] == '+' {
        address.subrange(1, address.len() as int)
    } else {
        address
    }
}

/// Whether the whole of a part stands somewhere in a text.
pub open spec fn stands_in(part: Seq<char>, text: Seq<char>) -> bool {
    exists|at: int|
        0 <= at && at + part.len() <= text.len() && #[trigger] text.subrange(at, at + part.len())
            == part
}

/// Whether a contact has a phone number in which the whole of the address stands.
pub open spec fn has_number(contact: Contact, address: Seq<char>) -> bool {
    contact.phone_number is Some && stands_in(bare(address), contact.phone_number->0@)
}

/// Whether the address writes the UUID of the contact.
pub open spec fn has_uuid(contact: Contact, address: Seq<char>) -> bool {
    denotes(bare(address), contact.uuid@)
}

/// A part occurs in a text exactly if the whole of it stands there.
pub proof fn law_occurs_is_standing_in(part: Seq<char>, text: Seq<char>)
    ensures
        occurs(text, part) == stands_in(part, text),
{
    if occurs(text, part) {
        let at = choose|at: int| occurs_at(text, part, at);
        assert(text.subrange(at, at + part.len()) == part);
    }
    if stands_in(part, text) {
        let at = choose|at: int|
            0 <= at && at + part.len() <= text.len() && #[trigger] text.subrange(
                at,
                at + part.len(),
            ) == part;
        assert(occurs_at(text, part, at));
    }
}

proof fn lemma_has_number(contact: Contact, address: Seq<char>)
    ensures
        by_phone(bare(address))(contact) == has_number(contact, address),
{
    if contact.phone_number is Some {
        law_occurs_is_standing_in(bare(address), contact.phone_number->0@);
    }
}

proof fn lemma_parsed(address: Seq<char>, uuid: Seq<u8>)
    ensures
        denotes(bare(address), uuid) <==> parsed(bare(address)) == Some(uuid),
{
    if exists|b: Seq<u8>| denotes(bare(address), b) {
        let b = choose|b: Seq<u8>| denotes(bare(address), b);
        if denotes(bare(address), uuid) {
            lemma_denotes_one(bare(address), b, uuid);
        }
    }
}

/// A contact that an address finds is one that the address means: the address writes its UUID,
/// or the whole address, but for a plus sign at its start, stands in its phone number.
pub proof fn law_found_contact_is_meant(contacts: Seq<Contact>, address: Seq<char>, i: int)
    requires
        contact_match(contacts, address) == Some(i),
    ensures
        0 <= i < contacts.len(),
        has_uuid(contacts[i], address) || has_number(contacts[i], address),
        uuid_match(contacts, address) is None ==> has_number(contacts[i], address),
        phone_match(contacts, address) == Some(i) ==> has_number(contacts[i], address),
{
    lemma_has_number(contacts[i], address);
    lemma_parsed(address, contacts[i].uuid@);
    if phone_match(contacts, address) == Some(i) {
        let test = by_phone(bare(address));
        assert(is_first(contacts, test, choose|k: int| is_first(contacts, test, k)));
    }
    if let Some(uuid) = parsed(bare(address)) {
        if uuid_match(contacts, address) is Some {
            let test = by_uuid(uuid);
            assert(is_first(contacts, test, choose|k: int| is_first(contacts, test, k)));
        }
    }
}

/// A contact that an address means is not passed over: if one of the contacts is meant, one is
/// found, and it does not stand behind that one unless a UUID led to it.
pub proof fn law_meant_contact_is_found(contacts: Seq<Contact>, address: Seq<char>, k: int)
    requires
        0 <= k < contacts.len(),
    ensures
        has_uuid(contacts[k], address) ==> {
            &&& contact_match(contacts, address) matches Some(i)
            &&& 0 <= i <= k
            &&& contacts[i].uuid@ == contacts[k].uuid@
        },
        has_number(contacts[k], address) ==> {
            &&& contact_match(contacts, address) matches Some(i)
            &&& 0 <= i < contacts.len()
            &&& i <= k || has_uuid(contacts[i], address)
        },
        has_number(contacts[k], address) ==> {
            &&& phone_match(contacts, address) matches Some(i)
            &&& 0 <= i <= k
        },
{
    lemma_has_number(contacts[k], address);
    lemma_parsed(address, contacts[k].uuid@);
    if has_uuid(contacts[k], address) {
        lemma_first_exists(contacts, by_uuid(contacts[k].uuid@), k);
    }
    if has_number(contacts[k], address) {
        lemma_first_exists(contacts, by_phone(bare(address)), k);
        if let Some(uuid) = parsed(bare(address)) {
            if let Some(i) = first_where(contacts, by_uuid(uuid)) {
                assert(is_first(contacts, by_uuid(uuid), i));
                lemma_parsed(address, contacts[i].uuid@);
            }
        }
    }
}

/// A search by phone number alone finds the first contact in whose number the whole address
/// stands.
pub proof fn law_number_finds_the_first(contacts: Seq<Contact>, address: Seq<char>, i: int, k: int)
    requires
        phone_match(contacts, address) == Some(i),
    ensures
        0 <= i < contacts.len(),
        has_number(contacts[i], address),
        0 <= k < i ==> !has_number(contacts[k], address),
{
    let test = by_phone(bare(address));
    assert(is_first(contacts, test, choose|j: int| is_first(contacts, test, j)));
    lemma_has_number(contacts[i], address);
    if 0 <= k < i {
        lemma_has_number(contacts[k], address);
        assert(!test(contacts[k]));
    }
}

/// The full number of a contact finds exactly that contact, unless the number writes a UUID of a
/// contact or stands in the number of an earlier contact too.
pub proof fn law_full_number_finds_its_contact(contacts: Seq<Contact>, i: int)
    requires
        0 <= i < contacts.len(),
        contacts[i].phone_number is Some,
        forall|k: int|
            0 <= k < contacts.len() ==> !has_uuid(
                #[trigger] contacts[k],
                contacts[i].phone_number->0@,
            ),
        forall|k: int|
            0 <= k < i ==> !has_number(#[trigger] contacts[k], contacts[i].phone_number->0@),
    ensures
        contact_match(contacts, contacts[i].phone_number->0@) == Some(i),
        phone_match(contacts, contacts[i].phone_number->0@) == Some(i),
{
    let phone = contacts[i].phone_number->0@;
    let part = bare(phone);
    let at = phone.len() - part.len();
    assert(phone.subrange(at, at + part.len()) =~= part);
    assert(stands_in(part, phone));
    law_meant_contact_is_found(contacts, phone, i);
    let found = contact_match(contacts, phone)->0;
    law_found_contact_is_meant(contacts, phone, found);
    assert(!has_uuid(contacts[found], phone));
    if let Some(uuid) = parsed(part) {
        if let Some(j) = first_where(contacts, by_uuid(uuid)) {
            assert(is_first(contacts, by_uuid(uuid), j));
            lemma_parsed(phone, contacts[j].uuid@);
            assert(!has_uuid(contacts[j], phone));
        }
    }
    assert(uuid_match(contacts, phone) is None);
}

/// A request is read by its members: its method is empty unless it is a text, its parameters are
/// empty unless they are an object, and its identifier is `null` if it is absent.
pub proof fn law_request_is_read(req: JsonView)
    ensures
        text_field(req, "method"@) matches Some(method) ==> method_of(req) == method,
        text_field(req, "method"@) is None ==> method_of(req).len() == 0,
        field(req, "params"@) matches Some(JsonView::Object(params)) ==> params_of(req) == params,
        !(field(req, "params"@) matches Some(JsonView::Object(_))) ==> params_of(req)
            == Map::<Seq<char>, JsonView>::empty(),
        field(req, "id"@) matches Some(id) ==> id_of(req) == id,
        field(req, "id"@) is None ==> id_of(req) == JsonView::Null,
{
}

/// Each parameter is taken from its member as it stands there, and has a default if that member
/// is absent or something else.
pub proof fn law_parameters_are_read(params: Map<Seq<char>, JsonView>)
    ensures
        ({
            let json = JsonView::Object(params);
            &&& text_field(json, "message"@) matches Some(text) ==> message_text(params) == text
            &&& text_field(json, "message"@) is None ==> message_text(params).len() == 0
            &&& text_field(json, "groupId"@) matches Some(group) ==> group_id(params) == Some(
                encode_utf8(group),
            )
            &&& text_field(json, "groupId"@) is None ==> group_id(params) is None
            &&& text_field(json, "emoji"@) matches Some(emoji) ==> emoji_of(params) == emoji
            &&& text_field(json, "emoji"@) is None ==> emoji_of(params) == message_text(params)
            &&& text_field(json, "targetAuthor"@) matches Some(author) ==> target_author(params)
                == author
            &&& text_field(json, "targetAuthor"@) is None ==> target_author(params).len() == 0
            &&& number_field(json, "targetTimestamp"@) matches Some(t) ==> target_timestamp(params)
                == t
            &&& number_field(json, "targetTimestamp"@) is None ==> target_timestamp(params) == 0
            &&& array_field(json, "recipient"@) matches Some(items) ==> recipient_list(params)
                == texts_among(items)
            &&& array_field(json, "recipient"@) is None ==> recipient_list(params).len() == 0
        }),
{
}

/// The recipients of an array are those of its parts, in order: a text is a recipient, and
/// anything else is none.
pub proof fn law_recipients_add_up(first: Seq<JsonView>, second: Seq<JsonView>, item: JsonView)
    ensures
        texts_among(first + second) == texts_among(first) + texts_among(second),
        item matches JsonView::Text(text) ==> texts_among(seq![item]) == seq![text],
        !(item is Text) ==> texts_among(seq![item]).len() == 0,
    decreases second.len(),
{
    assert(seq![item].drop_last() =~= Seq::empty());
    reveal_with_fuel(texts_among, 2);
    assert(texts_among(Seq::empty()) =~= Seq::empty());
    if second.len() == 0 {
        assert(first + second =~= first);
        assert(texts_among(first) + texts_among(second) =~= texts_among(first));
    } else {
        assert((first + second).drop_last() =~= first + second.drop_last());
        law_recipients_add_up(first, second.drop_last(), item);
        assert(texts_among(first + second) =~= texts_among(first) + texts_among(second));
    }
    if let JsonView::Text(text) = item {
        assert(texts_among(seq![item]) =~= seq![text]);
    }
}

/// If all items of an array are texts, they are the recipients, one for one.
pub proof fn law_all_texts_are_recipients(items: Seq<JsonView>, k: int)
    requires
        forall|i: int| 0 <= i < items.len() ==> #[trigger] items[i] is Text,
        0 <= k < items.len(),
    ensures
        texts_among(items).len() == items.len(),
        JsonView::Text(texts_among(items)[k]) == items[k],
    decreases items.len(),
{
    let rest = items.drop_last();
    assert(items.last() == items[items.len() - 1]);
    assert forall|i: int| 0 <= i < rest.len() implies #[trigger] rest[i] is Text by {
        assert(rest[i] == items[i]);
    }
    if rest.len() > 0 {
        law_all_texts_are_recipients(rest, if k < rest.len() { k } else { 0 });
    } else {
        assert(texts_among(rest) =~= Seq::empty());
    }
}

/// The messages for a list of recipients are those for its parts, in order. A recipient that
/// means a contact gets one message, with the content and the time that were asked for, and a
/// recipient that means none gets none.
pub proof fn law_deliveries_add_up(
    contacts: Seq<Contact>,
    first: Seq<Seq<char>>,
    second: Seq<Seq<char>>,
    address: Seq<char>,
    message: MessageView,
    timestamp: u64,
)
    ensures
        deliveries_to(contacts, first + second, message, timestamp) == deliveries_to(
            contacts,
            first,
            message,
            timestamp,
        ) + deliveries_to(contacts, second, message, timestamp),
        contact_match(contacts, address) matches Some(i) ==> deliveries_to(
            contacts,
            seq![address],
            message,
            timestamp,
        ) == seq![DeliveryView { recipient: contacts[i].uuid@, message, timestamp }],
        contact_match(contacts, address) is None ==> deliveries_to(
            contacts,
            seq![address],
            message,
            timestamp,
        ).len() == 0,
    decreases second.len(),
{
    assert(seq![address].drop_last() =~= Seq::empty());
    reveal_with_fuel(deliveries_to, 2);
    if let Some(i) = contact_match(contacts, address) {
        assert(deliveries_to(contacts, seq![address], message, timestamp) =~= seq![
            DeliveryView { recipient: contacts[i].uuid@, message, timestamp },
        ]);
    }
    let whole = deliveries_to(contacts, first + second, message, timestamp);
    let head = deliveries_to(contacts, first, message, timestamp);
    if second.len() == 0 {
        assert(first + second =~= first);
        assert(whole =~= head + deliveries_to(contacts, second, message, timestamp));
    } else {
        assert((first + second).drop_last() =~= first + second.drop_last());
        law_deliveries_add_up(
            contacts,
            first,
            second.drop_last(),
            address,
            message,
            timestamp,
        );
        assert(whole =~= head + deliveries_to(contacts, second, message, timestamp));
    }
}

proof fn lemma_delivery(
    contacts: Seq<Contact>,
    addresses: Seq<Seq<char>>,
    message: MessageView,
    timestamp: u64,
    k: int,
)
    requires
        0 <= k < deliveries_to(contacts, addresses, message, timestamp).len(),
    ensures
        deliveries_to(contacts, addresses, message, timestamp)[k].message == message,
        deliveries_to(contacts, addresses, message, timestamp)[k].timestamp == timestamp,
    decreases addresses.len(),
{
    if addresses.len() > 0 {
        let before = deliveries_to(contacts, addresses.drop_last(), message, timestamp);
        if k < before.len() {
            lemma_delivery(contacts, addresses.drop_last(), message, timestamp, k);
        }
    }
}

/// The first recipient that means a contact gets the first message.
pub proof fn law_first_recipient_comes_first(
    contacts: Seq<Contact>,
    addresses: Seq<Seq<char>>,
    message: MessageView,
    timestamp: u64,
    k: int,
)
    requires
        0 <= k < addresses.len(),
        contact_match(contacts, addresses[k]) is Some,
        forall|j: int| 0 <= j < k ==> contact_match(contacts, #[trigger] addresses[j]) is None,
    ensures
        ({
            let queue = deliveries_to(contacts, addresses, message, timestamp);
            &&& queue.len() > 0
            &&& queue[0].recipient == contacts[contact_match(contacts, addresses[k])->0].uuid@
        }),
{
    let before = addresses.take(k);
    let after = addresses.skip(k + 1);
    let here = seq![addresses[k]];
    assert(addresses =~= before + (here + after));
    lemma_nobody(contacts, before, message, timestamp);
    law_deliveries_add_up(contacts, before, here + after, addresses[k], message, timestamp);
    law_deliveries_add_up(contacts, here, after, addresses[k], message, timestamp);
}

proof fn lemma_nobody(
    contacts: Seq<Contact>,
    addresses: Seq<Seq<char>>,
    message: MessageView,
    timestamp: u64,
)
    requires
        forall|j: int|
            0 <= j < addresses.len() ==> contact_match(contacts, #[trigger] addresses[j]) is None,
    ensures
        deliveries_to(contacts, addresses, message, timestamp).len() == 0,
    decreases addresses.len(),
{
    if addresses.len() > 0 {
        let rest = addresses.drop_last();
        assert(addresses.last() == addresses[addresses.len() - 1]);
        assert forall|j: int| 0 <= j < rest.len() implies contact_match(
            contacts,
            #[trigger] rest[j],
        ) is None by {
            assert(rest[j] == addresses[j]);
        }
        lemma_nobody(contacts, rest, message, timestamp);
    }
}

/// Every message says what was asked for. A text message carries the text and nothing else. A
/// sign of typing carries its time. Files are carried all, in order, with the text as the body
/// unless it is empty. A reaction carries the emoji, the time of its target as it was given, and
/// the author of its target if that is a contact, as text and as bytes.
pub proof fn law_messages_say_what_was_asked(order: OrderView, contacts: Seq<Contact>, k: int)
    requires
        0 <= k < order_queue(order, contacts).len(),
    ensures
        ({
            let sent = order_queue(order, contacts)[k];
            match order {
                OrderView::Send { text, recipients, timestamp } => {
                    &&& sent.timestamp == timestamp
                    &&& sent.message matches MessageView::Data { body, attachments, reaction }
                    &&& body == Some(text)
                    &&& attachments.len() == 0
                    &&& reaction is None
                },
                OrderView::Typing { recipients, timestamp } => {
                    &&& sent.timestamp == timestamp
                    &&& sent.message matches MessageView::TypingStarted { timestamp: started }
                    &&& started == timestamp
                },
                OrderView::Reaction {
                    emoji,
                    target_author,
                    target_timestamp,
                    recipients,
                    timestamp,
                } => {
                    &&& sent.timestamp == timestamp
                    &&& sent.message matches MessageView::Data { body, attachments, reaction }
                    &&& body is None
                    &&& attachments.len() == 0
                    &&& reaction matches Some(reaction)
                    &&& reaction.emoji == emoji
                    &&& !reaction.remove
                    &&& reaction.target_sent_timestamp == target_timestamp
                    &&& contact_match(contacts, target_author) matches Some(i) ==> {
                        &&& reaction.target_author_aci == Some(hyphenated(contacts[i].uuid@))
                        &&& reaction.target_author_aci_binary == Some(contacts[i].uuid@)
                    }
                    &&& contact_match(contacts, target_author) is None ==> {
                        &&& reaction.target_author_aci is None
                        &&& reaction.target_author_aci_binary is None
                    }
                },
                OrderView::Attachments { files, text, recipients, timestamp } => {
                    &&& sent.timestamp == timestamp
                    &&& sent.message matches MessageView::Data { body, attachments, reaction }
                    &&& text.len() > 0 ==> body == Some(text)
                    &&& text.len() == 0 ==> body is None
                    &&& attachments == files
                    &&& reaction is None
                },
            }
        }),
{
    let sent = order_queue(order, contacts)[k];
    match order {
        OrderView::Send { text, recipients, timestamp } => {
            lemma_delivery(
                contacts,
                recipients,
                text_message(text),
                timestamp,
                k,
            );
        },
        OrderView::Typing { recipients, timestamp } => {
            lemma_delivery(
                contacts,
                recipients,
                MessageView::TypingStarted { timestamp },
                timestamp,
                k,
            );
        },
        OrderView::Reaction { emoji, target_author, target_timestamp, recipients, timestamp } => {
            let message = reaction_message(
                contacts,
                emoji,
                target_author,
                target_timestamp,
            );
            lemma_delivery(contacts, recipients, message, timestamp, k);
        },
        OrderView::Attachments { files, text, recipients, timestamp } => {
            let message = files_message(text, files);
            lemma_delivery(contacts, recipients, message, timestamp, k);
        },
    }
}

/// A request that sends messages to recipients is taken as it was asked: the text, the emoji, the
/// target and the recipients are those of its parameters, and the time is that of the request.
pub proof fn law_orders_are_taken_as_asked(
    req: JsonView,
    params: Map<Seq<char>, JsonView>,
    pending: Map<Seq<u8>, Pending>,
    now: u64,
)
    requires
        field(req, "params"@) == Some(JsonView::Object(params)),
    ensures
        ({
            let json = JsonView::Object(params);
            let step = dispatched(req, pending, now);
            let method = text_field(req, "method"@);
            &&& method == Some("send"@) && text_field(json, "groupId"@) is None ==> {
                &&& step matches StepView::Wait { id, stage, action }
                &&& action is LoadContacts
                &&& stage matches StageView::Resolving(
                    OrderView::Send { text, recipients, timestamp },
                )
                &&& text_field(json, "message"@) matches Some(given) ==> text == given
                &&& text_field(json, "message"@) is None ==> text.len() == 0
                &&& recipients == recipient_list(params)
                &&& timestamp == now
            }
            &&& method == Some("sendTyping"@) && recipient_list(params).len() > 0 ==> {
                &&& step matches StepView::Wait { id, stage, action }
                &&& action is LoadContacts
                &&& stage matches StageView::Resolving(OrderView::Typing { recipients, timestamp })
                &&& recipients == recipient_list(params)
                &&& timestamp == now
            }
            &&& method == Some("sendReaction"@) ==> {
                &&& step matches StepView::Wait { id, stage, action }
                &&& action is LoadContacts
                &&& stage matches StageView::Resolving(
                    OrderView::Reaction {
                        emoji,
                        target_author,
                        target_timestamp,
                        recipients,
                        timestamp,
                    },
                )
                &&& text_field(json, "emoji"@) matches Some(given) ==> emoji == given
                &&& text_field(json, "targetAuthor"@) matches Some(given) ==> target_author == given
                &&& number_field(json, "targetTimestamp"@) matches Some(t) ==> target_timestamp == t
                &&& recipients == recipient_list(params)
                &&& timestamp == now
            }
        }),
{
    lemma_method_names();
}

proof fn lemma_report_names()
    ensures
        "recipient"@ != "status"@,
        "recipient"@ != "error"@,
        "status"@ != "error"@,
        "timestamp"@ != "results"@,
{
    reveal_strlit("recipient");
    reveal_strlit("status");
    reveal_strlit("error");
    reveal_strlit("timestamp");
    reveal_strlit("results");
    assert("recipient"@.len() == 9 && "status"@.len() == 6 && "error"@.len() == 5);
    assert("timestamp"@.len() == 9 && "results"@.len() == 7);
}

/// Whether an entry reports this address with this status, and with this error if there is one.
pub open spec fn reports(
    entry: JsonView,
    address: Seq<char>,
    status: Seq<char>,
    error: Option<Seq<char>>,
) -> bool {
    &&& text_field(entry, "recipient"@) == Some(address)
    &&& text_field(entry, "status"@) == Some(status)
    &&& text_field(entry, "error"@) == error
    &&& holds_only(
        entry,
        if error is Some {
            set!["recipient"@, "status"@, "error"@]
        } else {
            set!["recipient"@, "status"@]
        },
    )
}

proof fn lemma_entry(mode: Mode, address: Seq<char>)
    ensures
        reports(result_entry(mode, address, true), address, "sent"@, None),
        reports(
            result_entry(Mode::Plain, address, false),
            address,
            "failed"@,
            Some("contact not found"@),
        ),
        reports(result_entry(Mode::Attachments, address, false), address, "not_found"@, None),
{
    lemma_report_names();
    let names = set!["recipient"@, "status"@];
    assert(result_entry(mode, address, true)->Object_0.dom() =~= names);
    assert(result_entry(Mode::Attachments, address, false)->Object_0.dom() =~= names);
    assert(result_entry(Mode::Plain, address, false)->Object_0.dom() =~= set![
        "recipient"@,
        "status"@,
        "error"@,
    ]);
}

/// The answer to a request that sends messages holds a timestamp: that of the messages, or for
/// files the time of the answer. For texts and files it holds one result for each recipient, in
/// order, under the address as it was given. A result says `sent` exactly if the recipient means
/// a contact. The others say `failed` with an error, or for files `not_found`.
pub proof fn law_report_is_complete(order: OrderView, contacts: Seq<Contact>, now: u64, k: int)
    ensures
        ({
            let answer = order_report(order, contacts).json(now);
            match order {
                OrderView::Send { text, recipients, timestamp } => {
                    &&& holds_only(answer, set!["timestamp"@, "results"@])
                    &&& number_field(answer, "timestamp"@) == Some(timestamp)
                    &&& array_field(answer, "results"@) matches Some(results)
                    &&& results.len() == recipients.len()
                    &&& 0 <= k < recipients.len() ==> if contact_match(contacts, recipients[k])
                        is Some {
                        reports(results[k], recipients[k], "sent"@, None)
                    } else {
                        reports(results[k], recipients[k], "failed"@, Some("contact not found"@))
                    }
                },
                OrderView::Attachments { files, text, recipients, timestamp } => {
                    &&& holds_only(answer, set!["timestamp"@, "results"@])
                    &&& number_field(answer, "timestamp"@) == Some(now)
                    &&& array_field(answer, "results"@) matches Some(results)
                    &&& results.len() == recipients.len()
                    &&& 0 <= k < recipients.len() ==> if contact_match(contacts, recipients[k])
                        is Some {
                        reports(results[k], recipients[k], "sent"@, None)
                    } else {
                        reports(results[k], recipients[k], "not_found"@, None)
                    }
                },
                OrderView::Typing { recipients, timestamp } => {
                    &&& holds_only(answer, set!["timestamp"@])
                    &&& number_field(answer, "timestamp"@) == Some(timestamp)
                },
                OrderView::Reaction {
                    emoji,
                    target_author,
                    target_timestamp,
                    recipients,
                    timestamp,
                } => {
                    &&& holds_only(answer, set!["timestamp"@])
                    &&& number_field(answer, "timestamp"@) == Some(timestamp)
                },
            }
        }),
{
    lemma_report_names();
    let answer = order_report(order, contacts).json(now);
    match order {
        OrderView::Send { text, recipients, timestamp } => {
            assert(answer->Object_0.dom() =~= set!["timestamp"@, "results"@]);
            if 0 <= k < recipients.len() {
                lemma_entry(Mode::Plain, recipients[k]);
            }
        },
        OrderView::Attachments { files, text, recipients, timestamp } => {
            assert(answer->Object_0.dom() =~= set!["timestamp"@, "results"@]);
            if 0 <= k < recipients.len() {
                lemma_entry(Mode::Attachments, recipients[k]);
            }
        },
        _ => {
            assert(answer->Object_0.dom() =~= set!["timestamp"@]);
        },
    }
}

/// The answer for a message to a group holds the timestamp of the message and one result, which
/// says that it was sent to the group.
pub proof fn law_group_is_reported(timestamp: u64)
    ensures
        ({
            let answer = group_json(timestamp);
            &&& holds_only(answer, set!["timestamp"@, "results"@])
            &&& number_field(answer, "timestamp"@) == Some(timestamp)
            &&& array_field(answer, "results"@) matches Some(results)
            &&& results.len() == 1
            &&& reports(results[0], "group"@, "sent"@, None)
        }),
{
    lemma_report_names();
    let answer = group_json(timestamp);
    assert(answer->Object_0.dom() =~= set!["timestamp"@, "results"@]);
    let entry = answer->Object_0["results"@]->Array_0[0];
    assert(entry->Object_0.dom() =~= set!["recipient"@, "status"@]);
}

/// A message to a group goes to the group whose identifier has the bytes of the given text, with
/// the given text and nothing else, at the time of the request.
pub proof fn law_group_message_is_taken_as_asked(
    req: JsonView,
    params: Map<Seq<char>, JsonView>,
    pending: Map<Seq<u8>, Pending>,
    now: u64,
    name: Seq<char>,
)
    requires
        text_field(req, "method"@) == Some("send"@),
        field(req, "params"@) == Some(JsonView::Object(params)),
        text_field(JsonView::Object(params), "groupId"@) == Some(name),
    ensures
        ({
            let json = JsonView::Object(params);
            &&& dispatched(req, pending, now) matches StepView::Wait { id, stage, action }
            &&& action matches ActionView::SendToGroup { group, message, timestamp }
            &&& group == encode_utf8(name)
            &&& timestamp == now
            &&& message matches MessageView::Data { body, attachments, reaction }
            &&& text_field(json, "message"@) matches Some(text) ==> body == Some(text)
            &&& text_field(json, "message"@) is None ==> body == Some(Seq::<char>::empty())
            &&& attachments.len() == 0
            &&& reaction is None
        }),
{
}

/// A file of the attachment array is taken as it was given: its bytes are those whose Base64 text
/// was given, its name, its caption and its media type are the given ones, and its measures are
/// the given ones as far as they fit.
pub proof fn law_file_is_taken_as_given(item: JsonView, data: Seq<u8>)
    requires
        text_field(item, "bytes"@) == Some(base64_text(data)),
    ensures
        upload_of(item) matches Ok(file) && {
            &&& file.data == data
            &&& file.file_name == text_field(item, "filename"@)
            &&& file.caption == text_field(item, "caption"@)
            &&& text_field(item, "contentType"@) matches Some(given) ==> file.content_type == given
            &&& text_field(item, "contentType"@) is None ==> file.content_type
                == "application/octet-stream"@
            &&& number_field(item, "width"@) matches Some(n) ==> file.width == Some(
                (n % 0x1_0000_0000) as u32,
            ) && (n <= u32::MAX ==> file.width == Some(n as u32))
            &&& number_field(item, "width"@) is None ==> file.width is None
            &&& number_field(item, "height"@) matches Some(n) ==> file.height == Some(
                (n % 0x1_0000_0000) as u32,
            ) && (n <= u32::MAX ==> file.height == Some(n as u32))
            &&& number_field(item, "height"@) is None ==> file.height is None
        },
{
    law_base64_round_trip(data);
}

/// An item of the attachment array is refused if it gives no bytes, or if what it gives is the
/// Base64 text of nothing.
pub proof fn law_bad_file_is_refused(item: JsonView, text: Seq<char>)
    ensures
        text_field(item, "bytes"@) is None ==> upload_of(item) == Err::<UploadView, RpcErrorView>(
            RpcErrorView::MissingBytes,
        ),
        text_field(item, "bytes"@) == Some(text) && (forall|b: Seq<u8>| base64_text(b) != text)
            ==> upload_of(item) == Err::<UploadView, RpcErrorView>(
            RpcErrorView::BadBase64(refusal(text)),
        ),
{
}

/// All files of the attachment array are taken, one for one and in order, if each of them can be.
/// Otherwise the first that cannot be gives the error.
pub proof fn law_files_are_taken_in_order(items: Seq<JsonView>)
    ensures
        match uploads_of(items) {
            Ok(files) => files.len() == items.len() && forall|k: int|
                0 <= k < items.len() ==> upload_of(#[trigger] items[k]) == Ok::<
                    UploadView,
                    RpcErrorView,
                >(files[k]),
            Err(e) => exists|k: int|
                0 <= k < items.len() && upload_of(#[trigger] items[k]) == Err::<
                    UploadView,
                    RpcErrorView,
                >(e) && forall|j: int| 0 <= j < k ==> upload_of(#[trigger] items[j]) is Ok,
        },
    decreases items.len(),
{
    if items.len() > 0 {
        let rest = items.drop_last();
        law_files_are_taken_in_order(rest);
        let last = items.len() - 1;
        assert(items.last() == items[last]);
        match uploads_of(rest) {
            Ok(files) => {
                assert forall|j: int| 0 <= j < last implies upload_of(#[trigger] items[j])
                    == Ok::<UploadView, RpcErrorView>(files[j]) by {
                    assert(rest[j] == items[j]);
                }
            },
            Err(e) => {
                let k = choose|k: int|
                    0 <= k < rest.len() && upload_of(#[trigger] rest[k]) == Err::<
                        UploadView,
                        RpcErrorView,
                    >(e) && forall|j: int| 0 <= j < k ==> upload_of(#[trigger] rest[j]) is Ok;
                assert(items[k] == rest[k]);
                assert forall|j: int| 0 <= j < k implies upload_of(#[trigger] items[j]) is Ok by {
                    assert(rest[j] == items[j]);
                }
            },
        }
    }
}

/// The files that were uploaded are those of the parts, in order: a handle counts, and a failure
/// does not.
pub proof fn law_uploads_add_up(
    first: Seq<Result<usize, String>>,
    second: Seq<Result<usize, String>>,
    handle: usize,
    failure: String,
)
    ensures
        uploaded(first + second) == uploaded(first) + uploaded(second),
        uploaded(seq![Ok::<usize, String>(handle)]) == seq![handle],
        uploaded(seq![Err::<usize, String>(failure)]).len() == 0,
    decreases second.len(),
{
    let good = seq![Ok::<usize, String>(handle)];
    let bad = seq![Err::<usize, String>(failure)];
    reveal_with_fuel(uploaded, 2);
    assert(good.drop_last() =~= Seq::empty());
    assert(bad.drop_last() =~= Seq::empty());
    assert(uploaded(good) =~= seq![handle]);
    if second.len() == 0 {
        assert(first + second =~= first);
    } else {
        assert((first + second).drop_last() =~= first + second.drop_last());
        law_uploads_add_up(first, second.drop_last(), handle, failure);
    }
    assert(uploaded(first + second) =~= uploaded(first) + uploaded(second));
}

/// A request for files goes on as it was asked: all its files are uploaded, and after that the
/// files that could be uploaded are meant for its recipients, with its text, at the time of the
/// upload.
pub proof fn law_files_request_is_taken_as_asked(
    req: JsonView,
    params: Map<Seq<char>, JsonView>,
    pending: Map<Seq<u8>, Pending>,
    now: u64,
    items: Seq<JsonView>,
    files: Seq<UploadView>,
    results: Vec<Result<usize, String>>,
    at: u64,
)
    requires
        text_field(req, "method"@) == Some("sendAttachments"@) || text_field(req, "method"@)
            == Some("send_multiple_images"@),
        field(req, "params"@) == Some(JsonView::Object(params)),
        recipient_list(params).len() > 0,
        array_field(JsonView::Object(params), "attachments"@) == Some(items),
        items.len() > 0,
        uploads_of(items) == Ok::<Seq<UploadView>, RpcErrorView>(files),
    ensures
        ({
            let json = JsonView::Object(params);
            &&& dispatched(req, pending, now) matches StepView::Wait { id, stage, action }
            &&& action == ActionView::Upload(files)
            &&& uploaded(results@).len() > 0 ==> {
                &&& stepped(id, stage, Event::Uploaded(Ok(results)), at) matches StepView::Wait {
                    id: _,
                    stage: next,
                    action: listing,
                }
                &&& listing is LoadContacts
                &&& next matches StageView::Resolving(
                    OrderView::Attachments { files: sent, text, recipients, timestamp },
                )
                &&& sent == uploaded(results@)
                &&& text_field(json, "message"@) matches Some(given) ==> text == given
                &&& text_field(json, "message"@) is None ==> text.len() == 0
                &&& recipients == recipient_list(params)
                &&& timestamp == at
            }
            &&& uploaded(results@).len() == 0 ==> stepped(
                id,
                stage,
                Event::Uploaded(Ok(results)),
                at,
            ) == StepView::Reply(refused(id_of(req), "all attachment uploads failed"@))
        }),
{
    lemma_method_names();
}

/// What is wrong with a request for files is said in this order: recipients first, then the
/// array, then its items.
pub proof fn law_bad_files_request_is_refused(
    req: JsonView,
    params: Map<Seq<char>, JsonView>,
    pending: Map<Seq<u8>, Pending>,
    now: u64,
    text: Seq<char>,
)
    requires
        text_field(req, "method"@) == Some("sendAttachments"@) || text_field(req, "method"@)
            == Some("send_multiple_images"@),
        field(req, "params"@) == Some(JsonView::Object(params)),
    ensures
        ({
            let step = dispatched(req, pending, now);
            let id = id_of(req);
            let items = array_field(JsonView::Object(params), "attachments"@);
            if recipient_list(params).len() == 0 {
                step == StepView::Reply(refused(id, "missing or empty recipient array"@))
            } else if items is None {
                step == StepView::Reply(refused(id, "missing attachments array"@))
            } else if items->0.len() == 0 {
                step == StepView::Reply(refused(id, "attachments array is empty"@))
            } else {
                &&& uploads_of(items->0) == Err::<Seq<UploadView>, RpcErrorView>(
                    RpcErrorView::MissingBytes,
                ) ==> step == StepView::Reply(
                    refused(id, "each attachment needs 'bytes' field (base64)"@),
                )
                &&& uploads_of(items->0) == Err::<Seq<UploadView>, RpcErrorView>(
                    RpcErrorView::BadBase64(text),
                ) ==> step == StepView::Reply(refused(id, text))
            }
        }),
{
    lemma_method_names();
}

/// A failure of the service at any stage is the answer, in its own words.
pub proof fn law_failures_are_passed_on(id: JsonView, stage: StageView, e: String, now: u64)
    ensures
        stepped(id, stage, Event::GroupSent(Err(e)), now) == StepView::Reply(refused(id, e@)),
        stepped(id, stage, Event::Contacts(Err(e)), now) == StepView::Reply(refused(id, e@)),
        stepped(id, stage, Event::Delivered(Err(e)), now) == StepView::Reply(refused(id, e@)),
        stepped(id, stage, Event::Uploaded(Err(e)), now) == StepView::Reply(refused(id, e@)),
        stepped(id, stage, Event::Downloaded(Err(e)), now) == StepView::Reply(refused(id, e@)),
{
}

/// An answer holds the version of the protocol, the identifier of the request, and the result, or
/// an error with its message and the code of all errors.
pub proof fn law_answers_are_read(id: JsonView, result: JsonView, message: Seq<char>)
    ensures
        text_field(success(id, result), "jsonrpc"@) == Some("2.0"@),
        field(success(id, result), "id"@) == Some(id),
        field(success(id, result), "result"@) == Some(result),
        field(success(id, result), "error"@) is None,
        text_field(refused(id, message), "jsonrpc"@) == Some("2.0"@),
        field(refused(id, message), "id"@) == Some(id),
        field(refused(id, message), "result"@) is None,
        field(refused(id, message), "error"@) matches Some(error) && {
            &&& text_field(error, "message"@) == Some(message)
            &&& field(error, "code"@) == Some(JsonView::Number(Number::Negative(-1i64)))
        },
{
    law_answers_are_well_formed(id, result, message);
    lemma_answer_names();
}

/// The readable contacts of a listing are those of its parts, in order: a contact counts, and an
/// error does not.
pub proof fn law_readable_contacts_add_up(
    first: Seq<Result<Contact, String>>,
    second: Seq<Result<Contact, String>>,
    contact: Contact,
    failure: String,
)
    ensures
        readable(first + second) == readable(first) + readable(second),
        readable(seq![Ok::<Contact, String>(contact)]) == seq![contact],
        readable(seq![Err::<Contact, String>(failure)]).len() == 0,
    decreases second.len(),
{
    let good = seq![Ok::<Contact, String>(contact)];
    let bad = seq![Err::<Contact, String>(failure)];
    reveal_with_fuel(readable, 2);
    assert(good.drop_last() =~= Seq::empty());
    assert(bad.drop_last() =~= Seq::empty());
    assert(readable(good) =~= seq![contact]);
    if second.len() == 0 {
        assert(first + second =~= first);
    } else {
        assert((first + second).drop_last() =~= first + second.drop_last());
        law_readable_contacts_add_up(first, second.drop_last(), contact, failure);
    }
    assert(readable(first + second) =~= readable(first) + readable(second));
}

/// The list of contacts shows every contact, one for one and in order: its UUID, its phone number
/// or an empty text, and its name.
pub proof fn law_contacts_are_shown(contacts: Seq<Contact>, k: int)
    requires
        0 <= k < contacts.len(),
    ensures
        ({
            let answer = contacts_json(contacts);
            &&& holds_only(answer, set!["contacts"@])
            &&& array_field(answer, "contacts"@) matches Some(items)
            &&& items.len() == contacts.len()
            &&& holds_only(items[k], set!["uuid"@, "number"@, "name"@])
            &&& text_field(items[k], "uuid"@) == Some(hyphenated(contacts[k].uuid@))
            &&& text_field(items[k], "name"@) == Some(contacts[k].name@)
            &&& contacts[k].phone_number matches Some(phone) ==> text_field(items[k], "number"@)
                == Some(phone@)
            &&& contacts[k].phone_number is None ==> text_field(items[k], "number"@) == Some(
                Seq::<char>::empty(),
            )
        }),
{
    reveal_strlit("uuid");
    reveal_strlit("number");
    reveal_strlit("name");
    assert("uuid"@.len() == 4 && "number"@.len() == 6 && "name"@.len() == 4);
    assert("uuid"@[0] == 'u' && "name"@[0] == 'n');
    let answer = contacts_json(contacts);
    assert(answer->Object_0.dom() =~= set!["contacts"@]);
    let item = answer->Object_0["contacts"@]->Array_0[k];
    assert(item->Object_0.dom() =~= set!["uuid"@, "number"@, "name"@]);
}

/// A fetched file is answered with its bytes, with the media type that its message gave it, and
/// with its size.
pub proof fn law_fetched_file_is_answered_as_it_is(bytes: Seq<u8>, content_type: Option<Seq<char>>)
    ensures
        ({
            let answer = attachment_answer(bytes, content_type);
            &&& holds_only(answer, set!["data"@, "contentType"@, "size"@])
            &&& text_field(answer, "data"@) == Some(base64_text(bytes))
            &&& content_type matches Some(given) ==> text_field(answer, "contentType"@) == Some(
                given,
            )
            &&& content_type is None ==> text_field(answer, "contentType"@) == Some(
                "application/octet-stream"@,
            )
            &&& bytes.len() <= u64::MAX ==> number_field(answer, "size"@) == Some(
                bytes.len() as u64,
            )
        }),
{
    reveal_strlit("data");
    reveal_strlit("contentType");
    reveal_strlit("size");
    assert("contentType"@.len() == 11 && "data"@.len() == 4 && "size"@.len() == 4);
    assert("data"@[0] == 'd' && "size"@[0] == 's');
    let answer = attachment_answer(bytes, content_type);
    assert(answer->Object_0.dom() =~= set!["data"@, "contentType"@, "size"@]);
}

/// A request for a file fetches the file that is kept under the key whose Base64 text was given,
/// and the answer holds its bytes and the media type that is kept with it. An identifier that is
/// absent, that is no Base64 text, or under whose key nothing is kept is refused.
pub proof fn law_file_is_fetched_by_its_key(
    req: JsonView,
    params: Map<Seq<char>, JsonView>,
    pending: Map<Seq<u8>, Pending>,
    now: u64,
    key: Seq<u8>,
    text: Seq<char>,
    bytes: Vec<u8>,
    at: u64,
)
    requires
        text_field(req, "method"@) == Some("getAttachment"@),
        field(req, "params"@) == Some(JsonView::Object(params)),
    ensures
        ({
            let step = dispatched(req, pending, now);
            let given = text_field(JsonView::Object(params), "attachmentId"@);
            &&& given is None ==> step == StepView::Reply(
                refused(id_of(req), "missing attachmentId"@),
            )
            &&& given == Some(text) && (forall|b: Seq<u8>| base64_text(b) != text) ==> step
                == StepView::Reply(refused(id_of(req), refusal(text)))
            &&& given == Some(base64_text(key)) && !pending.contains_key(key) ==> step
                == StepView::Reply(
                refused(
                    id_of(req),
                    "attachment not found in cache — may have expired or never arrived"@,
                ),
            )
            &&& given == Some(base64_text(key)) && pending.contains_key(key) ==> {
                &&& step matches StepView::Wait { id, stage, action }
                &&& action == ActionView::Download { handle: pending[key].handle }
                &&& stepped(id, stage, Event::Downloaded(Ok(bytes)), at) matches StepView::Reply(
                    answer,
                )
                &&& field(answer, "id"@) == Some(id_of(req))
                &&& field(answer, "result"@) matches Some(result)
                &&& text_field(result, "data"@) == Some(base64_text(bytes@))
                &&& pending[key].content_type matches Some(kept) ==> text_field(
                    result,
                    "contentType"@,
                ) == Some(kept@)
                &&& pending[key].content_type is None ==> text_field(result, "contentType"@)
                    == Some("application/octet-stream"@)
            }
        }),
{
    lemma_method_names();
    law_base64_round_trip(key);
    let kept = text_view(pending[key].content_type);
    law_fetched_file_is_answered_as_it_is(bytes@, kept);
    law_answers_are_read(id_of(req), attachment_answer(bytes@, kept), text);
}

proof fn lemma_file_names()
    ensures
        "id"@.len() == 2 && "contentType"@.len() == 11 && "fileName"@.len() == 8,
        "size"@.len() == 4 && "caption"@.len() == 7 && "width"@.len() == 5,
        "height"@.len() == 6 && "flags"@.len() == 5 && "cdnNumber"@.len() == 9,
        "width"@ != "flags"@,
{
    reveal_strlit("id");
    reveal_strlit("contentType");
    reveal_strlit("fileName");
    reveal_strlit("size");
    reveal_strlit("caption");
    reveal_strlit("width");
    reveal_strlit("height");
    reveal_strlit("flags");
    reveal_strlit("cdnNumber");
    assert("width"@[0] == 'w' && "flags"@[0] == 'f');
}

/// Whether an object shows a text that may be absent: as itself, or as `null`.
pub open spec fn shows_text(json: JsonView, name: Seq<char>, text: Option<String>) -> bool {
    field(json, name) == Some(
        match text {
            Some(text) => JsonView::Text(text@),
            None => JsonView::Null,
        },
    )
}

/// Whether an object shows a number that may be absent: as itself, or as `null`.
pub open spec fn shows_number(json: JsonView, name: Seq<char>, n: Option<u32>) -> bool {
    field(json, name) == Some(
        match n {
            Some(n) => JsonView::Number(Number::Unsigned(n as u64)),
            None => JsonView::Null,
        },
    )
}

/// Whether a file is shown as it is: under the Base64 text of its client UUID, with its own media
/// type, name, size, caption, measures, flags and server.
pub open spec fn shows_file(json: JsonView, pointer: AttachmentPointer) -> bool {
    &&& pointer.client_uuid matches Some(uuid) ==> text_field(json, "id"@) == Some(
        base64_text(uuid@),
    )
    &&& pointer.client_uuid is None ==> text_field(json, "id"@) == Some(Seq::<char>::empty())
    &&& pointer.content_type matches Some(given) ==> text_field(json, "contentType"@) == Some(
        given@,
    )
    &&& pointer.content_type is None ==> text_field(json, "contentType"@) == Some(
        "application/octet-stream"@,
    )
    &&& shows_text(json, "fileName"@, pointer.file_name)
    &&& shows_text(json, "caption"@, pointer.caption)
    &&& shows_number(json, "size"@, pointer.size)
    &&& shows_number(json, "width"@, pointer.width)
    &&& shows_number(json, "height"@, pointer.height)
    &&& shows_number(json, "flags"@, pointer.flags)
    &&& shows_number(json, "cdnNumber"@, pointer.cdn_number)
    &&& holds_only(
        json,
        set![
            "id"@,
            "contentType"@,
            "fileName"@,
            "size"@,
            "caption"@,
            "width"@,
            "height"@,
            "flags"@,
            "cdnNumber"@,
        ],
    )
}

proof fn lemma_file(pointer: AttachmentPointer)
    ensures
        shows_file(attachment_json(pointer), pointer),
{
    lemma_file_names();
    assert(attachment_json(pointer)->Object_0.dom() =~= set![
        "id"@,
        "contentType"@,
        "fileName"@,
        "size"@,
        "caption"@,
        "width"@,
        "height"@,
        "flags"@,
        "cdnNumber"@,
    ]);
}

/// Whether an object shows the text and the files of a message, each on its own: the text exactly
/// if there is one, and, whether there is a text or not, all files, one for one and in order,
/// exactly if there are any.
pub open spec fn shows_data(json: JsonView, data: DataMessage) -> bool {
    &&& data.body matches Some(body) ==> text_field(json, "message"@) == Some(body@)
    &&& data.body is None ==> field(json, "message"@) is None
    &&& data.attachments@.len() == 0 ==> field(json, "attachments"@) is None
    &&& data.attachments@.len() > 0 ==> {
        &&& array_field(json, "attachments"@) matches Some(items)
        &&& items.len() == data.attachments@.len()
        &&& forall|k: int|
            0 <= k < items.len() ==> shows_file(#[trigger] items[k], data.attachments@[k])
    }
}

proof fn lemma_data(members: Map<Seq<char>, JsonView>, data: DataMessage)
    requires
        !members.contains_key("message"@),
        !members.contains_key("attachments"@),
    ensures
        shows_data(JsonView::Object(with_data(members, data)), data),
        forall|name: Seq<char>|
            name != "message"@ && name != "attachments"@ ==> field(
                JsonView::Object(with_data(members, data)),
                name,
            ) == #[trigger] field(JsonView::Object(members), name),
{
    reveal_strlit("message");
    reveal_strlit("attachments");
    assert("message"@.len() == 7 && "attachments"@.len() == 11);
    let json = JsonView::Object(with_data(members, data));
    if data.attachments@.len() > 0 {
        let items = array_field(json, "attachments"@)->0;
        assert(items.len() == data.attachments@.len());
        assert forall|k: int| 0 <= k < items.len() implies shows_file(
            #[trigger] items[k],
            data.attachments@[k],
        ) by {
            assert(items[k] == attachment_json(data.attachments@[k]));
            lemma_file(data.attachments@[k]);
        }
    }
}

proof fn lemma_shown_names()
    ensures
        "type"@.len() == 4 && "envelope"@.len() == 8,
        "source"@.len() == 6 && "sourceUuid"@.len() == 10 && "timestamp"@.len() == 9,
        "dataMessage"@.len() == 11 && "syncMessage"@.len() == 11 && "typingMessage"@.len() == 13,
        "dataMessage"@ != "syncMessage"@,
        "message"@.len() == 7 && "attachments"@.len() == 11,
{
    reveal_strlit("type");
    reveal_strlit("envelope");
    reveal_strlit("source");
    reveal_strlit("sourceUuid");
    reveal_strlit("timestamp");
    reveal_strlit("dataMessage");
    reveal_strlit("syncMessage");
    reveal_strlit("typingMessage");
    reveal_strlit("message");
    reveal_strlit("attachments");
    assert("dataMessage"@[0] == 'd' && "syncMessage"@[0] == 's');
}

/// Whether an object shows this time.
pub open spec fn shows_time(json: JsonView, timestamp: i64) -> bool {
    field(json, "timestamp"@) == Some(
        JsonView::Number(
            if timestamp < 0 {
                Number::Negative(timestamp)
            } else {
                Number::Unsigned(timestamp as u64)
            },
        ),
    )
}

/// A received message is published as a message in an envelope, with its time. Its source, given
/// twice, is the phone number that is known for the account of the sender, or else the service
/// identifier of the sender. A data message is shown with its time, its text and its files, a
/// message of another device with its text and its files, a sign of typing as such, and of
/// anything else the envelope alone is shown.
pub proof fn law_message_is_shown_as_it_is(phones: Map<Seq<u8>, String>, content: Content)
    ensures
        ({
            let event = ListenerEvent::Message(Some(Received::Content(content)));
            let source = match content.sender {
                ServiceId::Aci(uuid) => if phones.contains_key(uuid@) {
                    phones[uuid@]@
                } else {
                    content.sender_text@
                },
                ServiceId::Pni(_) => content.sender_text@,
            };
            let head = set!["source"@, "sourceUuid"@, "timestamp"@];
            &&& published(phones, ListenerTask::NextMessage, event) matches Some(shown)
            &&& holds_only(shown, set!["type"@, "envelope"@])
            &&& text_field(shown, "type"@) == Some("message"@)
            &&& field(shown, "envelope"@) matches Some(envelope)
            &&& text_field(envelope, "source"@) == Some(source)
            &&& text_field(envelope, "sourceUuid"@) == Some(source)
            &&& shows_time(envelope, content.timestamp)
            &&& match content.body {
                ContentBody::DataMessage(data) => {
                    &&& holds_only(envelope, head.insert("dataMessage"@))
                    &&& field(envelope, "dataMessage"@) matches Some(inner)
                    &&& shows_data(inner, data)
                    &&& shows_time(inner, content.timestamp)
                },
                ContentBody::SynchronizeMessage { sent } => {
                    &&& holds_only(envelope, head.insert("syncMessage"@))
                    &&& field(envelope, "syncMessage"@) matches Some(inner)
                    &&& sent matches Some(Sent { message: Some(data) }) ==> shows_data(inner, data)
                    &&& !(sent matches Some(Sent { message: Some(_) })) ==> holds_only(
                        inner,
                        Set::empty(),
                    )
                },
                ContentBody::TypingMessage => {
                    &&& holds_only(envelope, head.insert("typingMessage"@))
                    &&& field(envelope, "typingMessage"@) matches Some(inner)
                    &&& number_field(inner, "action"@) == Some(1u64)
                },
                ContentBody::Other => holds_only(envelope, head),
            }
        }),
{
    lemma_shown_names();
    let msg = Received::Content(content);
    let event = ListenerEvent::Message(Some(msg));
    let shown = published(phones, ListenerTask::NextMessage, event)->0;
    let head = set!["source"@, "sourceUuid"@, "timestamp"@];
    let envelope = shown->Object_0["envelope"@];
    assert(shown->Object_0.dom() =~= set!["type"@, "envelope"@]);
    match content.body {
        ContentBody::DataMessage(data) => {
            assert(envelope->Object_0.dom() =~= head.insert("dataMessage"@));
            let start = Map::<Seq<char>, JsonView>::empty().insert(
                "timestamp"@,
                signed(content.timestamp),
            );
            lemma_data(start, data);
            assert(field(JsonView::Object(start), "timestamp"@) == Some(signed(content.timestamp)));
        },
        ContentBody::SynchronizeMessage { sent } => {
            assert(envelope->Object_0.dom() =~= head.insert("syncMessage"@));
            if let Some(Sent { message: Some(data) }) = sent {
                lemma_data(Map::empty(), data);
            } else {
                let inner = field(envelope, "syncMessage"@)->0;
                assert(inner->Object_0.dom() =~= Set::empty());
            }
        },
        ContentBody::TypingMessage => {
            assert(envelope->Object_0.dom() =~= head.insert("typingMessage"@));
        },
        ContentBody::Other => {
            assert(envelope->Object_0.dom() =~= head);
        },
    }
}

/// A message is shown with its text, its files and its time, and with nothing else.
pub proof fn law_nothing_else_is_shown(
    phones: Map<Seq<u8>, String>,
    content: Content,
    data: DataMessage,
    name: Seq<char>,
)
    requires
        name != "message"@,
        name != "attachments"@,
        name != "timestamp"@,
        content.body == ContentBody::DataMessage(data) || content.body
            == (ContentBody::SynchronizeMessage { sent: Some(Sent { message: Some(data) }) }),
    ensures
        ({
            let event = ListenerEvent::Message(Some(Received::Content(content)));
            let kind = if content.body is DataMessage {
                "dataMessage"@
            } else {
                "syncMessage"@
            };
            &&& published(phones, ListenerTask::NextMessage, event) matches Some(shown)
            &&& field(shown, "envelope"@) matches Some(envelope)
            &&& field(envelope, kind) matches Some(inner)
            &&& field(inner, name) is None
            &&& !(content.body is DataMessage) ==> field(inner, "timestamp"@) is None
        }),
{
    lemma_shown_names();
    law_message_is_shown_as_it_is(phones, content);
    if content.body is DataMessage {
        let start = Map::<Seq<char>, JsonView>::empty().insert(
            "timestamp"@,
            signed(content.timestamp),
        );
        lemma_data(start, data);
        assert(field(JsonView::Object(start), name) is None);
    } else {
        lemma_data(Map::empty(), data);
        let none = JsonView::Object(Map::empty());
        assert(field(none, name) is None && field(none, "timestamp"@) is None);
    }
}

/// Without a known phone number a message is shown in the same way, with the service identifier
/// as its source.
pub proof fn law_unresolved_message_is_shown(content: Content)
    ensures
        ({
            let msg = Received::Content(content);
            let event = ListenerEvent::Message(Some(msg));
            published(Map::empty(), ListenerTask::NextMessage, event) == Some(
                in_envelope(msg, envelope_members(msg)),
            )
        }),
{
}

/// That nothing more is waiting, and that the contacts have changed, are published as such and
/// with nothing else.
pub proof fn law_notices_are_shown(phones: Map<Seq<u8>, String>, event: ListenerEvent)
    requires
        event is Contacts,
    ensures
        ({
            let empty = ListenerEvent::Message(Some(Received::QueueEmpty));
            &&& published(phones, ListenerTask::NextMessage, empty) matches Some(shown)
            &&& holds_only(shown, set!["envelope"@])
            &&& field(shown, "envelope"@) matches Some(envelope)
            &&& holds_only(envelope, set!["queueEmpty"@])
            &&& field(envelope, "queueEmpty"@) == Some(JsonView::Bool(true))
        }),
        ({
            &&& published(phones, ListenerTask::ReloadContacts, event) matches Some(shown)
            &&& holds_only(shown, set!["envelope"@])
            &&& field(shown, "envelope"@) matches Some(envelope)
            &&& holds_only(envelope, set!["contactsSynced"@])
            &&& field(envelope, "contactsSynced"@) == Some(JsonView::Bool(true))
        }),
        published(phones, ListenerTask::LoadContacts, event) is None,
        published(phones, ListenerTask::OpenStream, ListenerEvent::Stream(Ok(()))) is None,
        published(phones, ListenerTask::NextMessage, ListenerEvent::Message(None)) is None,
        published(phones, ListenerTask::Sleep(1), ListenerEvent::Slept) is None,
{
    let empty = ListenerEvent::Message(Some(Received::QueueEmpty));
    let shown = published(phones, ListenerTask::NextMessage, empty)->0;
    assert(shown->Object_0.dom() =~= set!["envelope"@]);
    assert(shown->Object_0["envelope"@]->Object_0.dom() =~= set!["queueEmpty"@]);
    let synced = published(phones, ListenerTask::ReloadContacts, event)->0;
    assert(synced->Object_0.dom() =~= set!["envelope"@]);
    assert(synced->Object_0["envelope"@]->Object_0.dom() =~= set!["contactsSynced"@]);
}

proof fn lemma_noted_keys(
    pending: Map<Seq<u8>, Pending>,
    pointers: Seq<AttachmentPointer>,
    n: nat,
    key: Seq<u8>,
)
    requires
        n <= pointers.len(),
    ensures
        files_noted(pending, pointers, n).contains_key(key) <==> pending.contains_key(key) || exists|
            j: int,
        |
            0 <= j < n && (#[trigger] pointers[j]).client_uuid is Some
                && pointers[j].client_uuid->0@ == key,
    decreases n,
{
    if n > 0 {
        let m = (n - 1) as nat;
        lemma_noted_keys(pending, pointers, m, key);
        let last = pointers[n - 1];
        if last.client_uuid is Some && last.client_uuid->0@ == key {
            assert(pointers[n - 1].client_uuid is Some);
        }
    }
}

/// A file can be fetched exactly if it could be before or the event brings it in a data message.
pub proof fn law_only_received_files_can_be_fetched(
    pending: Map<Seq<u8>, Pending>,
    event: ListenerEvent,
    key: Seq<u8>,
)
    ensures
        pending_after(pending, event).contains_key(key) <==> pending.contains_key(key)
            || brings_file(event, key),
{
    if let ListenerEvent::Message(Some(Received::Content(content))) = event {
        if let ContentBody::DataMessage(data) = content.body {
            lemma_noted_keys(pending, data.attachments@, data.attachments@.len(), key);
        }
    }
}

/// How far a listing can be read: every entry before that point can be, and the one at it, if
/// there is one, cannot.
pub proof fn law_listing_is_read_up_to_the_first_error(
    listing: Seq<Result<Contact, String>>,
    k: int,
)
    ensures
        good_entries(listing) <= listing.len(),
        0 <= k < good_entries(listing) ==> listing[k] is Ok,
        good_entries(listing) < listing.len() ==> listing[good_entries(listing) as int] is Err,
    decreases listing.len(),
{
    if listing.len() > 0 && listing[0] is Ok {
        let rest = listing.drop_first();
        law_listing_is_read_up_to_the_first_error(rest, k - 1);
        if good_entries(rest) < rest.len() {
            assert(rest[good_entries(rest) as int] == listing[good_entries(rest) as int + 1]);
        }
        if 0 < k < good_entries(listing) {
            assert(rest[k - 1] == listing[k]);
        }
    }
}

proof fn lemma_noted_phones(
    phones: Map<Seq<u8>, String>,
    listing: Seq<Result<Contact, String>>,
    n: nat,
    key: Seq<u8>,
)
    requires
        n <= listing.len(),
    ensures
        phones_noted(phones, listing, n).contains_key(key) <==> phones.contains_key(key) || exists|
            j: int,
        |
            0 <= j < n && #[trigger] gives_phone(listing[j], key),
    decreases n,
{
    if n > 0 {
        lemma_noted_phones(phones, listing, (n - 1) as nat, key);
        if gives_phone(listing[n - 1], key) {
            assert(gives_phone(listing[n - 1], key));
        }
    }
}

/// A phone number is known for an account exactly if one was before, or an entry of the listing
/// gives one, up to the first entry that cannot be read. An identity that is no account has none.
pub proof fn law_only_listed_phones_are_known(
    phones: Map<Seq<u8>, String>,
    listing: Vec<Result<Contact, String>>,
    uuid: Uuid,
)
    ensures
        ({
            let after = phones_after(phones, ListenerEvent::Contacts(Ok(listing)));
            &&& phone_of(after, ServiceId::Aci(uuid)) is Some <==> phones.contains_key(uuid@)
                || exists|j: int|
                0 <= j < good_entries(listing@) && #[trigger] gives_phone(listing@[j], uuid@)
            &&& phone_of(after, ServiceId::Pni(uuid)) is None
        }),
        phone_of(phones, ServiceId::Aci(uuid)) == if phones.contains_key(uuid@) {
            Some(phones[uuid@])
        } else {
            None
        },
{
    law_listing_is_read_up_to_the_first_error(listing@, 0);
    lemma_noted_phones(phones, listing@, good_entries(listing@), uuid@);
}

/// A listing that fails, or an entry that cannot be read, is reported in its own words. The first
/// such entry is. Nothing else is reported.
pub proof fn law_refresh_errors_are_reported(
    e: String,
    listing: Vec<Result<Contact, String>>,
    k: int,
    other: ListenerEvent,
)
    requires
        !(other is Contacts),
    ensures
        refresh_failure(ListenerEvent::Contacts(Err(e))) == Some(e),
        0 <= k < listing@.len() && listing@[k] == Err::<Contact, String>(e) && (forall|j: int|
            0 <= j < k ==> (#[trigger] listing@[j]) is Ok) ==> refresh_failure(
            ListenerEvent::Contacts(Ok(listing)),
        ) == Some(e),
        (forall|j: int| 0 <= j < listing@.len() ==> (#[trigger] listing@[j]) is Ok)
            ==> refresh_failure(ListenerEvent::Contacts(Ok(listing))) is None,
        refresh_failure(other) is None,
{
    if 0 <= k < listing@.len() && listing@[k] is Err && forall|j: int|
        0 <= j < k ==> (#[trigger] listing@[j]) is Ok {
        lemma_good_entries(listing@, k);
    }
    if forall|j: int| 0 <= j < listing@.len() ==> (#[trigger] listing@[j]) is Ok {
        lemma_good_entries(listing@, listing@.len() as int);
    }
}

/// The listener goes from one message to the next as long as there are any. It waits a second
/// after the messages have ended, and five after a stream could not be opened.
pub proof fn law_listener_goes_on(task: ListenerTask, msg: Received, e: String)
    ensures
        next_task(ListenerTask::OpenStream, ListenerEvent::Stream(Ok(())))
            == ListenerTask::NextMessage,
        next_task(ListenerTask::NextMessage, ListenerEvent::Message(Some(msg))) == if msg
            is Contacts {
            ListenerTask::ReloadContacts
        } else {
            ListenerTask::NextMessage
        },
        next_task(ListenerTask::NextMessage, ListenerEvent::Message(None))
            == ListenerTask::Sleep(1),
        next_task(ListenerTask::OpenStream, ListenerEvent::Stream(Err(e)))
            == ListenerTask::Sleep(5),
        next_task(task, ListenerEvent::Slept) == ListenerTask::OpenStream,
{
}

/// A connection ends with the broadcast, with a frame that cannot be sent, with a frame that
/// closes it, and with the client, and at nothing else. A ping carries the word `keepalive`, and
/// the pings are fifteen seconds apart.
pub proof fn law_connection_ends_when_due(event: WsEvent)
    ensures
        ws_action(event) is HangUp <==> match event {
            WsEvent::Broadcast(feed) => feed is Closed,
            WsEvent::Tick => false,
            WsEvent::Sent { ok } => !ok,
            WsEvent::Frame { close } => close,
            WsEvent::Ended => true,
        },
        ws_action(WsEvent::Tick) == WsActionView::SendPing(encode_utf8("keepalive"@)),
        ping_time(0) == 15,
        ping_time(1) == 30,
{
}

/// Idle clients get a sign of life, and slow clients are waited for, within fixed bounds.
pub proof fn law_clients_are_kept_within_bounds()
    ensures
        SSE_KEEPALIVE_SECS == 30,
        SSE_KEEPALIVE_TEXT@ == "keepalive"@,
        CHANNEL_CAPACITY == 256,
        KEEPALIVE_SECS == 15,
{
}

/// A timestamp is the number of milliseconds as long as that fits, and repeats beyond.
pub proof fn law_timestamps_count_milliseconds(millis: u128, reading: SystemTime)
    ensures
        millis <= u64::MAX ==> timestamp_of(Some(millis)) == millis,
        millis + 0x1_0000_0000_0000_0000 <= u128::MAX ==> timestamp_of(
            Some((millis + 0x1_0000_0000_0000_0000) as u128),
        ) == timestamp_of(Some(millis)),
        timestamp_of(None) == 0,
        span_to(reading) matches Ok(elapsed) ==> stamp_at(reading) == timestamp_of(
            Some(millis_in(elapsed)),
        ),
        span_to(reading) is Err ==> stamp_at(reading) == 0,
{
}

/// The database lies in the store directory, whether that is given with a separator at its end or
/// without.
pub proof fn law_database_lies_in_the_store(directory: Seq<char>)
    requires
        directory.len() > 0,
        directory.last() != '/',
    ensures
        database_path(directory) == directory + "/signal-serve.db"@,
        database_path(directory + seq!['/']) == database_path(directory),
        database_path(Seq::empty()) == "signal-serve.db"@,
{
    reveal_strlit("/signal-serve.db");
    reveal_strlit("signal-serve.db");
    assert("/signal-serve.db"@ =~= seq!['/'] + "signal-serve.db"@);
    assert((directory + seq!['/']).last() == '/');
    assert(database_path(directory) =~= directory + "/signal-serve.db"@);
    assert(database_path(directory + seq!['/']) =~= directory + "/signal-serve.db"@);
    assert(database_path(Seq::empty()) =~= "signal-serve.db"@);
}

/// A file can be written out exactly if its Base64 text is not longer than memory allows.
pub proof fn law_what_fits_can_be_written_out(bytes: Vec<u8>, pointer: AttachmentPointer)
    ensures
        encodable(bytes@.len()) <==> base64_text(bytes@).len() <= isize::MAX,
        fits(Event::Downloaded(Ok(bytes))) <==> base64_text(bytes@).len() <= isize::MAX,
        pointer.client_uuid is None ==> pointer_fits(pointer),
        pointer.client_uuid matches Some(uuid) ==> (pointer_fits(pointer) <==> base64_text(
            uuid@,
        ).len() <= isize::MAX),
{
}

/// What is handed to the service is what it looks like: a message says its own text, files and
/// reaction, a delivery has its own recipient, message and time, and an upload its own file.
pub proof fn law_deliveries_are_what_they_hold(
    delivery: Delivery,
    body: Option<String>,
    attachments: Vec<usize>,
    reaction: Option<Reaction>,
    timestamp: u64,
)
    ensures
        delivery@.recipient == delivery.recipient.bytes@,
        delivery@.message == delivery.message@,
        delivery@.timestamp == delivery.timestamp,
        ({
            &&& (Message::Data { body, attachments, reaction })@ matches MessageView::Data {
                body: text,
                attachments: files,
                reaction: seen,
            }
            &&& body matches Some(given) ==> text == Some(given@)
            &&& body is None ==> text is None
            &&& files == attachments@
            &&& reaction matches Some(given) ==> seen == Some(given@)
            &&& reaction is None ==> seen is None
        }),
        (Message::TypingStarted { timestamp })@ == (MessageView::TypingStarted { timestamp }),
{
}

/// A reaction says its own emoji and its own target.
pub proof fn law_reactions_are_what_they_hold(reaction: Reaction)
    ensures
        reaction@.emoji == reaction.emoji@,
        reaction@.remove == reaction.remove,
        reaction@.target_sent_timestamp == reaction.target_sent_timestamp,
        reaction.target_author_aci matches Some(text) ==> reaction@.target_author_aci == Some(text@),
        reaction.target_author_aci is None ==> reaction@.target_author_aci is None,
        reaction.target_author_aci_binary matches Some(bytes) ==> reaction@.target_author_aci_binary
            == Some(bytes@),
        reaction.target_author_aci_binary is None ==> reaction@.target_author_aci_binary is None,
{
}

/// A file to be uploaded says its own bytes and its own description.
pub proof fn law_uploads_are_what_they_hold(file: Upload)
    ensures
        file@.data == file.data@,
        file@.content_type == file.content_type@,
        file@.width == file.width,
        file@.height == file.height,
        file.file_name matches Some(name) ==> file@.file_name == Some(name@),
        file.file_name is None ==> file@.file_name is None,
        file.caption matches Some(text) ==> file@.caption == Some(text@),
        file.caption is None ==> file@.caption is None,
{
}

/// An action says its own parts, with all files of an upload, one for one and in order.
pub proof fn law_actions_are_what_they_hold(
    group: Vec<u8>,
    message: Message,
    timestamp: u64,
    delivery: Delivery,
    files: Vec<Upload>,
    k: int,
    handle: usize,
)
    ensures
        (Action::SendToGroup { group, message, timestamp })@ == (ActionView::SendToGroup {
            group: group@,
            message: message@,
            timestamp,
        }),
        Action::LoadContacts@ == ActionView::LoadContacts,
        Action::Deliver(delivery)@ == ActionView::Deliver(delivery@),
        Action::Upload(files)@ is Upload,
        Action::Upload(files)@->Upload_0.len() == files@.len(),
        0 <= k < files@.len() ==> Action::Upload(files)@->Upload_0[k] == files@[k]@,
        (Action::Download { handle })@ == (ActionView::Download { handle }),
{
}

/// A step says its own session, action and answer.
pub proof fn law_steps_are_what_they_hold(session: Session, action: Action, answer: Json)
    ensures
        Step::Reply(answer)@ == StepView::Reply(answer@),
        Step::Wait(session, action)@ is Wait,
        Step::Wait(session, action)@->id == session.id@,
        Step::Wait(session, action)@->stage == session.stage@,
        Step::Wait(session, action)@->action == action@,
{
}

/// What a connection does says its own frame.
pub proof fn law_frames_are_what_they_hold(text: String, bytes: Vec<u8>)
    ensures
        WsAction::SendText(text)@ == WsActionView::SendText(text@),
        WsAction::SendPing(bytes)@ == WsActionView::SendPing(bytes@),
        WsAction::Wait@ == WsActionView::Wait,
        WsAction::HangUp@ == WsActionView::HangUp,
{
}

} // verus!
