//! The states of a request. A request is answered in steps, and between two steps the shell does
//! what the last one asked for.
use vstd::prelude::*;

use crate::contacts::{contact_match, find_contact, Contact, Listing};
use crate::json::{items_view, lemma_items_view, unsigned, Json, JsonView, Object};
use crate::message::{
    deliveries_view, texts, text_view, uploads_view, Delivery, DeliveryView, Message, MessageView,
    Upload, UploadView,
};
use crate::params::{RpcError, RpcErrorView};

verus! {

/// How a request reports an address without a contact.
#[derive(Clone, Copy, Debug, PartialEq, Eq, Structural)]
pub enum Mode {
    /// As failed, with an error.
    Plain,
    /// As not found.
    Attachments,
}

/// One message for each address that means a contact, in order.
pub open spec fn deliveries_to(
    contacts: Seq<Contact>,
    addresses: Seq<Seq<char>>,
    message: MessageView,
    timestamp: u64,
) -> Seq<DeliveryView>
    decreases addresses.len(),
{
    if addresses.len() == 0 {
        Seq::empty()
    } else {
        let before = deliveries_to(contacts, addresses.drop_last(), message, timestamp);
        match contact_match(contacts, addresses.last()) {
            Some(i) => before.push(
                DeliveryView { recipient: contacts[i].uuid@, message, timestamp },
            ),
            None => before,
        }
    }
}

pub(crate) fn make_deliveries(
    contacts: &Vec<Contact>,
    addresses: &Vec<String>,
    message: &Message,
    timestamp: u64,
) -> (queue: Vec<Delivery>)
    ensures
        deliveries_view(queue@) == deliveries_to(
            contacts@,
            texts(addresses@),
            message@,
            timestamp,
        ),
{
    let ghost all = texts(addresses@);
    let mut queue: Vec<Delivery> = Vec::new();
    let mut i: usize = 0;
    assert(deliveries_view(queue@) =~= Seq::empty());
    while i < addresses.len()
        invariant
            i <= addresses.len(),
            all == texts(addresses@),
            deliveries_view(queue@) == deliveries_to(
                contacts@,
                all.take(i as int),
                message@,
                timestamp,
            ),
        decreases addresses.len() - i,
    {
        proof {
            assert(all.take(i + 1).drop_last() == all.take(i as int));
            assert(all.take(i + 1).last() == addresses@[i as int]@);
        }
        if let Some(contact) = find_contact(contacts, addresses[i].as_str()) {
            let ghost before = queue@;
            let delivery = Delivery { recipient: contact.uuid, message: message.copy(), timestamp };
            queue.push(delivery);
            assert(deliveries_view(queue@) =~= deliveries_view(before).push(delivery@));
        }
        i = i + 1;
    }
    assert(all.take(i as int) == all);
    queue
}

/// What is reported of one address.
pub open spec fn result_entry(mode: Mode, address: Seq<char>, found: bool) -> JsonView {
    let entry = Map::<Seq<char>, JsonView>::empty().insert("recipient"@, JsonView::Text(address));
    JsonView::Object(
        if found {
            entry.insert("status"@, JsonView::Text("sent"@))
        } else {
            match mode {
                Mode::Plain => entry.insert("status"@, JsonView::Text("failed"@)).insert(
                    "error"@,
                    JsonView::Text("contact not found"@),
                ),
                Mode::Attachments => entry.insert("status"@, JsonView::Text("not_found"@)),
            }
        },
    )
}

/// What is reported of the addresses, one entry for each, in order.
pub open spec fn result_entries(
    mode: Mode,
    contacts: Seq<Contact>,
    addresses: Seq<Seq<char>>,
) -> Seq<JsonView> {
    addresses.map_values(
        |address: Seq<char>|
            result_entry(mode, address, contact_match(contacts, address) is Some),
    )
}

fn make_entry(mode: Mode, address: &String, found: bool) -> (entry: Json)
    ensures
        entry@ == result_entry(mode, address@, found),
{
    let mut object = Object::new();
    object.insert("recipient", Json::Text(address.clone()));
    if found {
        object.insert("status", Json::text("sent"));
    } else {
        match mode {
            Mode::Plain => {
                object.insert("status", Json::text("failed"));
                object.insert("error", Json::text("contact not found"));
            },
            Mode::Attachments => {
                object.insert("status", Json::text("not_found"));
            },
        }
    }
    Json::Object(object)
}

pub(crate) fn make_entries(mode: Mode, contacts: &Vec<Contact>, addresses: &Vec<String>) -> (entries: Vec<Json>)
    ensures
        items_view(entries@) == result_entries(mode, contacts@, texts(addresses@)),
{
    let mut entries: Vec<Json> = Vec::new();
    let mut i: usize = 0;
    while i < addresses.len()
        invariant
            i <= addresses.len(),
            entries@.len() == i,
            forall|k: int|
                0 <= k < i ==> (#[trigger] entries@[k])@ == result_entry(
                    mode,
                    addresses@[k]@,
                    contact_match(contacts@, addresses@[k]@) is Some,
                ),
        decreases addresses.len() - i,
    {
        let found: bool = find_contact(contacts, addresses[i].as_str()).is_some();
        entries.push(make_entry(mode, &addresses[i], found));
        i = i + 1;
    }
    proof {
        lemma_items_view(entries@);
        assert(items_view(entries@) =~= result_entries(mode, contacts@, texts(addresses@)));
    }
    entries
}

/// What a request answers once its messages are sent.
#[derive(Debug)]
pub enum Report {
    /// The timestamp alone.
    Timestamp(u64),
    /// The timestamp of the messages, and what became of each address.
    Results { timestamp: u64, entries: Vec<Json> },
    /// The time of the answer, and what became of each address.
    ResultsNow { entries: Vec<Json> },
}

#[verifier::ext_equal]
pub enum ReportView {
    Timestamp(u64),
    Results { timestamp: u64, entries: Seq<JsonView> },
    ResultsNow { entries: Seq<JsonView> },
}

impl View for Report {
    type V = ReportView;

    open spec fn view(&self) -> ReportView {
        match self {
            Report::Timestamp(timestamp) => ReportView::Timestamp(*timestamp),
            Report::Results { timestamp, entries } => ReportView::Results {
                timestamp: *timestamp,
                entries: items_view(entries@),
            },
            Report::ResultsNow { entries } => ReportView::ResultsNow {
                entries: items_view(entries@),
            },
        }
    }
}

/// An object with a timestamp.
pub open spec fn timestamp_json(timestamp: u64) -> JsonView {
    JsonView::Object(
        Map::<Seq<char>, JsonView>::empty().insert("timestamp"@, unsigned(timestamp)),
    )
}

/// An object with a timestamp and results.
pub open spec fn results_json(timestamp: u64, entries: Seq<JsonView>) -> JsonView {
    JsonView::Object(
        Map::<Seq<char>, JsonView>::empty().insert("timestamp"@, unsigned(timestamp)).insert(
            "results"@,
            JsonView::Array(entries),
        ),
    )
}

impl ReportView {
    /// The report as JSON, if it is given at `now`.
    pub open spec fn json(self, now: u64) -> JsonView {
        match self {
            ReportView::Timestamp(timestamp) => timestamp_json(timestamp),
            ReportView::Results { timestamp, entries } => results_json(timestamp, entries),
            ReportView::ResultsNow { entries } => results_json(now, entries),
        }
    }
}

pub(crate) fn timestamp_object(timestamp: u64) -> (json: Json)
    ensures
        json@ == timestamp_json(timestamp),
{
    let mut object = Object::new();
    object.insert("timestamp", Json::number(timestamp));
    Json::Object(object)
}

fn results_object(timestamp: u64, entries: Vec<Json>) -> (json: Json)
    ensures
        json@ == results_json(timestamp, items_view(entries@)),
{
    let mut object = Object::new();
    object.insert("timestamp", Json::number(timestamp));
    object.insert("results", Json::Array(entries));
    Json::Object(object)
}

impl Report {
    /// The report as JSON, if it is given at `now`.
    pub(crate) fn into_json(self, now: u64) -> (json: Json)
        ensures
            json@ == self@.json(now),
    {
        match self {
            Report::Timestamp(timestamp) => timestamp_object(timestamp),
            Report::Results { timestamp, entries } => results_object(timestamp, entries),
            Report::ResultsNow { entries } => results_object(now, entries),
        }
    }
}

/// What is to be sent once the contacts are known.
#[derive(Debug)]
pub enum Order {
    Send { text: String, recipients: Vec<String>, timestamp: u64 },
    Typing { recipients: Vec<String>, timestamp: u64 },
    Reaction {
        emoji: String,
        target_author: String,
        target_timestamp: u64,
        recipients: Vec<String>,
        timestamp: u64,
    },
    Attachments { files: Vec<usize>, text: String, recipients: Vec<String>, timestamp: u64 },
}

#[verifier::ext_equal]
pub enum OrderView {
    Send { text: Seq<char>, recipients: Seq<Seq<char>>, timestamp: u64 },
    Typing { recipients: Seq<Seq<char>>, timestamp: u64 },
    Reaction {
        emoji: Seq<char>,
        target_author: Seq<char>,
        target_timestamp: u64,
        recipients: Seq<Seq<char>>,
        timestamp: u64,
    },
    Attachments {
        files: Seq<usize>,
        text: Seq<char>,
        recipients: Seq<Seq<char>>,
        timestamp: u64,
    },
}

impl View for Order {
    type V = OrderView;

    open spec fn view(&self) -> OrderView {
        match self {
            Order::Send { text, recipients, timestamp } => OrderView::Send {
                text: text@,
                recipients: texts(recipients@),
                timestamp: *timestamp,
            },
            Order::Typing { recipients, timestamp } => OrderView::Typing {
                recipients: texts(recipients@),
                timestamp: *timestamp,
            },
            Order::Reaction { emoji, target_author, target_timestamp, recipients, timestamp } =>
                OrderView::Reaction {
                emoji: emoji@,
                target_author: target_author@,
                target_timestamp: *target_timestamp,
                recipients: texts(recipients@),
                timestamp: *timestamp,
            },
            Order::Attachments { files, text, recipients, timestamp } => OrderView::Attachments {
                files: files@,
                text: text@,
                recipients: texts(recipients@),
                timestamp: *timestamp,
            },
        }
    }
}

/// What the shell has to do before a request can go on.
#[derive(Debug)]
pub enum Action {
    /// Send a message to the group with this identifier.
    SendToGroup { group: Vec<u8>, message: Message, timestamp: u64 },
    /// List the contacts of the store.
    LoadContacts,
    /// Send a message to one recipient.
    Deliver(Delivery),
    /// Upload files.
    Upload(Vec<Upload>),
    /// Fetch the attachment kept under this handle.
    Download { handle: usize },
}

#[verifier::ext_equal]
pub enum ActionView {
    SendToGroup { group: Seq<u8>, message: MessageView, timestamp: u64 },
    LoadContacts,
    Deliver(DeliveryView),
    Upload(Seq<UploadView>),
    Download { handle: usize },
}

impl View for Action {
    type V = ActionView;

    open spec fn view(&self) -> ActionView {
        match self {
            Action::SendToGroup { group, message, timestamp } => ActionView::SendToGroup {
                group: group@,
                message: message@,
                timestamp: *timestamp,
            },
            Action::LoadContacts => ActionView::LoadContacts,
            Action::Deliver(delivery) => ActionView::Deliver(delivery@),
            Action::Upload(files) => ActionView::Upload(uploads_view(files@)),
            Action::Download { handle } => ActionView::Download { handle: *handle },
        }
    }
}

/// What came of an action.
#[derive(Debug)]
pub enum Event {
    GroupSent(Result<(), String>),
    Contacts(Result<Listing, String>),
    Delivered(Result<(), String>),
    /// For each file the handle under which the shell keeps it, or why it was not uploaded.
    Uploaded(Result<Vec<Result<usize, String>>, String>),
    Downloaded(Result<Vec<u8>, String>),
}

/// Where a request stands.
#[derive(Debug)]
pub enum Stage {
    /// A message to a group is being sent.
    SendingToGroup { timestamp: u64 },
    /// The contacts are being listed for the caller.
    Listing,
    /// The contacts are being listed in order to find recipients.
    Resolving(Order),
    /// A message is being sent, and these come after it.
    Delivering { queue: Vec<Delivery>, report: Report },
    /// Files are being uploaded.
    Uploading { recipients: Vec<String>, text: String },
    /// An attachment is being fetched.
    Downloading { content_type: Option<String> },
}

#[verifier::ext_equal]
pub enum StageView {
    SendingToGroup { timestamp: u64 },
    Listing,
    Resolving(OrderView),
    Delivering { queue: Seq<DeliveryView>, report: ReportView },
    Uploading { recipients: Seq<Seq<char>>, text: Seq<char> },
    Downloading { content_type: Option<Seq<char>> },
}

impl View for Stage {
    type V = StageView;

    open spec fn view(&self) -> StageView {
        match self {
            Stage::SendingToGroup { timestamp } => StageView::SendingToGroup {
                timestamp: *timestamp,
            },
            Stage::Listing => StageView::Listing,
            Stage::Resolving(order) => StageView::Resolving(order@),
            Stage::Delivering { queue, report } => StageView::Delivering {
                queue: deliveries_view(queue@),
                report: report@,
            },
            Stage::Uploading { recipients, text } => StageView::Uploading {
                recipients: texts(recipients@),
                text: text@,
            },
            Stage::Downloading { content_type } => StageView::Downloading {
                content_type: text_view(*content_type),
            },
        }
    }
}

/// How far a request has come.
#[derive(Debug)]
pub enum Progress {
    /// It waits for an action.
    Wait(Stage, Action),
    /// It has its result.
    Finished(Json),
}

#[verifier::ext_equal]
pub enum ProgressView {
    Wait(StageView, ActionView),
    Finished(JsonView),
}

impl View for Progress {
    type V = ProgressView;

    open spec fn view(&self) -> ProgressView {
        match self {
            Progress::Wait(stage, action) => ProgressView::Wait(stage@, action@),
            Progress::Finished(json) => ProgressView::Finished(json@),
        }
    }
}

/// How far a request has come, or why it failed.
pub type Outcome = Result<Progress, RpcError>;

/// What an outcome says.
pub open spec fn outcome_view(outcome: Outcome) -> Result<ProgressView, RpcErrorView> {
    match outcome {
        Ok(progress) => Ok(progress@),
        Err(e) => Err(e@),
    }
}

} // verus!
