//! Messages to be sent, and attachments to be uploaded.
use vstd::prelude::*;

use crate::ident::Uuid;

verus! {

/// The characters of a text that may be absent.
pub open spec fn text_view(text: Option<String>) -> Option<Seq<char>> {
    match text {
        Some(text) => Some(text@),
        None => None,
    }
}

/// The bytes of a byte string that may be absent.
pub open spec fn bytes_view(bytes: Option<Vec<u8>>) -> Option<Seq<u8>> {
    match bytes {
        Some(bytes) => Some(bytes@),
        None => None,
    }
}

/// The characters of each text.
pub open spec fn texts(list: Seq<String>) -> Seq<Seq<char>> {
    list.map_values(|s: String| s@)
}

/// The same bytes once more.
pub(crate) fn copy_bytes(bytes: &Vec<u8>) -> (copy: Vec<u8>)
    ensures
        copy@ == bytes@,
{
    let mut copy: Vec<u8> = Vec::new();
    copy.extend_from_slice(bytes.as_slice());
    copy
}

/// The same numbers once more.
fn copy_handles(handles: &Vec<usize>) -> (copy: Vec<usize>)
    ensures
        copy@ == handles@,
{
    let mut copy: Vec<usize> = Vec::new();
    copy.extend_from_slice(handles.as_slice());
    copy
}

/// A reaction to an earlier message.
#[derive(Debug)]
pub struct Reaction {
    pub emoji: String,
    pub remove: bool,
    /// The author of that message as text.
    pub target_author_aci: Option<String>,
    /// When that message was sent.
    pub target_sent_timestamp: u64,
    /// The author of that message as bytes.
    pub target_author_aci_binary: Option<Vec<u8>>,
}

#[verifier::ext_equal]
pub struct ReactionView {
    pub emoji: Seq<char>,
    pub remove: bool,
    pub target_author_aci: Option<Seq<char>>,
    pub target_sent_timestamp: u64,
    pub target_author_aci_binary: Option<Seq<u8>>,
}

impl View for Reaction {
    type V = ReactionView;

    open spec fn view(&self) -> ReactionView {
        ReactionView {
            emoji: self.emoji@,
            remove: self.remove,
            target_author_aci: text_view(self.target_author_aci),
            target_sent_timestamp: self.target_sent_timestamp,
            target_author_aci_binary: bytes_view(self.target_author_aci_binary),
        }
    }
}

/// What is sent to a recipient.
#[derive(Debug)]
pub enum Message {
    /// A data message. Attachments are the handles of uploaded files.
    Data { body: Option<String>, attachments: Vec<usize>, reaction: Option<Reaction> },
    /// A sign that the user has started typing.
    TypingStarted { timestamp: u64 },
}

#[verifier::ext_equal]
pub enum MessageView {
    Data { body: Option<Seq<char>>, attachments: Seq<usize>, reaction: Option<ReactionView> },
    TypingStarted { timestamp: u64 },
}

impl View for Message {
    type V = MessageView;

    open spec fn view(&self) -> MessageView {
        match self {
            Message::Data { body, attachments, reaction } => MessageView::Data {
                body: text_view(*body),
                attachments: attachments@,
                reaction: match reaction {
                    Some(reaction) => Some(reaction@),
                    None => None,
                },
            },
            Message::TypingStarted { timestamp } => MessageView::TypingStarted {
                timestamp: *timestamp,
            },
        }
    }
}

/// A data message with a text and nothing else.
pub open spec fn text_message(text: Seq<char>) -> MessageView {
    MessageView::Data { body: Some(text), attachments: Seq::empty(), reaction: None }
}

impl Reaction {
    /// The same reaction once more.
    pub fn copy(&self) -> (reaction: Reaction)
        ensures
            reaction@ == self@,
    {
        Reaction {
            emoji: self.emoji.clone(),
            remove: self.remove,
            target_author_aci: self.target_author_aci.clone(),
            target_sent_timestamp: self.target_sent_timestamp,
            target_author_aci_binary: match &self.target_author_aci_binary {
                Some(bytes) => Some(copy_bytes(bytes)),
                None => None,
            },
        }
    }
}

impl Message {
    /// A data message with a text and nothing else.
    pub fn text(text: String) -> (message: Message)
        ensures
            message@ == text_message(text@),
    {
        Message::Data { body: Some(text), attachments: Vec::new(), reaction: None }
    }

    /// The same message once more.
    pub fn copy(&self) -> (message: Message)
        ensures
            message@ == self@,
    {
        match self {
            Message::Data { body, attachments, reaction } => Message::Data {
                body: body.clone(),
                attachments: copy_handles(attachments),
                reaction: match reaction {
                    Some(reaction) => Some(reaction.copy()),
                    None => None,
                },
            },
            Message::TypingStarted { timestamp } => Message::TypingStarted {
                timestamp: *timestamp,
            },
        }
    }
}

/// A message for one recipient.
#[derive(Debug)]
pub struct Delivery {
    pub recipient: Uuid,
    pub message: Message,
    pub timestamp: u64,
}

#[verifier::ext_equal]
pub struct DeliveryView {
    pub recipient: Seq<u8>,
    pub message: MessageView,
    pub timestamp: u64,
}

impl View for Delivery {
    type V = DeliveryView;

    open spec fn view(&self) -> DeliveryView {
        DeliveryView {
            recipient: self.recipient@,
            message: self.message@,
            timestamp: self.timestamp,
        }
    }
}

/// The deliveries in order.
pub open spec fn deliveries_view(queue: Seq<Delivery>) -> Seq<DeliveryView> {
    queue.map_values(|d: Delivery| d@)
}

/// A file to be uploaded.
#[derive(Debug)]
pub struct Upload {
    pub content_type: String,
    pub file_name: Option<String>,
    pub width: Option<u32>,
    pub height: Option<u32>,
    pub caption: Option<String>,
    pub data: Vec<u8>,
}

#[verifier::ext_equal]
pub struct UploadView {
    pub content_type: Seq<char>,
    pub file_name: Option<Seq<char>>,
    pub width: Option<u32>,
    pub height: Option<u32>,
    pub caption: Option<Seq<char>>,
    pub data: Seq<u8>,
}

impl View for Upload {
    type V = UploadView;

    open spec fn view(&self) -> UploadView {
        UploadView {
            content_type: self.content_type@,
            file_name: text_view(self.file_name),
            width: self.width,
            height: self.height,
            caption: text_view(self.caption),
            data: self.data@,
        }
    }
}

/// The files in order.
pub open spec fn uploads_view(files: Seq<Upload>) -> Seq<UploadView> {
    files.map_values(|u: Upload| u@)
}

} // verus!
