//! The parameters of a request, and the errors with which it can fail.
use vstd::prelude::*;
use vstd::utf8::encode_utf8;

use crate::codec::{base64_text, decode, decoded, lemma_base64_injective, refusal};
use crate::json::{
    array_member, items_view, lemma_items_view, text_member, u64_member, Json, JsonView, Object,
};
use crate::message::{texts, text_view, uploads_view, Upload, UploadView};

verus! {

/// Why a request failed.
#[derive(Debug)]
pub enum RpcError {
    UnknownMethod(String),
    MissingAttachmentId,
    /// A text was not Base64. Holds the message of the decoder.
    BadBase64(String),
    NotCached,
    NoRecipient,
    MissingAttachments,
    EmptyAttachments,
    MissingBytes,
    UploadsFailed,
    /// The messaging service or the store failed. Holds its message.
    Service(String),
}

#[verifier::ext_equal]
pub enum RpcErrorView {
    UnknownMethod(Seq<char>),
    MissingAttachmentId,
    BadBase64(Seq<char>),
    NotCached,
    NoRecipient,
    MissingAttachments,
    EmptyAttachments,
    MissingBytes,
    UploadsFailed,
    Service(Seq<char>),
}

impl View for RpcError {
    type V = RpcErrorView;

    open spec fn view(&self) -> RpcErrorView {
        match self {
            RpcError::UnknownMethod(method) => RpcErrorView::UnknownMethod(method@),
            RpcError::MissingAttachmentId => RpcErrorView::MissingAttachmentId,
            RpcError::BadBase64(message) => RpcErrorView::BadBase64(message@),
            RpcError::NotCached => RpcErrorView::NotCached,
            RpcError::NoRecipient => RpcErrorView::NoRecipient,
            RpcError::MissingAttachments => RpcErrorView::MissingAttachments,
            RpcError::EmptyAttachments => RpcErrorView::EmptyAttachments,
            RpcError::MissingBytes => RpcErrorView::MissingBytes,
            RpcError::UploadsFailed => RpcErrorView::UploadsFailed,
            RpcError::Service(message) => RpcErrorView::Service(message@),
        }
    }
}

impl RpcErrorView {
    /// The message that the caller gets to see.
    pub open spec fn message(self) -> Seq<char> {
        match self {
            RpcErrorView::UnknownMethod(method) => "Unknown method: "@ + method,
            RpcErrorView::MissingAttachmentId => "missing attachmentId"@,
            RpcErrorView::BadBase64(message) => message,
            RpcErrorView::NotCached =>
                "attachment not found in cache — may have expired or never arrived"@,
            RpcErrorView::NoRecipient => "missing or empty recipient array"@,
            RpcErrorView::MissingAttachments => "missing attachments array"@,
            RpcErrorView::EmptyAttachments => "attachments array is empty"@,
            RpcErrorView::MissingBytes => "each attachment needs 'bytes' field (base64)"@,
            RpcErrorView::UploadsFailed => "all attachment uploads failed"@,
            RpcErrorView::Service(message) => message,
        }
    }
}

impl RpcError {
    /// The message that the caller gets to see.
    pub fn message(&self) -> (message: String)
        ensures
            message@ == self@.message(),
    {
        match self {
            RpcError::UnknownMethod(method) => "Unknown method: ".to_owned().concat(
                method.as_str(),
            ),
            RpcError::MissingAttachmentId => "missing attachmentId".to_owned(),
            RpcError::BadBase64(message) => message.clone(),
            RpcError::NotCached =>
                "attachment not found in cache — may have expired or never arrived".to_owned(),
            RpcError::NoRecipient => "missing or empty recipient array".to_owned(),
            RpcError::MissingAttachments => "missing attachments array".to_owned(),
            RpcError::EmptyAttachments => "attachments array is empty".to_owned(),
            RpcError::MissingBytes => "each attachment needs 'bytes' field (base64)".to_owned(),
            RpcError::UploadsFailed => "all attachment uploads failed".to_owned(),
            RpcError::Service(message) => message.clone(),
        }
    }
}

/// The text of the message, empty if there is none.
pub open spec fn message_text(params: Map<Seq<char>, JsonView>) -> Seq<char> {
    match text_member(params, "message"@) {
        Some(text) => text,
        None => Seq::empty(),
    }
}

/// The text of the message, empty if there is none.
pub fn msg_text(params: &Object) -> (text: String)
    ensures
        text@ == message_text(params@),
{
    match params.get_text("message") {
        Some(text) => text.clone(),
        None => String::new(),
    }
}

/// Those of the items that are texts, in order.
pub open spec fn texts_among(items: Seq<JsonView>) -> Seq<Seq<char>>
    decreases items.len(),
{
    if items.len() == 0 {
        Seq::empty()
    } else {
        match items.last().as_text() {
            Some(text) => texts_among(items.drop_last()).push(text),
            None => texts_among(items.drop_last()),
        }
    }
}

/// The addresses of the recipients. What is not a text is passed over.
pub open spec fn recipient_list(params: Map<Seq<char>, JsonView>) -> Seq<Seq<char>> {
    match array_member(params, "recipient"@) {
        Some(items) => texts_among(items),
        None => Seq::empty(),
    }
}

/// The addresses of the recipients. What is not a text is passed over.
pub fn recipients(params: &Object) -> (list: Vec<String>)
    ensures
        texts(list@) == recipient_list(params@),
{
    let mut list: Vec<String> = Vec::new();
    match params.get_array("recipient") {
        Some(items) => {
            let ghost views = items_view(items@);
            let mut i: usize = 0;
            proof {
                lemma_items_view(items@);
                assert(texts(list@) =~= Seq::empty());
            }
            while i < items.len()
                invariant
                    i <= items.len(),
                    views == items@.map_values(|j: Json| j@),
                    texts(list@) == texts_among(views.take(i as int)),
                decreases items.len() - i,
            {
                proof {
                    assert(views.take(i + 1).drop_last() == views.take(i as int));
                    assert(views.take(i + 1).last() == items@[i as int]@);
                }
                if let Json::Text(text) = &items[i] {
                    let ghost before = list@;
                    list.push(text.clone());
                    assert(texts(list@) =~= texts(before).push(text@));
                }
                i = i + 1;
            }
            assert(views.take(i as int) == views);
        },
        None => {
            assert(texts(list@) =~= Seq::empty());
        },
    }
    list
}

/// The bytes of the group identifier, which are those of its text.
pub open spec fn group_id(params: Map<Seq<char>, JsonView>) -> Option<Seq<u8>> {
    match text_member(params, "groupId"@) {
        Some(text) => Some(encode_utf8(text)),
        None => None,
    }
}

/// The bytes of the group identifier, which are those of its text.
pub fn group_id_bytes(params: &Object) -> (bytes: Option<Vec<u8>>)
    ensures
        match bytes {
            Some(bytes) => group_id(params@) == Some(bytes@),
            None => group_id(params@) is None,
        },
{
    match params.get_text("groupId") {
        Some(text) => Some(text.as_str().as_bytes_vec()),
        None => None,
    }
}

/// The low 32 bits of a number.
pub open spec fn low_bits(n: Option<u64>) -> Option<u32> {
    match n {
        Some(n) => Some((n % 0x1_0000_0000) as u32),
        None => None,
    }
}

fn low_half(n: Option<u64>) -> (low: Option<u32>)
    ensures
        low == low_bits(n),
{
    match n {
        Some(n) => {
            assert(n as u32 == n % 0x1_0000_0000) by (bit_vector);
            Some(#[verifier::truncate] (n as u32))
        },
        None => None,
    }
}

/// The media type of a file of which none is given.
pub open spec fn default_content_type() -> Seq<char> {
    "application/octet-stream"@
}

/// The members of an object. Other values have none.
pub open spec fn members_of(value: JsonView) -> Map<Seq<char>, JsonView> {
    match value {
        JsonView::Object(members) => members,
        _ => Map::empty(),
    }
}

/// The file that an item of the attachment array describes.
pub open spec fn upload_of(item: JsonView) -> Result<UploadView, RpcErrorView> {
    let members = members_of(item);
    match text_member(members, "bytes"@) {
        None => Err(RpcErrorView::MissingBytes),
        Some(text) => match decoded(text) {
            None => Err(RpcErrorView::BadBase64(refusal(text))),
            Some(data) => Ok(
                UploadView {
                    content_type: match text_member(members, "contentType"@) {
                        Some(content_type) => content_type,
                        None => default_content_type(),
                    },
                    file_name: text_member(members, "filename"@),
                    width: low_bits(u64_member(members, "width"@)),
                    height: low_bits(u64_member(members, "height"@)),
                    caption: text_member(members, "caption"@),
                    data,
                },
            ),
        },
    }
}

/// The files that the items describe, or the error of the first item that has one.
pub open spec fn uploads_of(items: Seq<JsonView>) -> Result<Seq<UploadView>, RpcErrorView>
    decreases items.len(),
{
    if items.len() == 0 {
        Ok(Seq::empty())
    } else {
        match uploads_of(items.drop_last()) {
            Err(e) => Err(e),
            Ok(files) => match upload_of(items.last()) {
                Err(e) => Err(e),
                Ok(file) => Ok(files.push(file)),
            },
        }
    }
}

/// An error among the first items is the error of all.
proof fn lemma_first_error(items: Seq<JsonView>, n: int)
    requires
        0 <= n <= items.len(),
        uploads_of(items.take(n)) is Err,
    ensures
        uploads_of(items) == uploads_of(items.take(n)),
    decreases items.len() - n,
{
    if n < items.len() {
        assert(items.take(n + 1).drop_last() == items.take(n));
        lemma_first_error(items, n + 1);
    } else {
        assert(items.take(n) == items);
    }
}

/// The bytes that a Base64 text stands for.
pub(crate) fn decode_text(text: &str) -> (bytes: Result<Vec<u8>, RpcError>)
    ensures
        match bytes {
            Ok(bytes) => decoded(text@) == Some(bytes@),
            Err(e) => decoded(text@) is None && e@ == RpcErrorView::BadBase64(refusal(text@)),
        },
{
    match decode(text) {
        Ok(bytes) => {
            proof {
                lemma_base64_injective(
                    choose|b: Seq<u8>| base64_text(b) == text@,
                    bytes@,
                );
            }
            Ok(bytes)
        },
        Err(message) => Err(RpcError::BadBase64(message)),
    }
}

fn text_or_none(object: &Object, name: &str) -> (text: Option<String>)
    ensures
        text_view(text) == text_member(object@, name@),
{
    match object.get_text(name) {
        Some(text) => Some(text.clone()),
        None => None,
    }
}

/// Reads one item of the attachment array.
fn parse_upload(item: &Json) -> (file: Result<Upload, RpcError>)
    ensures
        match file {
            Ok(file) => upload_of(item@) == Ok::<UploadView, RpcErrorView>(file@),
            Err(e) => upload_of(item@) == Err::<UploadView, RpcErrorView>(e@),
        },
{
    let none = Object::new();
    let members: &Object = match item {
        Json::Object(object) => object,
        _ => &none,
    };
    match members.get_text("bytes") {
        None => Err(RpcError::MissingBytes),
        Some(text) => match decode_text(text.as_str()) {
            Err(e) => Err(e),
            Ok(data) => {
                let content_type: String = match members.get_text("contentType") {
                    Some(content_type) => content_type.clone(),
                    None => "application/octet-stream".to_owned(),
                };
                Ok(
                    Upload {
                        content_type,
                        file_name: text_or_none(members, "filename"),
                        width: low_half(members.get_u64("width")),
                        height: low_half(members.get_u64("height")),
                        caption: text_or_none(members, "caption"),
                        data,
                    },
                )
            },
        },
    }
}

/// Reads the items of the attachment array up to the first error.
pub fn parse_uploads(items: &Vec<Json>) -> (files: Result<Vec<Upload>, RpcError>)
    ensures
        match files {
            Ok(files) => uploads_of(items_view(items@)) == Ok::<Seq<UploadView>, RpcErrorView>(
                uploads_view(files@),
            ),
            Err(e) => uploads_of(items_view(items@)) == Err::<Seq<UploadView>, RpcErrorView>(e@),
        },
{
    let ghost views = items_view(items@);
    let mut files: Vec<Upload> = Vec::new();
    let mut i: usize = 0;
    proof {
        lemma_items_view(items@);
        assert(uploads_view(files@) =~= Seq::empty());
    }
    while i < items.len()
        invariant
            i <= items.len(),
            views == items@.map_values(|j: Json| j@),
            views == items_view(items@),
            uploads_of(views.take(i as int)) == Ok::<Seq<UploadView>, RpcErrorView>(
                uploads_view(files@),
            ),
        decreases items.len() - i,
    {
        proof {
            assert(views.take(i + 1).drop_last() == views.take(i as int));
            assert(views.take(i + 1).last() == items@[i as int]@);
        }
        match parse_upload(&items[i]) {
            Ok(file) => {
                let ghost before = files@;
                files.push(file);
                assert(uploads_view(files@) =~= uploads_view(before).push(file@));
            },
            Err(e) => {
                proof {
                    lemma_first_error(views, i + 1);
                }
                return Err(e);
            },
        }
        i = i + 1;
    }
    assert(views.take(i as int) == views);
    Ok(files)
}

} // verus!
