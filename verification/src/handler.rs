//! What the service decides for each request. The functions here take what
//! was read from a request, and the outcome of any write to durable
//! storage, and give the answer and the change to the record store.

use vstd::prelude::*;
use crate::auth::{authorize, authorized};
use crate::json::{json_member, json_string, member, string_of};
use crate::record::{DiunWebhook, ImageRecord};
use crate::reply::Reply;
use crate::store::{views, RecordStore};
use crate::table::lists;
use crate::text::same_text;

verus! {

/// The value of an `Authorization` header, if there is one, as a value.
pub open spec fn header_view(header: Option<&str>) -> Option<Seq<char>> {
    match header {
        Some(h) => Some(h@),
        None => None,
    }
}

/// What becomes of a notification request once it was read.
#[derive(Debug, PartialEq, Eq)]
pub enum WebhookStep {
    /// The request is answered at once, and nothing is written.
    Refuse(Reply),
    /// The notification is accepted: its record is to be written.
    Accept(DiunWebhook),
}

/// Admits or refuses a notification request. `decoded` is the notification
/// read from the body, or the decoder's message where the body could not be
/// read as one; `header` is the value of the `Authorization` header.
///
/// A body that cannot be read is refused as a bad request before anything
/// else is looked at. A readable request without the right bearer token is
/// refused as unauthorized. Any other notification is accepted as it is.
pub fn diun_webhook_with_auth(
    decoded: Result<DiunWebhook, String>,
    header: Option<&str>,
    secret: &str,
) -> (step: WebhookStep)
    ensures
        step == match decoded {
            Err(message) => WebhookStep::Refuse(Reply::BadBody(message)),
            Ok(webhook) => if authorized(header_view(header), secret@) {
                WebhookStep::Accept(webhook)
            } else {
                WebhookStep::Refuse(Reply::Unauthorized)
            },
        },
{
    match decoded {
        Err(message) => WebhookStep::Refuse(Reply::BadBody(message)),
        Ok(webhook) => {
            if authorize(header, secret) {
                WebhookStep::Accept(webhook)
            } else {
                WebhookStep::Refuse(Reply::Unauthorized)
            }
        },
    }
}

/// Concludes an accepted notification. `record` is the record made of it
/// and `saved` says whether that record reached durable storage. If it
/// did, the record is written to the store; if not, the store stays as it
/// was and the failure is reported.
pub fn diun_webhook(store: &mut RecordStore, record: ImageRecord, saved: bool) -> (reply: Reply)
    requires
        old(store).well_formed(),
    ensures
        final(store).well_formed(),
        saved ==> reply == Reply::Received && final(store)@ == old(store)@.insert(
            record@.image,
            record@,
        ),
        !saved ==> reply == Reply::SaveFailed && final(store)@ == old(store)@,
{
    if saved {
        store.upsert(record);
        Reply::Received
    } else {
        Reply::SaveFailed
    }
}

/// Admits or refuses a request to delete a record: the refusal to answer
/// with, or nothing where the request carries the right bearer token.
pub fn delete_image_handler_with_auth(header: Option<&str>, secret: &str) -> (refusal: Option<
    Reply,
>)
    ensures
        refusal == if authorized(header_view(header), secret@) {
            None
        } else {
            Some(Reply::Unauthorized)
        },
{
    if authorize(header, secret) {
        None
    } else {
        Some(Reply::Unauthorized)
    }
}

/// Concludes an admitted request to delete the record of `image`.
/// `deleted` says whether durable storage carried the deletion out. If it
/// did, the store no longer has a record of the image, whether or not it
/// had one; if not, the store stays as it was and the failure is reported.
pub fn delete_image_handler(store: &mut RecordStore, image: &str, deleted: bool) -> (reply: Reply)
    requires
        old(store).well_formed(),
    ensures
        final(store).well_formed(),
        deleted ==> reply == Reply::Deleted && final(store)@ == old(store)@.remove(image@),
        !deleted ==> reply == Reply::DeleteFailed && final(store)@ == old(store)@,
{
    if deleted {
        store.delete(image);
        Reply::Deleted
    } else {
        Reply::DeleteFailed
    }
}

/// The answer to a request for all records: the status word, which is
/// always `success`, their number and the records, newest first.
#[derive(Debug, PartialEq, Eq)]
pub struct Listing {
    pub status: &'static str,
    pub count: usize,
    pub images: Vec<ImageRecord>,
}

/// Lists the store.
pub fn list_images(store: &RecordStore) -> (listing: Listing)
    requires
        store.well_formed(),
    ensures
        lists(views(listing.images@), store@),
        listing.count == listing.images@.len(),
        listing.count == store@.dom().len(),
        listing.status@ == "success"@,
{
    let images = store.list_all();
    Listing { status: "success", count: images.len(), images }
}

/// What a request body offers as an API key.
#[derive(Debug, PartialEq, Eq)]
pub enum KeyClaim {
    /// The body has no member `api_key`.
    Missing,
    /// The member `api_key` is not a string.
    NotText,
    /// The member `api_key` is this string.
    Text(String),
}

/// What a request body offers as an API key, as a value.
pub enum ClaimView {
    Missing,
    NotText,
    Text(Seq<char>),
}

impl View for KeyClaim {
    type V = ClaimView;

    open spec fn view(&self) -> ClaimView {
        match self {
            KeyClaim::Missing => ClaimView::Missing,
            KeyClaim::NotText => ClaimView::NotText,
            KeyClaim::Text(key) => ClaimView::Text(key@),
        }
    }
}

/// The answer to an offered key: verified where it is the secret,
/// character for character.
pub open spec fn key_verdict(claim: ClaimView, secret: Seq<char>) -> Reply {
    match claim {
        ClaimView::Missing => Reply::KeyMissing,
        ClaimView::NotText => Reply::KeyMalformed,
        ClaimView::Text(key) => if key == secret {
            Reply::KeyVerified
        } else {
            Reply::KeyRejected
        },
    }
}

/// What a JSON body offers under `api_key`.
pub open spec fn claim_of(body: serde_json::Value) -> ClaimView {
    match json_member(body, "api_key"@) {
        None => ClaimView::Missing,
        Some(offered) => match json_string(offered) {
            None => ClaimView::NotText,
            Some(key) => ClaimView::Text(key),
        },
    }
}

/// Answers an offered key.
pub fn key_reply(claim: &KeyClaim, secret: &str) -> (reply: Reply)
    ensures
        reply == key_verdict(claim@, secret@),
{
    match claim {
        KeyClaim::Missing => Reply::KeyMissing,
        KeyClaim::NotText => Reply::KeyMalformed,
        KeyClaim::Text(key) => if same_text(key.as_str(), secret) {
            Reply::KeyVerified
        } else {
            Reply::KeyRejected
        },
    }
}

/// Reads what a JSON body offers under `api_key`.
pub fn offered_key(body: &serde_json::Value) -> (claim: KeyClaim)
    ensures
        claim@ == claim_of(*body),
{
    match member(body, "api_key") {
        None => KeyClaim::Missing,
        Some(offered) => match string_of(offered) {
            None => KeyClaim::NotText,
            Some(key) => KeyClaim::Text(key.to_owned()),
        },
    }
}

/// Checks the key that a JSON body offers under `api_key` against the
/// secret. No bearer token is asked for.
pub fn verify_api_key(body: &serde_json::Value, secret: &str) -> (reply: Reply)
    ensures
        reply == key_verdict(claim_of(*body), secret@),
{
    key_reply(&offered_key(body), secret)
}

} // verus!
