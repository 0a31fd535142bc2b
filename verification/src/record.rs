//! The notification that the monitoring agent sends and the record that is
//! kept of it.

use vstd::prelude::*;
use crate::clock::now_rfc3339;
use crate::json::{encode, json_encoding};

verus! {

/// An image-update notification, as the agent reports it.
#[derive(Debug, PartialEq, Eq)]
pub struct DiunWebhook {
    pub created: String,
    pub digest: String,
    pub diun_version: String,
    pub hostname: String,
    pub hub_link: String,
    pub image: String,
    pub metadata: Option<serde_json::Value>,
    pub mime_type: String,
    pub platform: String,
    pub provider: String,
    pub status: String,
}

/// What a notification holds, as values.
pub struct WebhookView {
    pub created: Seq<char>,
    pub digest: Seq<char>,
    pub diun_version: Seq<char>,
    pub hostname: Seq<char>,
    pub hub_link: Seq<char>,
    pub image: Seq<char>,
    pub metadata: Option<serde_json::Value>,
    pub mime_type: Seq<char>,
    pub platform: Seq<char>,
    pub provider: Seq<char>,
    pub status: Seq<char>,
}

impl View for DiunWebhook {
    type V = WebhookView;

    open spec fn view(&self) -> WebhookView {
        WebhookView {
            created: self.created@,
            digest: self.digest@,
            diun_version: self.diun_version@,
            hostname: self.hostname@,
            hub_link: self.hub_link@,
            image: self.image@,
            metadata: self.metadata,
            mime_type: self.mime_type@,
            platform: self.platform@,
            provider: self.provider@,
            status: self.status@,
        }
    }
}

/// The latest known state of one image. `image` identifies the record;
/// `metadata` is JSON text kept as it was written; `updated_at` is the time
/// of the write that made the record.
#[derive(Debug, PartialEq, Eq)]
pub struct ImageRecord {
    pub image: String,
    pub created: String,
    pub digest: String,
    pub diun_version: String,
    pub hostname: String,
    pub hub_link: String,
    pub metadata: Option<String>,
    pub mime_type: String,
    pub platform: String,
    pub provider: String,
    pub status: String,
    pub updated_at: String,
}

/// What a record holds, as values.
pub struct RecordView {
    pub image: Seq<char>,
    pub created: Seq<char>,
    pub digest: Seq<char>,
    pub diun_version: Seq<char>,
    pub hostname: Seq<char>,
    pub hub_link: Seq<char>,
    pub metadata: Option<Seq<char>>,
    pub mime_type: Seq<char>,
    pub platform: Seq<char>,
    pub provider: Seq<char>,
    pub status: Seq<char>,
    pub updated_at: Seq<char>,
}

impl View for ImageRecord {
    type V = RecordView;

    open spec fn view(&self) -> RecordView {
        RecordView {
            image: self.image@,
            created: self.created@,
            digest: self.digest@,
            diun_version: self.diun_version@,
            hostname: self.hostname@,
            hub_link: self.hub_link@,
            metadata: match self.metadata {
                Some(m) => Some(m@),
                None => None,
            },
            mime_type: self.mime_type@,
            platform: self.platform@,
            provider: self.provider@,
            status: self.status@,
            updated_at: self.updated_at@,
        }
    }
}

/// The record written for a notification: every reported field as it came,
/// the given metadata text, and the given time of writing.
pub open spec fn record_with(
    webhook: WebhookView,
    metadata: Option<Seq<char>>,
    updated_at: Seq<char>,
) -> RecordView {
    RecordView {
        image: webhook.image,
        created: webhook.created,
        digest: webhook.digest,
        diun_version: webhook.diun_version,
        hostname: webhook.hostname,
        hub_link: webhook.hub_link,
        metadata: metadata,
        mime_type: webhook.mime_type,
        platform: webhook.platform,
        provider: webhook.provider,
        status: webhook.status,
        updated_at: updated_at,
    }
}

/// The metadata text stored for a notification: the JSON encoding of its
/// metadata, and nothing where it has none or the encoding fails.
pub open spec fn metadata_text(webhook: WebhookView) -> Option<Seq<char>> {
    match webhook.metadata {
        Some(value) => json_encoding(value),
        None => None,
    }
}

/// The record written for a notification at the time `updated_at`.
pub open spec fn record_of(webhook: WebhookView, updated_at: Seq<char>) -> RecordView {
    record_with(webhook, metadata_text(webhook), updated_at)
}

/// The columns of a record's row, in the order in which they are stored:
/// the image first, the time of writing last, the metadata seventh and the
/// only one that may be empty.
pub open spec fn columns_of(r: RecordView) -> Seq<Option<Seq<char>>> {
    seq![
        Some(r.image),
        Some(r.created),
        Some(r.digest),
        Some(r.diun_version),
        Some(r.hostname),
        Some(r.hub_link),
        r.metadata,
        Some(r.mime_type),
        Some(r.platform),
        Some(r.provider),
        Some(r.status),
        Some(r.updated_at),
    ]
}

/// Whether a row can be read as a record: it has the twelve columns, and
/// none but the metadata is empty.
pub open spec fn is_row(columns: Seq<Option<Seq<char>>>) -> bool {
    &&& columns.len() == 12
    &&& forall|i: int| 0 <= i < 12 && i != 6 ==> columns[i] is Some
}

/// The columns of no two different records are the same, and the columns
/// of every record make a row.
pub proof fn lemma_columns(r: RecordView, s: RecordView)
    ensures
        is_row(columns_of(r)),
        columns_of(r) == columns_of(s) ==> r == s,
{
    let a = columns_of(r);
    let b = columns_of(s);
    if a == b {
        assert(a[0] == b[0] && a[1] == b[1] && a[2] == b[2] && a[3] == b[3] && a[4] == b[4] && a[5]
            == b[5] && a[6] == b[6] && a[7] == b[7] && a[8] == b[8] && a[9] == b[9] && a[10]
            == b[10] && a[11] == b[11]);
    }
}

fn copy_text(text: &Option<String>) -> (r: Option<String>)
    ensures
        match (r, *text) {
            (Some(a), Some(b)) => a@ == b@,
            (None, None) => true,
            _ => false,
        },
{
    match text {
        Some(t) => Some(t.clone()),
        None => None,
    }
}

fn text_at(columns: &Vec<Option<String>>, i: usize) -> (text: String)
    requires
        i < columns.len(),
        columns[i as int] is Some,
    ensures
        text@ == columns[i as int]->0@,
{
    match &columns[i] {
        Some(t) => t.clone(),
        None => String::new(),
    }
}

impl ImageRecord {
    /// Puts a record together from a notification, the text of its metadata
    /// and the time of writing.
    pub fn build(webhook: &DiunWebhook, metadata: Option<String>, updated_at: String) -> (r:
        ImageRecord)
        ensures
            r@ == record_with(
                webhook@,
                match metadata {
                    Some(m) => Some(m@),
                    None => None,
                },
                updated_at@,
            ),
    {
        ImageRecord {
            image: webhook.image.clone(),
            created: webhook.created.clone(),
            digest: webhook.digest.clone(),
            diun_version: webhook.diun_version.clone(),
            hostname: webhook.hostname.clone(),
            hub_link: webhook.hub_link.clone(),
            metadata: metadata,
            mime_type: webhook.mime_type.clone(),
            platform: webhook.platform.clone(),
            provider: webhook.provider.clone(),
            status: webhook.status.clone(),
            updated_at: updated_at,
        }
    }

    /// The record written for a notification at the time `updated_at`. Its
    /// metadata is stored as JSON text.
    pub fn from_webhook(webhook: &DiunWebhook, updated_at: String) -> (r: ImageRecord)
        ensures
            r@ == record_of(webhook@, updated_at@),
    {
        let metadata = match &webhook.metadata {
            Some(value) => match encode(value) {
                Ok(text) => Some(text),
                Err(_) => None,
            },
            None => None,
        };
        ImageRecord::build(webhook, metadata, updated_at)
    }

    /// The record written for a notification now. The time of writing is
    /// read from the clock, so only the rest of the record is determined by
    /// the notification.
    pub fn stamp(webhook: &DiunWebhook) -> (r: ImageRecord)
        ensures
            r@ == record_of(webhook@, r@.updated_at),
    {
        ImageRecord::from_webhook(webhook, now_rfc3339())
    }

    /// The columns of the record's row, in stored order.
    pub fn columns(&self) -> (columns: Vec<Option<String>>)
        ensures
            columns.deep_view() == columns_of(self@),
    {
        let mut columns: Vec<Option<String>> = Vec::new();
        columns.push(Some(self.image.clone()));
        columns.push(Some(self.created.clone()));
        columns.push(Some(self.digest.clone()));
        columns.push(Some(self.diun_version.clone()));
        columns.push(Some(self.hostname.clone()));
        columns.push(Some(self.hub_link.clone()));
        columns.push(copy_text(&self.metadata));
        columns.push(Some(self.mime_type.clone()));
        columns.push(Some(self.platform.clone()));
        columns.push(Some(self.provider.clone()));
        columns.push(Some(self.status.clone()));
        columns.push(Some(self.updated_at.clone()));
        assert(columns.deep_view() =~= columns_of(self@));
        columns
    }

    /// Reads a record from the columns of a row: the record that has these
    /// columns, or nothing where the columns do not make a row.
    pub fn from_columns(columns: &Vec<Option<String>>) -> (r: Option<ImageRecord>)
        ensures
            match r {
                Some(record) => columns_of(record@) == columns.deep_view(),
                None => !is_row(columns.deep_view()),
            },
    {
        if columns.len() != 12 {
            return None;
        }
        let mut i: usize = 0;
        while i < 12
            invariant
                columns.len() == 12,
                i <= 12,
                forall|j: int| 0 <= j < i && j != 6 ==> columns[j] is Some,
            decreases 12 - i,
        {
            if i != 6 && columns[i].is_none() {
                assert(columns.deep_view()[i as int] is None);
                return None;
            }
            i = i + 1;
        }
        let record = ImageRecord {
            image: text_at(columns, 0),
            created: text_at(columns, 1),
            digest: text_at(columns, 2),
            diun_version: text_at(columns, 3),
            hostname: text_at(columns, 4),
            hub_link: text_at(columns, 5),
            metadata: copy_text(&columns[6]),
            mime_type: text_at(columns, 7),
            platform: text_at(columns, 8),
            provider: text_at(columns, 9),
            status: text_at(columns, 10),
            updated_at: text_at(columns, 11),
        };
        assert(columns_of(record@) =~= columns.deep_view());
        Some(record)
    }
}

impl Clone for ImageRecord {
    /// A record with the same contents.
    fn clone(&self) -> (r: ImageRecord)
        ensures
            r@ == self@,
    {
        ImageRecord {
            image: self.image.clone(),
            created: self.created.clone(),
            digest: self.digest.clone(),
            diun_version: self.diun_version.clone(),
            hostname: self.hostname.clone(),
            hub_link: self.hub_link.clone(),
            metadata: copy_text(&self.metadata),
            mime_type: self.mime_type.clone(),
            platform: self.platform.clone(),
            provider: self.provider.clone(),
            status: self.status.clone(),
            updated_at: self.updated_at.clone(),
        }
    }
}

} // verus!
