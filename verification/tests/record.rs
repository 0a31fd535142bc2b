use diundash::record::{DiunWebhook, ImageRecord};

fn sample_webhook(metadata: Option<serde_json::Value>) -> DiunWebhook {
    DiunWebhook {
        created: "2024-01-01T00:00:00Z".to_string(),
        digest: "sha256:abc".to_string(),
        diun_version: "4.0".to_string(),
        hostname: "h1".to_string(),
        hub_link: "https://hub/x".to_string(),
        image: "nginx:latest".to_string(),
        metadata,
        mime_type: "application/json".to_string(),
        platform: "linux/amd64".to_string(),
        provider: "hub".to_string(),
        status: "new".to_string(),
    }
}

fn sample_record(metadata: Option<&str>) -> ImageRecord {
    ImageRecord {
        image: "nginx:latest".to_string(),
        created: "2024-01-01T00:00:00Z".to_string(),
        digest: "sha256:abc".to_string(),
        diun_version: "4.0".to_string(),
        hostname: "h1".to_string(),
        hub_link: "https://hub/x".to_string(),
        metadata: metadata.map(|m| m.to_string()),
        mime_type: "application/json".to_string(),
        platform: "linux/amd64".to_string(),
        provider: "hub".to_string(),
        status: "new".to_string(),
        updated_at: "2024-02-03T04:05:06+00:00".to_string(),
    }
}

fn json(text: &str) -> serde_json::Value {
    serde_json::from_str(text).unwrap()
}

#[test]
fn build_takes_every_field_as_given() {
    let webhook = sample_webhook(None);
    let record = ImageRecord::build(
        &webhook,
        Some("{\"k\":1}".to_string()),
        "2024-02-03T04:05:06+00:00".to_string(),
    );
    assert_eq!(record, sample_record(Some("{\"k\":1}")));
}

#[test]
fn build_keeps_absent_metadata_absent() {
    let record =
        ImageRecord::build(&sample_webhook(None), None, "2024-02-03T04:05:06+00:00".to_string());
    assert_eq!(record, sample_record(None));
}

#[test]
fn from_webhook_stores_metadata_as_compact_json_text() {
    let webhook = sample_webhook(Some(json("{ \"b\": [1, 2.5, null],\n \"a\": \"x\" }")));
    let record = ImageRecord::from_webhook(&webhook, "2024-02-03T04:05:06+00:00".to_string());
    assert_eq!(record, sample_record(Some("{\"a\":\"x\",\"b\":[1,2.5,null]}")));
}

#[test]
fn from_webhook_stores_a_json_string_with_its_quotes() {
    let webhook = sample_webhook(Some(serde_json::Value::String("plain".to_string())));
    let record = ImageRecord::from_webhook(&webhook, "2024-02-03T04:05:06+00:00".to_string());
    assert_eq!(record.metadata, Some("\"plain\"".to_string()));
}

#[test]
fn from_webhook_stores_json_null_as_text() {
    let webhook = sample_webhook(Some(serde_json::Value::Null));
    let record = ImageRecord::from_webhook(&webhook, "t".to_string());
    assert_eq!(record.metadata, Some("null".to_string()));
}

#[test]
fn from_webhook_without_metadata_stores_none() {
    let record =
        ImageRecord::from_webhook(&sample_webhook(None), "2024-02-03T04:05:06+00:00".to_string());
    assert_eq!(record, sample_record(None));
}

#[test]
fn from_webhook_takes_the_time_as_given() {
    let record = ImageRecord::from_webhook(&sample_webhook(None), "not a time".to_string());
    assert_eq!(record.updated_at, "not a time");
}

#[test]
fn stamp_writes_the_current_time_as_rfc3339() {
    let before = chrono::Utc::now();
    let record = ImageRecord::stamp(&sample_webhook(None));
    let after = chrono::Utc::now();
    let written = chrono::DateTime::parse_from_rfc3339(&record.updated_at).unwrap();
    assert!(before <= written && written <= after);
    assert!(record.updated_at.ends_with("+00:00"));
}

#[test]
fn stamp_takes_the_rest_from_the_notification() {
    let webhook = sample_webhook(Some(json("{\"k\":1}")));
    let record = ImageRecord::stamp(&webhook);
    let expected = ImageRecord::from_webhook(&webhook, record.updated_at.clone());
    assert_eq!(record, expected);
    assert_eq!(record.image, "nginx:latest");
    assert_eq!(record.status, "new");
    assert_eq!(record.metadata, Some("{\"k\":1}".to_string()));
}

#[test]
fn columns_come_in_stored_order() {
    let columns = sample_record(Some("{}")).columns();
    let expected: Vec<Option<String>> = vec![
        Some("nginx:latest".to_string()),
        Some("2024-01-01T00:00:00Z".to_string()),
        Some("sha256:abc".to_string()),
        Some("4.0".to_string()),
        Some("h1".to_string()),
        Some("https://hub/x".to_string()),
        Some("{}".to_string()),
        Some("application/json".to_string()),
        Some("linux/amd64".to_string()),
        Some("hub".to_string()),
        Some("new".to_string()),
        Some("2024-02-03T04:05:06+00:00".to_string()),
    ];
    assert_eq!(columns, expected);
}

#[test]
fn columns_leave_absent_metadata_empty() {
    let columns = sample_record(None).columns();
    assert_eq!(columns.len(), 12);
    assert_eq!(columns[6], None);
    assert!(columns.iter().enumerate().all(|(i, c)| i == 6 || c.is_some()));
}

#[test]
fn from_columns_reads_back_what_columns_wrote() {
    for record in [sample_record(None), sample_record(Some("{\"k\":[1,2]}"))] {
        assert_eq!(ImageRecord::from_columns(&record.columns()), Some(record));
    }
}

#[test]
fn from_columns_refuses_a_row_of_another_width() {
    let mut columns = sample_record(None).columns();
    columns.pop();
    assert_eq!(ImageRecord::from_columns(&columns), None);
    let mut columns = sample_record(None).columns();
    columns.push(Some("extra".to_string()));
    assert_eq!(ImageRecord::from_columns(&columns), None);
    assert_eq!(ImageRecord::from_columns(&Vec::new()), None);
}

#[test]
fn from_columns_refuses_an_empty_required_column() {
    for i in 0..12 {
        let mut columns = sample_record(Some("{}")).columns();
        columns[i] = None;
        let read = ImageRecord::from_columns(&columns);
        if i == 6 {
            assert_eq!(read, Some(sample_record(None)));
        } else {
            assert_eq!(read, None, "column {i}");
        }
    }
}

#[test]
fn a_clone_has_the_same_contents() {
    for record in [sample_record(None), sample_record(Some("{}"))] {
        assert_eq!(record.clone(), record);
    }
}
