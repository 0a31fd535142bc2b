use diundash::record::ImageRecord;
use diundash::store::RecordStore;

fn record_at(image: &str, status: &str, updated_at: &str) -> ImageRecord {
    ImageRecord {
        image: image.to_string(),
        created: "2024-01-01T00:00:00Z".to_string(),
        digest: "sha256:abc".to_string(),
        diun_version: "4.0".to_string(),
        hostname: "h1".to_string(),
        hub_link: "https://hub/x".to_string(),
        metadata: None,
        mime_type: "application/json".to_string(),
        platform: "linux/amd64".to_string(),
        provider: "hub".to_string(),
        status: status.to_string(),
        updated_at: updated_at.to_string(),
    }
}

fn images_of(listing: &[ImageRecord]) -> Vec<&str> {
    listing.iter().map(|r| r.image.as_str()).collect()
}

#[test]
fn a_new_store_is_empty() {
    let store = RecordStore::new();
    assert_eq!(store.len(), 0);
    assert_eq!(store.list_all(), Vec::new());
}

#[test]
fn upsert_adds_the_record_of_a_new_image() {
    let mut store = RecordStore::new();
    let record = record_at("nginx:latest", "new", "2024-01-01T00:00:00+00:00");
    store.upsert(record.clone());
    assert_eq!(store.len(), 1);
    assert_eq!(store.list_all(), vec![record]);
}

#[test]
fn upsert_twice_for_one_image_keeps_the_latest_record_only() {
    let mut store = RecordStore::new();
    store.upsert(record_at("redis:7", "new", "2024-01-01T00:00:00+00:00"));
    let first = record_at("nginx:latest", "new", "2024-01-02T00:00:00+00:00");
    let mut second = record_at("nginx:latest", "update", "2024-01-03T00:00:00+00:00");
    second.digest = "sha256:def".to_string();
    second.metadata = Some("{}".to_string());
    store.upsert(first.clone());
    store.upsert(second.clone());
    let listing = store.list_all();
    assert_eq!(store.len(), 2);
    let kept: Vec<&ImageRecord> = listing.iter().filter(|r| r.image == "nginx:latest").collect();
    assert_eq!(kept, vec![&second]);
    assert_eq!(kept[0].status, "update");
    assert!(kept[0].updated_at >= first.updated_at);
}

#[test]
fn upsert_replaces_every_field_but_the_image() {
    let mut store = RecordStore::new();
    store.upsert(record_at("nginx:latest", "new", "2024-01-02T00:00:00+00:00"));
    let replacement = ImageRecord {
        image: "nginx:latest".to_string(),
        created: "c".to_string(),
        digest: "d".to_string(),
        diun_version: "v".to_string(),
        hostname: "h".to_string(),
        hub_link: "l".to_string(),
        metadata: Some("[1]".to_string()),
        mime_type: "m".to_string(),
        platform: "p".to_string(),
        provider: "r".to_string(),
        status: "s".to_string(),
        updated_at: "2024-01-02T00:00:01+00:00".to_string(),
    };
    store.upsert(replacement.clone());
    assert_eq!(store.list_all(), vec![replacement]);
}

#[test]
fn upsert_of_identical_input_changes_nothing() {
    let mut store = RecordStore::new();
    let record = record_at("nginx:latest", "new", "2024-01-02T00:00:00+00:00");
    store.upsert(record.clone());
    store.upsert(record.clone());
    assert_eq!(store.list_all(), vec![record]);
}

#[test]
fn distinct_images_are_all_listed_newest_first() {
    let mut store = RecordStore::new();
    let stamps = [
        ("c", "2024-03-01T00:00:00+00:00"),
        ("a", "2024-01-01T00:00:00+00:00"),
        ("e", "2024-05-01T00:00:00+00:00"),
        ("b", "2024-02-01T00:00:00+00:00"),
        ("d", "2024-04-01T00:00:00+00:00"),
    ];
    for (image, updated_at) in stamps {
        store.upsert(record_at(image, "new", updated_at));
    }
    let listing = store.list_all();
    assert_eq!(store.len(), 5);
    assert_eq!(images_of(&listing), vec!["e", "d", "c", "b", "a"]);
    assert!(listing.windows(2).all(|w| w[0].updated_at >= w[1].updated_at));
}

#[test]
fn listing_orders_by_the_text_of_the_time() {
    let mut store = RecordStore::new();
    store.upsert(record_at("whole", "new", "2024-01-01T00:00:00+00:00"));
    store.upsert(record_at("nanos", "new", "2024-01-01T00:00:00.500000001+00:00"));
    store.upsert(record_at("millis", "new", "2024-01-01T00:00:00.500+00:00"));
    assert_eq!(images_of(&store.list_all()), vec!["nanos", "millis", "whole"]);
}

#[test]
fn records_written_at_the_same_time_are_all_listed() {
    let mut store = RecordStore::new();
    for image in ["a", "b", "c"] {
        store.upsert(record_at(image, "new", "2024-01-01T00:00:00+00:00"));
    }
    let listing = store.list_all();
    let mut images = images_of(&listing);
    images.sort();
    assert_eq!(images, vec!["a", "b", "c"]);
}

#[test]
fn a_rewritten_record_moves_to_its_new_place() {
    let mut store = RecordStore::new();
    store.upsert(record_at("a", "new", "2024-01-01T00:00:00+00:00"));
    store.upsert(record_at("b", "new", "2024-01-02T00:00:00+00:00"));
    store.upsert(record_at("c", "new", "2024-01-03T00:00:00+00:00"));
    store.upsert(record_at("a", "update", "2024-01-04T00:00:00+00:00"));
    assert_eq!(images_of(&store.list_all()), vec!["a", "c", "b"]);
    store.upsert(record_at("c", "update", "2023-12-31T00:00:00+00:00"));
    assert_eq!(images_of(&store.list_all()), vec!["a", "b", "c"]);
    assert_eq!(store.len(), 3);
}

#[test]
fn delete_removes_the_record_of_the_image() {
    let mut store = RecordStore::new();
    store.upsert(record_at("a", "new", "2024-01-01T00:00:00+00:00"));
    store.upsert(record_at("b", "new", "2024-01-02T00:00:00+00:00"));
    assert!(store.delete("a"));
    assert_eq!(store.len(), 1);
    assert_eq!(images_of(&store.list_all()), vec!["b"]);
}

#[test]
fn delete_of_an_unknown_image_changes_nothing() {
    let mut store = RecordStore::new();
    store.upsert(record_at("a", "new", "2024-01-01T00:00:00+00:00"));
    store.upsert(record_at("b", "new", "2024-01-02T00:00:00+00:00"));
    let before = store.list_all();
    assert!(!store.delete("c"));
    assert!(!store.delete(""));
    assert!(!store.delete("A"));
    assert_eq!(store.len(), 2);
    assert_eq!(store.list_all(), before);
}

#[test]
fn delete_on_an_empty_store_succeeds() {
    let mut store = RecordStore::new();
    assert!(!store.delete("nginx:latest"));
    assert_eq!(store.len(), 0);
}

#[test]
fn delete_twice_is_the_same_as_once() {
    let mut store = RecordStore::new();
    store.upsert(record_at("a", "new", "2024-01-01T00:00:00+00:00"));
    assert!(store.delete("a"));
    assert!(!store.delete("a"));
    assert_eq!(store.len(), 0);
}

#[test]
fn a_deleted_image_can_be_written_again() {
    let mut store = RecordStore::new();
    store.upsert(record_at("a", "new", "2024-01-01T00:00:00+00:00"));
    store.delete("a");
    let again = record_at("a", "update", "2024-01-05T00:00:00+00:00");
    store.upsert(again.clone());
    assert_eq!(store.list_all(), vec![again]);
}

#[test]
fn images_with_slashes_and_colons_are_keys_like_any_other() {
    let mut store = RecordStore::new();
    store.upsert(record_at("ghcr.io/org/app:1.2", "new", "2024-01-01T00:00:00+00:00"));
    store.upsert(record_at("ghcr.io/org/app:1.3", "new", "2024-01-02T00:00:00+00:00"));
    assert_eq!(store.len(), 2);
    assert!(store.delete("ghcr.io/org/app:1.2"));
    assert_eq!(images_of(&store.list_all()), vec!["ghcr.io/org/app:1.3"]);
}

#[test]
fn restore_writes_the_records_in_turn() {
    let rows = vec![
        record_at("a", "new", "2024-01-01T00:00:00+00:00"),
        record_at("b", "new", "2024-01-03T00:00:00+00:00"),
        record_at("a", "update", "2024-01-02T00:00:00+00:00"),
    ];
    let store = RecordStore::restore(rows.clone());
    assert_eq!(store.len(), 2);
    assert_eq!(store.list_all(), vec![rows[1].clone(), rows[2].clone()]);
}

#[test]
fn restore_of_nothing_is_an_empty_store() {
    let store = RecordStore::restore(Vec::new());
    assert_eq!(store.len(), 0);
    assert_eq!(store.list_all(), Vec::new());
}

#[test]
fn restore_of_a_listing_gives_the_same_listing() {
    let mut store = RecordStore::new();
    for (image, updated_at) in [("a", "3"), ("b", "1"), ("c", "2")] {
        store.upsert(record_at(image, "new", updated_at));
    }
    let listing = store.list_all();
    assert_eq!(RecordStore::restore(listing.clone()).list_all(), listing);
}
