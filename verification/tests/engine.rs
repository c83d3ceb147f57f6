use repo_bloat::{AggregateStats, BlobFormat, EngineState, ObjectEvent, ObjectId};

fn id_of(n: u8) -> ObjectId {
    let mut bytes = [0u8; 20];
    bytes[0] = n;
    ObjectId { bytes }
}

fn blob_event(raw_len: u64, size: u64, format: BlobFormat) -> ObjectEvent {
    ObjectEvent::BlobFound {
        raw_len,
        typed: Some((size, format)),
    }
}

fn engine_with_blob_sizes(sizes: &[u64]) -> EngineState {
    let mut state = EngineState::new();
    for (n, &size) in sizes.iter().enumerate() {
        state.apply_event(id_of(n as u8), blob_event(size, size, BlobFormat::Text));
    }
    state
}

#[test]
fn ranked_is_descending_and_bounded() {
    let state = engine_with_blob_sizes(&[10, 1000, 500, 500, 7]);
    let top = state.ranked(3);
    assert_eq!(top.len(), 3);
    let sizes: Vec<u64> = top.iter().map(|r| r.size).collect();
    assert_eq!(sizes, vec![1000, 500, 500]);
    for w in top.windows(2) {
        assert!(w[0].size >= w[1].size);
    }
}

#[test]
fn ranked_len_is_min_of_k_and_records() {
    let state = engine_with_blob_sizes(&[10, 1000, 500]);
    assert_eq!(state.ranked(0).len(), 0);
    assert_eq!(state.ranked(2).len(), 2);
    assert_eq!(state.ranked(3).len(), 3);
    assert_eq!(state.ranked(100).len(), 3);
}

#[test]
fn full_ranking_returns_all_records_sorted() {
    let state = engine_with_blob_sizes(&[42, 7, 99, 7, 0, 1000000]);
    let all = state.ranked(6);
    let sizes: Vec<u64> = all.iter().map(|r| r.size).collect();
    assert_eq!(sizes, vec![1000000, 99, 42, 7, 7, 0]);
}

#[test]
fn blob_bytes_count_blobs_that_failed_typed_read() {
    let mut state = EngineState::new();
    state.apply_event(id_of(1), blob_event(100, 100, BlobFormat::Text));
    state.apply_event(
        id_of(2),
        ObjectEvent::BlobFound {
            raw_len: 50,
            typed: None,
        },
    );
    let stats = state.stats();
    assert_eq!(stats.total_blob_bytes, 150);
    assert_eq!(stats.total_blob_count, 2);
    assert_eq!(stats.unreadable_count, 1);
    // the blob whose typed read failed appears in no ranked record
    assert_eq!(state.ranked(10).len(), 1);
    assert_eq!(state.ranked(10)[0].size, 100);
}

#[test]
fn unreadable_counts_raw_and_typed_failures() {
    let mut state = EngineState::new();
    state.apply_event(id_of(1), ObjectEvent::Unreadable);
    state.apply_event(
        id_of(2),
        ObjectEvent::BlobFound {
            raw_len: 9,
            typed: None,
        },
    );
    state.apply_event(id_of(3), ObjectEvent::TreeFound);
    state.apply_event(id_of(4), ObjectEvent::Skipped);
    let stats = state.stats();
    assert_eq!(stats.unreadable_count, 2);
    assert_eq!(stats.total_tree_count, 1);
    assert_eq!(stats.total_blob_count, 1);
    assert_eq!(stats.total_blob_bytes, 9);
}

#[test]
fn trees_and_skipped_objects_are_not_sized() {
    let mut state = EngineState::new();
    state.apply_event(id_of(1), ObjectEvent::TreeFound);
    state.apply_event(id_of(2), ObjectEvent::Skipped);
    let stats = state.stats();
    assert_eq!(
        stats,
        AggregateStats {
            total_blob_count: 0,
            total_tree_count: 1,
            total_blob_bytes: 0,
            unreadable_count: 0,
        }
    );
    assert_eq!(state.ranked(5).len(), 0);
}

#[test]
fn clear_then_same_events_gives_identical_results() {
    let mut a = engine_with_blob_sizes(&[3, 1, 2]);
    let mut b = EngineState::new();
    b.apply_event(id_of(9), ObjectEvent::TreeFound);
    b.apply_event(id_of(8), blob_event(777, 777, BlobFormat::Binary));

    a.clear();
    b.clear();
    for state in [&mut a, &mut b] {
        state.apply_event(id_of(1), blob_event(10, 10, BlobFormat::Text));
        state.apply_event(id_of(2), blob_event(1000, 1000, BlobFormat::Binary));
        state.apply_event(id_of(3), ObjectEvent::TreeFound);
    }
    assert_eq!(a.stats(), b.stats());
    let ra = a.ranked(10);
    let rb = b.ranked(10);
    assert_eq!(ra.len(), rb.len());
    for (x, y) in ra.iter().zip(rb.iter()) {
        assert_eq!(x.id.bytes, y.id.bytes);
        assert_eq!(x.size, y.size);
    }
}

#[test]
fn clear_resets_counters() {
    let mut state = engine_with_blob_sizes(&[5, 6]);
    state.clear();
    let stats = state.stats();
    assert_eq!(stats.total_blob_count, 0);
    assert_eq!(stats.total_tree_count, 0);
    assert_eq!(stats.total_blob_bytes, 0);
    assert_eq!(stats.unreadable_count, 0);
}

#[test]
fn clear_is_safe_before_the_first_pass() {
    let mut state = EngineState::new();
    state.clear();
    state.clear();
    let stats = state.stats();
    assert_eq!(stats.total_blob_count, 0);
    assert_eq!(stats.total_tree_count, 0);
    assert_eq!(stats.total_blob_bytes, 0);
    assert_eq!(stats.unreadable_count, 0);
}

#[test]
fn format_classification_and_codes() {
    assert_eq!(BlobFormat::classify(true), BlobFormat::Binary);
    assert_eq!(BlobFormat::classify(false), BlobFormat::Text);
    assert_eq!(BlobFormat::Binary.code(), 'b');
    assert_eq!(BlobFormat::Text.code(), 't');
}

#[test]
fn object_id_hex_rendering() {
    let mut bytes = [0u8; 20];
    bytes[0] = 0x00;
    bytes[1] = 0x12;
    bytes[2] = 0xab;
    bytes[19] = 0xff;
    let id = ObjectId { bytes };
    let hex = id.to_hex();
    assert_eq!(hex.len(), 40);
    assert_eq!(&hex[0..6], "0012ab");
    assert_eq!(&hex[38..40], "ff");
    assert_eq!(&hex[6..38], "00000000000000000000000000000000");
}

#[test]
fn size_text_scales_units() {
    let state = engine_with_blob_sizes(&[10, 1000, 500]);
    assert_eq!(state.size_text(), "1.51 KB");
    let small = engine_with_blob_sizes(&[12]);
    assert_eq!(small.size_text(), "12 B");
}
