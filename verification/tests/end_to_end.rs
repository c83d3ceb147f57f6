use repo_bloat::Cleaner;

fn store_with_three_blobs_and_a_tree() -> (tempfile::TempDir, git2::Oid, git2::Oid, git2::Oid) {
    let dir = tempfile::TempDir::new().unwrap();
    let repo = git2::Repository::init(dir.path()).unwrap();
    let odb = repo.odb().unwrap();
    let small = odb.write(git2::ObjectType::Blob, &[b'a'; 10]).unwrap();
    let big = odb.write(git2::ObjectType::Blob, &[0u8; 1000]).unwrap();
    let mid = odb.write(git2::ObjectType::Blob, &[b'c'; 500]).unwrap();
    let mut builder = repo.treebuilder(None).unwrap();
    builder.insert("small.txt", small, 0o100644).unwrap();
    builder.write().unwrap();
    (dir, small, big, mid)
}

#[test]
fn end_to_end_ranking_and_stats() {
    let (dir, _small, big, mid) = store_with_three_blobs_and_a_tree();
    let mut cleaner = Cleaner::new(dir.path().to_str().unwrap()).unwrap();
    cleaner.collect_info().unwrap();

    let stats = cleaner.stats();
    assert_eq!(stats.total_blob_count, 3);
    assert_eq!(stats.total_tree_count, 1);
    assert_eq!(stats.total_blob_bytes, 1510);
    assert_eq!(stats.unreadable_count, 0);

    let top = cleaner.largest_objects(2);
    assert_eq!(top.len(), 2);
    assert_eq!(top[0].size, 1000);
    assert_eq!(top[1].size, 500);
    assert_eq!(top[0].id.to_hex(), big.to_string());
    assert_eq!(top[1].id.to_hex(), mid.to_string());

    assert_eq!(cleaner.all_size(), "1.51 KB");
}

#[test]
fn rerun_after_clear_is_identical() {
    let (dir, _small, _big, _mid) = store_with_three_blobs_and_a_tree();
    let mut cleaner = Cleaner::new(dir.path().to_str().unwrap()).unwrap();
    cleaner.collect_info().unwrap();
    let first_stats = cleaner.stats();
    let first_top = cleaner.largest_objects(10);

    cleaner.clear();
    cleaner.collect_info().unwrap();
    let second_stats = cleaner.stats();
    let second_top = cleaner.largest_objects(10);

    assert_eq!(first_stats, second_stats);
    assert_eq!(first_top.len(), second_top.len());
    for (a, b) in first_top.iter().zip(second_top.iter()) {
        assert_eq!(a.id.bytes, b.id.bytes);
        assert_eq!(a.size, b.size);
        assert_eq!(a.format, b.format);
    }
}

#[test]
fn collect_info_is_self_resetting() {
    let (dir, _small, _big, _mid) = store_with_three_blobs_and_a_tree();
    let mut cleaner = Cleaner::new(dir.path().to_str().unwrap()).unwrap();
    cleaner.collect_info().unwrap();
    cleaner.collect_info().unwrap();
    let stats = cleaner.stats();
    assert_eq!(stats.total_blob_count, 3);
    assert_eq!(stats.total_blob_bytes, 1510);
}

#[test]
fn opening_a_missing_store_fails() {
    let dir = tempfile::TempDir::new().unwrap();
    let r = Cleaner::new(dir.path().to_str().unwrap());
    assert!(matches!(r, Err(repo_bloat::CleanerError::GitError(_))));
}

#[test]
fn binary_and_text_classification_from_store() {
    let dir = tempfile::TempDir::new().unwrap();
    let repo = git2::Repository::init(dir.path()).unwrap();
    let odb = repo.odb().unwrap();
    let text = odb.write(git2::ObjectType::Blob, b"hello world\n").unwrap();
    let mut binary_payload = vec![0u8, 1, 2, 3, 0, 255];
    binary_payload.push(0);
    let binary = odb.write(git2::ObjectType::Blob, &binary_payload).unwrap();
    drop(odb);

    let mut cleaner = Cleaner::new(dir.path().to_str().unwrap()).unwrap();
    cleaner.collect_info().unwrap();
    let top = cleaner.largest_objects(10);
    assert_eq!(top.len(), 2);
    for item in &top {
        if item.id.to_hex() == text.to_string() {
            assert_eq!(item.format, repo_bloat::BlobFormat::Text);
            assert_eq!(item.format.code(), 't');
        } else {
            assert_eq!(item.id.to_hex(), binary.to_string());
            assert_eq!(item.format, repo_bloat::BlobFormat::Binary);
            assert_eq!(item.format.code(), 'b');
        }
    }
}
