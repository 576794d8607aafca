use localitysrv::storage::{PendingUpload, UploadQueue, UploadStats};

#[test]
fn test_upload_queue_functionality() -> Result<(), Box<dyn std::error::Error>> {
    // Test that upload queue still works correctly after our changes
    let mut queue = UploadQueue::new(5, 10);

    // Create test uploads
    let upload1 = PendingUpload::new(
        "US".to_string(),
        12345,
        "/test/path1.pmtiles".to_string(),
    );

    let upload2 = PendingUpload::new(
        "CA".to_string(),
        67890,
        "/test/path2.pmtiles".to_string(),
    );

    // Add uploads to queue
    queue.add_upload(upload1).unwrap();
    queue.add_upload(upload2).unwrap();

    assert!(!queue.is_empty());
    assert!(!queue.is_full());

    // Take batch
    let batch = queue.take_batch();
    assert_eq!(batch.len(), 2);
    assert!(queue.is_empty());

    Ok(())
}

#[test]
fn test_upload_stats_functionality() -> Result<(), Box<dyn std::error::Error>> {
    // Test that upload stats still work correctly after our changes
    let mut stats = UploadStats::new();

    assert_eq!(stats.total_uploaded, 0);
    assert_eq!(stats.total_failed, 0);
    assert_eq!(stats.total_bytes_uploaded, 0);

    // Increment stats
    stats.increment_uploaded(1024);
    stats.increment_uploaded(2048);
    stats.increment_failed();

    assert_eq!(stats.total_uploaded, 2);
    assert_eq!(stats.total_failed, 1);
    assert_eq!(stats.total_bytes_uploaded, 3072);

    Ok(())
}

#[test]
fn queue_rejects_beyond_capacity_and_never_grows_past_it() {
    let mut queue = UploadQueue::new(5, 2);
    let item = |id: u32| PendingUpload::new("US".to_string(), id, format!("/a/{}.pmtiles", id));

    assert!(queue.add_upload(item(1)).is_ok());
    assert!(queue.add_upload(item(2)).is_ok());
    // at capacity: every further enqueue fails closed
    assert!(queue.add_upload(item(3)).is_err());
    assert!(queue.add_upload(item(4)).is_err());

    // nothing grew past max_queue_size: draining yields exactly two items
    let batch = queue.take_batch();
    assert_eq!(batch.len(), 2);
    assert_eq!(batch[0].locality_id, 1);
    assert_eq!(batch[1].locality_id, 2);
    assert!(queue.is_empty());
}

#[test]
fn take_batch_is_bounded_by_batch_size_and_keeps_order() {
    let mut queue = UploadQueue::new(2, 10);
    for id in [7u32, 8, 9] {
        queue
            .add_upload(PendingUpload::new("DE".to_string(), id, format!("/d/{}.pmtiles", id)))
            .unwrap();
    }
    assert!(queue.is_full()); // one full batch is waiting
    let first = queue.take_batch();
    assert_eq!(first.len(), 2);
    assert_eq!(first[0].locality_id, 7);
    assert_eq!(first[1].locality_id, 8);
    let second = queue.take_batch();
    assert_eq!(second.len(), 1);
    assert_eq!(second[0].locality_id, 9);
    assert!(queue.is_empty());
}
