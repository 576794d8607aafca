use localitysrv::cid_store::{CidMapping, CidStore};
use localitysrv::pipeline::{
    parse_locality_filename, partition_results, ItemOutcome, NodeOpsError, UploadPipeline,
};
use localitysrv::storage::{CompletedUpload, PendingUpload};

#[test]
fn parse_locality_filename_reads_the_id() {
    assert_eq!(parse_locality_filename("5391959.pmtiles"), Some(5391959));
    assert_eq!(parse_locality_filename("0.pmtiles"), Some(0));
    assert_eq!(parse_locality_filename("+7.pmtiles"), Some(7));
    assert_eq!(parse_locality_filename("abc.pmtiles"), None);
    assert_eq!(parse_locality_filename("12.34.pmtiles"), None);
    assert_eq!(parse_locality_filename("123.txt"), None);
    assert_eq!(parse_locality_filename(".pmtiles"), None);
    assert_eq!(parse_locality_filename(""), None);
    // one past u32::MAX does not fit
    assert_eq!(parse_locality_filename("4294967296.pmtiles"), None);
    assert_eq!(parse_locality_filename("4294967295.pmtiles"), Some(u32::MAX));
}

#[test]
fn already_mapped_files_are_skipped_and_full_queue_drops() {
    let mut pipeline = UploadPipeline::new(5, 1);
    let item = |id: u32| PendingUpload::new("US".to_string(), id, format!("/a/{}.pmtiles", id));

    assert_eq!(pipeline.process_file_for_upload(item(1), true), ItemOutcome::AlreadyMapped);
    assert_eq!(pipeline.process_file_for_upload(item(1), false), ItemOutcome::Accepted);
    // the queue holds one item and its capacity is one: the next is dropped
    assert_eq!(pipeline.process_file_for_upload(item(2), false), ItemOutcome::DroppedQueueFull);
}

#[test]
fn partition_keeps_successes_in_order_and_counts_failures() {
    let results: Vec<Result<CompletedUpload, NodeOpsError>> = vec![
        Ok(CompletedUpload::new("US".to_string(), 1, "cid-1".to_string(), 10)),
        Err(NodeOpsError::FileError("gone".to_string())),
        Ok(CompletedUpload::new("US".to_string(), 3, "cid-3".to_string(), 30)),
        Err(NodeOpsError::NodeManagerError("down".to_string())),
    ];
    let (successes, failed) = partition_results(&results);
    assert_eq!(successes.len(), 2);
    assert_eq!(failed, 2);
    assert_eq!(successes[0].locality_id, 1);
    assert_eq!(successes[0].cid, "cid-1");
    assert_eq!(successes[1].locality_id, 3);
}

#[test]
fn uploaded_plus_failed_equals_accepted_after_a_full_run() {
    // five files: one already mapped, one dropped by a full queue,
    // three accepted; of those, two upload and one fails.
    let mut pipeline = UploadPipeline::new(10, 3);
    let item = |id: u32| PendingUpload::new("FR".to_string(), id, format!("/f/{}.pmtiles", id));

    assert_eq!(pipeline.process_file_for_upload(item(1), true), ItemOutcome::AlreadyMapped);
    assert_eq!(pipeline.process_file_for_upload(item(2), false), ItemOutcome::Accepted);
    assert_eq!(pipeline.process_file_for_upload(item(3), false), ItemOutcome::Accepted);
    assert_eq!(pipeline.process_file_for_upload(item(4), false), ItemOutcome::Accepted);
    assert_eq!(pipeline.process_file_for_upload(item(5), false), ItemOutcome::DroppedQueueFull);

    let batch = pipeline.take_batch();
    assert_eq!(batch.len(), 3);
    let results: Vec<Result<CompletedUpload, NodeOpsError>> = vec![
        Ok(CompletedUpload::new("FR".to_string(), 2, "cid-2".to_string(), 100)),
        Err(NodeOpsError::FileError("lost".to_string())),
        Ok(CompletedUpload::new("FR".to_string(), 4, "cid-4".to_string(), 200)),
    ];
    let (successes, failed) = partition_results(&results);
    pipeline.record_batch_results(&successes, failed);

    assert!(pipeline.queue_is_empty());
    let stats = pipeline.get_stats();
    // skipped and dropped items count as neither uploaded nor failed
    assert_eq!(stats.total_uploaded + stats.total_failed, 3);
    assert_eq!(stats.total_uploaded, 2);
    assert_eq!(stats.total_failed, 1);
    assert_eq!(stats.total_bytes_uploaded, 300);
}

#[test]
fn full_run_for_region_ae_produces_three_mappings() {
    // region "AE" has three local archives, none mapped yet, and all three
    // ids are confirmed present in the index
    let index_ids = [1u32, 2, 3];
    let files = ["1.pmtiles", "2.pmtiles", "3.pmtiles"];
    let mut store = CidStore::new();
    let mut pipeline = UploadPipeline::new(10, 100);

    for name in files {
        let id = parse_locality_filename(name).unwrap();
        assert!(index_ids.contains(&id));
        let mapped = store.has_cid_mapping("AE", id);
        assert!(!mapped);
        let outcome = pipeline.process_file_for_upload(
            PendingUpload::new("AE".to_string(), id, format!("assets/localities/AE/{}", name)),
            mapped,
        );
        assert_eq!(outcome, ItemOutcome::Accepted);
    }

    let batch = pipeline.take_batch();
    assert_eq!(batch.len(), 3);
    let results: Vec<Result<CompletedUpload, NodeOpsError>> = batch
        .into_iter()
        .map(|p| {
            Ok(CompletedUpload::new(
                p.country_code,
                p.locality_id,
                format!("cid-{}", p.locality_id),
                1024,
            ))
        })
        .collect();
    let (successes, failed) = partition_results(&results);
    assert_eq!(failed, 0);

    let rows: Vec<CidMapping> = successes
        .iter()
        .map(|u| CidMapping {
            country_code: u.country_code.clone(),
            locality_id: u.locality_id,
            cid: u.cid.clone(),
            file_size: u.file_size,
            upload_time: 7,
        })
        .collect();
    store.batch_insert_cid_mappings(&rows);
    pipeline.record_batch_results(&successes, failed);

    assert!(pipeline.queue_is_empty());
    let stats = pipeline.get_stats();
    assert_eq!(stats.total_uploaded, 3);
    assert_eq!(stats.total_failed, 0);
    assert_eq!(store.len(), 3);
    for id in index_ids {
        assert!(store.has_cid_mapping("AE", id));
        let row = store.get_cid_mapping("AE", id).unwrap();
        assert_eq!(row.cid, format!("cid-{}", id));
    }
}

#[test]
fn repeated_uploads_keep_one_row_with_the_latest_cid() {
    let mut store = CidStore::new();
    store.upsert(CidMapping {
        country_code: "AE".to_string(),
        locality_id: 42,
        cid: "cid-old".to_string(),
        file_size: 10,
        upload_time: 1,
    });
    assert_eq!(store.len(), 1);
    store.upsert(CidMapping {
        country_code: "AE".to_string(),
        locality_id: 42,
        cid: "cid-new".to_string(),
        file_size: 11,
        upload_time: 2,
    });
    // still exactly one row, holding the latest content id
    assert_eq!(store.len(), 1);
    let row = store.get_cid_mapping("AE", 42).unwrap();
    assert_eq!(row.cid, "cid-new");
    assert_eq!(row.file_size, 11);

    // a different key is a different row
    store.upsert(CidMapping {
        country_code: "US".to_string(),
        locality_id: 42,
        cid: "cid-us".to_string(),
        file_size: 12,
        upload_time: 3,
    });
    assert_eq!(store.len(), 2);
    assert!(!store.has_cid_mapping("FR", 42));
}
