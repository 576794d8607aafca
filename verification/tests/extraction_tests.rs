use localitysrv::cmd::{command_outcome, CmdError};
use localitysrv::extraction::{
    extraction_args, extraction_outcome, get_planet_pmtiles_source, get_pmtiles_file_count,
    plan_extraction, summarize_region, ExtractionError,
};
use localitysrv::locality::{archive_filename, archive_path, get_locality_file_path, Locality};

fn locality(id: u64) -> Locality {
    Locality {
        id,
        name: format!("Place {}", id),
        country: "AE".to_string(),
        placetype: "locality".to_string(),
        latitude: "24.45".to_string(),
        longitude: "54.37".to_string(),
        min_longitude: "54.0".to_string(),
        min_latitude: "24.0".to_string(),
        max_longitude: "55.0".to_string(),
        max_latitude: "25.0".to_string(),
    }
}

#[test]
fn rerunning_an_unchanged_region_plans_no_extraction() {
    let localities = vec![locality(1), locality(2), locality(3)];
    // every archive is already on disk: the extractor is not re-invoked
    let plan = plan_extraction(&localities, &vec![1, 2, 3]);
    assert_eq!(plan.len(), 0);
}

#[test]
fn only_missing_archives_are_planned() {
    let localities = vec![locality(1), locality(2), locality(3)];
    let plan = plan_extraction(&localities, &vec![2]);
    assert_eq!(plan.len(), 2);
    assert_eq!(plan[0].locality_id, 1);
    assert_eq!(plan[0].output_filename, "1.pmtiles");
    assert_eq!(plan[0].bbox, "54.0,24.0,55.0,25.0");
    assert_eq!(plan[1].locality_id, 3);

    // with nothing on disk, every locality is planned
    let all = plan_extraction(&localities, &vec![]);
    assert_eq!(all.len(), 3);
}

#[test]
fn extractor_arguments_are_assembled_exactly() {
    let args = extraction_args("/data/planet.pmtiles", "assets/localities/AE/1.pmtiles", "54.0,24.0,55.0,25.0");
    assert_eq!(args, vec![
        "extract".to_string(),
        "/data/planet.pmtiles".to_string(),
        "assets/localities/AE/1.pmtiles".to_string(),
        "--bbox=54.0,24.0,55.0,25.0".to_string(),
    ]);
}

#[test]
fn an_extraction_succeeds_only_with_a_clean_exit_and_a_file() {
    let ok = command_outcome(true, Some(0), "done".to_string(), "".to_string());
    assert!(extraction_outcome(7, ok, true).is_ok());

    // a clean exit without the file is an item-level failure naming the id
    let ok2 = command_outcome(true, Some(0), "".to_string(), "".to_string());
    match extraction_outcome(7, ok2, false) {
        Err(ExtractionError::ExtractionFailed(msg)) => {
            assert_eq!(msg, "Failed to create PMTiles file for locality 7");
        }
        other => panic!("expected an extraction failure, got {:?}", other),
    }

    // a non-zero exit carries the command error through
    let failed = command_outcome(false, Some(3), "".to_string(), "boom".to_string());
    match extraction_outcome(7, failed, true) {
        Err(ExtractionError::CmdError(CmdError::NonZeroExit(3))) => {}
        other => panic!("expected a command error, got {:?}", other),
    }
}

#[test]
fn a_region_fails_when_any_item_failed() {
    assert!(summarize_region("AE", &vec![true, true, true]).is_ok());
    assert!(summarize_region("AE", &vec![]).is_ok());
    match summarize_region("AE", &vec![true, false, true]) {
        Err(ExtractionError::ExtractionFailed(msg)) => {
            assert_eq!(msg, "Some extraction tasks failed for country: AE");
        }
        other => panic!("expected a region failure, got {:?}", other),
    }
}

#[test]
fn the_planet_source_must_be_a_present_local_file() {
    match get_planet_pmtiles_source(Some("/data/planet.pmtiles".to_string()), true) {
        Ok(path) => assert_eq!(path, "/data/planet.pmtiles"),
        other => panic!("expected the configured path, got {:?}", other),
    }
    match get_planet_pmtiles_source(Some("/data/planet.pmtiles".to_string()), false) {
        Err(ExtractionError::PlanetUrlFailed(msg)) => {
            assert_eq!(msg, "Local planet pmtiles file not found: /data/planet.pmtiles");
        }
        other => panic!("expected a missing-file error, got {:?}", other),
    }
    match get_planet_pmtiles_source(None, false) {
        Err(ExtractionError::PlanetUrlFailed(msg)) => {
            assert!(msg.contains("PLANET_PMTILES_PATH"));
        }
        other => panic!("expected a configuration error, got {:?}", other),
    }
}

#[test]
fn archives_are_counted_by_their_suffix() {
    let names = vec![
        "1.pmtiles".to_string(),
        "notes.txt".to_string(),
        "2.pmtiles".to_string(),
        ".pmtiles".to_string(),
        "x.pmtiles.bak".to_string(),
    ];
    assert_eq!(get_pmtiles_file_count(&names), 2);
    assert_eq!(get_pmtiles_file_count(&vec![]), 0);
}

#[test]
fn archive_paths_follow_the_tree_layout() {
    assert_eq!(archive_filename(5391959), "5391959.pmtiles");
    assert_eq!(
        archive_path("./assets", "AE", "1"),
        "./assets/localities/AE/1.pmtiles"
    );
    assert_eq!(get_locality_file_path("AE", 1), "assets/localities/AE/1.pmtiles");
}
