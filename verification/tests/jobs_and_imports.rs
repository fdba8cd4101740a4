use mobility_map::frontend::AccessibleAreaParams;
use mobility_map::imports::RecordBatcher;
use mobility_map::jobs::{
    stop_jobs_for_county, AnalyzeCountyJob, AnalyzeStopJob, ANALYZE_COUNTY_JOB_NAME,
    ANALYZE_STOP_JOB_NAME,
};
use mobility_map::migrations::merged_run_order;
use mobility_map::osm::osm_import_outcome;
use mobility_map::residential::{add_marked_rows, buildings_found};

#[test]
fn jobs_keep_their_ids() {
    let stop = AnalyzeStopJob::from("de:1:2".to_string());
    assert_eq!(stop.ifopt(), "de:1:2");
    let county = AnalyzeCountyJob::from("05315".to_string());
    assert_eq!(county.ags(), "05315");
    assert_eq!(ANALYZE_STOP_JOB_NAME, "analyze-stop-job");
    assert_eq!(ANALYZE_COUNTY_JOB_NAME, "analyze-county-job");
}

#[test]
fn county_analysis_queues_one_job_per_stop() {
    let jobs = stop_jobs_for_county(vec!["a".to_string(), "b".to_string(), "a".to_string()]);
    let ids: Vec<&str> = jobs.iter().map(|j| j.ifopt()).collect();
    assert_eq!(ids, vec!["a", "b", "a"]);
    assert!(stop_jobs_for_county(vec![]).is_empty());
}

#[test]
fn migrations_run_by_version_up_only_and_stably() {
    let sources = vec![
        vec![(3, true), (1, true), (2, false)],
        vec![(1, true), (0, true), (3, true)],
    ];
    assert_eq!(
        merged_run_order(&sources),
        vec![(1, 1), (0, 1), (1, 0), (0, 0), (1, 2)]
    );
    assert!(merged_run_order(&vec![]).is_empty());
    assert!(merged_run_order(&vec![vec![(1, false)]]).is_empty());
}

#[test]
fn records_are_batched_in_order() {
    let mut batcher = RecordBatcher::new(2);
    let mut out = Vec::new();
    for r in 1..=5 {
        if let Some(b) = batcher.push(r) {
            out.push(b);
        }
    }
    if let Some(b) = batcher.finish() {
        out.push(b);
    }
    assert_eq!(out, vec![vec![1, 2], vec![3, 4], vec![5]]);
    assert!(batcher.finish().is_none());
}

#[test]
fn full_last_batch_leaves_nothing_to_finish() {
    let mut batcher = RecordBatcher::new(3);
    assert!(batcher.push("x").is_none());
    assert!(batcher.push("y").is_none());
    assert_eq!(batcher.push("z"), Some(vec!["x", "y", "z"]));
    assert!(batcher.finish().is_none());
}

#[test]
fn handed_out_records_are_counted() {
    let mut batcher: RecordBatcher<u32> = RecordBatcher::new(3);
    assert_eq!(batcher.total(), 0);
    for r in 0..7 {
        batcher.push(r);
    }
    assert_eq!(batcher.records_read(), 7);
    assert_eq!(batcher.total(), 6);
    batcher.finish();
    assert_eq!(batcher.total(), 7);
    assert_eq!(batcher.records_read(), 7);
}

#[test]
fn osm_outcomes() {
    assert_eq!(osm_import_outcome(true, Some(0)), Ok(()));
    assert_eq!(
        osm_import_outcome(false, Some(2)),
        Err("osm2pgsql failed with status code: 2".to_string())
    );
    assert_eq!(
        osm_import_outcome(false, None),
        Err("osm2pgsql failed with status code: -1".to_string())
    );
    assert_eq!(
        osm_import_outcome(false, Some(i32::MIN)),
        Err("osm2pgsql failed with status code: -2147483648".to_string())
    );
}

#[test]
fn bbox_is_split_at_commas() {
    let p = AccessibleAreaParams { bbox: "6.9,50.9,7.1,51.0".to_string(), distance: 500 };
    assert_eq!(p.bbox_fields(), vec!["6.9", "50.9", "7.1", "51.0"]);
    let q = AccessibleAreaParams { bbox: "1,,2,".to_string(), distance: 0 };
    assert_eq!(q.bbox_fields(), vec!["1", "", "2", ""]);
}

#[test]
fn marked_buildings_are_tallied() {
    assert_eq!(add_marked_rows(0, 17), 17);
    assert_eq!(add_marked_rows(17, 5), 22);
    assert_eq!(buildings_found(22), 22);
    assert_eq!(buildings_found(0x1_0000_0005), 5);
    assert_eq!(buildings_found(0x8000_0000), i32::MIN);
}
