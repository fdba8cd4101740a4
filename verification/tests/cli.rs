use mobility_map::cli::{
    batch_size_i32, batch_size_usize, listener_from_args, parse_import_type, parse_importer,
    parse_run_action, plan_analyzer, AnalyzerTask, ImportKind, RunAction, DEFAULT_GTFS_BATCH_SIZE,
    DEFAULT_OSM_BATCH_SIZE,
};

#[test]
fn listener_defaults_to_localhost() {
    assert_eq!(listener_from_args(&vec![]), "127.0.0.1:3000");
    assert_eq!(
        listener_from_args(&vec!["0.0.0.0:8080".to_string(), "x".to_string()]),
        "0.0.0.0:8080"
    );
}

#[test]
fn run_actions() {
    assert_eq!(parse_run_action("frontend"), Ok(RunAction::Frontend));
    assert_eq!(parse_run_action("stop-analyzer"), Ok(RunAction::StopAnalyzer));
    assert_eq!(parse_run_action("county-analyzer"), Ok(RunAction::CountyAnalyzer));
    assert_eq!(
        parse_run_action("backend"),
        Err("Unknown run action: backend".to_string())
    );
    assert_eq!(RunAction::StopAnalyzer.analyzer_kind(), Some("stop"));
    assert_eq!(RunAction::CountyAnalyzer.analyzer_kind(), Some("county"));
    assert_eq!(RunAction::Frontend.analyzer_kind(), None);
}

#[test]
fn import_types() {
    assert_eq!(parse_import_type("osm-data"), Ok(ImportKind::Osm));
    assert_eq!(parse_import_type("gtfs-data"), Ok(ImportKind::Gtfs));
    assert_eq!(
        parse_import_type("osm"),
        Err("Unknown import type: osm".to_string())
    );
}

#[test]
fn importers_select_themselves_by_name() {
    for kind in [ImportKind::Osm, ImportKind::Gtfs] {
        assert_eq!(parse_importer(kind.name()), Ok(kind));
    }
    assert_eq!(
        parse_importer("csv"),
        Err("unknown importer selected: csv".to_string())
    );
}

#[test]
fn analyzer_plans() {
    let one = vec!["de:05315:11201".to_string()];
    assert_eq!(
        plan_analyzer("stop", &one),
        Ok(AnalyzerTask::AnalyzeStop("de:05315:11201".to_string()))
    );
    assert_eq!(plan_analyzer("stop", &vec![]), Ok(AnalyzerTask::StopWorker));
    assert_eq!(
        plan_analyzer("county", &vec!["05315".to_string(), "x".to_string()]),
        Ok(AnalyzerTask::AnalyzeCounty("05315".to_string()))
    );
    assert_eq!(plan_analyzer("county", &vec![]), Ok(AnalyzerTask::CountyWorker));
    assert_eq!(
        plan_analyzer("route", &one),
        Err("unknown analyzer selected: route".to_string())
    );
}

#[test]
fn batch_sizes_fall_back_to_defaults() {
    assert_eq!(batch_size_i32(None, DEFAULT_OSM_BATCH_SIZE), 50_000);
    assert_eq!(batch_size_i32(Some("80000".to_string()), 50_000), 80_000);
    assert_eq!(batch_size_i32(Some("-5".to_string()), 50_000), -5);
    assert_eq!(batch_size_i32(Some("-2147483648".to_string()), 1), i32::MIN);
    assert_eq!(batch_size_i32(Some("2147483648".to_string()), 1), 1);
    assert_eq!(batch_size_i32(Some("12k".to_string()), 7), 7);
    assert_eq!(batch_size_usize(None, DEFAULT_GTFS_BATCH_SIZE), 4000);
    assert_eq!(batch_size_usize(Some("+250".to_string()), 4000), 250);
    assert_eq!(batch_size_usize(Some("-250".to_string()), 4000), 4000);
    assert_eq!(batch_size_usize(Some("".to_string()), 4000), 4000);
}
