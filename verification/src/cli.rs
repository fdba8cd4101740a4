//! The decisions of the command line: which workload or import a command
//! names, what an analyzer run does, where the frontend listens and how
//! large import batches are.

use vstd::prelude::*;
use vstd::string::*;

use crate::text::{
    decimal, lemma_parse_usize_of_decimal, parse_i32, parse_i32_spec, parse_usize, parse_usize_spec,
    str_equal,
};

verus! {

/// Where the frontend listens when no address is given.
pub const DEFAULT_LISTENER: &'static str = "127.0.0.1:3000";

/// The batch size of the OSM post-processing when none is configured.
pub const DEFAULT_OSM_BATCH_SIZE: i32 = 50_000;

/// The number of GTFS records written per batch when none is configured.
pub const DEFAULT_GTFS_BATCH_SIZE: usize = 4000;

/// The address the frontend listens on: the first argument if there is one,
/// else `127.0.0.1:3000`.
pub fn listener_from_args(args: &Vec<String>) -> (res: String)
    ensures
        res@ == (if args.len() > 0 {
            args[0]@
        } else {
            DEFAULT_LISTENER@
        }),
{
    if args.len() > 0 {
        return args[0].clone();
    }
    DEFAULT_LISTENER.to_owned()
}

/// A blocking workload that `run` starts.
#[derive(Debug, Clone, Copy, PartialEq, Eq, Structural)]
pub enum RunAction {
    Frontend,
    StopAnalyzer,
    CountyAnalyzer,
}

/// The workload that a `run` action names, or the message it is refused
/// with.
pub open spec fn run_action_spec(action: Seq<char>) -> Result<RunAction, Seq<char>> {
    if action == "frontend"@ {
        Ok(RunAction::Frontend)
    } else if action == "stop-analyzer"@ {
        Ok(RunAction::StopAnalyzer)
    } else if action == "county-analyzer"@ {
        Ok(RunAction::CountyAnalyzer)
    } else {
        Err("Unknown run action: "@ + action)
    }
}

/// Chooses the workload of a `run` command.
pub fn parse_run_action(action: &str) -> (res: Result<RunAction, String>)
    ensures
        match (res, run_action_spec(action@)) {
            (Ok(a), Ok(b)) => a == b,
            (Err(e), Err(m)) => e@ == m,
            _ => false,
        },
{
    if str_equal(action, "frontend") {
        Ok(RunAction::Frontend)
    } else if str_equal(action, "stop-analyzer") {
        Ok(RunAction::StopAnalyzer)
    } else if str_equal(action, "county-analyzer") {
        Ok(RunAction::CountyAnalyzer)
    } else {
        let mut msg = "Unknown run action: ".to_owned();
        msg.append(action);
        Err(msg)
    }
}

/// A data source that can be imported.
#[derive(Debug, Clone, Copy, PartialEq, Eq, Structural)]
pub enum ImportKind {
    Osm,
    Gtfs,
}

/// The import that an `import` command names, or the message it is refused
/// with.
pub open spec fn import_type_spec(import: Seq<char>) -> Result<ImportKind, Seq<char>> {
    if import == "osm-data"@ {
        Ok(ImportKind::Osm)
    } else if import == "gtfs-data"@ {
        Ok(ImportKind::Gtfs)
    } else {
        Err("Unknown import type: "@ + import)
    }
}

/// Chooses the import of an `import` command.
pub fn parse_import_type(import: &str) -> (res: Result<ImportKind, String>)
    ensures
        match (res, import_type_spec(import@)) {
            (Ok(a), Ok(b)) => a == b,
            (Err(e), Err(m)) => e@ == m,
            _ => false,
        },
{
    if str_equal(import, "osm-data") {
        Ok(ImportKind::Osm)
    } else if str_equal(import, "gtfs-data") {
        Ok(ImportKind::Gtfs)
    } else {
        let mut msg = "Unknown import type: ".to_owned();
        msg.append(import);
        Err(msg)
    }
}

/// The importer that a kind name selects, or the message it is refused
/// with.
pub open spec fn importer_spec(kind: Seq<char>) -> Result<ImportKind, Seq<char>> {
    if kind == "osm"@ {
        Ok(ImportKind::Osm)
    } else if kind == "gtfs"@ {
        Ok(ImportKind::Gtfs)
    } else {
        Err("unknown importer selected: "@ + kind)
    }
}

impl ImportKind {
    /// The short name of the importer.
    pub fn name(&self) -> (res: &'static str)
        ensures
            res@ == (match self {
                ImportKind::Osm => "osm"@,
                ImportKind::Gtfs => "gtfs"@,
            }),
    {
        match self {
            ImportKind::Osm => "osm",
            ImportKind::Gtfs => "gtfs",
        }
    }
}

/// Selects an importer by its short name.
pub fn parse_importer(kind: &str) -> (res: Result<ImportKind, String>)
    ensures
        match (res, importer_spec(kind@)) {
            (Ok(a), Ok(b)) => a == b,
            (Err(e), Err(m)) => e@ == m,
            _ => false,
        },
{
    if str_equal(kind, "osm") {
        Ok(ImportKind::Osm)
    } else if str_equal(kind, "gtfs") {
        Ok(ImportKind::Gtfs)
    } else {
        let mut msg = "unknown importer selected: ".to_owned();
        msg.append(kind);
        Err(msg)
    }
}

/// Every import kind is selected again by its own short name.
pub proof fn law_importer_name_selects_itself(kind: ImportKind)
    ensures
        importer_spec(
            match kind {
                ImportKind::Osm => "osm"@,
                ImportKind::Gtfs => "gtfs"@,
            },
        ) == Ok::<ImportKind, Seq<char>>(kind),
{
    reveal_strlit("osm");
    reveal_strlit("gtfs");
    assert("osm"@ != "gtfs"@) by {
        assert("osm"@[0] != "gtfs"@[0]);
    }
}

/// What an analyzer run does.
#[derive(Debug, Clone, PartialEq, Eq)]
pub enum AnalyzerTask {
    /// Analyze the stop with this IFOPT id once.
    AnalyzeStop(String),
    /// Work off queued stop analyses.
    StopWorker,
    /// Analyze the county with this AGS once.
    AnalyzeCounty(String),
    /// Work off queued county analyses.
    CountyWorker,
}

/// The plain values of an [`AnalyzerTask`].
pub enum AnalyzerTaskView {
    AnalyzeStop(Seq<char>),
    StopWorker,
    AnalyzeCounty(Seq<char>),
    CountyWorker,
}

impl View for AnalyzerTask {
    type V = AnalyzerTaskView;

    open spec fn view(&self) -> AnalyzerTaskView {
        match self {
            AnalyzerTask::AnalyzeStop(id) => AnalyzerTaskView::AnalyzeStop(id@),
            AnalyzerTask::StopWorker => AnalyzerTaskView::StopWorker,
            AnalyzerTask::AnalyzeCounty(id) => AnalyzerTaskView::AnalyzeCounty(id@),
            AnalyzerTask::CountyWorker => AnalyzerTaskView::CountyWorker,
        }
    }
}

/// What an analyzer of the given kind does with the given arguments: with
/// an argument it analyzes that one item, without one it runs as a worker.
pub open spec fn analyzer_task_spec(kind: Seq<char>, args: Seq<Seq<char>>) -> Result<
    AnalyzerTaskView,
    Seq<char>,
> {
    if kind == "stop"@ {
        if args.len() > 0 {
            Ok(AnalyzerTaskView::AnalyzeStop(args[0]))
        } else {
            Ok(AnalyzerTaskView::StopWorker)
        }
    } else if kind == "county"@ {
        if args.len() > 0 {
            Ok(AnalyzerTaskView::AnalyzeCounty(args[0]))
        } else {
            Ok(AnalyzerTaskView::CountyWorker)
        }
    } else {
        Err("unknown analyzer selected: "@ + kind)
    }
}

impl RunAction {
    /// The analyzer kind that the workload runs, if it is an analyzer.
    pub fn analyzer_kind(&self) -> (res: Option<&'static str>)
        ensures
            match self {
                RunAction::Frontend => res is None,
                RunAction::StopAnalyzer => res matches Some(k) && k@ == "stop"@,
                RunAction::CountyAnalyzer => res matches Some(k) && k@ == "county"@,
            },
    {
        match self {
            RunAction::Frontend => None,
            RunAction::StopAnalyzer => Some("stop"),
            RunAction::CountyAnalyzer => Some("county"),
        }
    }
}

/// Decides what an analyzer run does.
pub fn plan_analyzer(kind: &str, args: &Vec<String>) -> (res: Result<AnalyzerTask, String>)
    ensures
        match (res, analyzer_task_spec(kind@, args@.map_values(|a: String| a@))) {
            (Ok(t), Ok(v)) => t@ == v,
            (Err(e), Err(m)) => e@ == m,
            _ => false,
        },
{
    let ghost views = args@.map_values(|a: String| a@);
    if str_equal(kind, "stop") {
        if args.len() > 0 {
            assert(views[0] == args@[0]@);
            Ok(AnalyzerTask::AnalyzeStop(args[0].clone()))
        } else {
            Ok(AnalyzerTask::StopWorker)
        }
    } else if str_equal(kind, "county") {
        if args.len() > 0 {
            assert(views[0] == args@[0]@);
            Ok(AnalyzerTask::AnalyzeCounty(args[0].clone()))
        } else {
            Ok(AnalyzerTask::CountyWorker)
        }
    } else {
        let mut msg = "unknown analyzer selected: ".to_owned();
        msg.append(kind);
        Err(msg)
    }
}

/// A configured batch size: the setting if it is present and reads as an
/// `i32`, else the default.
pub open spec fn batch_size_i32_spec(setting: Option<Seq<char>>, default: i32) -> i32 {
    match setting {
        Some(s) => match parse_i32_spec(s) {
            Some(v) => v,
            None => default,
        },
        None => default,
    }
}

/// Reads a batch size setting as an `i32`, falling back to `default`.
pub fn batch_size_i32(setting: Option<String>, default: i32) -> (res: i32)
    ensures
        res == batch_size_i32_spec(
            match setting {
                Some(s) => Some(s@),
                None => None,
            },
            default,
        ),
{
    match setting {
        Some(s) => match parse_i32(s.as_str()) {
            Some(v) => v,
            None => default,
        },
        None => default,
    }
}

/// A configured batch size: the setting if it is present and reads as a
/// `usize`, else the default.
pub open spec fn batch_size_usize_spec(setting: Option<Seq<char>>, default: usize) -> usize {
    match setting {
        Some(s) => match parse_usize_spec(s) {
            Some(v) => v,
            None => default,
        },
        None => default,
    }
}

/// Reads a batch size setting as a `usize`, falling back to `default`.
pub fn batch_size_usize(setting: Option<String>, default: usize) -> (res: usize)
    ensures
        res == batch_size_usize_spec(
            match setting {
                Some(s) => Some(s@),
                None => None,
            },
            default,
        ),
{
    match setting {
        Some(s) => match parse_usize(s.as_str()) {
            Some(v) => v,
            None => default,
        },
        None => default,
    }
}

/// A stop or county analyzer given arguments analyzes the item that the
/// first argument names; it runs as a queue worker only when it is given no
/// argument at all.
pub proof fn law_analyzer_argument_names_the_item(args: Seq<Seq<char>>)
    ensures
        args.len() > 0 ==> analyzer_task_spec("stop"@, args) == Ok::<AnalyzerTaskView, Seq<char>>(
            AnalyzerTaskView::AnalyzeStop(args[0]),
        ),
        args.len() > 0 ==> analyzer_task_spec("county"@, args) == Ok::<AnalyzerTaskView, Seq<char>>(
            AnalyzerTaskView::AnalyzeCounty(args[0]),
        ),
        args.len() == 0 ==> analyzer_task_spec("stop"@, args) == Ok::<AnalyzerTaskView, Seq<char>>(
            AnalyzerTaskView::StopWorker,
        ),
        args.len() == 0 ==> analyzer_task_spec("county"@, args) == Ok::<AnalyzerTaskView, Seq<char>>(
            AnalyzerTaskView::CountyWorker,
        ),
{
    reveal_strlit("stop");
    reveal_strlit("county");
    assert("county"@ != "stop"@) by {
        assert("county"@[0] != "stop"@[0]);
    }
}

/// A batch size setting that reads as a number is used as it is, whatever
/// the default; the default is used only when the setting is missing or
/// does not read as a number.
pub proof fn law_batch_size_setting_is_used(
    setting: Seq<char>,
    default: usize,
    other_default: usize,
    idefault: i32,
)
    ensures
        parse_usize_spec(setting) is Some ==> batch_size_usize_spec(Some(setting), default)
            == parse_usize_spec(setting).unwrap(),
        parse_usize_spec(setting) is Some ==> batch_size_usize_spec(Some(setting), default)
            == batch_size_usize_spec(Some(setting), other_default),
        parse_usize_spec(setting) is None ==> batch_size_usize_spec(Some(setting), default) == default,
        batch_size_usize_spec(None, default) == default,
        parse_i32_spec(setting) is Some ==> batch_size_i32_spec(Some(setting), idefault)
            == parse_i32_spec(setting).unwrap(),
        parse_i32_spec(setting) is None ==> batch_size_i32_spec(Some(setting), idefault) == idefault,
        batch_size_i32_spec(None, idefault) == idefault,
{
}

/// Writing any `usize` in decimal as the batch size setting gives that
/// batch size back, whatever the default.
pub proof fn law_written_batch_size_reads_back(size: usize, default: usize)
    ensures
        batch_size_usize_spec(Some(decimal(size as nat)), default) == size,
{
    lemma_parse_usize_of_decimal(size);
}

} // verus!
