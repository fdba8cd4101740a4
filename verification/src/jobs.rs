//! The analysis jobs: analyzing one stop, and analyzing a county by
//! queueing one stop analysis per stop inside it.

use vstd::prelude::*;

verus! {

/// The queue name of stop analysis jobs.
pub const ANALYZE_STOP_JOB_NAME: &'static str = "analyze-stop-job";

/// The queue name of county analysis jobs.
pub const ANALYZE_COUNTY_JOB_NAME: &'static str = "analyze-county-job";

/// A request to analyze the stop with an IFOPT id.
#[derive(Clone, Debug)]
pub struct AnalyzeStopJob {
    ifopt: String,
}

/// A request to analyze the county with an AGS (official municipality key).
#[derive(Clone, Debug)]
pub struct AnalyzeCountyJob {
    ags: String,
}

impl AnalyzeStopJob {
    /// The IFOPT id of the stop, as characters.
    pub closed spec fn ifopt_view(&self) -> Seq<char> {
        self.ifopt@
    }

    /// The IFOPT id of the stop.
    pub fn ifopt(&self) -> (res: &str)
        ensures
            res@ == self.ifopt_view(),
    {
        self.ifopt.as_str()
    }
}

impl AnalyzeCountyJob {
    /// The AGS of the county, as characters.
    pub closed spec fn ags_view(&self) -> Seq<char> {
        self.ags@
    }

    /// The AGS of the county.
    pub fn ags(&self) -> (res: &str)
        ensures
            res@ == self.ags_view(),
    {
        self.ags.as_str()
    }
}

impl From<String> for AnalyzeStopJob {
    fn from(ifopt: String) -> (res: Self)
        ensures
            res.ifopt_view() == ifopt@,
    {
        AnalyzeStopJob { ifopt }
    }
}

impl vstd::std_specs::convert::FromSpecImpl<String> for AnalyzeStopJob {
    open spec fn obeys_from_spec() -> bool {
        true
    }

    closed spec fn from_spec(ifopt: String) -> Self {
        AnalyzeStopJob { ifopt }
    }
}

impl From<String> for AnalyzeCountyJob {
    fn from(ags: String) -> (res: Self)
        ensures
            res.ags_view() == ags@,
    {
        AnalyzeCountyJob { ags }
    }
}

impl vstd::std_specs::convert::FromSpecImpl<String> for AnalyzeCountyJob {
    open spec fn obeys_from_spec() -> bool {
        true
    }

    closed spec fn from_spec(ags: String) -> Self {
        AnalyzeCountyJob { ags }
    }
}

/// A stop job made from an IFOPT id analyzes the stop with that id.
pub proof fn law_stop_job_from_id(ifopt: String)
    ensures
        <AnalyzeStopJob as vstd::std_specs::convert::FromSpec<String>>::from_spec(
            ifopt,
        ).ifopt_view() == ifopt@,
{
}

/// A county job made from an AGS analyzes the county with that AGS.
pub proof fn law_county_job_from_ags(ags: String)
    ensures
        <AnalyzeCountyJob as vstd::std_specs::convert::FromSpec<String>>::from_spec(
            ags,
        ).ags_view() == ags@,
{
}

/// The jobs that analyzing a county queues: one stop analysis per stop
/// inside the county, in the order the stops were found.
pub fn stop_jobs_for_county(stops: Vec<String>) -> (res: Vec<AnalyzeStopJob>)
    ensures
        res.len() == stops.len(),
        forall|i: int| 0 <= i < stops.len() ==> #[trigger] res[i].ifopt_view() == stops[i]@,
{
    let mut jobs: Vec<AnalyzeStopJob> = Vec::new();
    let n = stops.len();
    let mut i: usize = 0;
    while i < n
        invariant
            n == stops.len(),
            i <= n,
            jobs.len() == i,
            forall|j: int| 0 <= j < i ==> #[trigger] jobs[j].ifopt_view() == stops[j]@,
        decreases n - i,
    {
        jobs.push(AnalyzeStopJob { ifopt: stops[i].clone() });
        i = i + 1;
    }
    jobs
}

} // verus!
