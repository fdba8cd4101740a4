//! Verified core of the mobility map data aggregator: id batching for
//! table scans, the GTFS clock-time parser, chunked record imports, the
//! migration ordering, the command dispatch and the import timer report.

pub mod batches;
pub mod cli;
pub mod frontend;
pub mod imports;
pub mod jobs;
pub mod migrations;
pub mod osm;
pub mod residential;
pub mod text;
pub mod time_parser;
pub mod timer;
