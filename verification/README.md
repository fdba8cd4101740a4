# mobility_map

A data aggregator for public transport accessibility: it imports
OpenStreetMap extracts and GTFS timetables into PostGIS, analyzes stops
and counties, and serves a map of the areas reachable from stops.

- `src/` is the verified library (Verus): id batching for table scans,
  the timetable clock-time parser, batched CSV record imports, the order
  in which merged migrations run, the command dispatch, the job values
  and the timer report. Each public function carries a contract; the
  `law_*` proof functions state properties that span several calls.
- `app/` is the `mobility-map` command line program: database access,
  the job queue, the web frontend and file and process I/O, built on the
  library.
- `tests/` runs the library on concrete values.
