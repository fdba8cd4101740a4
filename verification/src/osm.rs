//! The outcome of the external OSM import tool.

use vstd::prelude::*;
use vstd::string::*;

use crate::text::{signed_decimal, signed_decimal_string};

verus! {

/// The outcome of an `osm2pgsql` run: success, or the message it failed
/// with, naming its exit code (`-1` when it was ended by a signal).
pub open spec fn osm_import_outcome_spec(success: bool, code: Option<i32>) -> Result<(), Seq<char>> {
    if success {
        Ok(())
    } else {
        Err("osm2pgsql failed with status code: "@ + signed_decimal(
            match code {
                Some(c) => c as int,
                None => -1,
            },
        ))
    }
}

/// Judges an `osm2pgsql` run by its exit status.
pub fn osm_import_outcome(success: bool, code: Option<i32>) -> (res: Result<(), String>)
    ensures
        match (res, osm_import_outcome_spec(success, code)) {
            (Ok(()), Ok(())) => true,
            (Err(e), Err(m)) => e@ == m,
            _ => false,
        },
{
    if success {
        return Ok(());
    }
    let shown: i32 = match code {
        Some(c) => c,
        None => -1,
    };
    let mut msg = "osm2pgsql failed with status code: ".to_owned();
    msg.append(signed_decimal_string(shown as i64).as_str());
    Err(msg)
}

} // verus!
