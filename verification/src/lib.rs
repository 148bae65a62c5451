//! Output and reporting layer of a benchmark-orchestration tool: a dual-sink
//! logger that echoes color-annotated lines to a console while persisting a
//! plain, escape-stripped transcript to a log file, and a reporter that groups
//! per-test verification outcomes by framework and renders an aligned summary.

pub mod ansi;
pub mod error;
pub mod listing;
pub mod logger;
pub mod report;
pub mod text;
pub mod tfb;

use vstd::prelude::*;

verus! {

/// A path join with a single `/` separator, the shape of every path this
/// library builds.
pub open spec fn join_path(dir: Seq<char>, name: Seq<char>) -> Seq<char> {
    dir + seq!['/'] + name
}

/// Joins `dir` and `name` with a `/` separator.
pub fn join_path_exec(dir: &str, name: &str) -> (r: String)
    ensures
        r@ == join_path(dir@, name@),
{
    let mut s = dir.to_owned();
    s.append("/");
    s.append(name);
    proof {
        reveal_strlit("/");
        assert(s@ =~= join_path(dir@, name@));
    }
    s
}

} // verus!
