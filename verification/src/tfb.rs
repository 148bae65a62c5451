use vstd::prelude::*;
use crate::error::{ToolsetError, ToolsetResult};
use crate::join_path;
use crate::join_path_exec;

verus! {

/// Where the framework-benchmarks root is looked for, given what the
/// environment offers: the `TFB_HOME` variable when set; otherwise `.tfb`
/// under the home directory; when that directory does not exist, the current
/// working directory; with neither variable nor home directory, the empty
/// path.
pub open spec fn tfb_candidate(
    tfb_home: Option<Seq<char>>,
    home_dir: Option<Seq<char>>,
    home_tfb_exists: bool,
    current_dir: Option<Seq<char>>,
) -> Seq<char> {
    match tfb_home {
        Some(h) => h,
        None => match home_dir {
            Some(d) => if home_tfb_exists {
                join_path(d, ".tfb"@)
            } else {
                match current_dir {
                    Some(c) => c,
                    None => join_path(d, ".tfb"@),
                }
            },
            None => Seq::<char>::empty(),
        },
    }
}

/// Resolves the candidate framework-benchmarks root from the environment's
/// plain values: `TFB_HOME` if set, else `.tfb` under the home directory,
/// falling back to the current working directory when that does not exist.
pub fn resolve_tfb_candidate(
    tfb_home: Option<String>,
    home_dir: Option<String>,
    home_tfb_exists: bool,
    current_dir: Option<String>,
) -> (r: String)
    ensures
        r@ == tfb_candidate(
            match tfb_home {
                Some(h) => Some(h@),
                None => None,
            },
            match home_dir {
                Some(d) => Some(d@),
                None => None,
            },
            home_tfb_exists,
            match current_dir {
                Some(c) => Some(c@),
                None => None,
            },
        ),
{
    match tfb_home {
        Some(h) => h,
        None => match home_dir {
            Some(d) => {
                if home_tfb_exists {
                    join_path_exec(d.as_str(), ".tfb")
                } else {
                    match current_dir {
                        Some(c) => c,
                        None => join_path_exec(d.as_str(), ".tfb"),
                    }
                }
            },
            None => String::new(),
        },
    }
}

/// The directory whose existence qualifies a candidate root: its `frameworks`
/// subdirectory. The caller checks the filesystem for this path.
pub fn frameworks_dir_of(candidate: &str) -> (r: String)
    ensures
        r@ == join_path(candidate@, "frameworks"@),
{
    join_path_exec(candidate, "frameworks")
}

/// Accepts the candidate framework-benchmarks root exactly when its
/// `frameworks` subdirectory exists (`has_frameworks`), and fails with
/// `InvalidFrameworkBenchmarksDirError` otherwise, whatever resolution source
/// the candidate came from.
pub fn get_tfb_dir(candidate: &str, has_frameworks: bool) -> (r: ToolsetResult<String>)
    ensures
        has_frameworks ==> r is Ok && r->Ok_0@ == candidate@,
        !has_frameworks ==> r == Err::<String, ToolsetError>(
            ToolsetError::InvalidFrameworkBenchmarksDirError,
        ),
{
    if has_frameworks {
        Ok(candidate.to_owned())
    } else {
        Err(ToolsetError::InvalidFrameworkBenchmarksDirError)
    }
}

/// Relies on chrono's `Utc::now` and its `format` with `%Y%m%d%H%M%S`: a
/// four-digit (or longer) year and two digits for each of month, day, hour,
/// minute and second, at least fourteen characters in all.
#[verifier::external_body]
fn utc_timestamp() -> (r: String)
    ensures
        r@.len() >= 14,
{
    format!("{}", chrono::Utc::now().format("%Y%m%d%H%M%S"))
}

/// The name of one run's results directory: `results/` followed by the given
/// timestamp.
pub fn results_dir_name(timestamp: &str) -> (r: String)
    ensures
        r@ == "results/"@ + timestamp@,
{
    let mut s = "results/".to_owned();
    s.append(timestamp);
    s
}

/// The results directory for a run starting now: `results/` followed by the
/// current UTC timestamp. The caller creates the directory.
pub fn current_results_dir() -> (r: String)
    ensures
        r@.len() >= 22,
        r@.subrange(0, 8) == "results/"@,
{
    let ts = utc_timestamp();
    let r = results_dir_name(ts.as_str());
    proof {
        reveal_strlit("results/");
        assert(r@.subrange(0, 8) =~= "results/"@);
    }
    r
}

} // verus!
