use vstd::prelude::*;

verus! {

/// The closed error taxonomy of this library: the benchmarks root failed to
/// resolve, or an I/O operation reported a failure (carried as its message).
#[derive(Debug, Clone, PartialEq, Eq)]
pub enum ToolsetError {
    InvalidFrameworkBenchmarksDirError,
    IoError(String),
}

pub type ToolsetResult<T> = Result<T, ToolsetError>;

} // verus!
