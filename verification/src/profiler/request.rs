use vstd::prelude::*;

verus! {

/// Asks the profiler for the latency summary of every watched line.
pub struct Observe;

/// Asks the profiler for the line filters of a file.
pub struct ListFilters {
    _file: String,
}

} // verus!
