use vstd::prelude::*;

verus! {

/// The errors of the profiler's setup and input handling.
#[derive(Debug)]
pub enum Error {
    /// The Python source file could not be read; `source` says why.
    CannotReadFile { source: String, path: String },
    /// The terminal input stream ended.
    InputStreamClosed,
    /// The terminal input stream failed; `source` says why.
    InputStreamError { source: String },
    /// The Python source file's full path is not valid UTF-8.
    NonUtf8Path { path: String },
}

} // verus!
