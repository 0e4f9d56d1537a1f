use vstd::prelude::*;
use crate::profiler::hash_path;
use crate::profiler::path_hash;
use vstd::utf8::encode_utf8;
use std::collections::HashMap;
use crate::profiler::hist::Summary;

verus! {

/// The USDT provider name of the Python interpreter's probes.
pub const USDT_PROVIDER: &'static str = "python";

/// A Python interpreter to profile: a process (or every process, with pid -1)
/// running a given interpreter binary.
#[derive(Debug, PartialEq, Eq, Hash)]
pub struct ProfileTarget {
    pub pid: i32,
    pub python_bin: String,
}

impl Clone for ProfileTarget {
    fn clone(&self) -> (c: Self)
        ensures
            c == *self,
    {
        ProfileTarget { pid: self.pid, python_bin: self.python_bin.clone() }
    }
}

/// The USDT probes of the Python interpreter that the profiler attaches to.
#[derive(Debug, Copy, Clone, PartialEq, Eq, Hash, Structural)]
pub enum UsdtName {
    FunctionEntry,
    FunctionReturn,
}

impl UsdtName {
    /// Every probe, in the order in which the interpreter fires them.
    pub fn all() -> (names: Vec<UsdtName>)
        ensures
            names@ == seq![UsdtName::FunctionEntry, UsdtName::FunctionReturn],
    {
        vec![UsdtName::FunctionEntry, UsdtName::FunctionReturn]
    }

    /// The probe's name in the interpreter's USDT notes.
    pub fn as_str(&self) -> (name: &'static str)
        ensures
            name@ == (match self {
                UsdtName::FunctionEntry => "function__entry"@,
                UsdtName::FunctionReturn => "function__return"@,
            }),
    {
        match self {
            UsdtName::FunctionEntry => "function__entry",
            UsdtName::FunctionReturn => "function__return",
        }
    }
}

/// One probe attached to one target.
#[derive(Debug, PartialEq, Eq, Hash)]
pub struct Probe {
    pub target: ProfileTarget,
    pub usdt_name: UsdtName,
}

/// A source line whose latency is watched.
#[derive(Debug, PartialEq, Eq, Hash)]
pub struct Target {
    pub lineno: usize,
}

/// Latency summaries by (1-based) source line.
pub type SummaryMap = HashMap<usize, Summary>;

/// What a profiling session is narrowed to: a file, function and line, or a
/// function by name alone, and how often a call is sampled.
pub struct Precondition {
    pub file_path: Option<String>,
    pub path_hash: Option<u64>,
    pub func_name: Option<String>,
    pub line: Option<u64>,
    pub sample_every_n: u64,
    _private: (),
}

impl Precondition {
    /// The narrowing's fields, readable in contracts outside this module.
    pub closed spec fn fields(&self) -> (Option<String>, Option<u64>, Option<String>, Option<u64>, u64) {
        (self.file_path, self.path_hash, self.func_name, self.line, self.sample_every_n)
    }

    /// Narrows to one line of one function of one file; the file's path is
    /// hashed as the kernel-side filter expects.
    pub fn by_path_func_line(
        file_path: String,
        func_name: String,
        line: u64,
        sample_every_n: u64,
    ) -> (p: Self)
        ensures
            p.fields().0 == Some(file_path),
            p.fields().2 == Some(func_name),
            p.fields().3 == Some(line),
            p.fields().1 == Some(path_hash(encode_utf8(file_path@)) as u64),
            p.fields().4 == sample_every_n,
    {
        let h = hash_path(file_path.as_str());
        Precondition {
            file_path: Some(file_path),
            func_name: Some(func_name),
            line: Some(line),
            path_hash: Some(h),
            sample_every_n,
            _private: (),
        }
    }

    /// Narrows to every call of a function, wherever it is defined.
    pub fn by_func_name(func_name: String, sample_every_n: u64) -> (p: Self)
        ensures
            p.fields().0 is None,
            p.fields().2 == Some(func_name),
            p.fields().3 is None,
            p.fields().1 is None,
            p.fields().4 == sample_every_n,
    {
        Precondition {
            file_path: None,
            func_name: Some(func_name),
            line: None,
            path_hash: None,
            sample_every_n,
            _private: (),
        }
    }
}

} // verus!
