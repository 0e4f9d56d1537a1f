use vstd::prelude::*;
use crate::error::Error;
use crate::text::{i32_to_decimal, signed_decimal};

verus! {

/// The command line: the Python file to watch, the process to watch (-1 for
/// every process) and the interpreter binary, if given.
pub struct Args {
    pub python_code: String,
    pub pid: i32,
    pub python_bin: Option<String>,
}

/// The profiler's settings: the process to watch (-1 for every process), the
/// interpreter binary and the full path of the Python file.
pub struct Config {
    pub pid: i32,
    pub python_bin: String,
    pub python_code: String,
}

/// What resolving the Python file's path to a full path gave: the full path,
/// a full path that is not UTF-8, or an error reading the file (its message).
pub enum ResolvedPath {
    Utf8(String),
    NotUtf8,
    Unreadable(String),
}

/// The interpreter to watch:
///
/// | pid | python_bin | interpreter          |
/// |-----|------------|----------------------|
/// | -1  | none       | `python`             |
/// | -1  | given      | the given binary     |
/// | n   | none       | `/proc/n/exe`        |
/// | n   | given      | the given binary     |
pub open spec fn python_for(pid: i32, python_bin: Option<String>) -> Seq<char> {
    match python_bin {
        Some(path) => path@,
        None => if pid == -1 {
            seq!['p', 'y', 't', 'h', 'o', 'n']
        } else {
            seq!['/', 'p', 'r', 'o', 'c', '/'] + signed_decimal(pid as int) + seq!['/', 'e', 'x', 'e']
        },
    }
}

/// Chooses the interpreter binary to watch from the command line.
pub fn determine_python(args: &Args) -> (python: String)
    ensures
        python@ == python_for(args.pid, args.python_bin),
{
    match &args.python_bin {
        Some(path) => path.clone(),
        None => {
            if args.pid == -1 {
                let s = String::from_str("python");
                proof {
                    reveal_strlit("python");
                }
                assert(s@ =~= python_for(args.pid, args.python_bin));
                s
            } else {
                let mut s = String::from_str("/proc/");
                s.append(i32_to_decimal(args.pid).as_str());
                s.append("/exe");
                proof {
                    reveal_strlit("/proc/");
                    reveal_strlit("/exe");
                }
                assert(s@ =~= python_for(args.pid, args.python_bin));
                s
            }
        },
    }
}

impl Config {
    /// The settings for a command line, given the resolved path of its
    /// Python file.
    pub fn new(args: Args, resolved: ResolvedPath) -> (r: Result<Self, Error>)
        ensures
            match resolved {
                ResolvedPath::Utf8(full) => r matches Ok(c) && c.pid == args.pid && c.python_bin@
                    == python_for(args.pid, args.python_bin) && c.python_code == full,
                ResolvedPath::NotUtf8 => r matches Err(Error::NonUtf8Path { path }) && path
                    == args.python_code,
                ResolvedPath::Unreadable(msg) => r matches Err(Error::CannotReadFile { source, path })
                    && source == msg && path == args.python_code,
            },
    {
        let python_bin = determine_python(&args);
        match resolved {
            ResolvedPath::Utf8(full) => Ok(Config { pid: args.pid, python_bin, python_code: full }),
            ResolvedPath::NotUtf8 => Err(Error::NonUtf8Path { path: args.python_code }),
            ResolvedPath::Unreadable(msg) => Err(
                Error::CannotReadFile { source: msg, path: args.python_code },
            ),
        }
    }
}

/// Checks the settings; every setting is accepted.
pub fn validate_config(config: &Config) -> (r: Result<(), Error>)
    ensures
        r is Ok,
{
    Ok(())
}

} // verus!
