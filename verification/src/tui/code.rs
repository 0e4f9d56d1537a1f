use vstd::prelude::*;
use vstd::string::StringSliceAdditionalSpecFns;
use vstd::utf8::encode_utf8;
use crate::tui::defs::{defs_view, function_defs, python_defs};

verus! {

/// The byte offsets at which the lines of a text end (just past each line's
/// newline), over the bytes seen so far, counting only lines that have ended
/// with a newline.
pub open spec fn newline_ends(bytes: Seq<u8>) -> Seq<usize>
    decreases bytes.len(),
{
    if bytes.len() == 0 {
        Seq::empty()
    } else if bytes.last() == 10 {
        newline_ends(bytes.drop_last()).push(bytes.len() as usize)
    } else {
        newline_ends(bytes.drop_last())
    }
}

/// The byte offsets at which the lines of a text end: just past each newline,
/// and the end of the text when its last line has no newline.
pub open spec fn line_ends(bytes: Seq<u8>) -> Seq<usize> {
    if bytes.len() > 0 && bytes.last() != 10 {
        newline_ends(bytes).push(bytes.len() as usize)
    } else {
        newline_ends(bytes)
    }
}

/// The number of line ends strictly before a byte offset.
pub open spec fn ends_before(ends: Seq<usize>, offset: int) -> nat
    decreases ends.len(),
{
    if ends.len() == 0 {
        0
    } else {
        ends_before(ends.drop_last(), offset) + if ends.last() < offset {
            1nat
        } else {
            0nat
        }
    }
}

/// The line number (1-based) given to a byte offset: one more than the
/// number of line ends strictly before it.
pub open spec fn line_at(ends: Seq<usize>, offset: int) -> int {
    ends_before(ends, offset) + 1int
}

proof fn lemma_newline_ends_bounded(bytes: Seq<u8>)
    requires
        bytes.len() <= usize::MAX,
    ensures
        forall|i: int| 0 <= i < newline_ends(bytes).len() ==> 0 < #[trigger] newline_ends(bytes)[i] <= bytes.len(),
        forall|i: int, j: int| 0 <= i < j < newline_ends(bytes).len() ==> newline_ends(bytes)[i] < newline_ends(bytes)[j],
        newline_ends(bytes).len() <= bytes.len(),
        line_ends(bytes).len() <= bytes.len(),
    decreases bytes.len(),
{
    if bytes.len() > 0 {
        let prev = newline_ends(bytes.drop_last());
        lemma_newline_ends_bounded(bytes.drop_last());
        if bytes.last() == 10 {
            let cur = prev.push(bytes.len() as usize);
            assert(newline_ends(bytes) == cur);
            assert forall|i: int| 0 <= i < cur.len() implies 0 < #[trigger] cur[i] <= bytes.len() by {
                if i < prev.len() {
                    assert(cur[i] == prev[i]);
                }
            }
            assert forall|i: int, j: int| 0 <= i < j < cur.len() implies cur[i] < cur[j] by {
                assert(cur[i] == prev[i]);
                if j < prev.len() {
                    assert(cur[j] == prev[j]);
                }
            }
        }
    }
}

/// The line ends of a text increase strictly.
pub proof fn lemma_line_ends_increasing(bytes: Seq<u8>)
    requires
        bytes.len() <= usize::MAX,
    ensures
        forall|i: int, j: int| 0 <= i < j < line_ends(bytes).len() ==> line_ends(bytes)[i] < line_ends(bytes)[j],
{
    lemma_newline_ends_bounded(bytes);
    if bytes.len() > 0 && bytes.last() != 10 {
        assert forall|i: int, j: int| 0 <= i < j < line_ends(bytes).len() implies line_ends(bytes)[i] < line_ends(bytes)[j] by {
            if j == line_ends(bytes).len() - 1 {
                assert(newline_ends(bytes)[i] <= bytes.len());
                if newline_ends(bytes)[i] == bytes.len() {
                    lemma_newline_end_is_newline(bytes, i);
                }
            }
        }
    }
}

proof fn lemma_newline_end_is_newline(bytes: Seq<u8>, i: int)
    requires
        bytes.len() <= usize::MAX,
        0 <= i < newline_ends(bytes).len(),
    ensures
        bytes[newline_ends(bytes)[i] - 1] == 10,
    decreases bytes.len(),
{
    lemma_newline_ends_bounded(bytes.drop_last());
    if i < newline_ends(bytes.drop_last()).len() {
        lemma_newline_end_is_newline(bytes.drop_last(), i);
    }
}

/// The byte offsets at which the lines of a text end.
pub fn line_offsets(source: &str) -> (ends: Vec<usize>)
    ensures
        ends@ == line_ends(source.spec_bytes()),
{
    let bytes = source.as_bytes();
    let mut ends: Vec<usize> = Vec::new();
    let mut i: usize = 0;
    while i < bytes.len()
        invariant
            i <= bytes.len(),
            bytes@ == source.spec_bytes(),
            ends@ == newline_ends(bytes@.take(i as int)),
        decreases bytes.len() - i,
    {
        assert(bytes@.take(i + 1).drop_last() =~= bytes@.take(i as int));
        if bytes[i] == 10 {
            ends.push(i + 1);
        }
        i = i + 1;
    }
    assert(bytes@.take(i as int) =~= bytes@);
    if bytes.len() > 0 && bytes[bytes.len() - 1] != 10 {
        ends.push(bytes.len());
    }
    ends
}

proof fn lemma_ends_before_partition(ends: Seq<usize>, offset: int, p: int)
    requires
        0 <= p <= ends.len(),
        forall|i: int| 0 <= i < p ==> ends[i] < offset,
        forall|i: int| p <= i < ends.len() ==> ends[i] >= offset,
    ensures
        ends_before(ends, offset) == p,
    decreases ends.len(),
{
    if ends.len() > 0 {
        if p == ends.len() {
            lemma_ends_before_partition(ends.drop_last(), offset, p - 1);
        } else {
            lemma_ends_before_partition(ends.drop_last(), offset, p);
        }
    }
}

/// The line number (1-based) of a byte offset, given the line ends.
pub fn line_of_offset(ends: &Vec<usize>, offset: usize) -> (line: usize)
    requires
        ends.len() < usize::MAX,
        forall|i: int, j: int| 0 <= i < j < ends.len() ==> ends[i] < ends[j],
    ensures
        line == line_at(ends@, offset as int),
{
    let mut lo: usize = 0;
    let mut hi: usize = ends.len();
    while lo < hi
        invariant
            lo <= hi <= ends.len(),
            forall|i: int, j: int| 0 <= i < j < ends.len() ==> ends[i] < ends[j],
            forall|i: int| 0 <= i < lo ==> ends[i] < offset,
            forall|i: int| hi <= i < ends.len() ==> ends[i] >= offset,
        decreases hi - lo,
    {
        let mid = lo + (hi - lo) / 2;
        if offset > ends[mid] {
            lo = mid + 1;
        } else {
            hi = mid;
        }
    }
    proof {
        lemma_ends_before_partition(ends@, offset as int, lo as int);
    }
    lo + 1
}


/// Line `l` (0-based) is the nearest function definition above line `current`.
pub open spec fn is_prev_fn_target(funcs: Seq<(usize, String)>, current: int, l: int) -> bool {
    &&& l < current
    &&& exists|i: int| 0 <= i < funcs.len() && (#[trigger] funcs[i]).0 == l + 1
    &&& forall|i: int| 0 <= i < funcs.len() && 1 <= (#[trigger] funcs[i]).0 <= current ==> funcs[i].0 - 1 <= l
}

/// Line `l` (0-based) is the nearest function definition below line `current`.
pub open spec fn is_next_fn_target(funcs: Seq<(usize, String)>, current: int, l: int) -> bool {
    &&& l > current
    &&& exists|i: int| 0 <= i < funcs.len() && (#[trigger] funcs[i]).0 == l + 1
    &&& forall|i: int| 0 <= i < funcs.len() && (#[trigger] funcs[i]).0 > current + 1 ==> funcs[i].0 - 1 >= l
}

/// The nearest function definition above a line, if any.
pub open spec fn prev_fn_target(funcs: Seq<(usize, String)>, current: int) -> Option<usize> {
    if exists|l: usize| is_prev_fn_target(funcs, current, l as int) {
        Some(choose|l: usize| is_prev_fn_target(funcs, current, l as int))
    } else {
        None
    }
}

/// The nearest function definition below a line, if any.
pub open spec fn next_fn_target(funcs: Seq<(usize, String)>, current: int) -> Option<usize> {
    if exists|l: usize| is_next_fn_target(funcs, current, l as int) {
        Some(choose|l: usize| is_next_fn_target(funcs, current, l as int))
    } else {
        None
    }
}

/// A Python source file: its path, its text, and the functions it defines,
/// each with the line (1-based) where its definition starts and its name.
pub struct PythonCode {
    pub path: String,
    pub source: String,
    pub funcs: Vec<(usize, String)>,
}

impl PythonCode {
    /// The source file with the function definitions that the parser found,
    /// each given by the byte offset where it starts and its name.
    pub fn from_defs(path: String, source: String, defs: &Vec<(usize, String)>) -> (code: Self)
        requires
            encode_utf8(source@).len() < usize::MAX,
        ensures
            code.path == path,
            code.source == source,
            code.funcs@.len() == defs@.len(),
            forall|i: int| 0 <= i < defs@.len() ==> (#[trigger] code.funcs@[i]).0 == line_at(
                line_ends(encode_utf8(source@)),
                defs@[i].0 as int,
            ) && code.funcs@[i].1 == defs@[i].1,
    {
        let ends = line_offsets(source.as_str());
        proof {
            lemma_line_ends_increasing(encode_utf8(source@));
            lemma_newline_ends_bounded(encode_utf8(source@));
        }
        let mut funcs: Vec<(usize, String)> = Vec::new();
        let mut i: usize = 0;
        while i < defs.len()
            invariant
                i <= defs@.len(),
                ends@ == line_ends(encode_utf8(source@)),
                ends@.len() < usize::MAX,
                forall|a: int, b: int| 0 <= a < b < ends@.len() ==> ends@[a] < ends@[b],
                funcs@.len() == i,
                forall|k: int| 0 <= k < i ==> (#[trigger] funcs@[k]).0 == line_at(ends@, defs@[k].0 as int)
                    && funcs@[k].1 == defs@[k].1,
            decreases defs@.len() - i,
        {
            let line = line_of_offset(&ends, defs[i].0);
            funcs.push((line, defs[i].1.clone()));
            i = i + 1;
        }
        PythonCode { path, source, funcs }
    }

    /// The source file with the functions it defines, each numbered by the
    /// line where its definition starts; the parser's error message where the
    /// source does not parse as Python.
    pub fn new(path: String, source: String) -> (r: Result<Self, String>)
        requires
            encode_utf8(source@).len() < usize::MAX,
        ensures
            r is Ok <==> python_defs(source@) is Some,
            r matches Ok(code) ==> {
                let defs = python_defs(source@)->Some_0;
                &&& code.path == path
                &&& code.source == source
                &&& code.funcs@.len() == defs.len()
                &&& forall|i: int| 0 <= i < defs.len() ==> (#[trigger] code.funcs@[i]).0 == line_at(
                    line_ends(encode_utf8(source@)),
                    defs[i].0 as int,
                ) && code.funcs@[i].1@ == defs[i].1
            },
    {
        let defs = match function_defs(source.as_str(), path.as_str()) {
            Ok(d) => d,
            Err(e) => return Err(e),
        };
        let code = Self::from_defs(path, source, &defs);
        assert(defs_view(defs@).len() == defs@.len());
        assert forall|i: int| 0 <= i < defs@.len() implies #[trigger] defs_view(defs@)[i] == (
            defs@[i].0,
            defs@[i].1@,
        ) by {}
        Ok(code)
    }

    /// The 0-based line of the nearest function definition above the
    /// (0-based) current line, if there is one.
    pub fn jump_to_prev_fn(&self, current_line: usize) -> (target: Option<usize>)
        ensures
            target is None <==> forall|i: int|
                0 <= i < self.funcs@.len() ==> !(1 <= (#[trigger] self.funcs@[i]).0 <= current_line),
            target matches Some(l) ==> {
                &&& l < current_line
                &&& exists|i: int| 0 <= i < self.funcs@.len() && (#[trigger] self.funcs@[i]).0 == l + 1
                &&& forall|i: int|
                    0 <= i < self.funcs@.len() && 1 <= (#[trigger] self.funcs@[i]).0 <= current_line
                        ==> self.funcs@[i].0 - 1 <= l
            },
            target == prev_fn_target(self.funcs@, current_line as int),
    {
        let mut best: Option<usize> = None;
        let mut i: usize = 0;
        while i < self.funcs.len()
            invariant
                i <= self.funcs@.len(),
                best is None <==> forall|k: int|
                    0 <= k < i ==> !(1 <= (#[trigger] self.funcs@[k]).0 <= current_line),
                best matches Some(l) ==> {
                    &&& l < current_line
                    &&& exists|k: int| 0 <= k < i && (#[trigger] self.funcs@[k]).0 == l + 1
                    &&& forall|k: int|
                        0 <= k < i && 1 <= (#[trigger] self.funcs@[k]).0 <= current_line
                            ==> self.funcs@[k].0 - 1 <= l
                },
            decreases self.funcs@.len() - i,
        {
            let line = self.funcs[i].0;
            if 1 <= line && line <= current_line {
                let candidate = line - 1;
                match best {
                    Some(l) => {
                        if candidate > l {
                            best = Some(candidate);
                        }
                    },
                    None => {
                        best = Some(candidate);
                    },
                }
            }
            i = i + 1;
        }
        proof {
            let fs = self.funcs@;
            let c = current_line as int;
            if let Some(l) = best {
                assert(is_prev_fn_target(fs, c, l as int));
                let m = choose|m: usize| is_prev_fn_target(fs, c, m as int);
                let im = choose|i: int| 0 <= i < fs.len() && (#[trigger] fs[i]).0 == m + 1;
                let il = choose|i: int| 0 <= i < fs.len() && (#[trigger] fs[i]).0 == l + 1;
                assert(fs[im].0 - 1 <= l);
                assert(fs[il].0 - 1 <= m);
            } else {
                if exists|l: usize| is_prev_fn_target(fs, c, l as int) {
                    let m = choose|m: usize| is_prev_fn_target(fs, c, m as int);
                    let im = choose|i: int| 0 <= i < fs.len() && (#[trigger] fs[i]).0 == m + 1;
                    assert(1 <= fs[im].0 <= c);
                }
            }
        }
        best
    }

    /// The 0-based line of the nearest function definition below the
    /// (0-based) current line, if there is one.
    pub fn jump_to_next_fn(&self, current_line: usize) -> (target: Option<usize>)
        ensures
            target is None <==> forall|i: int|
                0 <= i < self.funcs@.len() ==> !((#[trigger] self.funcs@[i]).0 > current_line + 1),
            target matches Some(l) ==> {
                &&& l > current_line
                &&& exists|i: int| 0 <= i < self.funcs@.len() && (#[trigger] self.funcs@[i]).0 == l + 1
                &&& forall|i: int|
                    0 <= i < self.funcs@.len() && (#[trigger] self.funcs@[i]).0 > current_line + 1
                        ==> self.funcs@[i].0 - 1 >= l
            },
            target == next_fn_target(self.funcs@, current_line as int),
    {
        let mut best: Option<usize> = None;
        let mut i: usize = 0;
        while i < self.funcs.len()
            invariant
                i <= self.funcs@.len(),
                best is None <==> forall|k: int|
                    0 <= k < i ==> !((#[trigger] self.funcs@[k]).0 > current_line + 1),
                best matches Some(l) ==> {
                    &&& l > current_line
                    &&& exists|k: int| 0 <= k < i && (#[trigger] self.funcs@[k]).0 == l + 1
                    &&& forall|k: int|
                        0 <= k < i && (#[trigger] self.funcs@[k]).0 > current_line + 1
                            ==> self.funcs@[k].0 - 1 >= l
                },
            decreases self.funcs@.len() - i,
        {
            let line = self.funcs[i].0;
            if line > current_line && line - current_line > 1 {
                let candidate = line - 1;
                match best {
                    Some(l) => {
                        if candidate < l {
                            best = Some(candidate);
                        }
                    },
                    None => {
                        best = Some(candidate);
                    },
                }
            }
            i = i + 1;
        }
        proof {
            let fs = self.funcs@;
            let c = current_line as int;
            if let Some(l) = best {
                assert(is_next_fn_target(fs, c, l as int));
                let m = choose|m: usize| is_next_fn_target(fs, c, m as int);
                let im = choose|i: int| 0 <= i < fs.len() && (#[trigger] fs[i]).0 == m + 1;
                let il = choose|i: int| 0 <= i < fs.len() && (#[trigger] fs[i]).0 == l + 1;
                assert(fs[im].0 - 1 >= l);
                assert(fs[il].0 - 1 >= m);
            } else {
                if exists|l: usize| is_next_fn_target(fs, c, l as int) {
                    let m = choose|m: usize| is_next_fn_target(fs, c, m as int);
                    let im = choose|i: int| 0 <= i < fs.len() && (#[trigger] fs[i]).0 == m + 1;
                    assert(fs[im].0 > c + 1);
                }
            }
        }
        best
    }
}

} // verus!
