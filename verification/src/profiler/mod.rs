pub mod hist;
pub mod request;
pub mod types;

use vstd::prelude::*;
use vstd::arithmetic::div_mod::{lemma_add_mod_noop, lemma_mod_twice, lemma_mul_mod_noop_left, lemma_small_mod};
use vstd::arithmetic::power::pow;
use vstd::string::StringSliceAdditionalSpecFns;
use std::collections::{HashMap, HashSet};
use crate::profiler::hist::{
    Histogram, Summary, NUM_BUCKETS, total, summary_of, count_below, lemma_add_counts,
};
use crate::profiler::types::{Probe, ProfileTarget, SummaryMap, Target, UsdtName};

verus! {

/// The hash of a file path that the kernel-side filter compares against:
/// `h = h * 37 + byte` over the path's UTF-8 bytes, modulo 2^64.
pub open spec fn path_hash(bytes: Seq<u8>) -> int
    decreases bytes.len(),
{
    if bytes.len() == 0 {
        0
    } else {
        (path_hash(bytes.drop_last()) * 37 + bytes.last()) % 0x1_0000_0000_0000_0000
    }
}

/// Hashes a file path the way the kernel-side filter does.
pub fn hash_path(s: &str) -> (h: u64)
    ensures
        h == path_hash(s.spec_bytes()),
{
    let bytes = s.as_bytes();
    let mut h: u64 = 0;
    let mut i: usize = 0;
    while i < bytes.len()
        invariant
            i <= bytes.len(),
            bytes@ == s.spec_bytes(),
            h == path_hash(bytes@.take(i as int)),
        decreases bytes.len() - i,
    {
        let b = bytes[i];
        proof {
            let m: int = 0x1_0000_0000_0000_0000;
            assert(bytes@.take(i + 1).drop_last() =~= bytes@.take(i as int));
            lemma_add_mod_noop(h * 37, b as int, m);
            assert(((h * 37) % m + (b as int) % m) % m == (h * 37 + b) % m);
        }
        h = h.wrapping_mul(37).wrapping_add(b as u64);
        i = i + 1;
    }
    assert(bytes@.take(i as int) =~= bytes@);
    h
}


/// The hash of a one-byte path is that byte, taken as it is (with the
/// concatenation law this fixes the hash of every path: `h * 37 + byte` over
/// its raw bytes).
pub proof fn lemma_path_hash_one_byte(b: u8)
    ensures
        path_hash(seq![b]) == b as int,
{
    assert(seq![b].drop_last() =~= Seq::<u8>::empty());
    assert(path_hash(seq![b].drop_last()) == 0);
    assert(seq![b].last() == b);
    lemma_small_mod(b as nat, 0x1_0000_0000_0000_0000nat);
    assert(path_hash(seq![b]) == (0 * 37 + b) % 0x1_0000_0000_0000_0000);
}

/// A path hash is below 2^64.
proof fn lemma_path_hash_in_range(bytes: Seq<u8>)
    ensures
        0 <= path_hash(bytes) < 0x1_0000_0000_0000_0000,
{
}

/// The hash of a path made of two parts is the hash of the first part
/// multiplied by 37 once for every byte of the second, plus the hash of the
/// second, modulo 2^64 (what `wrapping_mul` and `wrapping_add` compute).
#[verifier::spinoff_prover]
pub proof fn lemma_path_hash_concat(s: Seq<u8>, t: Seq<u8>)
    ensures
        path_hash(s + t) == (path_hash(s) * pow(37, t.len()) + path_hash(t))
            % 0x1_0000_0000_0000_0000,
    decreases t.len(),
{
    let m: int = 0x1_0000_0000_0000_0000;
    reveal(pow);
    lemma_path_hash_in_range(s);
    if t.len() == 0 {
        assert(s + t =~= s);
        lemma_small_mod(path_hash(s) as nat, m as nat);
    } else {
        let t1 = t.drop_last();
        let b = t.last();
        assert((s + t).drop_last() =~= s + t1);
        assert((s + t).last() == b);
        lemma_path_hash_concat(s, t1);
        let h = path_hash(s);
        let p1 = pow(37, t1.len());
        let h1 = path_hash(t1);
        let x = h * p1 + h1;
        // path_hash(s + t) == ((x % m) * 37 + b) % m == (x * 37 + b) % m
        lemma_mul_mod_noop_left(x, 37, m);
        lemma_add_mod_noop((x % m) * 37, b as int, m);
        lemma_add_mod_noop(x * 37, b as int, m);
        assert(((x % m) * 37 + b) % m == (x * 37 + b) % m);
        // x * 37 + b == h * pow(37, t.len()) + (h1 * 37 + b)
        assert(pow(37, t.len()) == 37 * p1);
        assert(x * 37 == h * (37 * p1) + h1 * 37) by (nonlinear_arith)
            requires
                x == h * p1 + h1,
        ;
        let y = h1 * 37 + b;
        let hp = h * pow(37, t.len());
        assert(x * 37 + b == hp + y);
        assert(path_hash(s + t1) == x % m);
        assert(path_hash(s + t) == (path_hash(s + t1) * 37 + b) % m);
        assert(path_hash(s + t) == (hp + y) % m);
        assert(t.drop_last() =~= t1);
        assert(path_hash(t) == y % m);
        lemma_add_mod_noop(hp, y, m);
        lemma_add_mod_noop(hp, y % m, m);
        lemma_mod_twice(y, m);
        assert((hp + y % m) % m == (hp + y) % m);
    }
}


/// A kind of measurement the profiler can take.
#[derive(Debug, Clone, Copy, PartialEq, Eq, Structural)]
pub enum ProfileAttribute {
    Latency,
    Gc,
    Malloc,
}

/// The commands the profiler takes.
#[derive(Debug)]
pub enum ProfilerCommand {
    Attach(ProfileTarget),
    Detach(ProfileTarget),
    ToggleFilter(Target),
    ToggleAttribute(ProfileAttribute),
}

/// A change to the set of attached probes.
#[derive(Debug)]
pub enum ProbeChange {
    Attach(Probe),
    Detach(Probe),
}

/// A change to the kernel-side set of watched lines.
#[derive(Debug, Clone, Copy, PartialEq, Eq, Structural)]
pub enum FilterChange {
    Insert,
    Delete,
}

/// What the profiler does for a command: change probes, or toggle whether a
/// line is watched.
#[derive(Debug)]
pub enum CommandPlan {
    ChangeProbes(Vec<ProbeChange>),
    ToggleFilter(usize),
}

/// The probes of a target, in attachment order: the return probe before the
/// entry probe (every probe, in reverse firing order), so that no call is
/// entered without its return being seen.
pub open spec fn target_probes(t: ProfileTarget) -> Seq<Probe> {
    seq![
        Probe { target: t, usdt_name: UsdtName::FunctionReturn },
        Probe { target: t, usdt_name: UsdtName::FunctionEntry },
    ]
}

/// Attaching (or detaching) one probe.
spec fn probe_change(p: Probe, attach: bool) -> ProbeChange {
    if attach {
        ProbeChange::Attach(p)
    } else {
        ProbeChange::Detach(p)
    }
}

/// The changes that attach (or detach) each probe of a target, in order.
fn probe_changes(target: &ProfileTarget, attach: bool) -> (changes: Vec<ProbeChange>)
    ensures
        changes@ == target_probes(*target).map_values(|p: Probe| probe_change(p, attach)),
{
    let names = UsdtName::all();
    let mut changes: Vec<ProbeChange> = Vec::new();
    let mut k = names.len();
    while k > 0
        invariant
            k <= names@.len(),
            names@ == seq![UsdtName::FunctionEntry, UsdtName::FunctionReturn],
            changes@ == target_probes(*target).take(2 - k).map_values(
                |p: Probe| probe_change(p, attach),
            ),
        decreases k,
    {
        k = k - 1;
        let probe = Probe { target: target.clone(), usdt_name: names[k] };
        let change = if attach {
            ProbeChange::Attach(probe)
        } else {
            ProbeChange::Detach(probe)
        };
        changes.push(change);
        assert(changes@ =~= target_probes(*target).take(2 - k).map_values(
            |p: Probe| probe_change(p, attach),
        ));
    }
    assert(target_probes(*target).take(2) =~= target_probes(*target));
    changes
}

/// What the profiler does for a command (every command but an attribute
/// toggle, which is not supported).
pub fn plan_command(cmd: &ProfilerCommand) -> (plan: CommandPlan)
    requires
        !(cmd is ToggleAttribute),
    ensures
        match cmd {
            ProfilerCommand::Attach(t) => plan matches CommandPlan::ChangeProbes(cs) && cs@ == target_probes(
                *t,
            ).map_values(|p: Probe| ProbeChange::Attach(p)),
            ProfilerCommand::Detach(t) => plan matches CommandPlan::ChangeProbes(cs) && cs@ == target_probes(
                *t,
            ).map_values(|p: Probe| ProbeChange::Detach(p)),
            ProfilerCommand::ToggleFilter(f) => plan == CommandPlan::ToggleFilter(f.lineno),
            ProfilerCommand::ToggleAttribute(_) => false,
        },
{
    match cmd {
        ProfilerCommand::Attach(target) => {
            let changes = probe_changes(target, true);
            assert(changes@ =~= target_probes(*target).map_values(|p: Probe| ProbeChange::Attach(p)));
            CommandPlan::ChangeProbes(changes)
        },
        ProfilerCommand::Detach(target) => {
            let changes = probe_changes(target, false);
            assert(changes@ =~= target_probes(*target).map_values(|p: Probe| ProbeChange::Detach(p)));
            CommandPlan::ChangeProbes(changes)
        },
        ProfilerCommand::ToggleFilter(filter) => CommandPlan::ToggleFilter(filter.lineno),
        ProfilerCommand::ToggleAttribute(_) => {
            assert(false);
            CommandPlan::ChangeProbes(Vec::new())
        },
    }
}

/// The set of attached probes after a sequence of changes.
pub open spec fn apply_probe_changes(attached: Set<Probe>, changes: Seq<ProbeChange>) -> Set<Probe>
    decreases changes.len(),
{
    if changes.len() == 0 {
        attached
    } else {
        let before = apply_probe_changes(attached, changes.drop_last());
        match changes.last() {
            ProbeChange::Attach(p) => before.insert(p),
            ProbeChange::Detach(p) => before.remove(p),
        }
    }
}

/// Detaching a target undoes attaching it: the probes attached afterwards
/// are those attached before, without the target's.
pub proof fn lemma_detach_undoes_attach(attached: Set<Probe>, t: ProfileTarget)
    ensures
        apply_probe_changes(
            apply_probe_changes(attached, target_probes(t).map_values(|p: Probe| ProbeChange::Attach(p))),
            target_probes(t).map_values(|p: Probe| ProbeChange::Detach(p)),
        ) == attached.difference(target_probes(t).to_set()),
        apply_probe_changes(attached, target_probes(t).map_values(|p: Probe| ProbeChange::Attach(p)))
            == attached.union(target_probes(t).to_set()),
{
    let ps = target_probes(t);
    let att = ps.map_values(|p: Probe| ProbeChange::Attach(p));
    let det = ps.map_values(|p: Probe| ProbeChange::Detach(p));
    assert(att.len() == 2 && att[0] == ProbeChange::Attach(ps[0]) && att[1] == ProbeChange::Attach(ps[1]));
    assert(det.len() == 2 && det[0] == ProbeChange::Detach(ps[0]) && det[1] == ProbeChange::Detach(ps[1]));
    assert(att.drop_last().drop_last().len() == 0);
    assert(det.drop_last().drop_last().len() == 0);
    assert(att.drop_last().last() == att[0]);
    assert(det.drop_last().last() == det[0]);
    assert(apply_probe_changes(attached, att.drop_last().drop_last()) == attached);
    assert(apply_probe_changes(attached, att.drop_last()) == attached.insert(ps[0]));
    let mid = apply_probe_changes(attached, att);
    assert(apply_probe_changes(mid, det.drop_last().drop_last()) == mid);
    assert(apply_probe_changes(mid, det.drop_last()) == mid.remove(ps[0]));
    assert(mid =~= attached.insert(ps[0]).insert(ps[1]));
    assert(ps.to_set() =~= set![ps[0], ps[1]]) by {
        assert(ps.to_set().contains(ps[0]) && ps.to_set().contains(ps[1]));
    }
    assert(mid =~= attached.union(ps.to_set()));
    assert(apply_probe_changes(mid, det) =~= attached.difference(ps.to_set()));
}

/// The change that toggles a watched line: delete it when it is watched,
/// insert it when it is not.
pub open spec fn filter_toggle(watched_now: bool) -> FilterChange {
    if watched_now {
        FilterChange::Delete
    } else {
        FilterChange::Insert
    }
}

/// Decides how to toggle a line, given whether it is watched now.
pub fn filter_change(watched_now: bool) -> (c: FilterChange)
    ensures
        c == filter_toggle(watched_now),
{
    if watched_now {
        FilterChange::Delete
    } else {
        FilterChange::Insert
    }
}

/// The watched lines after a change to one line.
pub open spec fn apply_filter_change(watched: Set<usize>, line: usize, c: FilterChange) -> Set<usize> {
    match c {
        FilterChange::Insert => watched.insert(line),
        FilterChange::Delete => watched.remove(line),
    }
}

/// Toggling a line flips whether it is watched and leaves every other line
/// as it was; toggling it twice restores the watched set.
pub proof fn lemma_toggle_twice(watched: Set<usize>, line: usize)
    ensures
        apply_filter_change(watched, line, filter_toggle(watched.contains(line))).contains(line)
            == !watched.contains(line),
        forall|other: usize|
            other != line ==> (apply_filter_change(watched, line, filter_toggle(watched.contains(line))).contains(
                other,
            ) == watched.contains(other)),
        ({
            let once = apply_filter_change(watched, line, filter_toggle(watched.contains(line)));
            apply_filter_change(once, line, filter_toggle(once.contains(line)))
        }) == watched,
{
    let once = apply_filter_change(watched, line, filter_toggle(watched.contains(line)));
    assert(apply_filter_change(once, line, filter_toggle(once.contains(line))) =~= watched);
}

/// One entry of the kernel-side latency map: `count` calls of line `lineno`
/// took a time that falls in histogram bucket `bucket`.
#[derive(Debug, Clone, Copy, PartialEq, Eq, Structural)]
pub struct LatencyEntry {
    pub lineno: u64,
    pub bucket: u64,
    pub count: u64,
}

/// The number that 8 bytes stand for with the least significant byte first.
pub open spec fn le_u64(b: Seq<u8>) -> int {
    b[0] + b[1] * 0x100 + b[2] * 0x1_0000 + b[3] * 0x100_0000 + b[4] * 0x1_0000_0000
        + b[5] * 0x100_0000_0000 + b[6] * 0x1_0000_0000_0000 + b[7] * 0x100_0000_0000_0000
}

/// The number that 8 bytes stand for with the most significant byte first.
pub open spec fn be_u64(b: Seq<u8>) -> int {
    le_u64(b.reverse())
}

/// Each group of 8 bytes read least significant byte first.
pub open spec fn all_le(words: Seq<[u8; 8]>, r: Seq<u64>) -> bool {
    &&& r.len() == words.len()
    &&& forall|i: int| 0 <= i < words.len() ==> r[i] == le_u64(#[trigger] words[i]@)
}

/// Each group of 8 bytes read most significant byte first.
pub open spec fn all_be(words: Seq<[u8; 8]>, r: Seq<u64>) -> bool {
    &&& r.len() == words.len()
    &&& forall|i: int| 0 <= i < words.len() ==> r[i] == be_u64(#[trigger] words[i]@)
}

/// Trusted: `u64::from_ne_bytes` reads 8 bytes in the byte order of the
/// machine, here applied to each group of 8 bytes in turn. The machine has one
/// byte order, least or most significant byte first, so all groups are read
/// the same way; which of the two is not stated (it is the machine's).
#[verifier::external_body]
fn u64s_from_ne_bytes(words: &Vec<[u8; 8]>) -> (r: Vec<u64>)
    ensures
        all_le(words@, r@) || all_be(words@, r@),
{
    words.iter().map(|w| u64::from_ne_bytes(*w)).collect()
}

/// The 8 bytes of `bytes` from `at`.
fn word_at(bytes: &[u8], at: usize) -> (w: [u8; 8])
    requires
        at + 8 <= bytes@.len(),
    ensures
        w@ == bytes@.subrange(at as int, at + 8),
{
    let w: [u8; 8] = [
        bytes[at],
        bytes[at + 1],
        bytes[at + 2],
        bytes[at + 3],
        bytes[at + 4],
        bytes[at + 5],
        bytes[at + 6],
        bytes[at + 7],
    ];
    assert(w@ =~= bytes@.subrange(at as int, at + 8));
    w
}

/// The line number of a key of the kernel-side filter map: its 8 bytes in the
/// machine's byte order; `None` where the key is not 8 bytes long.
pub fn filter_key(bytes: &[u8]) -> (r: Option<u64>)
    ensures
        r is Some <==> bytes@.len() == 8,
        r matches Some(l) ==> l == le_u64(bytes@) || l == be_u64(bytes@),
{
    if bytes.len() != 8 {
        return None;
    }
    let mut words: Vec<[u8; 8]> = Vec::new();
    words.push(word_at(bytes, 0));
    assert(bytes@.subrange(0, 8) =~= bytes@);
    let r = u64s_from_ne_bytes(&words);
    assert(words@[0]@ == bytes@);
    Some(r[0])
}

/// The fields of a latency map entry, all read in one byte order: the line
/// number and the bucket from the key's first two groups of 8 bytes, the
/// count from the value.
pub open spec fn decodes_as(
    e: LatencyEntry,
    key: Seq<u8>,
    value: Seq<u8>,
    read: spec_fn(Seq<u8>) -> int,
) -> bool {
    &&& e.lineno == read(key.subrange(0, 8))
    &&& e.bucket == read(key.subrange(8, 16))
    &&& e.count == read(value)
}

/// An entry of the kernel-side latency map from its key, the line number and
/// the bucket (8 bytes each), and its value, the count (8 bytes), all in the
/// machine's byte order; `None` where the key is shorter than 16 bytes or the
/// value is not 8 bytes long.
pub fn latency_entry(key: &[u8], value: &[u8]) -> (r: Option<LatencyEntry>)
    ensures
        r is Some <==> key@.len() >= 16 && value@.len() == 8,
        r matches Some(e) ==> decodes_as(e, key@, value@, |b: Seq<u8>| le_u64(b))
            || decodes_as(e, key@, value@, |b: Seq<u8>| be_u64(b)),
{
    if key.len() < 16 || value.len() != 8 {
        return None;
    }
    let mut words: Vec<[u8; 8]> = Vec::new();
    words.push(word_at(key, 0));
    words.push(word_at(key, 8));
    words.push(word_at(value, 0));
    assert(value@.subrange(0, 8) =~= value@);
    let r = u64s_from_ne_bytes(&words);
    let e = LatencyEntry { lineno: r[0], bucket: r[1], count: r[2] };
    assert(words@[0]@ == key@.subrange(0, 8));
    assert(words@[1]@ == key@.subrange(8, 16));
    assert(words@[2]@ == value@);
    Some(e)
}

/// Entry `e` adds to bucket `k` of the histogram of `line`.
pub open spec fn counts_toward(e: LatencyEntry, watched: Set<u64>, line: usize, k: int) -> bool {
    &&& watched.contains(e.lineno)
    &&& e.lineno as usize == line
    &&& e.bucket == k
}

/// The number of calls of `line` that the entries put in bucket `k`.
pub open spec fn line_bucket_count(es: Seq<LatencyEntry>, watched: Set<u64>, line: usize, k: int) -> int
    decreases es.len(),
{
    if es.len() == 0 {
        0
    } else {
        line_bucket_count(es.drop_last(), watched, line, k) + if counts_toward(
            es.last(),
            watched,
            line,
            k,
        ) {
            es.last().count as int
        } else {
            0
        }
    }
}

/// The latency histogram of a watched line.
pub open spec fn line_histogram(es: Seq<LatencyEntry>, watched: Set<u64>, line: usize) -> Seq<u64> {
    Seq::new(NUM_BUCKETS as nat, |k: int| line_bucket_count(es, watched, line, k) as u64)
}

/// The watched lines that the entries mention.
pub open spec fn watched_lines(es: Seq<LatencyEntry>, watched: Set<u64>) -> Set<usize> {
    Set::new(
        |line: usize|
            exists|i: int|
                0 <= i < es.len() && watched.contains(#[trigger] es[i].lineno) && es[i].lineno as usize
                    == line,
    )
}

/// An entry of an unwatched line adds no watched line.
proof fn lemma_watched_lines_unwatched_step(es: Seq<LatencyEntry>, ws: Set<u64>, i: int)
    requires
        0 <= i < es.len(),
        !ws.contains(es[i].lineno),
    ensures
        forall|line: usize| #[trigger] watched_lines(es.take(i + 1), ws).contains(line)
            <==> watched_lines(es.take(i), ws).contains(line),
{
    let (before, after) = (es.take(i), es.take(i + 1));
    assert forall|line: usize| #[trigger] watched_lines(after, ws).contains(line) <==> watched_lines(before, ws).contains(line) by {
        if watched_lines(after, ws).contains(line) {
            let j = choose|j: int| 0 <= j < after.len() && ws.contains(#[trigger] after[j].lineno) && after[j].lineno as usize == line;
            assert(j != i);
            assert(before[j] == after[j]);
        }
        if watched_lines(before, ws).contains(line) {
            let j = choose|j: int| 0 <= j < before.len() && ws.contains(#[trigger] before[j].lineno) && before[j].lineno as usize == line;
            assert(before[j] == after[j]);
        }
    }
}

/// An entry of a watched line adds its line to the watched lines.
proof fn lemma_watched_lines_watched_step(es: Seq<LatencyEntry>, ws: Set<u64>, i: int)
    requires
        0 <= i < es.len(),
        ws.contains(es[i].lineno),
    ensures
        forall|line: usize| #[trigger] watched_lines(es.take(i + 1), ws).contains(line)
            <==> (watched_lines(es.take(i), ws).contains(line) || line == es[i].lineno as usize),
{
    let (before, after) = (es.take(i), es.take(i + 1));
    assert(after[i] == es[i]);
    assert forall|line: usize| #[trigger] watched_lines(after, ws).contains(line)
        <==> (watched_lines(before, ws).contains(line) || line == es[i].lineno as usize) by {
        if watched_lines(after, ws).contains(line) && line != es[i].lineno as usize {
            let j = choose|j: int| 0 <= j < after.len() && ws.contains(#[trigger] after[j].lineno) && after[j].lineno as usize == line;
            assert(j != i);
            assert(before[j] == after[j]);
        }
        if watched_lines(before, ws).contains(line) {
            let j = choose|j: int| 0 <= j < before.len() && ws.contains(#[trigger] before[j].lineno) && before[j].lineno as usize == line;
            assert(before[j] == after[j]);
        }
    }
}

/// The positions of the entries of lines that are not watched, in order.
pub open spec fn stale_indices(es: Seq<LatencyEntry>, watched: Set<u64>) -> Seq<usize>
    decreases es.len(),
{
    if es.len() == 0 {
        Seq::empty()
    } else if watched.contains(es.last().lineno) {
        stale_indices(es.drop_last(), watched)
    } else {
        stale_indices(es.drop_last(), watched).push((es.len() - 1) as usize)
    }
}

/// The entries can be summarized: every watched entry names a bucket, no
/// bucket count overflows, and every watched line has a non-empty histogram
/// whose 99th percentile rank can be computed.
pub open spec fn summarizable(es: Seq<LatencyEntry>, watched: Set<u64>) -> bool {
    &&& forall|i: int| 0 <= i < es.len() && watched.contains(#[trigger] es[i].lineno) ==> es[i].bucket < NUM_BUCKETS
    &&& forall|line: usize, k: int| 0 <= k < NUM_BUCKETS ==> #[trigger] line_bucket_count(es, watched, line, k) <= u64::MAX
    &&& forall|line: usize| #[trigger] watched_lines(es, watched).contains(line) ==> {
        &&& total(line_histogram(es, watched, line)) > 0
        &&& total(line_histogram(es, watched, line)) * 99 <= u64::MAX
    }
}

/// What one look at the kernel-side latency map yields: the summary of every
/// watched line, and the positions of the entries of lines no longer watched.
pub struct Observation {
    pub summaries: SummaryMap,
    pub stale: Vec<usize>,
}

proof fn lemma_count_nonnegative(es: Seq<LatencyEntry>, watched: Set<u64>, line: usize, k: int)
    ensures
        line_bucket_count(es, watched, line, k) >= 0,
    decreases es.len(),
{
    if es.len() > 0 {
        lemma_count_nonnegative(es.drop_last(), watched, line, k);
    }
}

/// The counts over a prefix of the entries never exceed the counts over all.
proof fn lemma_prefix_count_le(es: Seq<LatencyEntry>, watched: Set<u64>, line: usize, k: int, n: int)
    requires
        0 <= n <= es.len(),
    ensures
        line_bucket_count(es.take(n), watched, line, k) <= line_bucket_count(es, watched, line, k),
    decreases es.len(),
{
    if n < es.len() {
        assert(es.drop_last().take(n) =~= es.take(n));
        lemma_prefix_count_le(es.drop_last(), watched, line, k, n);
    } else {
        assert(es.take(n) =~= es);
    }
}

/// Entries that never mention a line leave its histogram empty.
proof fn lemma_unmentioned_count_zero(es: Seq<LatencyEntry>, watched: Set<u64>, line: usize, k: int)
    requires
        !watched_lines(es, watched).contains(line),
    ensures
        line_bucket_count(es, watched, line, k) == 0,
    decreases es.len(),
{
    if es.len() > 0 {
        let e = es.last();
        if watched.contains(e.lineno) && e.lineno as usize == line {
            assert(watched.contains(es[es.len() - 1].lineno));
        }
        assert forall|l: usize| watched_lines(es.drop_last(), watched).contains(l) implies watched_lines(
            es,
            watched,
        ).contains(l) by {
            let i = choose|i: int|
                0 <= i < es.drop_last().len() && watched.contains(#[trigger] es.drop_last()[i].lineno)
                    && es.drop_last()[i].lineno as usize == l;
            assert(es[i] == es.drop_last()[i]);
        }
        lemma_unmentioned_count_zero(es.drop_last(), watched, line, k);
    }
}

/// Summarizes the kernel-side latency entries: one histogram per watched
/// line, and the positions of the entries of unwatched lines, to delete.
pub fn observe(entries: &Vec<LatencyEntry>, watched: &HashSet<u64>) -> (o: Observation)
    requires
        summarizable(entries@, watched@),
    ensures
        o.summaries@.dom() == watched_lines(entries@, watched@),
        forall|line: usize| #[trigger] o.summaries@.contains_key(line) ==> o.summaries@[line] == summary_of(
            line_histogram(entries@, watched@, line),
        ),
        o.stale@ == stale_indices(entries@, watched@),
{
    broadcast use vstd::std_specs::hash::group_hash_axioms;
    let ghost es = entries@;
    let ghost ws = watched@;
    let mut lines: Vec<usize> = Vec::new();
    let mut hists: Vec<Histogram> = Vec::new();
    let mut stale: Vec<usize> = Vec::new();
    let mut i: usize = 0;
    while i < entries.len()
        invariant
            es == entries@,
            ws == watched@,
            summarizable(es, ws),
            i <= es.len(),
            lines@.len() == hists@.len(),
            forall|a: int, b: int| 0 <= a < b < lines@.len() ==> lines@[a] != lines@[b],
            forall|line: usize| #[trigger] lines@.contains(line) <==> watched_lines(es.take(i as int), ws).contains(line),
            forall|j: int| 0 <= j < hists@.len() ==> #[trigger] hists@[j]@ == line_histogram(
                es.take(i as int),
                ws,
                lines@[j],
            ),
            stale@ == stale_indices(es.take(i as int), ws),
        decreases es.len() - i,
    {
        let e = entries[i];
        let ghost before = es.take(i as int);
        let ghost after = es.take(i + 1);
        assert(after.drop_last() =~= before);
        assert(after.last() == e);
        if !watched.contains(&e.lineno) {
            stale.push(i);
            proof {
                lemma_watched_lines_unwatched_step(es, ws, i as int);
                assert forall|j: int| 0 <= j < hists@.len() implies #[trigger] hists@[j]@ == line_histogram(after, ws, lines@[j]) by {
                    assert(line_histogram(after, ws, lines@[j]) =~= line_histogram(before, ws, lines@[j]));
                }
            }
        } else {
            let line = e.lineno as usize;
            let mut j: usize = 0;
            while j < lines.len() && lines[j] != line
                invariant
                    j <= lines@.len(),
                    forall|a: int| 0 <= a < j ==> lines@[a] != line,
                decreases lines@.len() - j,
            {
                j = j + 1;
            }
            proof {
                assert(es[i as int] == e);
                assert(watched_lines(after, ws).contains(line));
            }
            let ghost old_lines = lines@;
            if j == lines.len() {
                proof {
                    assert(!lines@.contains(line));
                    assert forall|k: int| 0 <= k < NUM_BUCKETS implies line_bucket_count(before, ws, line, k) == 0 by {
                        lemma_unmentioned_count_zero(before, ws, line, k);
                    }
                }
                let fresh = Histogram::default();
                assert(fresh@ =~= line_histogram(before, ws, line));
                lines.push(line);
                hists.push(fresh);
            }
            let ghost old_hists = hists@;
            let ghost h = hists@[j as int]@;
            let bucket = e.bucket as usize;
            proof {
                assert(lines@[j as int] == line);
                lemma_count_nonnegative(before, ws, line, bucket as int);
                lemma_prefix_count_le(es, ws, line, bucket as int, i + 1);
                assert(line_bucket_count(after, ws, line, bucket as int) == line_bucket_count(before, ws, line, bucket as int) + e.count);
                assert(h[bucket as int] == line_bucket_count(before, ws, line, bucket as int));
            }
            hists[j].add(bucket, e.count);
            proof {
                lemma_watched_lines_watched_step(es, ws, i as int);
                assert forall|line2: usize| #[trigger] lines@.contains(line2) <==> watched_lines(after, ws).contains(line2) by {
                    if line2 == line {
                        assert(lines@[j as int] == line);
                    }
                    if lines@.contains(line2) && line2 != line {
                        let a = choose|a: int| 0 <= a < lines@.len() && lines@[a] == line2;
                        assert(a < old_lines.len());
                        assert(old_lines[a] == line2);
                        assert(old_lines.contains(line2));
                        assert(watched_lines(before, ws).contains(line2));
                        let b = choose|b: int| 0 <= b < before.len() && ws.contains(#[trigger] before[b].lineno) && before[b].lineno as usize == line2;
                        assert(before[b] == after[b]);
                    }
                    if old_lines.contains(line2) {
                        let a = choose|a: int| 0 <= a < old_lines.len() && old_lines[a] == line2;
                        assert(lines@[a] == line2);
                    }
                }
                assert forall|a: int| 0 <= a < hists@.len() implies #[trigger] hists@[a]@ == line_histogram(after, ws, lines@[a]) by {
                    if a == j {
                        assert(hists@[a]@ =~= line_histogram(after, ws, lines@[a]));
                    } else {
                        assert(hists@[a] == old_hists[a]);
                        assert(lines@[a] != line);
                        assert(line_histogram(after, ws, lines@[a]) =~= line_histogram(before, ws, lines@[a]));
                    }
                }
            }
        }
        i = i + 1;
    }
    assert(es.take(i as int) =~= es);

    let mut summaries: SummaryMap = HashMap::new();
    let ghost all_lines = lines@;
    while hists.len() > 0
        invariant
            summarizable(es, ws),
            lines@.len() == hists@.len(),
            lines@ == all_lines.take(lines@.len() as int),
            all_lines.len() >= lines@.len(),
            forall|a: int, b: int| 0 <= a < b < all_lines.len() ==> all_lines[a] != all_lines[b],
            forall|line: usize| #[trigger] all_lines.contains(line) <==> watched_lines(es, ws).contains(line),
            forall|j: int| 0 <= j < hists@.len() ==> #[trigger] hists@[j]@ == line_histogram(es, ws, all_lines[j]),
            forall|line: usize| #[trigger] summaries@.contains_key(line) <==> exists|a: int| lines@.len() <= a < all_lines.len() && all_lines[a] == line,
            forall|line: usize| #[trigger] summaries@.contains_key(line) ==> summaries@[line] == summary_of(line_histogram(es, ws, line)),
        decreases hists@.len(),
    {
        let n = hists.len();
        let hist = hists.pop().unwrap();
        let line = lines.pop().unwrap();
        proof {
            assert(line == all_lines[n - 1]);
            assert(all_lines.contains(line));
        }
        let s = hist.summary();
        summaries.insert(line, s);
        proof {
            assert forall|l: usize| #[trigger] summaries@.contains_key(l) <==> exists|a: int| lines@.len() <= a < all_lines.len() && all_lines[a] == l by {
                if l == line {
                    assert(all_lines[n - 1] == l);
                }
            }
        }
    }
    proof {
        assert forall|l: usize| #[trigger] summaries@.dom().contains(l) <==> watched_lines(es, ws).contains(l) by {
            if watched_lines(es, ws).contains(l) {
                assert(all_lines.contains(l));
                let a = choose|a: int| 0 <= a < all_lines.len() && all_lines[a] == l;
                assert(summaries@.contains_key(l));
            }
            if summaries@.dom().contains(l) {
                let a = choose|a: int| 0 <= a < all_lines.len() && all_lines[a] == l;
                assert(all_lines.contains(l));
            }
        }
        assert(summaries@.dom() =~= watched_lines(es, ws));
    }
    Observation { summaries, stale }
}


/// The number of calls of a watched line that the entries record, in all
/// buckets.
pub open spec fn line_samples(es: Seq<LatencyEntry>, watched: Set<u64>, line: usize) -> int
    decreases es.len(),
{
    if es.len() == 0 {
        0
    } else {
        line_samples(es.drop_last(), watched, line) + if watched.contains(es.last().lineno)
            && es.last().lineno as usize == line {
            es.last().count as int
        } else {
            0
        }
    }
}

proof fn lemma_histogram_total(es: Seq<LatencyEntry>, ws: Set<u64>, line: usize)
    requires
        forall|i: int| 0 <= i < es.len() && ws.contains(#[trigger] es[i].lineno) ==> es[i].bucket < NUM_BUCKETS,
        forall|k: int| 0 <= k < NUM_BUCKETS ==> #[trigger] line_bucket_count(es, ws, line, k) <= u64::MAX,
    ensures
        total(line_histogram(es, ws, line)) == line_samples(es, ws, line),
    decreases es.len(),
{
    let h = line_histogram(es, ws, line);
    if es.len() == 0 {
        crate::profiler::hist::lemma_empty_histogram(h);
    } else {
        let pre = es.drop_last();
        let e = es.last();
        assert forall|i: int| 0 <= i < pre.len() && ws.contains(#[trigger] pre[i].lineno) implies pre[i].bucket < NUM_BUCKETS by {
            assert(pre[i] == es[i]);
        }
        assert forall|k: int| 0 <= k < NUM_BUCKETS implies #[trigger] line_bucket_count(pre, ws, line, k) <= u64::MAX by {
            assert(line_bucket_count(es, ws, line, k) <= u64::MAX);
        }
        lemma_histogram_total(pre, ws, line);
        let hp = line_histogram(pre, ws, line);
        if ws.contains(e.lineno) && e.lineno as usize == line {
            assert(ws.contains(es[es.len() - 1].lineno));
            let b = e.bucket as int;
            assert(0 <= b < NUM_BUCKETS);
            assert(line_bucket_count(es, ws, line, b) <= u64::MAX);
            lemma_count_nonnegative(pre, ws, line, b);
            assert(h =~= hp.update(b, (hp[b] + e.count) as u64)) by {
                assert forall|k: int| 0 <= k < NUM_BUCKETS implies h[k] == hp.update(b, (hp[b] + e.count) as u64)[k] by {
                    lemma_count_nonnegative(pre, ws, line, k);
                }
            }
            lemma_add_counts(hp, b, e.count);
        } else {
            assert(h =~= hp);
        }
    }
}

/// No call is lost: the summary of a watched line counts every call that
/// the entries record for it.
pub proof fn lemma_summary_counts_every_call(es: Seq<LatencyEntry>, watched: Set<u64>, line: usize)
    requires
        summarizable(es, watched),
        watched_lines(es, watched).contains(line),
    ensures
        summary_of(line_histogram(es, watched, line)).samples == line_samples(es, watched, line),
{
    lemma_histogram_total(es, watched, line);
}

/// The bucket counts of the watched lines found so far, line after line, in
/// buckets of `NUM_BUCKETS` counts each.
spec fn counts_match(
    es: Seq<LatencyEntry>,
    ws: Set<u64>,
    lines: Seq<usize>,
    counts: Seq<u128>,
) -> bool {
    &&& counts.len() == lines.len() * NUM_BUCKETS
    &&& forall|j: int, k: int|
        0 <= j < lines.len() && 0 <= k < NUM_BUCKETS ==> #[trigger] counts[j * NUM_BUCKETS + k]
            == line_bucket_count(es, ws, lines[j], k)
}

proof fn lemma_count_bounded(es: Seq<LatencyEntry>, ws: Set<u64>, line: usize, k: int)
    ensures
        0 <= line_bucket_count(es, ws, line, k) <= es.len() * u64::MAX,
    decreases es.len(),
{
    if es.len() > 0 {
        lemma_count_bounded(es.drop_last(), ws, line, k);
    }
}

/// Checks whether the latency entries can be summarized (see `summarizable`):
/// every watched entry names a bucket, no count overflows, and every watched
/// line's histogram is non-empty with a computable 99th percentile rank.
pub fn check_summarizable(entries: &Vec<LatencyEntry>, watched: &HashSet<u64>) -> (ok: bool)
    ensures
        ok == summarizable(entries@, watched@),
{
    broadcast use vstd::std_specs::hash::group_hash_axioms;
    let ghost es = entries@;
    let ghost ws = watched@;
    let mut i: usize = 0;
    while i < entries.len()
        invariant
            es == entries@,
            ws == watched@,
            i <= es.len(),
            forall|a: int| 0 <= a < i && ws.contains(#[trigger] es[a].lineno) ==> es[a].bucket < NUM_BUCKETS,
        decreases es.len() - i,
    {
        let e = entries[i];
        if watched.contains(&e.lineno) && e.bucket >= NUM_BUCKETS as u64 {
            assert(es[i as int] == e);
            return false;
        }
        i = i + 1;
    }

    let mut lines: Vec<usize> = Vec::new();
    let mut counts: Vec<u128> = Vec::new();
    let mut i: usize = 0;
    while i < entries.len()
        invariant
            es == entries@,
            ws == watched@,
            i <= es.len(),
            forall|a: int| 0 <= a < es.len() && ws.contains(#[trigger] es[a].lineno) ==> es[a].bucket < NUM_BUCKETS,
            forall|a: int, b: int| 0 <= a < b < lines@.len() ==> lines@[a] != lines@[b],
            forall|line: usize| #[trigger] lines@.contains(line) <==> watched_lines(es.take(i as int), ws).contains(line),
            counts_match(es.take(i as int), ws, lines@, counts@),
        decreases es.len() - i,
    {
        let e = entries[i];
        let ghost before = es.take(i as int);
        let ghost after = es.take(i + 1);
        assert(after.drop_last() =~= before);
        assert(after.last() == e);
        assert(es[i as int] == e);
        if !watched.contains(&e.lineno) {
            proof {
                lemma_watched_lines_unwatched_step(es, ws, i as int);
                assert forall|j: int, k: int| 0 <= j < lines@.len() && 0 <= k < NUM_BUCKETS implies #[trigger] counts@[j * NUM_BUCKETS + k]
                    == line_bucket_count(after, ws, lines@[j], k) by {
                    assert(counts@[j * NUM_BUCKETS + k] == line_bucket_count(before, ws, lines@[j], k));
                }
            }
        } else {
            let line = e.lineno as usize;
            let mut j: usize = 0;
            while j < lines.len() && lines[j] != line
                invariant
                    j <= lines@.len(),
                    forall|a: int| 0 <= a < j ==> lines@[a] != line,
                decreases lines@.len() - j,
            {
                j = j + 1;
            }
            proof {
                assert(watched_lines(after, ws).contains(line));
            }
            let ghost old_lines = lines@;
            if j == lines.len() {
                proof {
                    assert(!lines@.contains(line));
                }
                let ghost counts_before = counts@;
                let mut k: usize = 0;
                while k < NUM_BUCKETS
                    invariant
                        k <= NUM_BUCKETS,
                        counts@.len() == counts_before.len() + k,
                        forall|a: int| 0 <= a < counts_before.len() ==> counts@[a] == counts_before[a],
                        forall|a: int| counts_before.len() <= a < counts@.len() ==> counts@[a] == 0,
                    decreases NUM_BUCKETS - k,
                {
                    counts.push(0);
                    k = k + 1;
                }
                lines.push(line);
                proof {
                    assert forall|a: int, k: int| 0 <= a < lines@.len() && 0 <= k < NUM_BUCKETS implies #[trigger] counts@[a * NUM_BUCKETS + k]
                        == line_bucket_count(before, ws, lines@[a], k) by {
                        if a < old_lines.len() {
                            assert(a * NUM_BUCKETS + k < old_lines.len() * NUM_BUCKETS) by (nonlinear_arith)
                                requires a < old_lines.len(), 0 <= k < NUM_BUCKETS;
                            assert(lines@[a] == old_lines[a]);
                            assert(counts_before[a * NUM_BUCKETS + k] == line_bucket_count(before, ws, old_lines[a], k));
                        } else {
                            assert(a == old_lines.len());
                            assert(old_lines.len() * NUM_BUCKETS <= a * NUM_BUCKETS + k < old_lines.len() * NUM_BUCKETS + NUM_BUCKETS) by (nonlinear_arith)
                                requires a == old_lines.len(), 0 <= k < NUM_BUCKETS;
                            assert(counts@[a * NUM_BUCKETS + k] == 0);
                            lemma_unmentioned_count_zero(before, ws, line, k);
                        }
                    }
                }
            }
            let bucket = e.bucket as usize;
            let n = counts.len();
            proof {
                assert(j * NUM_BUCKETS + bucket < lines@.len() * NUM_BUCKETS) by (nonlinear_arith)
                    requires j < lines@.len(), bucket < NUM_BUCKETS;
            }
            assert(j * NUM_BUCKETS + bucket < n);
            let idx = j * NUM_BUCKETS + bucket;
            proof {
                assert(lines@[j as int] == line);
                assert(counts@[idx as int] == line_bucket_count(before, ws, line, bucket as int));
                lemma_count_bounded(before, ws, line, bucket as int);
                assert(before.len() * u64::MAX <= usize::MAX * u64::MAX) by (nonlinear_arith)
                    requires before.len() <= usize::MAX;
                assert(line_bucket_count(after, ws, line, bucket as int) == line_bucket_count(before, ws, line, bucket as int) + e.count);
            }
            let ghost counts_before = counts@;
            let v = counts[idx] + e.count as u128;
            counts.set(idx, v);
            proof {
                lemma_watched_lines_watched_step(es, ws, i as int);
                assert forall|line2: usize| #[trigger] lines@.contains(line2) <==> watched_lines(after, ws).contains(line2) by {
                    if line2 == line {
                        assert(lines@[j as int] == line);
                    }
                    if lines@.contains(line2) && line2 != line {
                        let a = choose|a: int| 0 <= a < lines@.len() && lines@[a] == line2;
                        assert(a < old_lines.len());
                        assert(old_lines[a] == line2);
                        assert(old_lines.contains(line2));
                        let b = choose|b: int| 0 <= b < before.len() && ws.contains(#[trigger] before[b].lineno) && before[b].lineno as usize == line2;
                        assert(before[b] == after[b]);
                    }
                    if old_lines.contains(line2) {
                        let a = choose|a: int| 0 <= a < old_lines.len() && old_lines[a] == line2;
                        assert(lines@[a] == line2);
                    }
                }
                assert forall|a: int, k: int| 0 <= a < lines@.len() && 0 <= k < NUM_BUCKETS implies #[trigger] counts@[a * NUM_BUCKETS + k]
                    == line_bucket_count(after, ws, lines@[a], k) by {
                    if a == j && k == bucket {
                    } else {
                        if a != j {
                            assert(a * NUM_BUCKETS + k != j * NUM_BUCKETS + bucket) by (nonlinear_arith)
                                requires a != j, 0 <= k < NUM_BUCKETS, 0 <= bucket < NUM_BUCKETS;
                            assert(lines@[a] != line);
                        }
                        assert(counts@[a * NUM_BUCKETS + k] == counts_before[a * NUM_BUCKETS + k]);
                    }
                }
            }
        }
        i = i + 1;
    }
    assert(es.take(i as int) =~= es);

    // Every count fits, and every line's total is non-empty and small enough.
    let mut j: usize = 0;
    while j < lines.len()
        invariant
            es == entries@,
            ws == watched@,
            j <= lines@.len(),
            forall|a: int| 0 <= a < es.len() && ws.contains(#[trigger] es[a].lineno) ==> es[a].bucket < NUM_BUCKETS,
            forall|line: usize| #[trigger] lines@.contains(line) <==> watched_lines(es, ws).contains(line),
            counts_match(es, ws, lines@, counts@),
            forall|a: int, k: int| 0 <= a < j && 0 <= k < NUM_BUCKETS ==> #[trigger] line_bucket_count(es, ws, lines@[a], k) <= u64::MAX,
            forall|a: int| 0 <= a < j ==> {
                &&& total(#[trigger] line_histogram(es, ws, lines@[a])) > 0
                &&& total(line_histogram(es, ws, lines@[a])) * 99 <= u64::MAX
            },
        decreases lines@.len() - j,
    {
        let ghost hist = line_histogram(es, ws, lines@[j as int]);
        let mut sum: u128 = 0;
        let mut k: usize = 0;
        while k < NUM_BUCKETS
            invariant
                es == entries@,
                ws == watched@,
                j < lines@.len(),
                k <= NUM_BUCKETS,
                counts_match(es, ws, lines@, counts@),
                hist == line_histogram(es, ws, lines@[j as int]),
                forall|b: int| 0 <= b < k ==> #[trigger] line_bucket_count(es, ws, lines@[j as int], b) <= u64::MAX,
                sum == count_below(hist, k as int),
                sum <= k * u64::MAX,
            decreases NUM_BUCKETS - k,
        {
            let n = counts.len();
            proof {
                assert(j * NUM_BUCKETS + k < lines@.len() * NUM_BUCKETS) by (nonlinear_arith)
                    requires j < lines@.len(), k < NUM_BUCKETS;
            }
            assert(j * NUM_BUCKETS + k < n);
            let idx = j * NUM_BUCKETS + k;
            proof {
                assert(counts@[idx as int] == line_bucket_count(es, ws, lines@[j as int], k as int));
            }
            let c = counts[idx];
            if c > u64::MAX as u128 {
                proof {
                    assert(line_bucket_count(es, ws, lines@[j as int], k as int) > u64::MAX);
                    assert(!summarizable(es, ws));
                }
                return false;
            }
            proof {
                lemma_count_nonnegative(es, ws, lines@[j as int], k as int);
                assert(hist[k as int] == c);
            }
            sum = sum + c;
            k = k + 1;
        }
        if sum == 0 || sum > u64::MAX as u128 / 99 {
            proof {
                assert(lines@.contains(lines@[j as int]));
                assert(total(hist) == sum);
            }
            return false;
        }
        assert(total(hist) == sum);
        j = j + 1;
    }
    proof {
        assert forall|line: usize, k: int| 0 <= k < NUM_BUCKETS implies #[trigger] line_bucket_count(es, ws, line, k) <= u64::MAX by {
            if lines@.contains(line) {
                let a = choose|a: int| 0 <= a < lines@.len() && lines@[a] == line;
            } else {
                lemma_unmentioned_count_zero(es, ws, line, k);
            }
        }
        assert forall|line: usize| #[trigger] watched_lines(es, ws).contains(line) implies {
            &&& total(line_histogram(es, ws, line)) > 0
            &&& total(line_histogram(es, ws, line)) * 99 <= u64::MAX
        } by {
            assert(lines@.contains(line));
            let a = choose|a: int| 0 <= a < lines@.len() && lines@[a] == line;
            assert(total(line_histogram(es, ws, lines@[a])) > 0);
        }
    }
    true
}

/// Summarizes the latency entries when they can be (see `observe`), and
/// gives nothing when they cannot.
pub fn try_observe(entries: &Vec<LatencyEntry>, watched: &HashSet<u64>) -> (r: Option<Observation>)
    ensures
        r is Some <==> summarizable(entries@, watched@),
        r matches Some(o) ==> {
            &&& o.summaries@.dom() == watched_lines(entries@, watched@)
            &&& forall|line: usize| #[trigger] o.summaries@.contains_key(line) ==> o.summaries@[line]
                == summary_of(line_histogram(entries@, watched@, line))
            &&& o.stale@ == stale_indices(entries@, watched@)
        },
{
    if check_summarizable(entries, watched) {
        Some(observe(entries, watched))
    } else {
        None
    }
}

} // verus!
