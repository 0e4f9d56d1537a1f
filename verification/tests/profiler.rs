use std::collections::HashSet;

use downtown::profiler::types::{Precondition, Probe, ProfileTarget, Target, UsdtName, USDT_PROVIDER};
use downtown::profiler::{
    check_summarizable, filter_change, hash_path, observe, plan_command, try_observe, CommandPlan, FilterChange, LatencyEntry,
    ProbeChange, ProfilerCommand,
};
use downtown::profiler::hist::{bucket_to_value, Histogram};
use downtown::profiler::{filter_key, latency_entry};

#[test]
fn hash_of_empty_path_is_zero() {
    assert_eq!(hash_path(""), 0);
}

#[test]
fn hash_multiplies_by_37_and_adds_each_byte() {
    assert_eq!(hash_path("a"), 97);
    assert_eq!(hash_path("ab"), 97 * 37 + 98);
    assert_eq!(hash_path("abc"), (97 * 37 + 98) * 37 + 99);
}

#[test]
fn hash_wraps_around() {
    let path = "/home/user/projects/some/deeply/nested/module.py";
    let mut expected: u128 = 0;
    for b in path.bytes() {
        expected = (expected * 37 + b as u128) % (1u128 << 64);
    }
    assert_eq!(hash_path(path) as u128, expected);
}

#[test]
fn hash_reads_utf8_bytes() {
    // 'é' is two bytes: 0xc3 0xa9
    assert_eq!(hash_path("é"), 0xc3 * 37 + 0xa9);
}

#[test]
fn usdt_names() {
    assert_eq!(UsdtName::FunctionEntry.as_str(), "function__entry");
    assert_eq!(UsdtName::FunctionReturn.as_str(), "function__return");
    assert_eq!(UsdtName::all(), vec![UsdtName::FunctionEntry, UsdtName::FunctionReturn]);
    assert_eq!(USDT_PROVIDER, "python");
}

#[test]
fn precondition_by_path_func_line_hashes_the_path() {
    let p = Precondition::by_path_func_line("ab".to_string(), "f".to_string(), 7, 3);
    assert_eq!(p.file_path.as_deref(), Some("ab"));
    assert_eq!(p.path_hash, Some(97 * 37 + 98));
    assert_eq!(p.func_name.as_deref(), Some("f"));
    assert_eq!(p.line, Some(7));
    assert_eq!(p.sample_every_n, 3);
}

#[test]
fn precondition_by_func_name() {
    let p = Precondition::by_func_name("main".to_string(), 10);
    assert_eq!(p.file_path, None);
    assert_eq!(p.path_hash, None);
    assert_eq!(p.func_name.as_deref(), Some("main"));
    assert_eq!(p.line, None);
    assert_eq!(p.sample_every_n, 10);
}

fn target() -> ProfileTarget {
    ProfileTarget { pid: 42, python_bin: "/usr/bin/python3".to_string() }
}

#[test]
fn attach_plans_the_return_probe_first() {
    match plan_command(&ProfilerCommand::Attach(target())) {
        CommandPlan::ChangeProbes(changes) => {
            assert_eq!(changes.len(), 2);
            match (&changes[0], &changes[1]) {
                (ProbeChange::Attach(a), ProbeChange::Attach(b)) => {
                    assert_eq!(*a, Probe { target: target(), usdt_name: UsdtName::FunctionReturn });
                    assert_eq!(*b, Probe { target: target(), usdt_name: UsdtName::FunctionEntry });
                }
                other => panic!("unexpected {other:?}"),
            }
        }
        other => panic!("unexpected {other:?}"),
    }
}

#[test]
fn detach_plans_both_probes() {
    match plan_command(&ProfilerCommand::Detach(target())) {
        CommandPlan::ChangeProbes(changes) => {
            assert_eq!(changes.len(), 2);
            match (&changes[0], &changes[1]) {
                (ProbeChange::Detach(a), ProbeChange::Detach(b)) => {
                    assert_eq!(a.usdt_name, UsdtName::FunctionReturn);
                    assert_eq!(b.usdt_name, UsdtName::FunctionEntry);
                    assert_eq!(a.target, target());
                }
                other => panic!("unexpected {other:?}"),
            }
        }
        other => panic!("unexpected {other:?}"),
    }
}

#[test]
fn detach_undoes_attach_on_a_probe_set() {
    let mut attached: HashSet<(i32, String, u8)> = HashSet::new();
    attached.insert((7, "other".to_string(), 0));
    let before = attached.clone();
    let key = |p: &Probe| (p.target.pid, p.target.python_bin.clone(), p.usdt_name as u8);
    for cmd in [ProfilerCommand::Attach(target()), ProfilerCommand::Detach(target())] {
        if let CommandPlan::ChangeProbes(changes) = plan_command(&cmd) {
            for c in changes {
                match c {
                    ProbeChange::Attach(p) => {
                        attached.insert(key(&p));
                    }
                    ProbeChange::Detach(p) => {
                        attached.remove(&key(&p));
                    }
                }
            }
        }
    }
    assert_eq!(attached, before);
}

#[test]
fn toggle_filter_plans_the_line() {
    match plan_command(&ProfilerCommand::ToggleFilter(Target { lineno: 12 })) {
        CommandPlan::ToggleFilter(line) => assert_eq!(line, 12),
        other => panic!("unexpected {other:?}"),
    }
}

#[test]
fn filter_change_deletes_watched_lines_and_inserts_others() {
    assert_eq!(filter_change(true), FilterChange::Delete);
    assert_eq!(filter_change(false), FilterChange::Insert);
}

#[test]
fn toggling_twice_restores_the_watched_lines() {
    let mut watched: HashSet<usize> = [3, 9].into_iter().collect();
    let before = watched.clone();
    for _ in 0..2 {
        match filter_change(watched.contains(&9)) {
            FilterChange::Insert => {
                watched.insert(9);
            }
            FilterChange::Delete => {
                watched.remove(&9);
            }
        }
    }
    assert_eq!(watched, before);
}

fn entry(lineno: u64, bucket: u64, count: u64) -> LatencyEntry {
    LatencyEntry { lineno, bucket, count }
}

#[test]
fn observe_summarizes_watched_lines_and_marks_the_rest_stale() {
    let entries = vec![
        entry(10, 3, 2),
        entry(11, 4, 1),
        entry(10, 20, 2),
        entry(99, 1, 5),
        entry(10, 3, 1),
        entry(12, 0, 1),
    ];
    let watched: HashSet<u64> = [10, 12, 13].into_iter().collect();
    let o = observe(&entries, &watched);
    assert_eq!(o.stale, vec![1, 3]);
    assert_eq!(o.summaries.len(), 2);
    let mut h10 = Histogram::default();
    h10.add(3, 3);
    h10.add(20, 2);
    assert_eq!(o.summaries[&10], h10.summary());
    let s10 = o.summaries[&10];
    assert_eq!((s10.min, s10.p50, s10.max, s10.samples), (3, 3, bucket_to_value(20), 5));
    let s12 = o.summaries[&12];
    assert_eq!((s12.min, s12.max, s12.samples), (0, 0, 1));
    assert!(!o.summaries.contains_key(&13));
}

#[test]
fn observe_of_nothing_is_empty() {
    let o = observe(&Vec::new(), &HashSet::new());
    assert!(o.summaries.is_empty());
    assert!(o.stale.is_empty());
}

#[test]
fn entries_of_watched_lines_must_name_a_bucket() {
    let watched: HashSet<u64> = [1].into_iter().collect();
    assert!(!check_summarizable(&vec![entry(1, 512, 1)], &watched));
    assert!(check_summarizable(&vec![entry(2, 512, 1), entry(1, 511, 1)], &watched));
}

#[test]
fn watched_lines_need_samples() {
    let watched: HashSet<u64> = [1].into_iter().collect();
    assert!(!check_summarizable(&vec![entry(1, 3, 0)], &watched));
    assert!(try_observe(&vec![entry(1, 3, 0)], &watched).is_none());
}

#[test]
fn counts_must_not_overflow() {
    let watched: HashSet<u64> = [1].into_iter().collect();
    let entries = vec![entry(1, 3, u64::MAX), entry(1, 3, 1)];
    assert!(!check_summarizable(&entries, &watched));
    // the total of a line must leave room for its 99th percentile rank
    assert!(!check_summarizable(&vec![entry(1, 3, u64::MAX / 99 + 1)], &watched));
    assert!(check_summarizable(&vec![entry(1, 3, u64::MAX / 99)], &watched));
}

#[test]
fn try_observe_agrees_with_observe() {
    let entries = vec![entry(4, 10, 3), entry(5, 0, 1), entry(4, 11, 1)];
    let watched: HashSet<u64> = [4].into_iter().collect();
    let o = try_observe(&entries, &watched).unwrap();
    let p = observe(&entries, &watched);
    assert_eq!(o.stale, p.stale);
    assert_eq!(o.summaries, p.summaries);
    assert_eq!(o.stale, vec![1]);
}

#[test]
fn hash_of_a_joined_path() {
    let (s, t) = ("/home/user/", "main.py");
    let joined = format!("{s}{t}");
    let expected = downtown::profiler::hash_path(s)
        .wrapping_mul(37u64.wrapping_pow(t.len() as u32))
        .wrapping_add(downtown::profiler::hash_path(t));
    assert_eq!(downtown::profiler::hash_path(&joined), expected);
}

#[test]
fn map_entries_decode_in_the_machine_byte_order() {
    let mut key = Vec::new();
    key.extend_from_slice(&42u64.to_ne_bytes());
    key.extend_from_slice(&7u64.to_ne_bytes());
    let value = 1000u64.to_ne_bytes();
    let e = latency_entry(&key, &value).unwrap();
    assert_eq!((e.lineno, e.bucket, e.count), (42, 7, 1000));
    assert!(latency_entry(&key[..15], &value).is_none());
    assert!(latency_entry(&key, &value[..7]).is_none());
    assert_eq!(filter_key(&5u64.to_ne_bytes()), Some(5));
    assert_eq!(filter_key(&[0u8; 9]), None);
}
