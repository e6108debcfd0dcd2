use precached::batch::{batch_report, BatchCommand, Closing};
use precached::i18n::MessageCatalog;
use precached::iotrace::{IOOperation, IOTraceLog, IOTraceLogEntryFlag, IOTraceLogFlag};
use precached::status::StatusColor;
use precached::trace_filter::{
    contains_substring, get_io_traces_filtered_and_sorted, parse_bool_filter, parse_sort_field, parse_sort_order,
    sort_traces, BoolFilter, SortField, SortOrder, TraceCandidate, TraceFilter,
};
use precached::trace_report::{files_by_references, io_trace_entry_flags_text, io_trace_flags_text, join_flag_names, size_summary, FileUse};

fn catalog() -> MessageCatalog {
    let mut c = MessageCatalog::new();
    for (id, text) in [
        ("true", "true"),
        ("false", "false"),
        ("filter-valid", "valid"),
        ("filter-invalid", "invalid"),
        ("filter-fresh", "fresh"),
        ("filter-expired", "expired"),
        ("filter-current", "current"),
        ("filter-outdated", "outdated"),
        ("filter-missing", "missing"),
        ("sort-executable", "executable"),
        ("sort-hash", "hash"),
        ("sort-date", "date"),
        ("sort-numfiles", "numfiles"),
        ("sort-numioops", "numioops"),
        ("sort-iosize", "iosize"),
        ("sort-optimized", "optimized"),
        ("sort-blacklisted", "blacklisted"),
        ("sort-asc", "asc"),
        ("sort-ascending", "ascending"),
        ("sort-desc", "desc"),
        ("sort-descending", "descending"),
        ("valid", "Valid"),
        ("fresh", "Fresh"),
        ("current", "Current"),
        ("ok", "OK"),
        ("missing-file", "Missing file"),
    ] {
        c.add(id.to_string(), text.to_string());
    }
    c
}

fn log(exe: &str, files: &[(&str, u64)]) -> IOTraceLog {
    let mut l = IOTraceLog::new(exe.to_string(), "x".to_string(), String::new(), 10);
    for (f, s) in files {
        l.add_event(IOOperation::Open(f.to_string()), *s);
    }
    l
}

fn no_filter() -> TraceFilter {
    TraceFilter { hash: None, executable: None, optimized: None, blacklisted: None, flags: None }
}

#[test]
fn substring_search() {
    assert!(contains_substring(&"/usr/bin/firefox".to_string(), &"bin/fire".to_string()));
    assert!(contains_substring(&"abc".to_string(), &String::new()));
    assert!(!contains_substring(&"abc".to_string(), &"abcd".to_string()));
    assert!(!contains_substring(&"abc".to_string(), &"ac".to_string()));
}

#[test]
fn parse_filters_and_sorting() {
    let c = catalog();
    assert_eq!(parse_bool_filter(&"true".to_string(), &c), BoolFilter::Yes);
    assert_eq!(parse_bool_filter(&"false".to_string(), &c), BoolFilter::No);
    assert_eq!(parse_bool_filter(&"maybe".to_string(), &c), BoolFilter::Unparsable);
    assert_eq!(parse_sort_field(&None, &c), SortField::Unsorted);
    assert_eq!(parse_sort_field(&Some("iosize".to_string()), &c), SortField::Iosize);
    assert_eq!(parse_sort_field(&Some("blacklisted".to_string()), &c), SortField::Blacklisted);
    assert_eq!(parse_sort_field(&Some("whatever".to_string()), &c), SortField::Unsorted);
    assert_eq!(parse_sort_order(&None, &c), SortOrder::Ascending);
    assert_eq!(parse_sort_order(&Some("descending".to_string()), &c), SortOrder::Descending);
    assert_eq!(parse_sort_order(&Some("sideways".to_string()), &c), SortOrder::Ascending);
}

#[test]
fn filtering_counts_total_matching_and_errors() {
    let c = catalog();
    let candidates = vec![
        TraceCandidate { path: "/t/1".to_string(), log: Some(log("/usr/bin/vim", &[])), flags: vec![IOTraceLogFlag::Valid] },
        TraceCandidate { path: "/t/2".to_string(), log: None, flags: vec![] },
        TraceCandidate { path: "/t/3".to_string(), log: Some(log("/usr/bin/emacs", &[])), flags: vec![IOTraceLogFlag::Expired] },
        TraceCandidate { path: "/t/4".to_string(), log: Some(log("/usr/bin/vi", &[])), flags: vec![IOTraceLogFlag::Valid] },
    ];
    let mut filter = no_filter();
    filter.executable = Some("vi".to_string());
    filter.flags = Some("valid".to_string());
    let r = get_io_traces_filtered_and_sorted(candidates, &filter, &c, SortField::Unsorted, SortOrder::Ascending);
    assert_eq!(r.total, 4);
    assert_eq!(r.errors, 1);
    assert_eq!(r.matching, 2);
    assert_eq!(r.traces.len(), 2);
    assert_eq!(r.traces[0].1, "/t/1");
    assert_eq!(r.traces[1].1, "/t/4");
}

#[test]
fn unrecognized_flag_filter_matches_nothing() {
    let c = catalog();
    let candidates = vec![TraceCandidate { path: "/t/1".to_string(), log: Some(log("/a", &[])), flags: vec![IOTraceLogFlag::Valid] }];
    let mut filter = no_filter();
    filter.flags = Some("bogus".to_string());
    let r = get_io_traces_filtered_and_sorted(candidates, &filter, &c, SortField::Unsorted, SortOrder::Ascending);
    assert_eq!(r.matching, 0);
    assert_eq!(r.total, 1);
}

#[test]
fn optimized_and_blacklisted_filters() {
    let c = catalog();
    let mut a = log("/a", &[]);
    a.trace_log_optimized = true;
    let mut b = log("/b", &[]);
    b.blacklisted = true;
    let candidates = vec![
        TraceCandidate { path: "a".to_string(), log: Some(a), flags: vec![] },
        TraceCandidate { path: "b".to_string(), log: Some(b), flags: vec![] },
    ];
    let mut filter = no_filter();
    filter.optimized = Some(BoolFilter::No);
    filter.blacklisted = Some(BoolFilter::Yes);
    let r = get_io_traces_filtered_and_sorted(candidates, &filter, &c, SortField::Unsorted, SortOrder::Ascending);
    assert_eq!(r.traces.len(), 1);
    assert_eq!(r.traces[0].1, "b");
}

#[test]
fn sorting_by_executable_follows_path_components() {
    let traces = vec![
        (log("/a-b", &[]), "p1".to_string()),
        (log("/a/b", &[]), "p2".to_string()),
        (log("/a", &[]), "p3".to_string()),
    ];
    let r = sort_traces(&traces, SortField::Executable, SortOrder::Ascending);
    let order: Vec<&str> = r.iter().map(|t| t.1.as_str()).collect();
    assert_eq!(order, vec!["p3", "p2", "p1"]);
    let d = sort_traces(&traces, SortField::Executable, SortOrder::Descending);
    let order: Vec<&str> = d.iter().map(|t| t.1.as_str()).collect();
    assert_eq!(order, vec!["p1", "p2", "p3"]);
}

#[test]
fn sorting_by_io_size_and_keeping_order() {
    let traces = vec![
        (log("/x", &[("/f", 100)]), "big".to_string()),
        (log("/y", &[]), "small".to_string()),
        (log("/z", &[("/g", 5)]), "mid".to_string()),
    ];
    let r = sort_traces(&traces, SortField::Iosize, SortOrder::Ascending);
    let order: Vec<&str> = r.iter().map(|t| t.1.as_str()).collect();
    assert_eq!(order, vec!["small", "mid", "big"]);
    let u = sort_traces(&traces, SortField::Unsorted, SortOrder::Descending);
    let order: Vec<&str> = u.iter().map(|t| t.1.as_str()).collect();
    assert_eq!(order, vec!["big", "small", "mid"]);
}

#[test]
fn size_summary_counts_each_file_once() {
    let traces = vec![
        (log("/bin/a", &[("/lib/c.so", 1000), ("/lib/c.so", 1500)]), "t1".to_string()),
        (log("/bin/b", &[("/lib/c.so", 2000), ("/etc/x", 7)]), "t2".to_string()),
    ];
    let s = size_summary(&traces);
    assert_eq!(s.acc_io_size, 10 + 1000 + 1500 + 10 + 2000 + 7);
    assert_eq!(s.acc_ioops, 6);
    assert_eq!(s.acc_vm_size, 10 + 1000 + 10 + 7);
    assert_eq!(s.files.len(), 4);
    let c = s.files.iter().find(|f| f.file == "/lib/c.so").unwrap();
    assert_eq!(c.count, 3);
    assert_eq!(c.size, 2000);
    let total: usize = s.files.iter().map(|f| f.count).sum();
    assert_eq!(total, s.acc_ioops);
    let sorted = files_by_references(&s.files);
    assert_eq!(sorted[0].file, "/lib/c.so");
    assert_eq!(sorted.len(), 4);
}

#[test]
fn files_by_references_breaks_ties_by_size() {
    let files = vec![
        FileUse { file: "a".to_string(), count: 1, size: 5 },
        FileUse { file: "b".to_string(), count: 2, size: 1 },
        FileUse { file: "c".to_string(), count: 1, size: 9 },
    ];
    let r = files_by_references(&files);
    let names: Vec<&str> = r.iter().map(|f| f.file.as_str()).collect();
    assert_eq!(names, vec!["b", "c", "a"]);
}

#[test]
fn flag_names_are_joined() {
    let c = catalog();
    assert_eq!(join_flag_names(&vec![]), "");
    assert_eq!(join_flag_names(&vec!["A".to_string()]), "A");
    assert_eq!(join_flag_names(&vec!["A".to_string(), "B".to_string(), "C".to_string()]), "A, B, C");
    let t = io_trace_flags_text(&vec![IOTraceLogFlag::Valid, IOTraceLogFlag::Fresh, IOTraceLogFlag::Current], &c);
    assert_eq!(t, "Valid, Fresh, Current");
    let e = io_trace_entry_flags_text(&vec![IOTraceLogEntryFlag::OK, IOTraceLogEntryFlag::MissingFile], &c);
    assert_eq!(e, "OK, Missing file");
}

#[test]
fn batch_reports_count_failures() {
    let r = batch_report(BatchCommand::Optimize, 5, 3, 1, &vec![true, false, true], false);
    assert_eq!(r.rows.len(), 3);
    assert_eq!(r.rows[0].status_id, "iotracectl-optimized");
    assert_eq!(r.rows[1].status_id, "iotracectl-failed");
    assert_eq!(r.rows[1].color, StatusColor::Red);
    assert_eq!(r.errors, 2);
    assert_eq!(r.total, 5);
    assert_eq!(r.matching, 3);
    assert_eq!(r.closing, Closing::Summary);
    assert_eq!(r.summary_id, "iotracectl-summary-4");
    let dry = batch_report(BatchCommand::Optimize, 5, 3, 0, &vec![true], true);
    assert_eq!(dry.summary_id, "iotracectl-summary-2");
}

#[test]
fn batch_reports_without_logs_or_matches() {
    let none = batch_report(BatchCommand::Remove, 0, 0, 0, &vec![], false);
    assert_eq!(none.closing, Closing::NoTraces);
    let nomatch = batch_report(BatchCommand::Remove, 4, 0, 0, &vec![], false);
    assert_eq!(nomatch.closing, Closing::NoMatches);
    let plain = batch_report(BatchCommand::Blacklist, 0, 0, 0, &vec![], true);
    assert_eq!(plain.closing, Closing::NoTraceLogsAvailable);
    let bl = batch_report(BatchCommand::Blacklist, 2, 1, 0, &vec![true], true);
    assert_eq!(bl.rows[0].status_id, "iotracectl-blacklisted");
    assert_eq!(bl.rows[0].color, StatusColor::Yellow);
    assert_eq!(bl.summary_id, "iotracectl-summary-7");
    let ub = batch_report(BatchCommand::Unblacklist, 2, 1, 0, &vec![true], false);
    assert_eq!(ub.rows[0].status_id, "iotracectl-unblacklisted");
    assert_eq!(ub.rows[0].color, StatusColor::Green);
    assert_eq!(ub.summary_id, "iotracectl-summary-6");
}

#[test]
fn clear_counts_from_its_own_walk() {
    let r = batch_report(BatchCommand::Clear, 99, 99, 7, &vec![true, true, false], true);
    assert_eq!(r.total, 3);
    assert_eq!(r.matching, 2);
    assert_eq!(r.errors, 1);
    assert_eq!(r.rows[2].status_id, "error");
    assert_eq!(r.rows[0].status_id, "removed");
    assert_eq!(r.summary_id, "iotracectl-summary-3");
    assert_eq!(r.closing, Closing::Summary);
    let empty = batch_report(BatchCommand::Clear, 0, 0, 0, &vec![], false);
    assert_eq!(empty.closing, Closing::NoTraces);
    assert_eq!(empty.summary_id, "iotracectl-summary-2");
}

#[test]
fn sorting_keeps_ties_in_their_order() {
    let mut b = log("/b", &[]);
    b.trace_log_optimized = true;
    let traces = vec![(log("/a", &[]), "a".to_string()), (b, "b".to_string()), (log("/c", &[]), "c".to_string())];
    let asc = sort_traces(&traces, SortField::Optimized, SortOrder::Ascending);
    let order: Vec<&str> = asc.iter().map(|t| t.1.as_str()).collect();
    assert_eq!(order, vec!["a", "c", "b"]);
    let desc = sort_traces(&traces, SortField::Optimized, SortOrder::Descending);
    let order: Vec<&str> = desc.iter().map(|t| t.1.as_str()).collect();
    assert_eq!(order, vec!["b", "a", "c"]);
}
