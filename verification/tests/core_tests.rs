use precached::clock::{timestamp_from_epoch_offset, utc_now, Timestamp};
use precached::counts::CountMap;
use precached::dbus::{io_trace_log_property, signed_decimal_string, DBUSInterface, IOTraceLogStats, ProcessStats};
use precached::hashing::hash_program;
use precached::i18n::{initialize_i18n, MessageCatalog, Translations};
use precached::iotrace::{IOOperation, IOTraceLog};
use precached::cli::{completion_shell, CompletionShell};

#[test]
fn hash_of_empty_program_is_the_fnv_offset_basis() {
    let h = hash_program(&String::new(), &String::new());
    assert_eq!(h, "14695981039346656037");
}

#[test]
fn hash_of_single_byte_matches_fnv1a() {
    let h = hash_program(&"a".to_string(), &String::new());
    assert_eq!(h, "12638187200555641996");
}

#[test]
fn hash_feeds_executable_then_command_line() {
    let a = hash_program(&"/usr/bin/ls".to_string(), &"-l".to_string());
    let b = hash_program(&"/usr/bin/ls-l".to_string(), &String::new());
    assert_eq!(a, b);
    let c = hash_program(&"/usr/bin/ls".to_string(), &"-a".to_string());
    assert_ne!(a, c);
}

#[test]
fn hash_agrees_with_the_fnv_crate() {
    let mut hasher = fnv::FnvHasher::default();
    std::hash::Hasher::write(&mut hasher, b"/bin/bash");
    std::hash::Hasher::write(&mut hasher, b"--login");
    let expected = std::hash::Hasher::finish(&hasher).to_string();
    assert_eq!(hash_program(&"/bin/bash".to_string(), &"--login".to_string()), expected);
}

#[test]
fn count_map_counts_and_inserts() {
    let mut m = CountMap::new();
    assert_eq!(m.len(), 0);
    m.increment("x".to_string());
    m.increment("x".to_string());
    m.increment("y".to_string());
    assert_eq!(m.get(&"x".to_string()), Some(2));
    assert_eq!(m.get(&"y".to_string()), Some(1));
    assert_eq!(m.get(&"z".to_string()), None);
    m.insert("x".to_string(), 7);
    assert_eq!(m.get(&"x".to_string()), Some(7));
    assert_eq!(m.len(), 2);
}

#[test]
fn catalog_keeps_first_translation() {
    let mut c = MessageCatalog::new();
    assert_eq!(c.translate(&"valid".to_string()), None);
    c.add("valid".to_string(), "Valid".to_string());
    c.add("valid".to_string(), "Other".to_string());
    assert_eq!(c.translate(&"valid".to_string()), Some("Valid".to_string()));
}

#[test]
fn new_trace_log_opens_the_executable() {
    let log = IOTraceLog::new("/usr/bin/vim".to_string(), "vim".to_string(), "vim x".to_string(), 4096);
    assert_eq!(log.trace_log.len(), 1);
    assert_eq!(log.trace_log[0].operation, IOOperation::Open("/usr/bin/vim".to_string()));
    assert_eq!(log.trace_log[0].size, 4096);
    assert_eq!(log.accumulated_size, 4096);
    assert_eq!(log.file_map.get(&"/usr/bin/vim".to_string()), Some(1));
    assert_eq!(log.hash, hash_program(&"/usr/bin/vim".to_string(), &"vim x".to_string()));
    assert!(!log.trace_log_optimized);
    assert!(!log.blacklisted);
}

#[test]
fn add_event_counts_files_and_sizes() {
    let mut log = IOTraceLog::new("/bin/a".to_string(), "a".to_string(), "a".to_string(), 10);
    log.add_event(IOOperation::Open("/lib/x.so".to_string()), 100);
    log.add_event(IOOperation::Open("/lib/x.so".to_string()), 50);
    log.add_event(IOOperation::Open("/bin/a".to_string()), 1);
    assert_eq!(log.trace_log.len(), 4);
    assert_eq!(log.accumulated_size, 161);
    assert_eq!(log.file_map.get(&"/lib/x.so".to_string()), Some(2));
    assert_eq!(log.file_map.get(&"/bin/a".to_string()), Some(2));
    assert_eq!(log.file_map.len(), 2);
}

#[test]
fn save_criteria_need_length_and_size_unless_truncation_allowed() {
    let mut log = IOTraceLog::new("/bin/a".to_string(), "a".to_string(), "a".to_string(), 10);
    assert!(!log.meets_save_criteria(5, 1048576, false));
    assert!(log.meets_save_criteria(5, 1048576, true));
    for i in 0..4 {
        log.add_event(IOOperation::Open(format!("/f{}", i)), 300000);
    }
    assert!(log.meets_save_criteria(5, 1048576, false));
    assert!(!log.meets_save_criteria(6, 1048576, false));
}

#[test]
fn duplicate_log_is_equal_in_content() {
    let mut log = IOTraceLog::new("/bin/a".to_string(), "a".to_string(), "x".to_string(), 3);
    log.add_event(IOOperation::Open("/etc/passwd".to_string()), 5);
    let d = log.duplicate();
    assert_eq!(d.hash, log.hash);
    assert_eq!(d.trace_log.len(), 2);
    assert_eq!(d.accumulated_size, 8);
    assert_eq!(d.file_map.get(&"/etc/passwd".to_string()), Some(1));
}

#[test]
fn signed_decimals() {
    assert_eq!(signed_decimal_string(0), "0");
    assert_eq!(signed_decimal_string(1234), "1234");
    assert_eq!(signed_decimal_string(-42), "-42");
    assert_eq!(signed_decimal_string(i32::MIN), "-2147483648");
    assert_eq!(signed_decimal_string(i32::MAX), "2147483647");
}

#[test]
fn dbus_objects_have_paths_and_properties() {
    let log = IOTraceLog::new("/bin/a".to_string(), "a".to_string(), "x".to_string(), 12345);
    let hash = log.hash.clone();
    let stats = IOTraceLogStats::new(&"abc".to_string(), log);
    assert_eq!(stats.path, "/IOTraceLog/abc");
    assert_eq!(io_trace_log_property(&stats, &"hash".to_string()), Some(hash));
    assert_eq!(io_trace_log_property(&stats, &"exe".to_string()), Some("/bin/a".to_string()));
    assert_eq!(io_trace_log_property(&stats, &"accumulated_size".to_string()), Some("12345".to_string()));
    assert_eq!(io_trace_log_property(&stats, &"comm".to_string()), None);

    let p = ProcessStats::new(77, None);
    assert_eq!(p.path, "/Process/77");
    assert_eq!(p.comm, "<not available>");
    let q = ProcessStats::new(8, Some("bash".to_string()));
    assert_eq!(q.comm, "bash");
}

#[test]
fn dbus_interface_publishes_what_it_is_given() {
    let mut d = DBUSInterface::new();
    assert!(!d.registered);
    let log = IOTraceLog::new("/bin/a".to_string(), "a".to_string(), "x".to_string(), 1);
    d.update_all_trees(vec![("h1".to_string(), log)], vec![(1, Some("init".to_string())), (2, None)]);
    assert!(d.registered);
    assert_eq!(d.io_trace_logs.len(), 1);
    assert_eq!(d.io_trace_logs[0].path, "/IOTraceLog/h1");
    assert_eq!(d.processes.len(), 2);
    assert_eq!(d.processes[0].path, "/Process/1");
    assert_eq!(d.processes[0].comm, "init");
    assert_eq!(d.processes[1].comm, "<not available>");
}

#[test]
fn completion_shells() {
    assert_eq!(completion_shell(&"bash".to_string(), true), CompletionShell::Bash);
    assert_eq!(completion_shell(&"fish".to_string(), true), CompletionShell::Fish);
    assert_eq!(completion_shell(&"zsh".to_string(), true), CompletionShell::Zsh);
    assert_eq!(completion_shell(&"powershell".to_string(), true), CompletionShell::PowerShell);
    assert_eq!(completion_shell(&"powershell".to_string(), false), CompletionShell::Zsh);
    assert_eq!(completion_shell(&"tcsh".to_string(), true), CompletionShell::Zsh);
}

#[test]
fn clock_readings_become_timestamps() {
    assert_eq!(timestamp_from_epoch_offset(Ok((5, 7))), Timestamp { secs: 5, nanos: 7 });
    assert_eq!(timestamp_from_epoch_offset(Err((3, 0))), Timestamp { secs: -3, nanos: 0 });
    assert_eq!(timestamp_from_epoch_offset(Err((1, 500_000_000))), Timestamp { secs: -2, nanos: 500_000_000 });
    assert_eq!(timestamp_from_epoch_offset(Ok((u64::MAX, 1))), Timestamp { secs: i64::MAX, nanos: 1 });
    assert_eq!(timestamp_from_epoch_offset(Err((u64::MAX, 1))), Timestamp { secs: i64::MIN, nanos: 0 });
    let now = utc_now();
    assert!(now.nanos < 1_000_000_000);
    assert!(now.secs > 1_500_000_000);
}

const MESSAGES: &str = "hello = Hello\ngreet = Hi, { $name }!\nsort-hash = hash\n";

#[test]
fn messages_are_read_from_the_fluent_source() {
    let t = initialize_i18n("de_de".to_string(), Some(MESSAGES.to_string()), None).unwrap();
    assert_eq!(t.lang, "de_de");
    assert_eq!(t.format(&"hello".to_string(), &vec![]), Some("Hello".to_string()));
    assert_eq!(t.format(&"missing".to_string(), &vec![]), None);
    let greeting = t.format(&"greet".to_string(), &vec![("name".to_string(), "Ann".to_string())]).unwrap();
    assert!(greeting.contains("Ann"));
    let c = t.catalog(&vec!["hello".to_string(), "sort-hash".to_string(), "missing".to_string()]);
    assert_eq!(c.translate(&"hello".to_string()), Some("Hello".to_string()));
    assert_eq!(c.translate(&"sort-hash".to_string()), Some("hash".to_string()));
    assert_eq!(c.translate(&"missing".to_string()), None);
    assert_eq!(c.translate(&"greet".to_string()), None);
}

#[test]
fn fallback_messages_are_read_as_us_english() {
    let t = initialize_i18n("xx".to_string(), None, Some(MESSAGES.to_string())).unwrap();
    assert_eq!(t.lang, "en_us");
    assert_eq!(t.format(&"hello".to_string(), &vec![]), Some("Hello".to_string()));
    assert!(initialize_i18n("xx".to_string(), None, None).is_none());
    let broken = Translations { lang: "en_us".to_string(), source: "= no id".to_string() };
    assert_eq!(broken.format(&"hello".to_string(), &vec![]), None);
    let bad_lang = Translations { lang: "c".to_string(), source: MESSAGES.to_string() };
    assert_eq!(bad_lang.format(&"hello".to_string(), &vec![]), None);
}
