use precached::analyze::{global_stats_rows, internal_state_rows, InternalState, Reading, SystemProfile};
use precached::hot_apps::{needs_optimization_hint, HotApplications};
use precached::hashing::hash_program;
use precached::prefetch::{
    mapping_outcome, metadata_outcome, opened_files, prefetch_step, replay_decision, shall_we_map_file, unmapping_outcome,
    work_chunk, work_chunk_bounds, PrefetchStep, ReplayDecision, ThreadState,
};
use precached::iotrace::{IOOperation, IOTraceLog};
use precached::status::{
    cell_status_color, cell_status_message_id, classify_at_least, classify_bool, classify_datetime, classify_value,
    map_bool_to_color, map_bool_to_color_blacklist, CellStatus, StatusColor,
};
use precached::tracer::{shall_new_tracelog_be_created, trace_start_decision, ExistingTrace, TraceStart};
use precached::iotrace::IOTraceLogFlag;
use precached::value_range::{Contains, ValueRange};

#[test]
fn value_ranges_are_half_open() {
    let r = 3..7u32;
    assert!(r.contains_val(&3));
    assert!(r.contains_val(&6));
    assert!(!r.contains_val(&7));
    assert!(!r.contains_val(&2));
}

#[test]
fn readings_are_checked_error_first() {
    let range = || Some(ValueRange::new(0..100u32, 50..80, 70..90));
    assert_eq!(classify_value(None, range()), CellStatus::Missing);
    assert_eq!(classify_value(Some(75u32), range()), CellStatus::Error);
    assert_eq!(classify_value(Some(60u32), range()), CellStatus::Warn);
    assert_eq!(classify_value(Some(10u32), range()), CellStatus::Valid);
    assert_eq!(classify_value(Some(150u32), range()), CellStatus::OutOfRange);
    assert_eq!(classify_value::<u32>(Some(150), None), CellStatus::Valid);
}

#[test]
fn flags_times_and_bounds() {
    assert_eq!(classify_bool(None, None), CellStatus::Valid);
    assert_eq!(classify_bool(None, Some(false)), CellStatus::Missing);
    assert_eq!(classify_bool(Some(true), Some(false)), CellStatus::Valid);
    assert_eq!(classify_bool(Some(false), Some(true)), CellStatus::Warn);
    assert_eq!(classify_datetime::<u64>(None), CellStatus::Valid);
    assert_eq!(classify_at_least(Some(5u8), None), CellStatus::OutOfRange);
    assert_eq!(classify_at_least(None, Some(5u8)), CellStatus::Missing);
    assert_eq!(classify_at_least(Some(5u8), Some(5u8)), CellStatus::Valid);
    assert_eq!(classify_at_least(Some(4u8), Some(5u8)), CellStatus::Warn);
}

#[test]
fn status_ids_and_colors() {
    assert_eq!(cell_status_message_id(CellStatus::OutOfRange), "out-of-range");
    assert_eq!(cell_status_color(CellStatus::Error), StatusColor::Red);
    assert_eq!(cell_status_color(CellStatus::Missing), StatusColor::Yellow);
    assert_eq!(map_bool_to_color(true), StatusColor::Green);
    assert_eq!(map_bool_to_color(false), StatusColor::Yellow);
    assert_eq!(map_bool_to_color_blacklist(true), StatusColor::Red);
    assert_eq!(map_bool_to_color_blacklist(false), StatusColor::Green);
}

#[test]
fn internal_state_table() {
    let state = InternalState {
        profiles_current_profile: Some(SystemProfile::BootUp),
        hot_applications_app_histogram_entries_count: Some(12),
        hot_applications_cached_apps_count: None,
        janitor_janitor_needs_to_run: Some(true),
        janitor_janitor_ran_once: None,
        janitor_daemon_startup_time: None,
        janitor_last_housekeeping_performed: None,
        static_blacklist_blacklist_entries_count: Some(usize::MAX),
        static_blacklist_program_blacklist_entries_count: Some(0),
        static_whitelist_mapped_files_count: Some(3),
        static_whitelist_whitelist_entries_count: Some(4),
        static_whitelist_program_whitelist_entries_count: Some(5),
    };
    let rows = internal_state_rows(&state);
    assert_eq!(rows.len(), 12);
    assert_eq!(rows[0].key, "profiles.current_profile");
    assert_eq!(rows[0].value, Reading::Profile(SystemProfile::BootUp));
    assert_eq!(rows[0].status, CellStatus::Warn);
    assert_eq!(rows[1].key, "janitor.janitor_needs_to_run");
    assert_eq!(rows[1].value, Reading::Flag(true));
    assert_eq!(rows[1].status, CellStatus::Valid);
    assert_eq!(rows[2].status, CellStatus::Missing);
    assert_eq!(rows[3].value, Reading::NotAvailable);
    assert_eq!(rows[3].status, CellStatus::Valid);
    assert_eq!(rows[5].value, Reading::Count(12));
    assert_eq!(rows[5].status, CellStatus::Valid);
    assert_eq!(rows[6].status, CellStatus::Missing);
    assert_eq!(rows[7].status, CellStatus::OutOfRange);
    assert_eq!(rows[11].key, "static_whitelist.program_whitelist_entries_count");
    let g = global_stats_rows();
    assert_eq!(g.len(), 1);
    assert_eq!(g[0].value, Reading::Count(123));
    assert_eq!(g[0].status, CellStatus::Valid);
}

#[test]
fn current_profile_row() {
    let mut state = InternalState {
        profiles_current_profile: None,
        hot_applications_app_histogram_entries_count: None,
        hot_applications_cached_apps_count: None,
        janitor_janitor_needs_to_run: None,
        janitor_janitor_ran_once: None,
        janitor_daemon_startup_time: None,
        janitor_last_housekeeping_performed: None,
        static_blacklist_blacklist_entries_count: None,
        static_blacklist_program_blacklist_entries_count: None,
        static_whitelist_mapped_files_count: None,
        static_whitelist_whitelist_entries_count: None,
        static_whitelist_program_whitelist_entries_count: None,
    };
    let rows = internal_state_rows(&state);
    assert_eq!(rows[0].value, Reading::NotAvailable);
    assert_eq!(rows[0].status, CellStatus::Missing);
    state.profiles_current_profile = Some(SystemProfile::UpAndRunning);
    let rows = internal_state_rows(&state);
    assert_eq!(rows[0].value, Reading::Profile(SystemProfile::UpAndRunning));
    assert_eq!(rows[0].status, CellStatus::Valid);
    state.profiles_current_profile = Some(SystemProfile::Shutdown);
    assert_eq!(internal_state_rows(&state)[0].status, CellStatus::Valid);
}

#[test]
fn hot_applications_count_executions() {
    let mut h = HotApplications::new();
    let exe = "/usr/bin/firefox".to_string();
    let cmd = "firefox".to_string();
    h.application_executed(&exe, &cmd);
    h.application_executed(&exe, &cmd);
    h.application_executed(&"/usr/bin/vim".to_string(), &"vim".to_string());
    assert_eq!(h.app_histogram.get(&hash_program(&exe, &cmd)), Some(2));
    let top = h.top_apps(false);
    assert_eq!(top.len(), 2);
    assert_eq!(top[0].0, hash_program(&exe, &cmd));
    assert_eq!(top[0].1, 2);
    assert!(!h.is_exe_cached(&exe, &cmd));
}

#[test]
fn top_apps_shows_twenty_unless_all() {
    let mut h = HotApplications::new();
    for i in 0..25 {
        h.application_executed(&format!("/bin/p{}", i), &String::new());
    }
    assert_eq!(h.top_apps(false).len(), 20);
    assert_eq!(h.top_apps(true).len(), 25);
    let keep: Vec<bool> = (0..25).map(|i| i % 2 == 0).collect();
    let o = h.optimized(&keep);
    assert_eq!(o.app_histogram.len(), 13);
    assert!(needs_optimization_hint(false, 6));
    assert!(!needs_optimization_hint(false, 5));
}

#[test]
fn top_apps_are_the_most_executed() {
    let mut h = HotApplications::new();
    for i in 0..25 {
        for _ in 0..(i + 1) {
            h.application_executed(&format!("/bin/p{}", i), &String::new());
        }
    }
    let top = h.top_apps(false);
    assert_eq!(top.len(), 20);
    for (k, (_, count)) in top.iter().enumerate() {
        assert_eq!(*count, 25 - k);
    }
}

#[test]
fn work_is_split_into_equal_chunks() {
    assert_eq!(work_chunk_bounds(10, 4, 0), (0, 2));
    assert_eq!(work_chunk_bounds(10, 4, 2), (4, 6));
    assert_eq!(work_chunk_bounds(10, 4, 3), (6, 10));
    assert_eq!(work_chunk_bounds(3, 4, 2), (0, 0));
    assert_eq!(work_chunk_bounds(3, 4, 3), (0, 3));
    let mut log = IOTraceLog::new("/bin/a".to_string(), "a".to_string(), String::new(), 1);
    for i in 0..7 {
        log.add_event(IOOperation::Open(format!("/f{}", i)), 1);
    }
    let part = work_chunk(&log.trace_log, 4, 1);
    assert_eq!(part.len(), 2);
    assert_eq!(part[0].operation, IOOperation::Open("/f1".to_string()));
    let files = opened_files(&part);
    assert_eq!(files, vec!["/f1".to_string(), "/f2".to_string()]);
}

#[test]
fn mapping_decisions() {
    let f = "/usr/lib/libc.so".to_string();
    let none: Vec<String> = vec![];
    assert!(shall_we_map_file(&f, true, true, false, &none, &none, &none));
    assert!(!shall_we_map_file(&f, true, true, true, &none, &none, &none));
    assert!(!shall_we_map_file(&f, true, true, false, &vec![f.clone()], &none, &none));
    assert!(!shall_we_map_file(&f, false, true, false, &none, &none, &none));
    assert_eq!(prefetch_step(false, true), PrefetchStep::StopLowMemory);
    assert_eq!(prefetch_step(true, true), PrefetchStep::MapFile);
    assert_eq!(prefetch_step(true, false), PrefetchStep::Skip);
    assert!(matches!(mapping_outcome(&f, true), ThreadState::PrefetchedFile(ref p) if *p == f));
    assert!(matches!(mapping_outcome(&f, false), ThreadState::Error(ref p) if *p == f));
    assert!(unmapping_outcome(&f, false).is_none());
    assert!(matches!(metadata_outcome(&f, true, false), Some(ThreadState::PrefetchedFileMetadata(_))));
    assert!(metadata_outcome(&f, true, true).is_none());
    assert_eq!(replay_decision(true, false), ReplayDecision::SkipBlacklisted);
    assert_eq!(replay_decision(false, true), ReplayDecision::SkipCached);
    assert_eq!(replay_decision(false, false), ReplayDecision::Prefetch);
}

#[test]
fn tracing_decisions() {
    assert_eq!(shall_new_tracelog_be_created(false, true, &None), Ok(false));
    assert_eq!(shall_new_tracelog_be_created(true, false, &None), Err(()));
    assert_eq!(shall_new_tracelog_be_created(true, true, &None), Ok(true));
    let expired = Some(ExistingTrace { blacklisted: false, flags: vec![IOTraceLogFlag::Valid, IOTraceLogFlag::Expired], err: false });
    assert_eq!(shall_new_tracelog_be_created(true, true, &expired), Ok(true));
    let good = Some(ExistingTrace { blacklisted: false, flags: vec![IOTraceLogFlag::Valid, IOTraceLogFlag::Fresh], err: false });
    assert_eq!(shall_new_tracelog_be_created(true, true, &good), Ok(false));
    let blacklisted = Some(ExistingTrace { blacklisted: true, flags: vec![], err: true });
    assert_eq!(shall_new_tracelog_be_created(true, true, &blacklisted), Ok(false));
    assert_eq!(trace_start_decision(true, false, Ok(true)), TraceStart::ProgramBlacklisted);
    assert_eq!(trace_start_decision(false, true, Ok(true)), TraceStart::AlreadyTracing);
    assert_eq!(trace_start_decision(false, false, Ok(false)), TraceStart::HaveValidTrace);
    assert_eq!(trace_start_decision(false, false, Err(())), TraceStart::ProcessGone);
    assert_eq!(trace_start_decision(false, false, Ok(true)), TraceStart::StartTracing);
}
