use precached::config::{Config, ConfigFile, Globals};
use precached::events::{EventType, ProcEvent, ProcEventType};
use precached::hot_apps::{hot_apps_action, hot_apps_memory_allows_prefetch, HotAppsAction};
use precached::hooks::{ForkBombDetector, MarkovPrefetcher, RuleHook};
use precached::iotrace::{IOOperation, IOTraceLog};
use precached::prefetch::{prefetch_statx_metadata, prefetcher_memory_allows, unmap_files, ThreadState};
use precached::process_tracker::{ProcessTracker, TrackedProcess};
use precached::top::{ipc_requests, render_due};
use precached::ipc::IpcCommand;
use precached::tracer::{tracer_reaction, TracerReaction};
use std::collections::VecDeque;

fn trace_with(files: &[&str]) -> IOTraceLog {
    let mut log = IOTraceLog::new("/bin/p".to_string(), "p".to_string(), String::new(), 1);
    for f in files {
        log.add_event(IOOperation::Open(f.to_string()), 1);
    }
    log
}

#[test]
fn hot_applications_react_to_events() {
    assert_eq!(hot_apps_action(&EventType::Startup), HotAppsAction::LoadState);
    assert_eq!(hot_apps_action(&EventType::Shutdown), HotAppsAction::SaveState);
    assert_eq!(hot_apps_action(&EventType::PrimeCaches), HotAppsAction::PrefetchData);
    assert_eq!(hot_apps_action(&EventType::AvailableMemoryLowWatermark), HotAppsAction::PrefetchData);
    assert_eq!(hot_apps_action(&EventType::Ping), HotAppsAction::Nothing);
}

#[test]
fn memory_thresholds() {
    assert!(hot_apps_memory_allows_prefetch(Some(71), 70));
    assert!(!hot_apps_memory_allows_prefetch(Some(70), 70));
    assert!(hot_apps_memory_allows_prefetch(None, 70));
    assert!(prefetcher_memory_allows(Some(80), 80));
    assert!(!prefetcher_memory_allows(Some(81), 80));
    assert!(!prefetcher_memory_allows(None, 80));
}

#[test]
fn tracer_reactions() {
    assert_eq!(tracer_reaction(&ProcEvent { event_type: ProcEventType::Exec, pid: 1 }), TracerReaction::TraceProcess);
    assert_eq!(tracer_reaction(&ProcEvent { event_type: ProcEventType::Exit, pid: 1 }), TracerReaction::NotifyExit);
    assert_eq!(tracer_reaction(&ProcEvent { event_type: ProcEventType::Fork, pid: 1 }), TracerReaction::Ignore);
}

#[test]
fn unmapping_reports_freed_files_and_the_last_state() {
    let log = trace_with(&["/a", "/b", "/c"]);
    let mut mapped = vec!["/x".to_string(), "/a".to_string(), "/b".to_string(), "/c".to_string()];
    let mut state = ThreadState::Idle;
    let freed = unmap_files(&log.trace_log, &mut mapped, &vec![true, true, false, true], &mut state);
    assert_eq!(freed, vec!["/a".to_string(), "/c".to_string()]);
    assert_eq!(mapped, vec!["/x".to_string()]);
    assert!(matches!(state, ThreadState::UnmappedFile(ref f) if f == "/c"));
    let mut untouched = ThreadState::Idle;
    let mut none_mapped: Vec<String> = vec!["/y".to_string()];
    assert!(unmap_files(&log.trace_log, &mut none_mapped, &vec![true; 4], &mut untouched).is_empty());
    assert_eq!(none_mapped, vec!["/y".to_string()]);
    assert!(matches!(untouched, ThreadState::Idle));
}

#[test]
fn unmapping_a_file_listed_twice_reports_it_once() {
    let log = trace_with(&["/a", "/a"]);
    let mut mapped = vec!["/a".to_string()];
    let mut state = ThreadState::Idle;
    let freed = unmap_files(&log.trace_log, &mut mapped, &vec![true, true, true], &mut state);
    assert_eq!(freed, vec!["/a".to_string()]);
    assert!(mapped.is_empty());
}

#[test]
fn metadata_priming_names_the_last_visited_file() {
    let log = trace_with(&["/a", "/b"]);
    let mut state = ThreadState::Uninitialized;
    prefetch_statx_metadata(&log.trace_log, &vec![true, true, false], &mut state);
    assert!(matches!(state, ThreadState::PrefetchedFileMetadata(ref f) if f == "/a"));
}

#[test]
fn hooks_have_names_and_the_fork_bomb_detector_stays_quiet() {
    let mut d = ForkBombDetector::new();
    assert_eq!(d.get_name(), "forkbomb_detector");
    assert!(d.process_event(&ProcEvent { event_type: ProcEventType::Fork, pid: 3 }).is_none());
    assert_eq!(MarkovPrefetcher::new().get_name(), "markov_prefetcher");
    assert_eq!(RuleHook::new().get_name(), "rule_hook");
}

#[test]
fn globals_hand_out_their_configuration() {
    let mut c = Config::from_command_line(0, true, None);
    c.config_file = Some(ConfigFile::default());
    let g = Globals::new(c);
    assert_eq!(g.get_config_file().worker_threads, Some("auto".to_string()));
}

#[test]
fn tracked_processes_are_listed() {
    let mut t = ProcessTracker::new();
    let mut q = VecDeque::new();
    let p = TrackedProcess { pid: 4, comm: "sh".to_string(), exe_name: "/bin/sh".to_string(), cmdline: "sh".to_string(), is_dead: false };
    t.process_event(ProcEvent { event_type: ProcEventType::Exec, pid: 4 }, Some(p), &mut q);
    let all = t.get_tracked_processes();
    assert_eq!(all.len(), 1);
    assert_eq!(all[0].0, 4);
}

#[test]
fn top_polls_cached_files_every_fifth_turn() {
    let first = ipc_requests(0);
    assert_eq!(first.len(), 5);
    assert!(matches!(first[4], IpcCommand::RequestCachedFiles));
    let second = ipc_requests(1);
    assert_eq!(second.len(), 4);
    assert!(matches!(second[0], IpcCommand::RequestTrackedProcesses));
    assert!(render_due(16));
    assert!(!render_due(17));
}

#[test]
fn adding_events_keeps_counts_and_sizes_in_step() {
    let mut log = IOTraceLog::new("/bin/p".to_string(), "p".to_string(), String::new(), 7);
    log.add_event(IOOperation::Open("/a".to_string()), 3);
    log.add_event(IOOperation::Open("/a".to_string()), 4);
    log.add_event(IOOperation::Open("/b".to_string()), 5);
    let total: usize = log.file_map.entries.iter().map(|e| e.1).sum();
    assert_eq!(total, log.trace_log.len());
    assert_eq!(log.accumulated_size, log.trace_log.iter().map(|e| e.size).sum::<u64>());
    assert_eq!(log.accumulated_size, 19);
}
