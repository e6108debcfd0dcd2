use std::collections::VecDeque;

use precached::config::{Config, ConfigFile, Globals};
use precached::constants::{CONFIG_FILE, MAX_IPC_EVENT_BACKLOG, MIN_TRACE_LOG_LENGTH, MIN_TRACE_LOG_PREFETCH_SIZE_BYTES, STATE_DIR};
use precached::daemon::{dispatch_process_event, process_internal_events};
use precached::events::{
    forward_to_ipc_backlog, next_internal_event, queue_internal_event, queue_main_loop_events, EventType, InternalEvent,
    ProcEvent, ProcEventType,
};
use precached::hooks::{default_hook_names, HookManager, FANOTIFY_LOGGER, IOTRACE_PREFETCHER, PROCESS_TRACKER};
use precached::inotify::{EventMaskWrapper, InotifyWatches};
use precached::iotrace::IOTraceLog;
use precached::ipc::{drain_event_types, handle_request, ipc_reply, IpcCommand, IpcReply};
use precached::prefetch::{IOtracePrefetcher, ThreadState};
use precached::process_tracker::{ProcessTracker, TrackedProcess};
use precached::tracer::{ActiveTracers, PerTracerData, TracerReaction};

fn process(pid: i32, comm: &str) -> TrackedProcess {
    TrackedProcess {
        pid,
        comm: comm.to_string(),
        exe_name: format!("/usr/bin/{}", comm),
        cmdline: comm.to_string(),
        is_dead: false,
    }
}

fn is_ping(e: &EventType) -> bool {
    matches!(e, EventType::Ping)
}

#[test]
fn internal_event_queue_is_fifo() {
    let mut q: VecDeque<InternalEvent> = VecDeque::new();
    queue_internal_event(EventType::Startup, &mut q);
    queue_internal_event(EventType::Ping, &mut q);
    assert!(matches!(next_internal_event(&mut q).unwrap().event_type, EventType::Startup));
    assert!(matches!(next_internal_event(&mut q).unwrap().event_type, EventType::Ping));
    assert!(next_internal_event(&mut q).is_none());
}

#[test]
fn ipc_backlog_keeps_the_newest_hundred() {
    let mut backlog: VecDeque<InternalEvent> = VecDeque::new();
    forward_to_ipc_backlog(&mut backlog, InternalEvent::new(EventType::Startup));
    for _ in 0..150 {
        forward_to_ipc_backlog(&mut backlog, InternalEvent::new(EventType::Ping));
    }
    assert_eq!(backlog.len(), MAX_IPC_EVENT_BACKLOG);
    assert!(backlog.iter().all(|e| matches!(e.event_type, EventType::Ping)));
    forward_to_ipc_backlog(&mut backlog, InternalEvent::new(EventType::Shutdown));
    assert_eq!(backlog.len(), MAX_IPC_EVENT_BACKLOG);
    assert!(matches!(backlog[MAX_IPC_EVENT_BACKLOG - 1].event_type, EventType::Shutdown));
}

#[test]
fn main_loop_events_come_in_order() {
    let mut q: VecDeque<InternalEvent> = VecDeque::new();
    queue_main_loop_events(true, true, true, true, &mut q);
    let kinds: Vec<EventType> = q.iter().map(|e| e.event_type.clone()).collect();
    assert_eq!(kinds.len(), 5);
    assert!(matches!(kinds[0], EventType::ConfigurationReloaded));
    assert!(matches!(kinds[1], EventType::DoHousekeeping));
    assert!(matches!(kinds[2], EventType::PrimeCaches));
    assert!(matches!(kinds[3], EventType::Ping));
    assert!(matches!(kinds[4], EventType::GatherStatsAndMetrics));

    let mut q2: VecDeque<InternalEvent> = VecDeque::new();
    queue_main_loop_events(false, false, false, false, &mut q2);
    assert!(q2.is_empty());
}

#[test]
fn process_tracker_follows_exec_and_exit() {
    let mut tracker = ProcessTracker::new();
    let mut q: VecDeque<InternalEvent> = VecDeque::new();
    tracker.process_event(ProcEvent { event_type: ProcEventType::Exec, pid: 10 }, Some(process(10, "vim")), &mut q);
    assert_eq!(tracker.get_process(10).unwrap().comm, "vim");
    assert_eq!(q.len(), 1);
    tracker.process_event(ProcEvent { event_type: ProcEventType::Exit, pid: 10 }, None, &mut q);
    assert!(tracker.get_process(10).unwrap().is_dead);
    assert_eq!(q.len(), 2);
    tracker.process_event(ProcEvent { event_type: ProcEventType::Exit, pid: 99 }, None, &mut q);
    assert_eq!(q.len(), 2);
    tracker.internal_event(&EventType::Ping);
    assert!(tracker.get_process(10).is_none());
}

#[test]
fn dispatching_events_prunes_idles_and_fills_backlog() {
    let mut tracker = ProcessTracker::new();
    let mut scratch: VecDeque<InternalEvent> = VecDeque::new();
    tracker.process_event(ProcEvent { event_type: ProcEventType::Exec, pid: 1 }, Some(process(1, "a")), &mut scratch);
    tracker.process_event(ProcEvent { event_type: ProcEventType::Exec, pid: 2 }, Some(process(2, "b")), &mut scratch);
    tracker.process_event(ProcEvent { event_type: ProcEventType::Exit, pid: 1 }, None, &mut scratch);
    let mut prefetcher = IOtracePrefetcher::new();
    let mut queue: VecDeque<InternalEvent> = VecDeque::new();
    queue_internal_event(EventType::Ping, &mut queue);
    queue_internal_event(EventType::EnterIdle, &mut queue);
    let mut backlog: VecDeque<InternalEvent> = VecDeque::new();
    let dispatched = process_internal_events(&mut queue, &mut backlog, &mut tracker, &mut prefetcher);
    assert!(queue.is_empty());
    assert_eq!(dispatched.len(), 2);
    assert!(is_ping(&dispatched[0]));
    assert!(matches!(dispatched[1], EventType::EnterIdle));
    assert_eq!(backlog.len(), 2);
    assert!(tracker.get_process(1).is_none());
    assert!(tracker.get_process(2).is_some());
    assert!(prefetcher.thread_states.iter().all(|s| matches!(s, ThreadState::Idle)));
}

#[test]
fn prefetcher_starts_uninitialized() {
    let p = IOtracePrefetcher::new();
    assert_eq!(p.thread_states.len(), 4);
    assert!(p.thread_states.iter().all(|s| matches!(s, ThreadState::Uninitialized)));
    assert!(p.prefetched_programs.is_empty());
}

#[test]
fn hook_registry() {
    let mut m = HookManager::new();
    for n in default_hook_names() {
        m.register_hook(n.to_string());
    }
    assert!(m.get_hook_by_name(&PROCESS_TRACKER.to_string()));
    assert!(m.get_hook_by_name(&FANOTIFY_LOGGER.to_string()));
    assert!(m.get_hook_by_name(&IOTRACE_PREFETCHER.to_string()));
    assert!(!m.get_hook_by_name(&"rule_hook".to_string()));
    assert!(m.unregister_hook(&PROCESS_TRACKER.to_string()));
    assert!(!m.unregister_hook(&"nope".to_string()));
    m.register_hook(PROCESS_TRACKER.to_string());
    assert_eq!(m.hooks.len(), 3);
}

#[test]
fn only_event_and_statistics_requests_drain_the_backlog() {
    let mut backlog: VecDeque<InternalEvent> = VecDeque::new();
    forward_to_ipc_backlog(&mut backlog, InternalEvent::new(EventType::Startup));
    forward_to_ipc_backlog(&mut backlog, InternalEvent::new(EventType::Ping));
    let (r, drained) = handle_request(&IpcCommand::RequestTrackedProcesses, &mut backlog);
    assert_eq!(r, IpcReply::SendTrackedProcesses);
    assert!(drained.is_empty());
    assert_eq!(backlog.len(), 2);
    let (r, drained) = handle_request(&IpcCommand::Ping, &mut backlog);
    assert_eq!(r, IpcReply::Unknown);
    assert!(drained.is_empty());
    assert_eq!(backlog.len(), 2);
    let (r, drained) = handle_request(&IpcCommand::RequestInternalEvents, &mut backlog);
    assert_eq!(r, IpcReply::SendInternalEvents);
    assert_eq!(drained.len(), 2);
    assert!(matches!(drained[0], EventType::Startup));
    assert!(matches!(drained[1], EventType::Ping));
    assert!(backlog.is_empty());
    forward_to_ipc_backlog(&mut backlog, InternalEvent::new(EventType::Shutdown));
    let (r, drained) = handle_request(&IpcCommand::RequestStatistics, &mut backlog);
    assert_eq!(r, IpcReply::SendStatistics);
    assert_eq!(drained.len(), 1);
    assert!(backlog.is_empty());
}

#[test]
fn ipc_replies() {
    assert_eq!(ipc_reply(&IpcCommand::Connect), IpcReply::ConnectedSuccessfully);
    assert_eq!(ipc_reply(&IpcCommand::Close), IpcReply::ClientClosed);
    assert_eq!(ipc_reply(&IpcCommand::RequestCachedFiles), IpcReply::SendCachedFiles);
    assert_eq!(ipc_reply(&IpcCommand::RequestInternalEvents), IpcReply::SendInternalEvents);
    assert_eq!(ipc_reply(&IpcCommand::Ping), IpcReply::Unknown);
}

#[test]
fn draining_internal_events_for_ipc() {
    let mut q: VecDeque<InternalEvent> = VecDeque::new();
    queue_internal_event(EventType::Startup, &mut q);
    queue_internal_event(EventType::Ping, &mut q);
    let types = drain_event_types(&mut q);
    assert_eq!(types.len(), 2);
    assert!(q.is_empty());
}

#[test]
fn active_tracers_track_exit_and_opens() {
    let mut t = ActiveTracers::new();
    let log = IOTraceLog::new("/bin/a".to_string(), "a".to_string(), "a".to_string(), 1);
    assert!(t.start(5, PerTracerData::new(log)));
    let log2 = IOTraceLog::new("/bin/a".to_string(), "a".to_string(), "a".to_string(), 1);
    assert!(!t.start(5, PerTracerData::new(log2)));
    assert!(t.contains(5));
    assert!(t.record_open(5, "/etc/hosts".to_string(), 20, false));
    assert!(t.record_open(5, "/etc/shadow".to_string(), 20, true));
    assert!(!t.record_open(6, "/etc/hosts".to_string(), 20, false));
    assert_eq!(t.tracers[0].1.trace_log.trace_log.len(), 2);
    assert_eq!(t.tracers[0].1.trace_log.accumulated_size, 21);
    assert!(t.notify_exit(5));
    assert!(t.tracers[0].1.process_exited);
    assert!(!t.notify_exit(7));
}

#[test]
fn file_access_of_an_untraced_process_starts_tracing_late() {
    let mut t = ActiveTracers::new();
    let log = IOTraceLog::new("/bin/a".to_string(), "a".to_string(), "a".to_string(), 1);
    assert!(!t.on_file_opened(9, "/etc/hosts".to_string(), 5, false, Err(()), Some(log)));
    assert!(!t.contains(9));
    assert!(!t.on_file_opened(9, "/etc/hosts".to_string(), 5, false, Ok(true), None));
    assert!(!t.contains(9));
    let log = IOTraceLog::new("/bin/a".to_string(), "a".to_string(), "a".to_string(), 1);
    assert!(t.on_file_opened(9, "/etc/hosts".to_string(), 5, false, Ok(false), Some(log)));
    assert!(t.contains(9));
    assert_eq!(t.tracers[0].1.trace_log.trace_log.len(), 1);
    let log = IOTraceLog::new("/bin/b".to_string(), "b".to_string(), "b".to_string(), 1);
    assert!(!t.on_file_opened(9, "/etc/passwd".to_string(), 5, false, Ok(true), Some(log)));
    assert_eq!(t.tracers.len(), 1);
    assert_eq!(t.tracers[0].1.trace_log.trace_log.len(), 2);
}

#[test]
fn config_defaults_and_command_line() {
    let cf = ConfigFile::default();
    assert_eq!(cf.state_dir_or_default(), STATE_DIR);
    assert_eq!(cf.min_trace_log_length_or_default(), MIN_TRACE_LOG_LENGTH);
    assert_eq!(cf.min_trace_log_prefetch_size_or_default(), MIN_TRACE_LOG_PREFETCH_SIZE_BYTES);
    let c = Config::from_command_line(3, false, None);
    assert_eq!(c.verbosity, 3);
    assert!(c.daemonize);
    assert_eq!(c.config_filename, CONFIG_FILE);
    let c2 = Config::from_command_line(300, true, Some("/tmp/p.conf".to_string()));
    assert_eq!(c2.verbosity, 44);
    assert!(!c2.daemonize);
    assert_eq!(c2.config_filename, "/tmp/p.conf");
    let g = Globals::new(c2);
    assert!(g.get_event_queue().is_empty());
}

#[test]
fn disabled_plugins_decide_what_is_enabled() {
    let mut cf = ConfigFile::default();
    cf.disabled_plugins = Some(vec!["rule_plugin".to_string()]);
    assert_eq!(cf.get_disabled_plugins(), vec!["rule_plugin".to_string()]);
    assert!(!cf.is_plugin_enabled(&"rule_plugin".to_string()));
    assert!(cf.is_plugin_enabled(&"hot_applications".to_string()));
}

#[test]
fn inotify_hook_without_instance_queues_nothing() {
    let w = InotifyWatches::new();
    let mut q: VecDeque<InternalEvent> = VecDeque::new();
    w.main_loop_hook(&vec![(2, Some("precached.conf".to_string()))], &mut q);
    assert!(q.is_empty());
    assert_eq!(EventMaskWrapper::new(0x100).event_mask, 0x100);
}

#[test]
fn several_pings_prune_like_one() {
    let mut tracker = ProcessTracker::new();
    let mut scratch: VecDeque<InternalEvent> = VecDeque::new();
    tracker.process_event(ProcEvent { event_type: ProcEventType::Exec, pid: 1 }, Some(process(1, "a")), &mut scratch);
    tracker.process_event(ProcEvent { event_type: ProcEventType::Exec, pid: 2 }, Some(process(2, "b")), &mut scratch);
    tracker.process_event(ProcEvent { event_type: ProcEventType::Exit, pid: 2 }, None, &mut scratch);
    let mut prefetcher = IOtracePrefetcher::new();
    let mut queue: VecDeque<InternalEvent> = VecDeque::new();
    queue_internal_event(EventType::Ping, &mut queue);
    queue_internal_event(EventType::Ping, &mut queue);
    queue_internal_event(EventType::Ping, &mut queue);
    let mut backlog: VecDeque<InternalEvent> = VecDeque::new();
    let dispatched = process_internal_events(&mut queue, &mut backlog, &mut tracker, &mut prefetcher);
    assert_eq!(dispatched.len(), 3);
    assert!(tracker.get_process(1).is_some());
    assert!(tracker.get_process(2).is_none());
    assert_eq!(tracker.get_tracked_processes().len(), 1);
    assert!(prefetcher.thread_states.iter().all(|s| matches!(s, ThreadState::Uninitialized)));
}

#[test]
fn process_events_reach_tracker_tracer_and_prefetcher() {
    let mut tracker = ProcessTracker::new();
    let mut tracers = ActiveTracers::new();
    let mut queue: VecDeque<InternalEvent> = VecDeque::new();
    let exec = ProcEvent { event_type: ProcEventType::Exec, pid: 42 };
    let r = dispatch_process_event(exec, Some(process(42, "vim")), &mut tracker, &mut tracers, &mut queue);
    assert_eq!(r.tracer, TracerReaction::TraceProcess);
    assert!(r.replay);
    assert_eq!(queue.len(), 1);
    assert!(tracker.get_process(42).is_some());
    let log = IOTraceLog::new("/usr/bin/vim".to_string(), "vim".to_string(), "vim".to_string(), 1);
    assert!(tracers.start(42, PerTracerData::new(log)));
    let exit = ProcEvent { event_type: ProcEventType::Exit, pid: 42 };
    let r = dispatch_process_event(exit, None, &mut tracker, &mut tracers, &mut queue);
    assert_eq!(r.tracer, TracerReaction::NotifyExit);
    assert!(!r.replay);
    assert_eq!(queue.len(), 2);
    assert!(tracers.tracers[0].1.process_exited);
    let fork = ProcEvent { event_type: ProcEventType::Fork, pid: 43 };
    let r = dispatch_process_event(fork, None, &mut tracker, &mut tracers, &mut queue);
    assert_eq!(r.tracer, TracerReaction::Ignore);
    assert_eq!(queue.len(), 2);
}
