use precached::i18n::MessageCatalog;
use precached::top::{Application, InputEvent};

fn catalog() -> MessageCatalog {
    let mut c = MessageCatalog::new();
    c.add("beginning-of-log".to_string(), "Beginning of log".to_string());
    c
}

#[test]
fn new_application_starts_on_overview_with_one_event() {
    let app = Application::new(&catalog());
    assert_eq!(app.tab_index, 0);
    assert_eq!(app.events.len(), 1);
    assert_eq!(app.events[0].msg, "Beginning of log");
    assert_eq!(app.statistics.len(), 1);
    assert!(app.prefetch_stats.is_none());
}

#[test]
fn left_then_right_returns_to_same_tab() {
    let mut app = Application::new(&catalog());
    for start in 0..5usize {
        app.tab_index = start;
        assert!(!app.process_event(InputEvent::Left));
        assert!(!app.process_event(InputEvent::Right));
        assert_eq!(app.tab_index, start);
    }
}

use precached::clock::Timestamp;
use precached::ipc::{InternalEvent, IpcCommand, IpcMessage, ProcessEntry, TracerEntry};

#[test]
fn down_moves_one_row_at_a_time() {
    let mut app = Application::new(&catalog());
    app.process_message(IpcMessage::new(IpcCommand::SendTrackedProcesses(
        (0..5).map(|i| ProcessEntry { pid: i, comm: format!("p{}", i) }).collect(),
    )));
    assert_eq!(app.tracked_processes.len(), 5);
    app.process_event(InputEvent::Down);
    assert_eq!(app.sel_index_processes, 1);
    for _ in 0..5 {
        app.process_event(InputEvent::Down);
    }
    assert_eq!(app.sel_index_processes, 4);
    app.process_event(InputEvent::Up);
    app.process_event(InputEvent::Up);
    assert_eq!(app.sel_index_processes, 2);
    app.process_event(InputEvent::Down);
    assert_eq!(app.sel_index_processes, 3);
    app.process_event(InputEvent::Home);
    assert_eq!(app.sel_index_processes, 0);
    app.process_event(InputEvent::End);
    assert_eq!(app.sel_index_processes, 4);
    app.process_event(InputEvent::WheelUp);
    assert_eq!(app.sel_index_processes, 3);
}

#[test]
fn page_keys_move_by_twenty_five() {
    let mut app = Application::new(&catalog());
    app.process_message(IpcMessage::new(IpcCommand::SendTrackedProcesses(
        (0..60).map(|i| ProcessEntry { pid: i, comm: String::new() }).collect(),
    )));
    assert!(!app.would_underflow(InputEvent::PageDown));
    app.process_event(InputEvent::PageDown);
    assert_eq!(app.sel_index_processes, 25);
    app.process_event(InputEvent::PageDown);
    assert_eq!(app.sel_index_processes, 50);
    app.process_event(InputEvent::PageDown);
    assert_eq!(app.sel_index_processes, 50);
    app.process_event(InputEvent::PageUp);
    assert_eq!(app.sel_index_processes, 25);
    app.process_event(InputEvent::PageUp);
    assert_eq!(app.sel_index_processes, 0);
}

#[test]
fn short_lists_would_underflow_on_page_down() {
    let mut app = Application::new(&catalog());
    app.tab_index = 1;
    assert!(app.would_underflow(InputEvent::PageDown));
    assert!(!app.would_underflow(InputEvent::PageUp));
    app.tab_index = 2;
    assert!(app.would_underflow(InputEvent::End));
    app.tab_index = 3;
    assert!(!app.would_underflow(InputEvent::PageDown));
}

#[test]
fn clicks_and_keys_switch_tabs() {
    let mut app = Application::new(&catalog());
    app.process_event(InputEvent::Click { x: 30, y: 2 });
    assert_eq!(app.tab_index, 2);
    app.process_event(InputEvent::Click { x: 30, y: 3 });
    assert_eq!(app.tab_index, 2);
    app.process_event(InputEvent::Click { x: 13, y: 2 });
    assert_eq!(app.tab_index, 2);
    app.process_event(InputEvent::Char('?'));
    assert_eq!(app.tab_index, 4);
    app.process_event(InputEvent::Char('\t'));
    assert_eq!(app.tab_index, 0);
    app.process_event(InputEvent::Left);
    assert_eq!(app.tab_index, 4);
    assert!(app.process_event(InputEvent::Char('q')));
    assert!(!app.process_event(InputEvent::Other));
}

#[test]
fn replies_replace_or_append() {
    let mut app = Application::new(&catalog());
    let t = Timestamp { secs: 5, nanos: 0 };
    app.process_message(IpcMessage::new(IpcCommand::SendInternalEvents(vec![InternalEvent { datetime: t, name: "Ping".to_string() }])));
    assert_eq!(app.events.len(), 2);
    assert_eq!(app.events[1].msg, "Ping");
    app.process_message(IpcMessage::new(IpcCommand::SendCachedFiles(vec!["/a".to_string()])));
    app.process_message(IpcMessage::new(IpcCommand::SendCachedFiles(vec!["/b".to_string(), "/c".to_string()])));
    assert_eq!(app.cached_files, vec!["/b".to_string(), "/c".to_string()]);
    app.process_message(IpcMessage::new(IpcCommand::SendInFlightTracers(vec![TracerEntry {
        start_time: t,
        trace_time_expired: true,
        exe: "/bin/x".to_string(),
    }])));
    assert_eq!(app.active_traces.len(), 1);
    assert!(app.active_traces[0].trace_time_expired);
    app.process_message(IpcMessage::new(IpcCommand::Pong));
    assert_eq!(app.events.len(), 2);
}
