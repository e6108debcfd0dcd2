//! The state of `precachedtop`: the lists it shows, which tab is open and
//! which row of each list is selected, and how key presses, mouse events
//! and daemon replies change it.

use vstd::prelude::*;
use crate::clock::{Timestamp, utc_now};
use crate::i18n::MessageCatalog;
use crate::ipc::{InternalEvent, IpcCommand, IpcMessage, PrefetchStats, ProcessEntry, Statistics, TracerEntry};

verus! {

/// A tracked process as listed.
#[derive(Debug, Clone)]
pub struct ProcessListItem {
    pub pid: i32,
    pub comm: String,
    pub params: Vec<String>,
}

/// An active trace as listed.
#[derive(Debug, Clone)]
pub struct TracerListItem {
    pub start_time: Timestamp,
    pub trace_time_expired: bool,
    pub exe: String,
}

/// A daemon internal event as listed.
#[derive(Debug, Clone)]
pub struct EventListItem {
    pub datetime: Timestamp,
    pub msg: String,
}

/// An item of the statistics view.
#[derive(Debug, Clone, Copy)]
pub struct StatisticsListItem {
    pub datetime: Timestamp,
}

/// A terminal input event.
#[derive(Debug, Clone, Copy, PartialEq, Eq, Structural)]
pub enum InputEvent {
    /// The mouse wheel turned up.
    WheelUp,
    /// The mouse wheel turned down.
    WheelDown,
    /// Another mouse button was pressed at column `x`, row `y`.
    Click { x: u16, y: u16 },
    /// A character key.
    Char(char),
    Up,
    Down,
    PageUp,
    PageDown,
    Home,
    End,
    Left,
    Right,
    /// Anything else.
    Other,
}

/// How an input event moves the selection in a list.
#[derive(Debug, Clone, Copy, PartialEq, Eq, Structural)]
pub enum ListMove {
    Up,
    Down,
    PageUp,
    PageDown,
    Home,
    End,
    Stay,
}

/// Rows moved by a page key.
pub const PAGE_ROWS: usize = 25;

/// The number of tabs.
pub const NUM_TABS: usize = 5;

/// The list move that an input event makes.
pub open spec fn list_move(evt: InputEvent) -> ListMove {
    match evt {
        InputEvent::WheelUp | InputEvent::Up => ListMove::Up,
        InputEvent::WheelDown | InputEvent::Down => ListMove::Down,
        InputEvent::PageUp => ListMove::PageUp,
        InputEvent::PageDown => ListMove::PageDown,
        InputEvent::Home => ListMove::Home,
        InputEvent::End => ListMove::End,
        _ => ListMove::Stay,
    }
}

/// The tab under a click on the tab bar, if any.
pub open spec fn tab_at(x: u16, y: u16) -> Option<usize> {
    if y != 2 {
        None
    } else if 2 <= x <= 12 {
        Some(0)
    } else if 14 <= x <= 25 {
        Some(1)
    } else if 28 <= x <= 51 {
        Some(2)
    } else if 53 <= x <= 66 {
        Some(3)
    } else if 68 <= x <= 73 {
        Some(4)
    } else {
        None
    }
}

/// The open tab after an input event.
pub open spec fn next_tab(tab: usize, evt: InputEvent) -> usize {
    match evt {
        InputEvent::Click { x, y } => match tab_at(x, y) {
            Some(t) => t,
            None => tab,
        },
        InputEvent::Left => if tab > 0 { (tab - 1) as usize } else { 4 },
        InputEvent::Right | InputEvent::Char('\t') => if tab < 4 { (tab + 1) as usize } else { 0 },
        InputEvent::Char('?') => 4,
        _ => tab,
    }
}

/// The selected row of a list of `len` rows after the move `mv`. The page
/// keys, Home and End act only while `guard` is positive.
pub open spec fn moved_sel(sel: usize, len: nat, guard: nat, mv: ListMove) -> usize {
    match mv {
        ListMove::Up => if len > 0 && sel > 0 { (sel - 1) as usize } else { sel },
        ListMove::Down => if len > 0 && sel < len - 1 { (sel + 1) as usize } else { sel },
        ListMove::PageUp => if guard > 0 && sel < len - 1 {
            if sel >= 25 { (sel - 25) as usize } else { 0 }
        } else {
            sel
        },
        ListMove::PageDown => if guard > 0 && sel < len - 26 { (sel + 25) as usize } else { sel },
        ListMove::Home => if guard > 0 { 0 } else { sel },
        ListMove::End => if guard > 0 { (len - 1) as usize } else { sel },
        ListMove::Stay => sel,
    }
}

/// The moves on which the list arithmetic underflows: a page down on a
/// list shorter than a page and a half, and a page up or End on an empty
/// list whose guard is positive.
pub open spec fn move_underflows(len: nat, guard: nat, mv: ListMove) -> bool {
    ||| mv == ListMove::PageDown && guard > 0 && len < 26
    ||| mv == ListMove::PageUp && guard > 0 && len == 0
    ||| mv == ListMove::End && guard > 0 && len == 0
}

/// Move the selection of a list.
fn move_selection(sel: usize, len: usize, guard: usize, mv: ListMove) -> (r: usize)
    requires
        !move_underflows(len as nat, guard as nat, mv),
    ensures
        r == moved_sel(sel, len as nat, guard as nat, mv),
{
    match mv {
        ListMove::Up => if len > 0 && sel > 0 { sel - 1 } else { sel },
        ListMove::Down => if len > 0 && sel < len - 1 { sel + 1 } else { sel },
        ListMove::PageUp => if guard > 0 && sel < len - 1 {
            if sel >= PAGE_ROWS { sel - PAGE_ROWS } else { 0 }
        } else {
            sel
        },
        ListMove::PageDown => if guard > 0 && sel < len - (PAGE_ROWS + 1) {
            let s = sel + PAGE_ROWS;
            if s > len - 1 { len - 1 } else { s }
        } else {
            sel
        },
        ListMove::Home => if guard > 0 { 0 } else { sel },
        ListMove::End => if guard > 0 { len - 1 } else { sel },
        ListMove::Stay => sel,
    }
}

/// The listed form of reported processes.
fn process_items(ps: &Vec<ProcessEntry>) -> (tmp: Vec<ProcessListItem>)
    ensures
        tmp@.len() == ps@.len(),
        forall|k: int| 0 <= k < ps@.len() ==> (#[trigger] tmp@[k]).pid == ps@[k].pid && tmp@[k].comm@ == ps@[k].comm@
            && tmp@[k].params@.len() == 0,
{
    let mut tmp: Vec<ProcessListItem> = Vec::new();
    let mut i: usize = 0;
    while i < ps.len()
        invariant
            i <= ps@.len(),
            tmp@.len() == i,
            forall|k: int| 0 <= k < i ==> (#[trigger] tmp@[k]).pid == ps@[k].pid && tmp@[k].comm@ == ps@[k].comm@
                && tmp@[k].params@.len() == 0,
        decreases ps@.len() - i,
    {
        tmp.push(ProcessListItem { pid: ps[i].pid, comm: ps[i].comm.clone(), params: Vec::new() });
        i = i + 1;
    }
    tmp
}

/// The listed form of reported in-flight traces.
fn tracer_items(ts: &Vec<TracerEntry>) -> (tmp: Vec<TracerListItem>)
    ensures
        tmp@.len() == ts@.len(),
        forall|k: int| 0 <= k < ts@.len() ==> (#[trigger] tmp@[k]).start_time == ts@[k].start_time
            && tmp@[k].trace_time_expired == ts@[k].trace_time_expired && tmp@[k].exe@ == ts@[k].exe@,
{
    let mut tmp: Vec<TracerListItem> = Vec::new();
    let mut i: usize = 0;
    while i < ts.len()
        invariant
            i <= ts@.len(),
            tmp@.len() == i,
            forall|k: int| 0 <= k < i ==> (#[trigger] tmp@[k]).start_time == ts@[k].start_time
                && tmp@[k].trace_time_expired == ts@[k].trace_time_expired && tmp@[k].exe@ == ts@[k].exe@,
        decreases ts@.len() - i,
    {
        tmp.push(TracerListItem {
            start_time: ts[i].start_time,
            trace_time_expired: ts[i].trace_time_expired,
            exe: ts[i].exe.clone(),
        });
        i = i + 1;
    }
    tmp
}

/// The listed form of reported internal events.
fn event_items(es: &Vec<InternalEvent>) -> (tmp: Vec<EventListItem>)
    ensures
        tmp@.len() == es@.len(),
        forall|k: int| 0 <= k < es@.len() ==> (#[trigger] tmp@[k]).datetime == es@[k].datetime && tmp@[k].msg@ == es@[k].name@,
{
    let mut tmp: Vec<EventListItem> = Vec::new();
    let mut i: usize = 0;
    while i < es.len()
        invariant
            i <= es@.len(),
            tmp@.len() == i,
            forall|k: int| 0 <= k < i ==> (#[trigger] tmp@[k]).datetime == es@[k].datetime && tmp@[k].msg@ == es@[k].name@,
        decreases es@.len() - i,
    {
        tmp.push(EventListItem { datetime: es[i].datetime, msg: es[i].name.clone() });
        i = i + 1;
    }
    tmp
}

/// The listed form of reported statistics.
fn statistics_items(ss: &Vec<Statistics>) -> (tmp: Vec<StatisticsListItem>)
    ensures
        tmp@.len() == ss@.len(),
        forall|k: int| 0 <= k < ss@.len() ==> (#[trigger] tmp@[k]).datetime == ss@[k].datetime,
{
    let mut tmp: Vec<StatisticsListItem> = Vec::new();
    let mut i: usize = 0;
    while i < ss.len()
        invariant
            i <= ss@.len(),
            tmp@.len() == i,
            forall|k: int| 0 <= k < i ==> (#[trigger] tmp@[k]).datetime == ss@[k].datetime,
        decreases ss@.len() - i,
    {
        tmp.push(StatisticsListItem { datetime: ss[i].datetime });
        i = i + 1;
    }
    tmp
}

/// The state of `precachedtop`.
#[derive(Debug)]
pub struct Application {
    /// Index of the open tab.
    pub tab_index: usize,
    /// Selected row of the tracked processes.
    pub sel_index_processes: usize,
    pub tracked_processes: Vec<ProcessListItem>,
    pub active_traces: Vec<TracerListItem>,
    /// States of the prefetcher threads, once reported.
    pub prefetch_stats: Option<PrefetchStats>,
    /// Selected row of the events view.
    pub sel_index_events: usize,
    pub events: Vec<EventListItem>,
    /// Selected row of the cached files view.
    pub sel_index_files: usize,
    pub cached_files: Vec<String>,
    /// Selected row of the statistics view.
    pub sel_index_statistics: usize,
    pub statistics: Vec<StatisticsListItem>,
}

impl Application {
    /// The moves on which handling `evt` in the open tab would underflow.
    pub open spec fn event_underflows(&self, evt: InputEvent) -> bool {
        let mv = list_move(evt);
        if self.tab_index == 0 {
            move_underflows(self.tracked_processes@.len(), self.tracked_processes@.len(), mv)
        } else if self.tab_index == 1 {
            move_underflows(self.events@.len(), self.events@.len(), mv)
        } else if self.tab_index == 2 {
            move_underflows(self.cached_files@.len(), self.events@.len(), mv)
        } else {
            false
        }
    }

    /// A fresh state: the first tab open, nothing selected, no data from the
    /// daemon, the event list opened by the translated "beginning-of-log"
    /// message and the statistics by one record, both stamped now.
    pub fn new(catalog: &MessageCatalog) -> (app: Application)
        requires
            catalog.lookup("beginning-of-log"@) is Some,
        ensures
            app.tab_index == 0,
            app.sel_index_processes == 0,
            app.sel_index_events == 0,
            app.sel_index_files == 0,
            app.sel_index_statistics == 0,
            app.tracked_processes@.len() == 0,
            app.active_traces@.len() == 0,
            app.prefetch_stats is None,
            app.events@.len() == 1,
            Some(app.events@[0].msg@) == catalog.lookup("beginning-of-log"@),
            app.cached_files@.len() == 0,
            app.statistics@.len() == 1,
    {
        let id = "beginning-of-log".to_string();
        let msg = match catalog.translate(&id) {
            Some(t) => t,
            None => {
                assert(false);
                String::new()
            },
        };
        let mut events: Vec<EventListItem> = Vec::new();
        events.push(EventListItem { datetime: utc_now(), msg });
        let mut statistics: Vec<StatisticsListItem> = Vec::new();
        statistics.push(StatisticsListItem { datetime: utc_now() });
        Application {
            tab_index: 0,
            sel_index_processes: 0,
            tracked_processes: Vec::new(),
            active_traces: Vec::new(),
            prefetch_stats: None,
            sel_index_events: 0,
            events,
            sel_index_files: 0,
            cached_files: Vec::new(),
            sel_index_statistics: 0,
            statistics,
        }
    }

    /// Take in a reply of the daemon: tracked processes, in-flight traces,
    /// cached files and the prefetcher's states replace what was shown;
    /// internal events and statistics are appended. Other messages change
    /// nothing.
    pub fn process_message(&mut self, msg: IpcMessage)
        ensures
            final(self).tab_index == old(self).tab_index,
            final(self).sel_index_processes == old(self).sel_index_processes,
            final(self).sel_index_events == old(self).sel_index_events,
            final(self).sel_index_files == old(self).sel_index_files,
            final(self).sel_index_statistics == old(self).sel_index_statistics,
            match msg.command {
                IpcCommand::SendTrackedProcesses(ps) => final(self).tracked_processes@.len() == ps@.len()
                    && forall|i: int| 0 <= i < ps@.len() ==> (#[trigger] final(self).tracked_processes@[i]).pid == ps@[i].pid
                        && final(self).tracked_processes@[i].comm@ == ps@[i].comm@
                        && final(self).tracked_processes@[i].params@.len() == 0,
                _ => final(self).tracked_processes@ == old(self).tracked_processes@,
            },
            match msg.command {
                IpcCommand::SendInFlightTracers(ts) => final(self).active_traces@.len() == ts@.len()
                    && forall|i: int| 0 <= i < ts@.len() ==> (#[trigger] final(self).active_traces@[i]).start_time == ts@[i].start_time
                        && final(self).active_traces@[i].trace_time_expired == ts@[i].trace_time_expired
                        && final(self).active_traces@[i].exe@ == ts@[i].exe@,
                _ => final(self).active_traces@ == old(self).active_traces@,
            },
            match msg.command {
                IpcCommand::SendPrefetchStatus(stats) => final(self).prefetch_stats == Some(stats),
                _ => final(self).prefetch_stats == old(self).prefetch_stats,
            },
            match msg.command {
                IpcCommand::SendCachedFiles(files) => final(self).cached_files@ == files@,
                _ => final(self).cached_files@ == old(self).cached_files@,
            },
            match msg.command {
                IpcCommand::SendInternalEvents(es) => final(self).events@.len() == old(self).events@.len() + es@.len()
                    && final(self).events@.subrange(0, old(self).events@.len() as int) == old(self).events@
                    && forall|i: int| 0 <= i < es@.len() ==> (#[trigger] final(self).events@[old(self).events@.len() + i]).datetime == es@[i].datetime
                        && final(self).events@[old(self).events@.len() + i].msg@ == es@[i].name@,
                _ => final(self).events@ == old(self).events@,
            },
            match msg.command {
                IpcCommand::SendStatistics(ss) => final(self).statistics@.len() == old(self).statistics@.len() + ss@.len()
                    && final(self).statistics@.subrange(0, old(self).statistics@.len() as int) == old(self).statistics@
                    && forall|i: int| 0 <= i < ss@.len() ==> (#[trigger] final(self).statistics@[old(self).statistics@.len() + i]).datetime == ss@[i].datetime,
                _ => final(self).statistics@ == old(self).statistics@,
            },
    {
        let IpcMessage { datetime: _, command } = msg;
        match command {
            IpcCommand::SendTrackedProcesses(ps) => {
                let items = process_items(&ps);
                self.tracked_processes = items;
            },
            IpcCommand::SendInFlightTracers(ts) => {
                let items = tracer_items(&ts);
                self.active_traces = items;
            },
            IpcCommand::SendPrefetchStatus(stats) => {
                self.prefetch_stats = Some(stats);
            },
            IpcCommand::SendCachedFiles(files) => {
                self.cached_files = files;
            },
            IpcCommand::SendInternalEvents(es) => {
                let mut items = event_items(&es);
                self.events.append(&mut items);
            },
            IpcCommand::SendStatistics(ss) => {
                let mut items = statistics_items(&ss);
                self.statistics.append(&mut items);
            },
            _ => {},
        }
    }

    /// Whether handling `evt` now would underflow (see `process_event`).
    pub fn would_underflow(&self, evt: InputEvent) -> (r: bool)
        ensures
            r == self.event_underflows(evt),
    {
        let mv = match evt {
            InputEvent::WheelUp | InputEvent::Up => ListMove::Up,
            InputEvent::WheelDown | InputEvent::Down => ListMove::Down,
            InputEvent::PageUp => ListMove::PageUp,
            InputEvent::PageDown => ListMove::PageDown,
            InputEvent::Home => ListMove::Home,
            InputEvent::End => ListMove::End,
            _ => ListMove::Stay,
        };
        let (len, guard) = if self.tab_index == 0 {
            (self.tracked_processes.len(), self.tracked_processes.len())
        } else if self.tab_index == 1 {
            (self.events.len(), self.events.len())
        } else if self.tab_index == 2 {
            (self.cached_files.len(), self.events.len())
        } else {
            return false;
        };
        match mv {
            ListMove::PageDown => guard > 0 && len < PAGE_ROWS + 1,
            ListMove::PageUp | ListMove::End => guard > 0 && len == 0,
            _ => false,
        }
    }

    /// Handle a terminal input event; returns whether the user asked to
    /// quit. The wheel and the cursor, page, Home and End keys move the
    /// selection of the list in the open tab (the events and cached files
    /// tabs guard their page keys and Home and End by the number of
    /// events); clicks on the tab bar, Left, Right, Tab and '?' switch tabs;
    /// 'q' quits.
    pub fn process_event(&mut self, evt: InputEvent) -> (quit: bool)
        requires
            !old(self).event_underflows(evt),
        ensures
            quit == (evt == InputEvent::Char('q')),
            final(self).tab_index == next_tab(old(self).tab_index, evt),
            final(self).sel_index_processes == (if old(self).tab_index == 0 {
                moved_sel(old(self).sel_index_processes, old(self).tracked_processes@.len(),
                    old(self).tracked_processes@.len(), list_move(evt))
            } else {
                old(self).sel_index_processes
            }),
            final(self).sel_index_events == (if old(self).tab_index == 1 {
                moved_sel(old(self).sel_index_events, old(self).events@.len(), old(self).events@.len(),
                    list_move(evt))
            } else {
                old(self).sel_index_events
            }),
            final(self).sel_index_files == (if old(self).tab_index == 2 {
                moved_sel(old(self).sel_index_files, old(self).cached_files@.len(), old(self).events@.len(),
                    list_move(evt))
            } else {
                old(self).sel_index_files
            }),
            final(self).sel_index_statistics == old(self).sel_index_statistics,
            final(self).tracked_processes@ == old(self).tracked_processes@,
            final(self).active_traces@ == old(self).active_traces@,
            final(self).prefetch_stats == old(self).prefetch_stats,
            final(self).events@ == old(self).events@,
            final(self).cached_files@ == old(self).cached_files@,
            final(self).statistics@ == old(self).statistics@,
            old(self).tab_index < NUM_TABS ==> final(self).tab_index < NUM_TABS,
    {
        let mv = match evt {
            InputEvent::WheelUp | InputEvent::Up => ListMove::Up,
            InputEvent::WheelDown | InputEvent::Down => ListMove::Down,
            InputEvent::PageUp => ListMove::PageUp,
            InputEvent::PageDown => ListMove::PageDown,
            InputEvent::Home => ListMove::Home,
            InputEvent::End => ListMove::End,
            _ => ListMove::Stay,
        };
        if self.tab_index == 0 {
            self.sel_index_processes = move_selection(
                self.sel_index_processes,
                self.tracked_processes.len(),
                self.tracked_processes.len(),
                mv,
            );
        } else if self.tab_index == 1 {
            self.sel_index_events = move_selection(self.sel_index_events, self.events.len(), self.events.len(), mv);
        } else if self.tab_index == 2 {
            self.sel_index_files = move_selection(self.sel_index_files, self.cached_files.len(), self.events.len(), mv);
        }
        match evt {
            InputEvent::Click { x, y } => {
                if y == 2 {
                    if x >= 2 && x <= 12 {
                        self.tab_index = 0;
                    } else if x >= 14 && x <= 25 {
                        self.tab_index = 1;
                    } else if x >= 28 && x <= 51 {
                        self.tab_index = 2;
                    } else if x >= 53 && x <= 66 {
                        self.tab_index = 3;
                    } else if x >= 68 && x <= 73 {
                        self.tab_index = 4;
                    }
                }
                false
            },
            InputEvent::Char('q') => true,
            InputEvent::Left => {
                if self.tab_index > 0 {
                    self.tab_index = self.tab_index - 1;
                } else {
                    self.tab_index = 4;
                }
                false
            },
            InputEvent::Right | InputEvent::Char('\t') => {
                if self.tab_index < 4 {
                    self.tab_index = self.tab_index + 1;
                } else {
                    self.tab_index = 0;
                }
                false
            },
            InputEvent::Char('?') => {
                self.tab_index = 4;
                false
            },
            _ => false,
        }
    }
}

/// Left and Right undo each other: the tabs form a ring.
pub proof fn law_left_right_undo(tab: usize)
    requires
        tab < NUM_TABS,
    ensures
        next_tab(next_tab(tab, InputEvent::Left), InputEvent::Right) == tab,
        next_tab(next_tab(tab, InputEvent::Right), InputEvent::Left) == tab,
{
}

/// The open tab is always one of the five tabs.
pub proof fn law_tab_in_range(tab: usize, evt: InputEvent)
    requires
        tab < NUM_TABS,
    ensures
        next_tab(tab, evt) < NUM_TABS,
{
}

/// A click on the tab bar (row 2) opens the tab whose title lies under the
/// pointer: columns 2 to 12 hold the first title, 14 to 25 the second, 28
/// to 51 the third, 53 to 66 the fourth and 68 to 73 the fifth. A click
/// between titles, or on any other row, leaves the open tab as it is.
pub proof fn law_click_opens_tab_under_pointer(tab: usize, x: u16, y: u16)
    ensures
        y == 2 && 2 <= x <= 12 ==> next_tab(tab, InputEvent::Click { x, y }) == 0,
        y == 2 && 14 <= x <= 25 ==> next_tab(tab, InputEvent::Click { x, y }) == 1,
        y == 2 && 28 <= x <= 51 ==> next_tab(tab, InputEvent::Click { x, y }) == 2,
        y == 2 && 53 <= x <= 66 ==> next_tab(tab, InputEvent::Click { x, y }) == 3,
        y == 2 && 68 <= x <= 73 ==> next_tab(tab, InputEvent::Click { x, y }) == 4,
        (y != 2 || x < 2 || x == 13 || x == 26 || x == 27 || x == 52 || x == 67 || x > 73)
            ==> next_tab(tab, InputEvent::Click { x, y }) == tab,
{
}

/// The tab titles stand in order from left to right: of two clicks on
/// titles, the one farther right never opens an earlier tab.
pub proof fn law_tab_titles_left_to_right(tab: usize, x1: u16, x2: u16)
    requires
        x1 <= x2,
        tab_at(x1, 2) is Some,
        tab_at(x2, 2) is Some,
    ensures
        next_tab(tab, InputEvent::Click { x: x1, y: 2 }) <= next_tab(tab, InputEvent::Click { x: x2, y: 2 }),
{
}

/// A selection inside a list stays inside it, whatever the move.
pub proof fn law_selection_stays_in_list(sel: usize, len: nat, guard: nat, mv: ListMove)
    requires
        sel < len,
        !move_underflows(len, guard, mv),
    ensures
        moved_sel(sel, len, guard, mv) < len,
{
}

/// The requests of turn `counter` of the IPC loop, in order: tracked
/// processes, in-flight traces, prefetcher states and internal events on
/// every turn, and the cached files on every fifth turn.
pub fn ipc_requests(counter: u64) -> (r: Vec<IpcCommand>)
    ensures
        r@.len() == (if counter % 5 == 0 { 5nat } else { 4nat }),
        r@[0] is RequestTrackedProcesses,
        r@[1] is RequestInFlightTracers,
        r@[2] is RequestPrefetchStatus,
        r@[3] is RequestInternalEvents,
        counter % 5 == 0 ==> r@[4] is RequestCachedFiles,
{
    let mut r: Vec<IpcCommand> = Vec::new();
    r.push(IpcCommand::RequestTrackedProcesses);
    r.push(IpcCommand::RequestInFlightTracers);
    r.push(IpcCommand::RequestPrefetchStatus);
    r.push(IpcCommand::RequestInternalEvents);
    if counter % 5 == 0 {
        r.push(IpcCommand::RequestCachedFiles);
    }
    r
}

/// Whether turn `counter` of the main loop redraws the screen: every
/// eighth turn does.
pub fn render_due(counter: u64) -> (r: bool)
    ensures
        r == (counter % 8 == 0),
{
    counter % 8 == 0
}

} // verus!
