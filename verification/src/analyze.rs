//! The table that `precachedctl` shows of the daemon's internal state:
//! one row per reading, with its key, its value and its status.

use vstd::prelude::*;
use crate::clock::Timestamp;
use crate::status::{CellStatus, classify_bool, classify_datetime, classify_value};
use crate::value_range::ValueRange;

verus! {

/// The operating profile the daemon's profiles plugin has reached, in the
/// order the daemon advances through them.
#[derive(Debug, Clone, Copy, PartialEq, Eq, Structural)]
pub enum SystemProfile {
    Invalid,
    BootUp,
    UpAndRunning,
    Shutdown,
}

/// The position of a profile in the order the daemon advances through them.
pub open spec fn profile_rank(p: SystemProfile) -> nat {
    match p {
        SystemProfile::Invalid => 0,
        SystemProfile::BootUp => 1,
        SystemProfile::UpAndRunning => 2,
        SystemProfile::Shutdown => 3,
    }
}

/// The daemon's internal state as reported to `precachedctl`; a reading
/// that a plugin did not report is `None`.
#[derive(Debug, Clone, Copy)]
pub struct InternalState {
    pub profiles_current_profile: Option<SystemProfile>,
    pub hot_applications_app_histogram_entries_count: Option<usize>,
    pub hot_applications_cached_apps_count: Option<usize>,
    pub janitor_janitor_needs_to_run: Option<bool>,
    pub janitor_janitor_ran_once: Option<bool>,
    pub janitor_daemon_startup_time: Option<Timestamp>,
    pub janitor_last_housekeeping_performed: Option<Timestamp>,
    pub static_blacklist_blacklist_entries_count: Option<usize>,
    pub static_blacklist_program_blacklist_entries_count: Option<usize>,
    pub static_whitelist_mapped_files_count: Option<usize>,
    pub static_whitelist_whitelist_entries_count: Option<usize>,
    pub static_whitelist_program_whitelist_entries_count: Option<usize>,
}

/// The value of a reading, for display.
#[derive(Debug, Clone, Copy, PartialEq, Eq, Structural)]
pub enum Reading {
    Count(usize),
    Flag(bool),
    Time(Timestamp),
    Profile(SystemProfile),
    /// Not reported: shown as "n/a".
    NotAvailable,
}

/// One row of the table.
#[derive(Debug, Clone, Copy)]
pub struct StateRow {
    pub key: &'static str,
    pub value: Reading,
    pub status: CellStatus,
}

/// A count as displayed.
pub open spec fn count_reading(o: Option<usize>) -> Reading {
    match o {
        Some(v) => Reading::Count(v),
        None => Reading::NotAvailable,
    }
}

/// A flag as displayed.
pub open spec fn flag_reading(o: Option<bool>) -> Reading {
    match o {
        Some(v) => Reading::Flag(v),
        None => Reading::NotAvailable,
    }
}

/// A point in time as displayed.
pub open spec fn time_reading(o: Option<Timestamp>) -> Reading {
    match o {
        Some(v) => Reading::Time(v),
        None => Reading::NotAvailable,
    }
}

/// A profile as displayed.
pub open spec fn profile_reading(o: Option<SystemProfile>) -> Reading {
    match o {
        Some(p) => Reading::Profile(p),
        None => Reading::NotAvailable,
    }
}

/// The status of the current profile: valid once the daemon is up and
/// running (or past it), a warning before that.
pub open spec fn profile_status(o: Option<SystemProfile>) -> CellStatus {
    match o {
        None => CellStatus::Missing,
        Some(p) => if profile_rank(p) >= profile_rank(SystemProfile::UpAndRunning) {
            CellStatus::Valid
        } else {
            CellStatus::Warn
        },
    }
}

/// The status of a count, checked against the range of all counts below
/// `usize::MAX` with no warning or error values.
pub open spec fn count_status(o: Option<usize>) -> CellStatus {
    match o {
        None => CellStatus::Missing,
        Some(v) => if v < usize::MAX { CellStatus::Valid } else { CellStatus::OutOfRange },
    }
}

/// The status of a flag that is expected to be `false`: present is valid.
pub open spec fn flag_status(o: Option<bool>) -> CellStatus {
    match o {
        None => CellStatus::Missing,
        Some(_) => CellStatus::Valid,
    }
}

/// The row of a count.
fn count_row(key: &'static str, o: Option<usize>) -> (r: StateRow)
    ensures
        r.key == key,
        r.value == count_reading(o),
        r.status == count_status(o),
{
    let value = match o {
        Some(v) => Reading::Count(v),
        None => Reading::NotAvailable,
    };
    let range: ValueRange<usize> = ValueRange::new(0..usize::MAX, 0..0, 0..0);
    let status = classify_value(o, Some(range));
    StateRow { key, value, status }
}

/// The row of a flag that should be `false`.
fn flag_row(key: &'static str, o: Option<bool>) -> (r: StateRow)
    ensures
        r.key == key,
        r.value == flag_reading(o),
        r.status == flag_status(o),
{
    let value = match o {
        Some(v) => Reading::Flag(v),
        None => Reading::NotAvailable,
    };
    StateRow { key, value, status: classify_bool(o, Some(false)) }
}

/// The row of a point in time.
fn time_row(key: &'static str, o: Option<Timestamp>) -> (r: StateRow)
    ensures
        r.key == key,
        r.value == time_reading(o),
        r.status == CellStatus::Valid,
{
    let value = match o {
        Some(v) => Reading::Time(v),
        None => Reading::NotAvailable,
    };
    StateRow { key, value, status: classify_datetime(o) }
}

/// The row of the current profile.
fn profile_row(key: &'static str, o: Option<SystemProfile>) -> (r: StateRow)
    ensures
        r.key == key,
        r.value == profile_reading(o),
        r.status == profile_status(o),
{
    match o {
        None => StateRow { key, value: Reading::NotAvailable, status: CellStatus::Missing },
        Some(p) => {
            let reached = match p {
                SystemProfile::Invalid => false,
                SystemProfile::BootUp => false,
                SystemProfile::UpAndRunning => true,
                SystemProfile::Shutdown => true,
            };
            StateRow {
                key,
                value: Reading::Profile(p),
                status: if reached { CellStatus::Valid } else { CellStatus::Warn },
            }
        },
    }
}

/// The rows of the internal state table, in display order.
pub fn internal_state_rows(state: &InternalState) -> (rows: Vec<StateRow>)
    ensures
        rows@.len() == 12,
        rows@[0].key@ == "profiles.current_profile"@,
        rows@[0].value == profile_reading(state.profiles_current_profile),
        rows@[0].status == profile_status(state.profiles_current_profile),
        rows@[1].key@ == "janitor.janitor_needs_to_run"@,
        rows@[1].value == flag_reading(state.janitor_janitor_needs_to_run),
        rows@[1].status == flag_status(state.janitor_janitor_needs_to_run),
        rows@[2].key@ == "janitor.janitor_ran_once"@,
        rows@[2].value == flag_reading(state.janitor_janitor_ran_once),
        rows@[2].status == flag_status(state.janitor_janitor_ran_once),
        rows@[3].key@ == "janitor.daemon_startup_time"@,
        rows@[3].value == time_reading(state.janitor_daemon_startup_time),
        rows@[3].status == CellStatus::Valid,
        rows@[4].key@ == "janitor.last_housekeeping_performed"@,
        rows@[4].value == time_reading(state.janitor_last_housekeeping_performed),
        rows@[4].status == CellStatus::Valid,
        rows@[5].key@ == "hot_applications.app_histogram_entries_count"@,
        rows@[5].value == count_reading(state.hot_applications_app_histogram_entries_count),
        rows@[5].status == count_status(state.hot_applications_app_histogram_entries_count),
        rows@[6].key@ == "hot_applications.cached_apps_count"@,
        rows@[6].value == count_reading(state.hot_applications_cached_apps_count),
        rows@[6].status == count_status(state.hot_applications_cached_apps_count),
        rows@[7].key@ == "static_blacklist.blacklist_entries_count"@,
        rows@[7].value == count_reading(state.static_blacklist_blacklist_entries_count),
        rows@[7].status == count_status(state.static_blacklist_blacklist_entries_count),
        rows@[8].key@ == "static_blacklist.program_blacklist_entries_count"@,
        rows@[8].value == count_reading(state.static_blacklist_program_blacklist_entries_count),
        rows@[8].status == count_status(state.static_blacklist_program_blacklist_entries_count),
        rows@[9].key@ == "static_whitelist.mapped_files"@,
        rows@[9].value == count_reading(state.static_whitelist_mapped_files_count),
        rows@[9].status == count_status(state.static_whitelist_mapped_files_count),
        rows@[10].key@ == "static_whitelist.whitelist_entries_count"@,
        rows@[10].value == count_reading(state.static_whitelist_whitelist_entries_count),
        rows@[10].status == count_status(state.static_whitelist_whitelist_entries_count),
        rows@[11].key@ == "static_whitelist.program_whitelist_entries_count"@,
        rows@[11].value == count_reading(state.static_whitelist_program_whitelist_entries_count),
        rows@[11].status == count_status(state.static_whitelist_program_whitelist_entries_count),
{
    let mut rows: Vec<StateRow> = Vec::new();
    rows.push(profile_row("profiles.current_profile", state.profiles_current_profile));
    rows.push(flag_row("janitor.janitor_needs_to_run", state.janitor_janitor_needs_to_run));
    rows.push(flag_row("janitor.janitor_ran_once", state.janitor_janitor_ran_once));
    rows.push(time_row("janitor.daemon_startup_time", state.janitor_daemon_startup_time));
    rows.push(time_row("janitor.last_housekeeping_performed", state.janitor_last_housekeeping_performed));
    rows.push(count_row("hot_applications.app_histogram_entries_count", state.hot_applications_app_histogram_entries_count));
    rows.push(count_row("hot_applications.cached_apps_count", state.hot_applications_cached_apps_count));
    rows.push(count_row("static_blacklist.blacklist_entries_count", state.static_blacklist_blacklist_entries_count));
    rows.push(count_row("static_blacklist.program_blacklist_entries_count", state.static_blacklist_program_blacklist_entries_count));
    rows.push(count_row("static_whitelist.mapped_files", state.static_whitelist_mapped_files_count));
    rows.push(count_row("static_whitelist.whitelist_entries_count", state.static_whitelist_whitelist_entries_count));
    rows.push(count_row(
        "static_whitelist.program_whitelist_entries_count",
        state.static_whitelist_program_whitelist_entries_count,
    ));
    rows
}

/// The rows of the global statistics table: the daemon reports none yet,
/// so the table holds a single row with a fixed sample value.
pub fn global_stats_rows() -> (rows: Vec<StateRow>)
    ensures
        rows@.len() == 1,
        rows@[0].key@ == "Not implemented"@,
        rows@[0].value == Reading::Count(123),
        rows@[0].status == CellStatus::Valid,
{
    let mut rows: Vec<StateRow> = Vec::new();
    rows.push(count_row("Not implemented", Some(123)));
    rows
}

} // verus!
