//! The outcome of `iotracectl`'s batch commands (optimize, remove,
//! blacklist, clear): the status shown for each trace log, the counters,
//! and the closing message.

use vstd::prelude::*;
use crate::status::StatusColor;

verus! {

/// A batch command over trace logs.
#[derive(Debug, Clone, Copy, PartialEq, Eq, Structural)]
pub enum BatchCommand {
    Optimize,
    Remove,
    Blacklist,
    Unblacklist,
    Clear,
}

/// What is printed after the table.
#[derive(Debug, Clone, Copy, PartialEq, Eq, Structural)]
pub enum Closing {
    /// The plain sentence that no trace logs are available.
    NoTraceLogsAvailable,
    /// The translated message that there are no trace logs.
    NoTraces,
    /// The translated message that no trace log matched.
    NoMatches,
    /// The table, then the summary message.
    Summary,
}

/// One table row: the message id of its status and its color.
#[derive(Debug, Clone, Copy)]
pub struct BatchRow {
    pub status_id: &'static str,
    pub color: StatusColor,
}

/// What a batch command reports.
#[derive(Debug, Clone)]
pub struct BatchReport {
    /// One row per processed trace log, in order.
    pub rows: Vec<BatchRow>,
    pub total: usize,
    pub matching: usize,
    pub errors: usize,
    pub closing: Closing,
    /// The message id of the summary line.
    pub summary_id: &'static str,
}

/// The status message id of a row.
pub open spec fn row_status_id(cmd: BatchCommand, ok: bool) -> Seq<char> {
    match cmd {
        BatchCommand::Optimize => if ok { "iotracectl-optimized"@ } else { "iotracectl-failed"@ },
        BatchCommand::Remove => if ok { "removed"@ } else { "iotracectl-error"@ },
        BatchCommand::Blacklist => if ok { "iotracectl-blacklisted"@ } else { "iotracectl-failed"@ },
        BatchCommand::Unblacklist => if ok { "iotracectl-unblacklisted"@ } else { "iotracectl-failed"@ },
        BatchCommand::Clear => if ok { "removed"@ } else { "error"@ },
    }
}

/// The color of a row: red on failure, yellow for a blacklisted log, green
/// otherwise.
pub open spec fn row_color(cmd: BatchCommand, ok: bool) -> StatusColor {
    if !ok {
        StatusColor::Red
    } else if cmd == BatchCommand::Blacklist {
        StatusColor::Yellow
    } else {
        StatusColor::Green
    }
}

/// The message id of the summary line.
pub open spec fn summary_message_id(cmd: BatchCommand, dry_run: bool) -> Seq<char> {
    match cmd {
        BatchCommand::Optimize => if dry_run { "iotracectl-summary-2"@ } else { "iotracectl-summary-4"@ },
        BatchCommand::Remove | BatchCommand::Clear => if dry_run { "iotracectl-summary-3"@ } else { "iotracectl-summary-2"@ },
        BatchCommand::Blacklist | BatchCommand::Unblacklist => if dry_run { "iotracectl-summary-7"@ } else { "iotracectl-summary-6"@ },
    }
}

/// What follows the table, given the number of logs and of rows.
pub open spec fn closing_for(cmd: BatchCommand, total: nat, rows: nat) -> Closing {
    match cmd {
        BatchCommand::Clear => if total < 1 { Closing::NoTraces } else { Closing::Summary },
        BatchCommand::Remove => if total < 1 {
            Closing::NoTraces
        } else if rows > 0 {
            Closing::Summary
        } else {
            Closing::NoMatches
        },
        _ => if total < 1 {
            Closing::NoTraceLogsAvailable
        } else if rows > 0 {
            Closing::Summary
        } else {
            Closing::NoMatches
        },
    }
}

/// How many of the outcomes are failures.
pub open spec fn failures(outcomes: Seq<bool>) -> nat
    decreases outcomes.len(),
{
    if outcomes.len() == 0 {
        0
    } else {
        failures(outcomes.drop_last()) + (if outcomes.last() { 0nat } else { 1nat })
    }
}

proof fn lemma_failures_le(outcomes: Seq<bool>)
    ensures
        failures(outcomes) <= outcomes.len(),
    decreases outcomes.len(),
{
    if outcomes.len() > 0 {
        lemma_failures_le(outcomes.drop_last());
    }
}

/// The status message id of a row.
pub fn batch_row_status_id(cmd: BatchCommand, ok: bool) -> (id: &'static str)
    ensures
        id@ == row_status_id(cmd, ok),
{
    match cmd {
        BatchCommand::Optimize => if ok { "iotracectl-optimized" } else { "iotracectl-failed" },
        BatchCommand::Remove => if ok { "removed" } else { "iotracectl-error" },
        BatchCommand::Blacklist => if ok { "iotracectl-blacklisted" } else { "iotracectl-failed" },
        BatchCommand::Unblacklist => if ok { "iotracectl-unblacklisted" } else { "iotracectl-failed" },
        BatchCommand::Clear => if ok { "removed" } else { "error" },
    }
}

/// The message id of the summary line.
pub fn batch_summary_id(cmd: BatchCommand, dry_run: bool) -> (id: &'static str)
    ensures
        id@ == summary_message_id(cmd, dry_run),
{
    match cmd {
        BatchCommand::Optimize => if dry_run { "iotracectl-summary-2" } else { "iotracectl-summary-4" },
        BatchCommand::Remove | BatchCommand::Clear => if dry_run { "iotracectl-summary-3" } else { "iotracectl-summary-2" },
        BatchCommand::Blacklist | BatchCommand::Unblacklist => if dry_run { "iotracectl-summary-7" } else { "iotracectl-summary-6" },
    }
}

/// The report of a batch command. `outcomes` holds, for each processed
/// trace log in order, whether the operation on it succeeded. For `Clear`,
/// which walks the whole directory, the totals come from the outcomes; the
/// other commands report the `total` and `matching` counts of the listing
/// and add their failures to `load_errors`.
pub fn batch_report(
    cmd: BatchCommand,
    total: usize,
    matching: usize,
    load_errors: usize,
    outcomes: &Vec<bool>,
    dry_run: bool,
) -> (r: BatchReport)
    requires
        load_errors + outcomes@.len() <= usize::MAX,
    ensures
        r.rows@.len() == outcomes@.len(),
        forall|i: int| 0 <= i < outcomes@.len() ==> (#[trigger] r.rows@[i]).status_id@ == row_status_id(cmd, outcomes@[i])
            && r.rows@[i].color == row_color(cmd, outcomes@[i]),
        cmd == BatchCommand::Clear ==> r.total == outcomes@.len() && r.errors == failures(outcomes@)
            && r.matching == outcomes@.len() - failures(outcomes@),
        cmd != BatchCommand::Clear ==> r.total == total && r.matching == matching
            && r.errors == load_errors + failures(outcomes@),
        r.closing == closing_for(cmd, r.total as nat, outcomes@.len()),
        r.summary_id@ == summary_message_id(cmd, dry_run),
{
    let mut rows: Vec<BatchRow> = Vec::new();
    let mut failed: usize = 0;
    let mut i: usize = 0;
    while i < outcomes.len()
        invariant
            i <= outcomes@.len(),
            rows@.len() == i,
            failed == failures(outcomes@.subrange(0, i as int)),
            forall|k: int| 0 <= k < i ==> (#[trigger] rows@[k]).status_id@ == row_status_id(cmd, outcomes@[k])
                && rows@[k].color == row_color(cmd, outcomes@[k]),
        decreases outcomes@.len() - i,
    {
        let ok = outcomes[i];
        proof {
            assert(outcomes@.subrange(0, i + 1).drop_last() =~= outcomes@.subrange(0, i as int));
            lemma_failures_le(outcomes@.subrange(0, i as int));
        }
        let color = if !ok {
            StatusColor::Red
        } else if cmd == BatchCommand::Blacklist {
            StatusColor::Yellow
        } else {
            StatusColor::Green
        };
        rows.push(BatchRow { status_id: batch_row_status_id(cmd, ok), color });
        if !ok {
            failed = failed + 1;
        }
        i = i + 1;
    }
    proof {
        assert(outcomes@.subrange(0, outcomes@.len() as int) =~= outcomes@);
        lemma_failures_le(outcomes@);
    }
    let n = outcomes.len();
    let (total, matching, errors) = if cmd == BatchCommand::Clear {
        (n, n - failed, failed)
    } else {
        (total, matching, load_errors + failed)
    };
    let closing = match cmd {
        BatchCommand::Clear => if total < 1 { Closing::NoTraces } else { Closing::Summary },
        BatchCommand::Remove => if total < 1 {
            Closing::NoTraces
        } else if n > 0 {
            Closing::Summary
        } else {
            Closing::NoMatches
        },
        _ => if total < 1 {
            Closing::NoTraceLogsAvailable
        } else if n > 0 {
            Closing::Summary
        } else {
            Closing::NoMatches
        },
    };
    BatchReport { rows, total, matching, errors, closing, summary_id: batch_summary_id(cmd, dry_run) }
}

/// What the listing commands (`list`, `info`, `sizes`) print after their
/// output: that there are no trace logs, that none matched, or the
/// `iotracectl-summary-1` line.
pub fn listing_closing(total: usize, shown: usize) -> (c: Closing)
    ensures
        c == (if total < 1 {
            Closing::NoTraces
        } else if shown < 1 {
            Closing::NoMatches
        } else {
            Closing::Summary
        }),
{
    if total < 1 {
        Closing::NoTraces
    } else if shown < 1 {
        Closing::NoMatches
    } else {
        Closing::Summary
    }
}

} // verus!
