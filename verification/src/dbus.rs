//! The data that the daemon publishes on D-Bus: one object per I/O trace
//! log and one per tracked process, each under its object path, with the
//! properties that clients can read.

use vstd::prelude::*;
use crate::hashing::{decimal, decimal_string};
use crate::iotrace::IOTraceLog;

verus! {

/// Decimal notation of a signed number, with a leading `-` when negative.
pub open spec fn signed_decimal(n: int) -> Seq<char> {
    if n < 0 {
        seq!['-'] + decimal((-n) as nat)
    } else {
        decimal(n as nat)
    }
}

/// The decimal notation of `n`.
pub fn signed_decimal_string(n: i32) -> (s: String)
    ensures
        s@ == signed_decimal(n as int),
{
    if n < 0 {
        let magnitude: u64 = (0i64 - (n as i64)) as u64;
        let digits = decimal_string(magnitude);
        let mut s = "-".to_string();
        s.append(digits.as_str());
        proof {
            reveal_strlit("-");
        }
        s
    } else {
        decimal_string(n as u64)
    }
}

/// The published data of one I/O trace log.
#[derive(Debug)]
pub struct IOTraceLogStats {
    /// The object path: `/IOTraceLog/` followed by the log's file stem.
    pub path: String,
    pub io_trace_log: IOTraceLog,
}

impl IOTraceLogStats {
    /// The data of the log stored under the file stem `filename`.
    pub fn new(filename: &String, io_trace_log: IOTraceLog) -> (s: IOTraceLogStats)
        ensures
            s.path@ == "/IOTraceLog/"@ + filename@,
            s.io_trace_log == io_trace_log,
    {
        let mut path = "/IOTraceLog/".to_string();
        path.append(filename.as_str());
        proof {
            reveal_strlit("/IOTraceLog/");
        }
        IOTraceLogStats { path, io_trace_log }
    }
}

/// The published data of one tracked process.
#[derive(Debug, Clone)]
pub struct ProcessStats {
    /// The object path: `/Process/` followed by the pid.
    pub path: String,
    pub comm: String,
    pub pid: i32,
}

impl ProcessStats {
    /// The data of process `pid`, whose command name could be read
    /// (`Some`) or not (`None`, published as `<not available>`).
    pub fn new(pid: i32, comm: Option<String>) -> (s: ProcessStats)
        ensures
            s.path@ == "/Process/"@ + signed_decimal(pid as int),
            s.pid == pid,
            s.comm@ == match comm {
                Some(c) => c@,
                None => "<not available>"@,
            },
    {
        let mut path = "/Process/".to_string();
        let digits = signed_decimal_string(pid);
        path.append(digits.as_str());
        proof {
            reveal_strlit("/Process/");
        }
        let comm = match comm {
            Some(c) => c,
            None => "<not available>".to_string(),
        };
        ProcessStats { path, comm, pid }
    }
}

/// The value of the property `name` of an I/O trace log object: its hash,
/// its executable, or its accumulated size in decimal. Other names are not
/// properties of the object.
pub open spec fn io_trace_log_property_value(log: IOTraceLog, name: Seq<char>) -> Option<Seq<char>> {
    if name == "hash"@ {
        Some(log.hash@)
    } else if name == "exe"@ {
        Some(log.exe@)
    } else if name == "accumulated_size"@ {
        Some(decimal(log.accumulated_size as nat))
    } else {
        None
    }
}

/// Read a property of an I/O trace log object.
pub fn io_trace_log_property(stats: &IOTraceLogStats, name: &String) -> (r: Option<String>)
    ensures
        match r {
            Some(v) => io_trace_log_property_value(stats.io_trace_log, name@) == Some(v@),
            None => io_trace_log_property_value(stats.io_trace_log, name@) is None,
        },
{
    let hash = "hash".to_string();
    let exe = "exe".to_string();
    let size = "accumulated_size".to_string();
    if name.eq(&hash) {
        Some(stats.io_trace_log.hash.clone())
    } else if name.eq(&exe) {
        Some(stats.io_trace_log.exe.clone())
    } else if name.eq(&size) {
        Some(decimal_string(stats.io_trace_log.accumulated_size))
    } else {
        None
    }
}

/// The D-Bus interface of the daemon: the objects it last published, and
/// whether they are registered on the bus.
#[derive(Debug)]
pub struct DBUSInterface {
    pub registered: bool,
    pub io_trace_logs: Vec<IOTraceLogStats>,
    pub processes: Vec<ProcessStats>,
}

impl DBUSInterface {
    /// Nothing published yet.
    pub fn new() -> (d: DBUSInterface)
        ensures
            !d.registered,
            d.io_trace_logs@.len() == 0,
            d.processes@.len() == 0,
    {
        DBUSInterface { registered: false, io_trace_logs: Vec::new(), processes: Vec::new() }
    }

    /// Publish the given trace logs (each with its file stem) and tracked
    /// processes (each with its pid and its command name, if it could be
    /// read), replacing what was published before.
    pub fn update_all_trees(&mut self, logs: Vec<(String, IOTraceLog)>, processes: Vec<(i32, Option<String>)>)
        ensures
            final(self).registered,
            final(self).io_trace_logs@.len() == logs@.len(),
            forall|i: int| 0 <= i < logs@.len() ==> (#[trigger] final(self).io_trace_logs@[i]).path@ == "/IOTraceLog/"@ + logs@[i].0@
                && final(self).io_trace_logs@[i].io_trace_log == logs@[i].1,
            final(self).processes@.len() == processes@.len(),
            forall|i: int| 0 <= i < processes@.len() ==> {
                let p = #[trigger] final(self).processes@[i];
                &&& p.pid == processes@[i].0
                &&& p.path@ == "/Process/"@ + signed_decimal(processes@[i].0 as int)
                &&& p.comm@ == match processes@[i].1 {
                    Some(c) => c@,
                    None => "<not available>"@,
                }
            },
    {
        let ghost all_logs = logs@;
        let mut logs = logs;
        let mut log_stats: Vec<IOTraceLogStats> = Vec::new();
        let mut i: usize = 0;
        let n = logs.len();
        proof {
            assert(all_logs.skip(0) =~= all_logs);
        }
        while i < n
            invariant
                n == all_logs.len(),
                i <= n,
                logs@ == all_logs.skip(i as int),
                log_stats@.len() == i,
                forall|k: int| 0 <= k < i ==> (#[trigger] log_stats@[k]).path@ == "/IOTraceLog/"@ + all_logs[k].0@
                    && log_stats@[k].io_trace_log == all_logs[k].1,
            decreases n - i,
        {
            let (name, log) = logs.remove(0);
            proof {
                assert(all_logs.skip(i as int)[0] == all_logs[i as int]);
                assert(all_logs.skip(i as int).remove(0) =~= all_logs.skip(i + 1));
            }
            log_stats.push(IOTraceLogStats::new(&name, log));
            i = i + 1;
        }
        let ghost all_procs = processes@;
        let mut process_stats: Vec<ProcessStats> = Vec::new();
        let mut processes = processes;
        let m = processes.len();
        let mut j: usize = 0;
        proof {
            assert(all_procs.skip(0) =~= all_procs);
        }
        while j < m
            invariant
                m == all_procs.len(),
                j <= m,
                processes@ == all_procs.skip(j as int),
                process_stats@.len() == j,
                forall|k: int| 0 <= k < j ==> {
                    let p = #[trigger] process_stats@[k];
                    &&& p.pid == all_procs[k].0
                    &&& p.path@ == "/Process/"@ + signed_decimal(all_procs[k].0 as int)
                    &&& p.comm@ == match all_procs[k].1 {
                        Some(c) => c@,
                        None => "<not available>"@,
                    }
                },
            decreases m - j,
        {
            let (pid, comm) = processes.remove(0);
            proof {
                assert(all_procs.skip(j as int)[0] == all_procs[j as int]);
                assert(all_procs.skip(j as int).remove(0) =~= all_procs.skip(j + 1));
            }
            process_stats.push(ProcessStats::new(pid, comm));
            j = j + 1;
        }
        self.registered = true;
        self.io_trace_logs = log_stats;
        self.processes = process_stats;
    }
}

} // verus!
