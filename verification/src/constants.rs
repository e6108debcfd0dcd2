//! Default values of the daemon; the configuration file may override them.

use vstd::prelude::*;

verus! {

/// Config file, where the daemon's config is located
pub const CONFIG_FILE: &'static str = "/etc/precached/precached.conf";

/// Default directory where the daemon state shall be saved
pub const STATE_DIR: &'static str = "/var/lib/precached/";

/// Default directory where the daemon rules shall be stored
pub const RULES_DIR: &'static str = "/etc/precached/rules.d";

/// PID file of the precached daemon
pub const DAEMON_PID_FILE: &'static str = "/run/precached.pid";

/// Default directory where I/O traces shall be saved
pub const IOTRACE_DIR: &'static str = "iotrace/";

/// Default compression ratio for the Zstd compressor (0 selects automatically)
pub const ZSTD_COMPRESSION_RATIO: i32 = 0;

/// Thread niceness (worker threads)
pub const WORKER_THREAD_NICENESS: i32 = 4;

/// Thread wait time (main loop)
pub const EVENT_THREAD_TIMEOUT_MILLIS: u64 = 2000;

/// Thread wait time (ftrace parser loop)
pub const FTRACE_THREAD_YIELD_MILLIS: u64 = 200;

/// Time that has to elapse before housekeeping after the daemon's startup
pub const HOUSEKEEPING_DELAY_AFTER_STARTUP_SECS: u64 = 300;

/// Time that has to elapse before housekeeping may run again
pub const MIN_HOUSEKEEPING_INTERVAL_SECS: u64 = 3600;

/// `Ping` event timer timeout
pub const PING_INTERVAL_MILLIS: u64 = 2500;

/// Duration in seconds that a process' I/O activity is traced
pub const IO_TRACE_TIME_SECS: u64 = 12;

/// After how many days an I/O trace is flagged as expired
pub const IO_TRACE_EXPIRY_DAYS: i64 = 14;

/// The minimum length an I/O trace log must have for it to be kept
pub const MIN_TRACE_LOG_LENGTH: usize = 5;

/// The minimum amount of data an I/O trace log must reference for it to be kept (1 MiB)
pub const MIN_TRACE_LOG_PREFETCH_SIZE_BYTES: u64 = 1048576;

/// Upper threshold for free memory
pub const FREE_MEMORY_UPPER_THRESHOLD: u8 = 100;

/// Lower threshold for free memory
pub const FREE_MEMORY_LOWER_THRESHOLD: u8 = 30;

/// Available memory critical threshold
pub const AVAILABLE_MEMORY_CRITICAL_THRESHOLD: u8 = 85;

/// Available memory threshold
pub const AVAILABLE_MEMORY_UPPER_THRESHOLD: u8 = 80;

/// Available memory threshold (percentage available)
pub const AVAILABLE_MEMORY_LOWER_THRESHOLD: u8 = 70;

/// Seconds that have to elapse before "recovery from swap" is signalled
pub const SWAP_RECOVERY_WINDOW: u64 = 5;

/// Seconds that have to elapse before "system memory freed" is signalled
pub const MEM_FREED_RECOVERY_WINDOW: u64 = 5;

/// Bytes that have to be freed for the signal `MemoryFreed` (64 MiB)
pub const MEM_FREED_THRESHOLD: isize = 67108864;

/// Seconds that have to elapse before "system enters idle period" is signalled
pub const IDLE_PERIOD_WINDOW: u64 = 5;

/// Maximum allowed size of a single prefetched file (256 MiB)
pub const MAX_ALLOWED_PREFETCH_SIZE: usize = 268435456;

/// Initial gap width of console log output
pub const INITIAL_MODULE_WIDTH: usize = 50;

/// Default date and time format
pub const DATETIME_FORMAT_DEFAULT: &'static str = "%Y-%m-%d %H:%M:%S";

/// Maximum size of the IPC event backlog ring buffer
pub const MAX_IPC_EVENT_BACKLOG: usize = 100;

/// Number of prefetcher worker threads
pub const NUM_PREFETCHER_THREADS: usize = 4;

} // verus!
