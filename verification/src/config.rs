//! The daemon's configuration: command line options and the external text
//! configuration file.

use vstd::prelude::*;
use std::collections::VecDeque;
use crate::constants::{CONFIG_FILE, MIN_TRACE_LOG_LENGTH, MIN_TRACE_LOG_PREFETCH_SIZE_BYTES, STATE_DIR};
use crate::events::InternalEvent;
use crate::prefetch::{contains_string, listed};

verus! {

/// The settings of the configuration file; each may be missing.
#[derive(Debug, Clone)]
pub struct ConfigFile {
    pub user: Option<String>,
    pub group: Option<String>,
    pub worker_threads: Option<String>,
    pub min_trace_log_length: Option<usize>,
    pub min_trace_log_prefetch_size: Option<u64>,
    pub state_dir: Option<String>,
    pub whitelist: Option<Vec<String>>,
    pub blacklist: Option<Vec<String>>,
    pub disabled_plugins: Option<Vec<String>>,
}

/// A list of one empty string.
fn one_empty() -> (v: Vec<String>)
    ensures
        v@.len() == 1,
        v@[0]@ == Seq::<char>::empty(),
{
    let mut v: Vec<String> = Vec::new();
    v.push(String::new());
    v
}

impl Default for ConfigFile {
    /// The built-in configuration: user and group `root`, automatic worker
    /// threads, the default minimum trace length and size, the default
    /// state directory, and one empty entry in each list.
    fn default() -> (c: ConfigFile)
        ensures
            c.user matches Some(u) && u@ == "root"@,
            c.group matches Some(g) && g@ == "root"@,
            c.worker_threads matches Some(w) && w@ == "auto"@,
            c.min_trace_log_length == Some(MIN_TRACE_LOG_LENGTH),
            c.min_trace_log_prefetch_size == Some(MIN_TRACE_LOG_PREFETCH_SIZE_BYTES),
            c.state_dir matches Some(d) && d@ == STATE_DIR@,
            c.whitelist matches Some(l) && l@.len() == 1 && l@[0]@ == Seq::<char>::empty(),
            c.blacklist matches Some(l) && l@.len() == 1 && l@[0]@ == Seq::<char>::empty(),
            c.disabled_plugins matches Some(l) && l@.len() == 1 && l@[0]@ == Seq::<char>::empty(),
    {
        ConfigFile {
            user: Some("root".to_string()),
            group: Some("root".to_string()),
            worker_threads: Some("auto".to_string()),
            min_trace_log_length: Some(MIN_TRACE_LOG_LENGTH),
            min_trace_log_prefetch_size: Some(MIN_TRACE_LOG_PREFETCH_SIZE_BYTES),
            state_dir: Some(STATE_DIR.to_string()),
            whitelist: Some(one_empty()),
            blacklist: Some(one_empty()),
            disabled_plugins: Some(one_empty()),
        }
    }
}

/// A copy of a list of strings.
pub fn clone_strings(v: &Vec<String>) -> (r: Vec<String>)
    ensures
        r@ == v@,
{
    let mut r: Vec<String> = Vec::new();
    let mut i: usize = 0;
    while i < v.len()
        invariant
            i <= v@.len(),
            r@ == v@.subrange(0, i as int),
        decreases v@.len() - i,
    {
        r.push(v[i].clone());
        proof {
            assert(v@.subrange(0, i + 1) =~= v@.subrange(0, i as int).push(v@[i as int]));
        }
        i = i + 1;
    }
    proof {
        assert(v@.subrange(0, v@.len() as int) =~= v@);
    }
    r
}

impl ConfigFile {
    /// The plugins that the configuration disables; none when the setting is
    /// missing.
    pub fn get_disabled_plugins(&self) -> (r: Vec<String>)
        ensures
            r@ == match self.disabled_plugins {
                Some(v) => v@,
                None => Seq::<String>::empty(),
            },
    {
        match &self.disabled_plugins {
            Some(v) => clone_strings(v),
            None => Vec::new(),
        }
    }

    /// Whether the plugin or hook `name` is enabled: it is unless the
    /// configuration lists it as disabled.
    pub fn is_plugin_enabled(&self, name: &String) -> (r: bool)
        ensures
            r == match self.disabled_plugins {
                Some(v) => !listed(v@, name@),
                None => true,
            },
    {
        match &self.disabled_plugins {
            Some(v) => !contains_string(v, name),
            None => true,
        }
    }

    /// The state directory; the built-in default when none is configured.
    pub fn state_dir_or_default(&self) -> (r: String)
        ensures
            r@ == match self.state_dir {
                Some(d) => d@,
                None => STATE_DIR@,
            },
    {
        match &self.state_dir {
            Some(d) => d.clone(),
            None => STATE_DIR.to_string(),
        }
    }

    /// The minimum length of a kept trace log; the built-in default when
    /// none is configured.
    pub fn min_trace_log_length_or_default(&self) -> (r: usize)
        ensures
            r == match self.min_trace_log_length {
                Some(n) => n,
                None => MIN_TRACE_LOG_LENGTH,
            },
    {
        match self.min_trace_log_length {
            Some(n) => n,
            None => MIN_TRACE_LOG_LENGTH,
        }
    }

    /// The minimum size of a kept trace log; the built-in default when none
    /// is configured.
    pub fn min_trace_log_prefetch_size_or_default(&self) -> (r: u64)
        ensures
            r == match self.min_trace_log_prefetch_size {
                Some(n) => n,
                None => MIN_TRACE_LOG_PREFETCH_SIZE_BYTES,
            },
    {
        match self.min_trace_log_prefetch_size {
            Some(n) => n,
            None => MIN_TRACE_LOG_PREFETCH_SIZE_BYTES,
        }
    }
}

/// The global configuration of the daemon: parsed command line options and
/// the parsed configuration file.
#[derive(Debug, Clone)]
pub struct Config {
    pub verbosity: u8,
    pub daemonize: bool,
    pub config_filename: String,
    pub config_file: Option<ConfigFile>,
}

impl Config {
    /// The configuration that the command line selects: the verbosity is
    /// the number of `-v` flags (kept modulo 256), the daemon detaches unless
    /// `--foreground` was given, and the configuration file is the one given
    /// with `--config`, else the default one. The file is not parsed yet.
    pub fn from_command_line(verbosity_occurrences: u64, foreground: bool, config: Option<String>) -> (c: Config)
        ensures
            c.verbosity == verbosity_occurrences as u8,
            c.daemonize == !foreground,
            c.config_filename@ == match config {
                Some(f) => f@,
                None => CONFIG_FILE@,
            },
            c.config_file is None,
    {
        let filename = match config {
            Some(f) => f,
            None => CONFIG_FILE.to_string(),
        };
        Config {
            verbosity: verbosity_occurrences as u8,
            daemonize: !foreground,
            config_filename: filename,
            config_file: None,
        }
    }
}

/// Global system state: the configuration and the pending internal events.
#[derive(Debug)]
pub struct Globals {
    /// Global configuration
    pub config: Config,
    /// Pending events of the internal eventing mechanism
    pub event_queue: VecDeque<InternalEvent>,
    /// Pending events for the IPC notification mechanism
    pub ipc_event_queue: VecDeque<InternalEvent>,
}

impl Globals {
    /// Global state for `config`, with no pending events.
    pub fn new(config: Config) -> (g: Globals)
        ensures
            g.config == config,
            g.event_queue@.len() == 0,
            g.ipc_event_queue@.len() == 0,
    {
        Globals { config, event_queue: VecDeque::new(), ipc_event_queue: VecDeque::new() }
    }

    /// The pending internal events.
    pub fn get_event_queue(&self) -> (q: &VecDeque<InternalEvent>)
        ensures
            q@ == self.event_queue@,
    {
        &self.event_queue
    }

    /// The parsed configuration file; it must have been parsed.
    pub fn get_config_file(&self) -> (c: &ConfigFile)
        requires
            self.config.config_file is Some,
        ensures
            *c == self.config.config_file->0,
    {
        self.config.config_file.as_ref().unwrap()
    }
}

} // verus!
