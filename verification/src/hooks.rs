//! The hook registry, and the hooks whose behaviour is fixed at
//! construction.

use vstd::prelude::*;
use crate::events::{EventType, ProcEvent};
use crate::prefetch::{contains_string, listed};

verus! {

/// Name of the process tracker hook
pub const PROCESS_TRACKER: &'static str = "process_tracker";
/// Name of the fanotify based I/O trace logger hook
pub const FANOTIFY_LOGGER: &'static str = "fanotify_logger";
/// Name of the ftrace based I/O trace logger hook
pub const FTRACE_LOGGER: &'static str = "ftrace_logger";
/// Name of the ptrace based I/O trace logger hook
pub const PTRACE_LOGGER: &'static str = "ptrace_logger";
/// Name of the I/O trace prefetcher hook
pub const IOTRACE_PREFETCHER: &'static str = "iotrace_prefetcher";
/// Name of the hot applications hook
pub const HOT_APPLICATIONS: &'static str = "hot_applications";
/// Name of the fork bomb detector hook
pub const FORKBOMB_DETECTOR: &'static str = "forkbomb_detector";
/// Name of the Markov chain prefetcher hook
pub const MARKOV_PREFETCHER: &'static str = "markov_prefetcher";
/// Name of the rule engine hook
pub const RULE_HOOK: &'static str = "rule_hook";

/// The registered hooks, by name: registering a name again replaces the
/// earlier registration.
#[derive(Debug)]
pub struct HookManager {
    pub hooks: Vec<String>,
}

impl HookManager {
    /// The names of the registered hooks.
    pub open spec fn names(&self) -> Set<Seq<char>> {
        Set::new(|n: Seq<char>| listed(self.hooks@, n))
    }

    /// No name is registered twice.
    pub open spec fn wf(&self) -> bool {
        forall|i: int, j: int| 0 <= i < j < self.hooks@.len() ==> #[trigger] self.hooks@[i]@ != #[trigger] self.hooks@[j]@
    }

    /// No hook registered.
    pub fn new() -> (m: HookManager)
        ensures
            m.wf(),
            m.names() == Set::<Seq<char>>::empty(),
    {
        let m = HookManager { hooks: Vec::new() };
        assert(m.names() =~= Set::<Seq<char>>::empty());
        m
    }

    /// Register the hook `name`.
    pub fn register_hook(&mut self, name: String)
        requires
            old(self).wf(),
        ensures
            final(self).wf(),
            final(self).names() == old(self).names().insert(name@),
    {
        if contains_string(&self.hooks, &name) {
            assert(self.names().insert(name@) =~= self.names());
            return;
        }
        let ghost old_s = self.hooks@;
        self.hooks.push(name);
        proof {
            let s = self.hooks@;
            assert forall|a: int, b: int| 0 <= a < b < s.len() implies #[trigger] s[a]@ != #[trigger] s[b]@ by {
                if b < old_s.len() {
                    assert(old_s[a]@ != old_s[b]@);
                } else {
                    assert(!(old_s[a]@ == name@));
                }
            }
            assert forall|n: Seq<char>| #[trigger] listed(s, n) <==> listed(old_s, n) || n == name@ by {
                if listed(s, n) && n != name@ {
                    let i = choose|i: int| 0 <= i < s.len() && s[i]@ == n;
                    assert(old_s[i]@ == n);
                }
                if listed(old_s, n) {
                    let i = choose|i: int| 0 <= i < old_s.len() && old_s[i]@ == n;
                    assert(s[i]@ == n);
                }
                if n == name@ {
                    assert(s[s.len() - 1]@ == n);
                }
            }
            assert(self.names() =~= old(self).names().insert(name@));
        }
    }

    /// Whether a hook named `name` is registered.
    pub fn get_hook_by_name(&self, name: &String) -> (r: bool)
        ensures
            r == self.names().contains(name@),
    {
        contains_string(&self.hooks, name)
    }

    /// Unregister the hook `name`: the hook is told so and stays in the
    /// registry. Returns whether a hook of that name is registered (an
    /// unknown name is reported as an error).
    pub fn unregister_hook(&self, name: &String) -> (found: bool)
        ensures
            found == self.names().contains(name@),
    {
        contains_string(&self.hooks, name)
    }
}

/// The hooks that the daemon registers, in order.
pub fn default_hook_names() -> (r: Vec<&'static str>)
    ensures
        r@.len() == 3,
        r@[0]@ == PROCESS_TRACKER@,
        r@[1]@ == FANOTIFY_LOGGER@,
        r@[2]@ == IOTRACE_PREFETCHER@,
{
    let mut r: Vec<&'static str> = Vec::new();
    r.push(PROCESS_TRACKER);
    r.push(FANOTIFY_LOGGER);
    r.push(IOTRACE_PREFETCHER);
    r
}

/// Tracks the system's fork() rate, to notify when it detects an offending
/// process.
#[derive(Debug, Clone)]
pub struct ForkBombDetector {
    pub forks_per_sec: usize,
}

impl ForkBombDetector {
    /// No fork seen yet.
    pub fn new() -> (d: ForkBombDetector)
        ensures
            d.forks_per_sec == 0,
    {
        ForkBombDetector { forks_per_sec: 0 }
    }

    /// The hook's name.
    pub fn get_name(&self) -> (n: &'static str)
        ensures
            n@ == FORKBOMB_DETECTOR@,
    {
        FORKBOMB_DETECTOR
    }

    /// React to a process event: detection is not implemented, so no event
    /// is queued and nothing changes.
    pub fn process_event(&mut self, _event: &ProcEvent) -> (queued: Option<EventType>)
        ensures
            queued is None,
            final(self).forks_per_sec == old(self).forks_per_sec,
    {
        None
    }
}

/// Prefetches files based on a dynamically built Markov-chain model.
#[derive(Debug, Clone)]
pub struct MarkovPrefetcher {}

impl MarkovPrefetcher {
    /// A prefetcher without a model yet.
    pub fn new() -> (p: MarkovPrefetcher) {
        MarkovPrefetcher {  }
    }

    /// The hook's name.
    pub fn get_name(&self) -> (n: &'static str)
        ensures
            n@ == MARKOV_PREFETCHER@,
    {
        MARKOV_PREFETCHER
    }
}

/// Supports rule actions for the rule matching engine.
#[derive(Debug, Clone)]
pub struct RuleHook {}

impl RuleHook {
    /// A rule hook.
    pub fn new() -> (h: RuleHook) {
        RuleHook {  }
    }

    /// The hook's name.
    pub fn get_name(&self) -> (n: &'static str)
        ensures
            n@ == RULE_HOOK@,
    {
        RULE_HOOK
    }
}

} // verus!
