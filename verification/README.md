# precached

A Linux process monitor and pre-caching daemon, with its command line tools
(`iotracectl`, `precachedctl`, `precachedtop`, `precached-trigger`,
`rulesctl`). The daemon is designed to record which files a program opens
while it starts up (an I/O trace log) and to replay those logs to pull the
files into the page cache before they are needed.

## Layout

- `src/` is the library, written in Verus; Verus proves every function body
  against its contract. It holds the daemon's state and decisions (process
  tracking, I/O trace logs, the internal event queue and the IPC backlog
  ring buffer, tracing and prefetching decisions, the IPC protocol), the
  selection, sorting and summaries that `iotracectl` prints, the state
  machine of `precachedtop`, and the tables of `precachedctl`. Public proof
  functions named `law_*` state properties that span several operations
  (first in, first out event queues, bounded backlogs, tab navigation,
  selections that stay within their lists, ...).
- `tests/` exercises the library on concrete values.
- `app/` is the program around the library: command line parsing, files,
  sockets, signals, the terminal, translations, and the serialized forms of
  the library's types. It acts as the tool it is started as, and as the
  daemon otherwise.

## What the daemon in `app/` does today

It loads its configuration, answers IPC clients, reacts to signals and to
changes of its watched files, and dispatches its internal events. It does
not yet receive process events from the kernel, trace file accesses or map
files into memory: the library holds the decisions of those steps
(`ProcessTracker::process_event`, `ActiveTracers::on_file_opened`,
`replay_decision`, `work_chunk`, `unmap_files`, ...), but the parts that talk
to the kernel's process connector, to fanotify and to `mmap` are not part
of this tree.

The calls that the library makes into outside code (the FNV hasher, the
Fluent formatter of translated messages, the system clock) go through a few
small wrappers whose contracts are trusted; each says in its doc comment
what it claims.
