[package]
name = "precached"
version = "1.4.1"
edition = "2021"
publish = false

[dependencies]
fnv = "=1.0.7"
chrono = { version = "=0.4.45", default-features = false, features = ["clock", "std"] }
inotify = "=0.10.2"
clap = "=2.34.0"
serde = { version = "=1.0.229", features = ["derive"] }
serde_json = "=1.0.154"
toml = "=0.5.11"
log = "=0.4.35"
zmq = "=0.9.2"
libc = "0.2"
nix = { version = "0.29", features = ["signal", "process", "fs", "user", "sched"] }
prettytable-rs = "0.10"
pbr = "1"
zstd = "0.13"
fluent-bundle = "0.15"
unic-langid = "0.9"
termion = "1.5"
tui = { version = "0.19", default-features = false, features = ["termion"] }
lazy_static = "1"
pretty_env_logger = "0.5"
daemonize = "0.5"
