[package]
name = "equalizer"
version = "0.2.0"
edition = "2021"
publish = false

[dependencies]
anyhow = "1"
clap = { version = "4", features = ["derive"] }
crossterm = "0.28"
directories = "5"
hyper-util = { version = "0.1", features = ["tokio"] }
libc = "0.2"
prost = "0.13"
prost-types = "0.13"
ratatui = "0.29"
rockbox-dsp = "0.4"
serde = { version = "1", features = ["derive"] }
tokio = { version = "1", features = ["rt", "rt-multi-thread", "net", "sync", "time", "macros"] }
tokio-stream = { version = "0.1", features = ["net"] }
toml = "0.8"
tonic = "0.12"
tonic-reflection = "0.12"
tonic-web = "0.12"
tower = { version = "0.5", features = ["util"] }
tracing = "0.1"
tracing-subscriber = { version = "0.3", features = ["env-filter"] }
