[package]
name = "himalaya_repl"
version = "0.1.0"
edition = "2021"
publish = false

[dependencies]
async-trait = "=0.1.92"
clap = { version = "=4.6.7", features = ["derive", "env"] }
color-eyre = "=0.6.5"
comfy-table = "=7.2.2"
crossterm = { version = "=0.29.0", features = ["serde"] }
email-lib = { version = "=0.27.0", default-features = false, features = ["derive", "maildir", "sendmail"] }
mml-lib = { version = "=1.1.2", default-features = false, features = ["compiler"] }
pimalaya-tui = { version = "=0.3.1", default-features = false, features = ["cli", "config", "tracing", "path"] }
process-lib = { version = "=1.0.0", default-features = false, features = ["tokio"] }
reedline = "=0.52.1"
serde = { version = "=1.0.229", features = ["derive"] }
tokio = { version = "=1.54.1", default-features = false, features = ["macros", "rt-multi-thread"] }
tracing = "=0.1.44"
