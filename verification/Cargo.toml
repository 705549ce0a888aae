[package]
name = "cs2ts"
version = "0.1.0"
edition = "2021"
publish = false

[dependencies]
chrono = "0.4"
clap = { version = "4", features = ["derive"] }
colored = "*"
glob = "0.3"
notify = "*"
notify-debouncer-mini = "*"
regex = "1"
seahash = "4"
serde = { version = "1", features = ["derive"] }
thiserror = "*"
tokio = { version = "1", features = ["macros", "rt-multi-thread"] }
toml = "*"
