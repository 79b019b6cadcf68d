[package]
name = "typwiki"
version = "0.1.0"
edition = "2021"
publish = false

[dependencies]
typst = "=0.15.1"
typst-library = "=0.15.1"
typst-html = "=0.15.1"
typst-kit = { version = "=0.15.1", default-features = false, features = ["datetime", "embedded-fonts", "emit-diagnostics", "scan-fonts", "system-files"] }
typst-macros = "=0.15.1"
typst-utils = "=0.15.1"
comemo = "=0.5.1"
rustc-hash = "=2.1.3"
walkdir = "=2.5.0"
mime_guess = "=2.0.5"
bytes = "=1.12.1"
clap = { version = "=4.6.7", features = ["derive"] }
tokio = { version = "=1.54.1", features = ["rt-multi-thread", "macros", "sync", "net"] }
axum = "=0.8.9"
tower = { version = "=0.5.3", features = ["util"] }
tower-http = { version = "=0.6.11", features = ["fs"] }
tower-livereload = "=0.10.3"
tracing = "=0.1.44"
tracing-subscriber = "=0.3.23"
notify = "=8.2.1"
reqwest = { version = "=0.13.5", default-features = false }
