[package]
name = "sonicdisk"
version = "0.1.0"
edition = "2021"
publish = false

[dependencies]
clap = "=2.34.0"
ctrlc = "=3.5.2"
dokan = "=0.3.1"
dokan-sys = "=0.3.1"
reqwest = { version = "=0.11.27", default-features = false, features = ["blocking", "rustls-tls"] }
sunk = "=0.1.2"
widestring = "=0.4.3"
winapi = { version = "=0.3.9", features = ["errhandlingapi", "heapapi", "minwindef", "ntdef", "ntstatus", "securitybaseapi", "winerror", "winnt"] }

[dev-dependencies]
serde_json = "1"
