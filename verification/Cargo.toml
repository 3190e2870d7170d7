[package]
name = "activity_tracker"
version = "0.1.0"
edition = "2021"
publish = false

[dependencies]
env_logger = "*"
log = "*"
reqwest = { version = "*", features = ["blocking"] }
serde = { version = "*", features = ["derive"] }
serde_json = "*"
sqlite = "*"
toml = "*"
winapi = { version = "0.3", features = ["handleapi", "minwindef", "processthreadsapi", "winbase", "windef", "winnt", "winuser"] }
