[package]
name = "timex_core"
version = "0.1.0"
edition = "2021"
publish = false

[dependencies]
gix = "=0.88.0"
syntect = { version = "=5.3.0", default-features = false, features = ["default-syntaxes", "default-themes", "regex-fancy", "parsing"] }
colored = "=3.1.1"
serde = { version = "=1.0.229", features = ["derive"] }
toml = "=1.1.7"
chrono = { version = "=0.4.45", features = ["serde"] }
thiserror = "=2.0.21"
async-openai = { version = "=0.42.1", features = ["chat-completion"] }
tokio = { version = "=1.53.2", features = ["rt-multi-thread", "macros"] }
dotenv = "*"
