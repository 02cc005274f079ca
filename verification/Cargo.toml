[package]
name = "index_check"
version = "0.1.0"
edition = "2021"
publish = false

[dependencies]
gitpatch = "=0.7.1"
serde_json = "*"
nickel-lang-package = "=0.8.0"
nickel-lang-git = "=0.3.0"
nickel-lang-core = { version = "=0.19.0", default-features = false }
octocrab = { version = "=0.41.2", default-features = false }
tokio = { version = "*", default-features = false, features = ["macros", "rt-multi-thread"] }
clap = { version = "*", default-features = false, features = ["std", "derive", "help"] }
miette = { version = "*", default-features = false }
tempfile = "*"
thiserror = "*"
# Not used directly: pins the kstring that gix-attributes pulls in, because
# later 2.0.x patches demand a newer rustc than this project builds with.
kstring = "=2.0.2"
