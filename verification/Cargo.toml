[package]
name = "changelogging"
version = "0.7.0"
edition = "2021"
publish = false

[dependencies]
clap = { version = "4", features = ["derive"] }
edit = "0.1"
handlebars = "6"
itertools = "0.13"
miette = "7"
serde = { version = "1", features = ["derive"] }
textwrap = "0.16"
thiserror = "1"
time = { version = "0.3", features = ["formatting", "macros", "parsing"] }
toml = "0.8"
