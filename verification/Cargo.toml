[package]
name = "crateful"
version = "0.1.0"
edition = "2021"
publish = false

[dependencies]
cli-log = "=2.1.1"
color-eyre = "=0.6.5"
crossterm = "=0.29.0"
derive_setters = "=0.1.9"
directories = "=6.0.0"
dirs = "=7.0.0"
dotenv = "=0.15.0"
libc = "=0.2.191"
ratatui = "=0.30.2"
ratatui-explorer = "=0.3.0"
rodio = "=0.21.1"
symphonia = "=0.5.5"
tokio = { version = "=1.54.1", features = ["full"] }
walkdir = "=2.5.0"
