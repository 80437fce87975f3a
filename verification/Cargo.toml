[package]
name = "minishell"
version = "0.1.0"
edition = "2021"
publish = false

[dependencies]
anyhow = "*"
is_executable = "*"
libc = "*"
os_pipe = "*"
radix_trie = "*"
rustyline = "*"
strum = { version = "*", features = ["derive"] }
