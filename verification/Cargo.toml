[package]
name = "musicfetch"
version = "0.1.0"
edition = "2021"
publish = false

[dependencies]
cursive = "*"
cursive-aligned-view = "*"
fs_extra = "*"
home = "*"
infer = "*"
lexopt = "*"
lofty = "*"
log = "*"
minreq = "*"
serde_json = "*"
simplelog = "*"
toml = "*"
