[package]
name = "lightstatic"
version = "0.1.0"
edition = "2021"
publish = false

[dependencies]
ahash = "0.8"
async-compression = { version = "0.3", features = ["futures-io", "gzip"] }
async-std = { version = "1", features = ["attributes"] }
chrono = "0.4"
clap = { version = "3.2", features = ["derive"] }
colored = "2"
dirs = "4"
fern = { version = "0.6", features = ["date-based"] }
flate2 = "1"
futures = "0.3"
http-types = "2"
libc = "0.2"
local-ip-address = "*"
log = "0.4"
open = "*"
path-absolutize = "3"
port-selector = "*"
regex = "1"
signal-hook = "0.3"
signal-hook-async-std = "0.2"
tide = { version = "0.16", default-features = false, features = ["h1-server"] }
