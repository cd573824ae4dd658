[package]
name = "softnet"
version = "0.1.0"
edition = "2021"
publish = false

[dependencies]
anyhow = "1"
clap = { version = "4", features = ["derive"] }
coarsetime = "*"
dhcproto = "*"
ip_network = "*"
ipnet = "2"
jsonrpsee-types = "*"
libc = "0.2"
log = "0.4"
mac_address = "1"
nix = { version = "*", features = ["signal", "socket"] }
num_enum = "*"
oslog = "*"
pcap = "*"
pnet_datalink = "*"
polling = "3"
prefix-trie = "*"
privdrop = "*"
sentry = { version = "*", default-features = false }
sentry-anyhow = { version = "*", default-features = false }
serde = { version = "1", features = ["derive"] }
serde_json = "1"
smoltcp = "*"
system-configuration = "*"
uzers = "*"
vmnet = "*"
