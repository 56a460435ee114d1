[package]
name = "roa"
version = "0.1.0"
edition = "2021"
publish = false

[dependencies]
async-trait = "0.1"
futures = "0.3"
http = "0.2"
hyper = { version = "0.14", features = ["server", "http1", "tcp"] }
percent-encoding = "2"
radix_trie = "0.2"

[dev-dependencies]
multimap = "0.8"
slab = "0.4"
