[package]
name = "topic_broadcast"
version = "0.1.0"
edition = "2021"
publish = false

[dependencies]
asynchronous-codec = "0.7"
bytes = "1"
futures = "0.3"
libp2p = "0.55"
prometheus-client = "0.22"
tracing = "0.1"
unsigned-varint = "0.8"
