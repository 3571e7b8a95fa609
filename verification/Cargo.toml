[package]
name = "zeromq"
version = "0.1.0"
edition = "2021"
publish = false

[dependencies]
async-trait = "0.1"
bytes = "1"
crossbeam-queue = "0.3"
futures = "0.3"
log = "0.4"
parking_lot = "0.12"
scc = "3"
