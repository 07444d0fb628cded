[package]
name = "deadline_queue"
version = "0.1.0"
edition = "2021"
publish = false

[dependencies]
fibers = "0.1"
futures = "0.1"
