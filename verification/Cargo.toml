[package]
name = "async_task_pool"
version = "0.1.0"
edition = "2021"
publish = false

[dependencies]
bevy = { version = "=0.12.1", default-features = false, features = ["multi-threaded"] }
futures-util = { version = "=0.3.34", default-features = false, features = ["alloc"] }
