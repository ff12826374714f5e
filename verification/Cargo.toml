[package]
name = "microsleep"
version = "0.1.0"
edition = "2021"
publish = false

[dependencies]
async-io = "=2.6.0"
event-listener = "=5.4.2"
futures-intrusive = "=0.5.0"
futures-lite = "=2.6.1"
once_cell = "=1.21.4"
parking_lot = "=0.12.5"
priority-queue = "=2.7.0"
slab = "=0.4.12"
spin_sleep = "=1.3.3"
