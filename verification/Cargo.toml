[package]
name = "rollout_engine"
version = "0.1.0"
edition = "2021"
publish = false

[dependencies]
chess = "=3.2.0"
rand = "=0.4.6"
rayon = "=1.12.0"
num_cpus = "=1.17.0"
stopwatch = "=0.0.7"
