[package]
name = "cgroup_harness"
version = "0.1.0"
edition = "2021"
publish = false

[dependencies]
gettid = "0.1"
cgroups-rs = "0.3"
