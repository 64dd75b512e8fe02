[package]
name = "diem_transaction_benchmarks"
version = "0.1.0"
edition = "2021"
publish = false

[dependencies]
csv = "*"
rayon = "*"
num_cpus = "*"
criterion = "*"
