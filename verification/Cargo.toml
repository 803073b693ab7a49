[package]
name = "kira_cdh_compat_fastq_reader"
version = "0.1.0"
edition = "2021"
publish = false

[dependencies]
flate2 = "1"
memmap2 = "0.9"
log = "0.4"
thiserror = "1"
tokio = { version = "1", features = ["fs", "io-util"] }
async-compression = { version = "0.4", features = ["tokio", "gzip"] }
