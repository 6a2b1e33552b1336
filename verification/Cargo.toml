[package]
name = "fee_manager"
version = "0.1.0"
edition = "2021"
publish = false

[dependencies]
ethers-core = "=2.0.14"
im = "=15.1.0"
snafu = "=0.7.5"
async-trait = "=0.1.92"
