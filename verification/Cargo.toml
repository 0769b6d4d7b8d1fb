[package]
name = "retrolib"
version = "0.1.0"
edition = "2021"
publish = false

[dependencies]
anyhow = "=1.0.104"
argh = "=0.1.19"
log = "=0.4.35"
env_logger = "=0.11.11"
memmap2 = "=0.9.12"
tegra_swizzle = "=0.3.2"
bcdec_rs = "=0.2.1"
astc-decode = "=0.3.1"
image = { version = "=0.24.9", default-features = false, features = ["png"] }
ddsfile = "=0.6.0"
num-traits = "=0.2.19"
uuid = "=1.29.0"
flate2 = "=1.1.10"
gltf-json = { version = "=1.0.0", features = ["names", "extras"] }
serde_json = "1"
half = "2"
