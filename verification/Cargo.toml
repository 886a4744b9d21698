[package]
name = "heif_decode"
version = "0.1.0"
edition = "2021"
publish = false

[dependencies]
brotli = "=9.1.1"
flate2 = "=1.1.10"
moxcms = "=0.9.1"
png = "=0.18.1"
rav1d = { version = "=1.1.0", default-features = false, features = ["bitdepth_8", "bitdepth_16"] }
rayon = "=1.12.0"
scuffle-h265 = "=0.2.2"

[dev-dependencies]
qcms = "=0.3.0"
