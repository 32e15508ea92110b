[package]
name = "wie_jni"
version = "0.1.0"
edition = "2021"
publish = false

[dependencies]
android_log-sys = "=0.3.2"
anyhow = "=1.0.104"
async-trait = "=0.1.92"
jni = "=0.21.1"
log = "=0.4.35"
ndk = "=0.9.0"
tracing = "=0.1.44"
