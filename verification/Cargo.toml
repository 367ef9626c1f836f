[package]
name = "mipush_zygisk"
version = "0.1.0"
edition = "2021"
publish = false

[dependencies]
android_logger = "=0.15.1"
jni = "=0.22.4"
log = "=0.4.35"
