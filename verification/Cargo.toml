[package]
name = "query_cache"
version = "0.1.0"
edition = "2021"
publish = false

[dependencies]
lru = "=0.19.0"
lazy_static = "=1.5.1"
pgrx = "=0.12.9"
