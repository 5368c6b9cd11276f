[package]
name = "router_service"
version = "0.1.0"
edition = "2021"
publish = false

[dependencies]
matchit = "=0.7.3"
http = "=1.5.0"
tower = "=0.5.3"
futures-util = "=0.3.34"

[dev-dependencies]
futures = "=0.3.34"
