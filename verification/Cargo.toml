[package]
name = "kernel_net"
version = "0.1.0"
edition = "2021"
publish = false

[dependencies]
smoltcp = { version = "0.10", default-features = false, features = ["alloc", "log", "medium-ip", "medium-ethernet", "proto-ipv4", "proto-ipv6", "proto-dhcpv4", "socket-tcp", "socket-udp", "socket-raw", "socket-dhcpv4"] }
log = "0.4"
spin = "0.9"
