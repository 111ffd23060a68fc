[package]
name = "xid"
version = "1.0.0"
edition = "2021"
publish = false

[dependencies]
crc32fast = "=1.5.3"
hostname = "=0.3.1"
md5 = "=0.7.0"
once_cell = "=1.21.4"
rand = "=0.8.8"
sysctl = "=0.4.6"
thiserror = "=1.0.69"
winreg = "0.52"
