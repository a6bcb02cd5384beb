[package]
name = "intercom"
version = "0.1.0"
edition = "2021"
publish = false

[dependencies]
phonenumber = "*"
serde = { version = "1", features = ["derive"] }
serde_json = "1"
sysfs_gpio = "*"
i2cdev = "*"
