[package]
name = "raspberry_pi_localization"
version = "0.1.0"
edition = "2021"
publish = false

[dependencies]
base64 = "*"
bytes = "*"
chrono = "*"
futures = "*"
gilrs = "*"
i2cdev = "*"
log = "*"
nmea = "*"
plotters = "*"
reqwest = { version = "*", default-features = false, features = ["stream"] }
serde = { version = "*", features = ["derive"] }
serialport = { version = "*", default-features = false }
simplelog = "*"
spidev = "*"
tokio = { version = "*", features = ["rt", "rt-multi-thread", "sync"] }
toml = "*"
