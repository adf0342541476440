[package]
name = "loadem"
version = "0.1.0"
edition = "2021"
publish = false

[dependencies]
clap = "2.34.0"
ctrlc = "3"
futures = "0.3"
hyper = { version = "=0.14.28", features = ["client", "http1", "http2", "tcp"] }
hyper-rustls = "=0.22.1"
rustls = { version = "=0.19.1", features = ["dangerous_configuration"] }
rustls-native-certs = "=0.5.0"
simple-error = "0.2"
tokio = { version = "1", features = ["rt-multi-thread", "sync", "time", "io-util", "io-std", "macros"] }
webpki = "=0.21.4"
