[package]
name = "kiek_kafka"
version = "0.1.0"
edition = "2021"
publish = false

[dependencies]
levenshtein = "1"
murmur2 = "0.1"
chrono = "0.4"
log = "0.4"
futures = "0.3"
dialoguer = "*"
tokio = { version = "1", features = ["rt", "rt-multi-thread", "time"] }
rdkafka = "*"
aws-msk-iam-sasl-signer = "*"
aws-sdk-sts = "*"
aws-types = "*"
