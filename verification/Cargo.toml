[package]
name = "iam_eks_user_mapper"
version = "0.1.0"
edition = "2021"
publish = false

[dependencies]
aws-config = { version = "=1.12.0", features = ["behavior-version-latest"] }
aws-sdk-iam = "=1.128.0"
aws-sdk-sts = "=1.119.0"
aws-types = "=1.6.0"
clap = { version = "=4.6.7", features = ["derive", "env"] }
k8s-openapi = { version = "=0.20.0", features = ["latest"] }
kube = "=0.87.2"
serde = { version = "=1.0.229", features = ["derive"] }
serde_yaml = "=0.9.34"
thiserror = "=1.0.69"
tokio = { version = "=1.54.1", features = ["macros", "rt-multi-thread", "time"] }
tracing = "=0.1.44"
tracing-subscriber = { version = "=0.3.23", features = ["env-filter"] }
