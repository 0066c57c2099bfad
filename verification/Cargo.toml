[package]
name = "hemnet_pipeline"
version = "0.1.0"
edition = "2021"
publish = false

[dependencies]
anyhow = "*"
aws-config = "*"
aws-sdk-dynamodb = "*"
aws-sdk-s3 = "*"
aws-sdk-sesv2 = "*"
aws-smithy-http = "*"
bytes = "*"
dotenvy = "*"
lambda_runtime = "*"
log = "*"
mail-builder = "*"
mail-parser = "*"
reqwest = { version = "*", default-features = false, features = ["json"] }
serde = { version = "*", features = ["derive"] }
serde_json = "*"
simple_logger = "*"
tokio = { version = "*", features = ["macros", "rt"] }
uuid = { version = "*", features = ["v4"] }
