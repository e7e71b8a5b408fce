[package]
name = "stu_view"
version = "0.1.0"
edition = "2021"
publish = false

[dependencies]
textwrap = "*"
ratatui = "*"
crossterm = "*"
chrono = "*"
aws-config = { version = "*", default-features = false }
aws-sdk-s3 = { version = "*", default-features = false }
aws-smithy-types = "*"
