[package]
name = "wadl"
version = "0.1.0"
edition = "2021"
publish = false

[dependencies]
xmltree = { version = "*", features = ["attribute-order"] }
url = "2"
mime = "0.3"
html2md = "*"
iri-string = "*"
log = "0.4"
clap = { version = "4", features = ["derive"] }
env_logger = "*"
reqwest = { version = "*", default-features = false, features = ["blocking"] }
serde_json = "1"
async-trait = "0.1"
