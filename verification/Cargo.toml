[package]
name = "proc_doc"
version = "0.1.0"
edition = "2021"
publish = false

[dependencies]
clap = { version = "=4.6.7", features = ["derive"] }
csv = "=1.4.0"
dirs = "=7.0.0"
docx-rs = "=0.4.22"
pdf-extract = "=0.12.1"
printpdf = "=0.7.0"
quickxml_to_serde = "=0.7.1"
serde_json = "=1.0.154"
serde-xml-rs = "=0.6.0"
slicestring = "=0.3.3"
