[package]
name = "title_card"
version = "0.1.0"
edition = "2021"
publish = false

[dependencies]
image = "=0.24.9"
imageproc = "=0.23.1"
lindera-core = "=0.27.2"
lindera-dictionary = "=0.27.2"
lindera-tokenizer = "=0.27.2"
rusttype = "=0.9.3"

[dev-dependencies]
yada = "=0.5.1"
