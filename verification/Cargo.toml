[package]
name = "mailreply"
version = "0.1.0"
edition = "2021"
publish = false

[dependencies]
lettre = { version = "=0.11.23", default-features = false, features = ["builder", "sendmail-transport"] }
mail-parser = "=0.11.9"
clap = { version = "=4.6.7", features = ["derive"] }
gix-config = "=0.47.1"
