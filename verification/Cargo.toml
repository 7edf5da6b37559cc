[package]
name = "redbook"
version = "0.1.0"
edition = "2021"
publish = false

[dependencies]
cdtoc = { version = "=0.12.0", features = ["musicbrainz"] }
metaflac = "=0.2.8"
zune-jpeg = "=0.5.15"
flacenc = "=0.5.1"
musicbrainz_rs = { version = "=0.12.0", default-features = false, features = ["blocking", "rustls"] }
reqwest = { version = "=0.12.28", default-features = false, features = ["blocking", "rustls-tls"] }
