[package]
name = "sonic_deck"
version = "0.1.0"
edition = "2021"
publish = false

[dependencies]
lru = "=0.19.0"
cpal = "0.15"
symphonia = { version = "0.5", features = ["mp3", "aac", "isomp4", "ogg", "vorbis", "wav", "pcm"] }
serde = { version = "1", features = ["derive"] }
serde_json = "1"
thiserror = "1"
