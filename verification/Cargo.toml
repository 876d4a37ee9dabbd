[package]
name = "unbox"
version = "0.1.0"
edition = "2021"
publish = false

[dependencies]
ar = "=0.9.0"
bzip2 = "=0.6.1"
cab = "=0.6.0"
clap = "=4.6.7"
console = "=0.16.6"
failure = "=0.1.8"
goblin = "=0.10.7"
indicatif = "=0.18.6"
libflate = "=2.3.2"
memmap = "=0.7.0"
owning_ref = "=0.4.1"
petgraph = "=0.5.1"
stable_deref_trait = "=1.2.1"
strum = "=0.28.0"
strum_macros = "=0.28.0"
tar = "=0.4.46"
tree_magic = { version = "=0.2.3", features = ["staticmime"] }
uuid = { version = "=1.29.0", features = ["v4"] }
xz2 = "=0.1.7"
zip = { version = "=9.1.0", default-features = false, features = ["deflate"] }

[dev-dependencies]
regex = "=1.13.1"
