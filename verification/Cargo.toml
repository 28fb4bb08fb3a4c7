[package]
name = "zmanager_core"
version = "0.1.0"
edition = "2021"
publish = false

[dependencies]
bzip2 = "=0.6.1"
dpp = "=0.6.1"
flate2 = "=1.1.10"
forensic-vfs = "=0.7.2"
forensic-vfs-engine = "=0.1.10"
hex = "=0.4.3"
iso9660-forensic = "=0.7.6"
ntfs-core = "=0.9.6"
openssl = "=0.10.82"
rand = "=0.9.5"
serde_json = "=1.0.154"
serde_json_canonicalizer = "=0.4.1"
sha1 = "=0.10.7"
tzap-core = "=0.2.7"
tzap-plugin-keywrap = "=0.2.7"
tzap-plugin-signing = "=0.2.7"
