[package]
name = "ungoliant"
version = "0.1.0"
edition = "2021"
publish = false

[dependencies]
env_logger = "*"
fasttext = "*"
itertools = "*"
log = "0.4"
oxilangtag = "*"
rayon = "1"
serde_json = "1"
structopt = "0.3"
twox-hash = "*"
url = "2"
ut1_blocklist = "*"
warc = "*"
