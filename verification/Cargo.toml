[package]
name = "geo_utility"
version = "0.1.0"
edition = "2021"
publish = false

[dependencies]
union-find = "*"
geo = "0.30.0"
geojson = "0.24.2"
rstar = "0.12.2"
ordered-float = "2.0"
serde = { version = "1.0", features = ["derive"] }
serde_json = "1.0"
thiserror = "1.0"
rand = "0.8"
rayon = "*"
proj = "0.28.0"
