[package]
name = "something_awful"
version = "0.1.0"
edition = "2021"
publish = false

[dependencies]
scraper = "=0.27.0"
reqwest = { version = "=0.13.5", default-features = false, features = ["cookies", "json", "multipart", "form", "query"] }
reqwest_cookie_store = "=0.10.0"
cookie_store = "=0.22.1"
url = "=2.5.8"
serde = { version = "=1.0.229", features = ["derive"] }
serde_json = "=1.0.151"
tokio = { version = "=1.53.2", features = ["macros", "rt", "time"] }
clap = { version = "=4.6.7", features = ["derive"] }
rpassword = "=7.5.4"
html2md = "=0.2.17"
thiserror = "=2.0.21"
