[package]
name = "webwiki"
version = "0.1.0"
edition = "2021"
publish = false

[dependencies]
aes-gcm = "0.10"
axum = "0.8"
base64 = "0.22"
git2 = "0.20"
gloo-dialogs = "0.2"
gloo-net = "0.6"
gloo-storage = "0.3"
gloo-timers = "0.3"
gloo-utils = "0.2"
hmac = "0.12"
js-sys = "0.3"
pbkdf2 = "0.12"
pulldown-cmark = "0.12"
rand = "0.8"
serde = { version = "1", features = ["derive"] }
serde_json = "1"
sha2 = "0.10"
subtle = "2"
thiserror = "1"
tokio = { version = "1", features = ["full"] }
tower = { version = "0.5", features = ["util"] }
tower-http = { version = "0.6", features = ["fs"] }
tower-sessions = "0.14"
walkdir = "2"
wasm-bindgen = "0.2"
wasm-bindgen-futures = "0.4"
web-sys = { version = "0.3", features = ["Document", "Element", "Event", "EventTarget", "HtmlElement", "HtmlInputElement", "HtmlSelectElement", "HtmlTextAreaElement", "InputEvent", "KeyboardEvent", "Location", "MouseEvent", "SubmitEvent", "Window"] }
yew = { version = "0.21", features = ["csr"] }
yew-router = "0.18"
