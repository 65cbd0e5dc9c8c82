[package]
name = "chat_relay"
version = "0.1.0"
edition = "2021"
publish = false

[dependencies]
log = "0.4"
wasm-bindgen = "0.2"
web-sys = { version = "0.3", features = ["CloseEvent", "ErrorEvent", "Event", "EventTarget", "HtmlInputElement", "InputEvent", "MessageEvent", "WebSocket"] }
yew = "0.19"
yew-agent = "0.1"
yew-router = "0.16"

[dev-dependencies]
serde_json = "1"
