[package]
name = "recipe_store"
version = "0.1.0"
edition = "2021"
publish = false

[dependencies]
rusqlite = { version = "*", features = ["bundled"] }
tokio = { version = "*", features = ["sync"] }
serde = { version = "*", features = ["derive"] }
leptos = { version = "*", features = ["ssr"] }
leptos_meta = { version = "*", features = ["ssr"] }
leptos_router = { version = "*", features = ["ssr"] }
axum = "*"
axum-extra = { version = "*", features = ["typed-header"] }
web-sys = { version = "*", features = ["Window", "MouseEvent", "SubmitEvent"] }
wasm-bindgen = "*"
console_error_panic_hook = "*"
