[package]
name = "raid_planner"
version = "0.1.0"
edition = "2021"
publish = false

[dependencies]
uuid = { version = "=1.29.0", features = ["v4"] }
itertools = "=0.13.0"
convert_case = "=0.6.0"
nanoid = "=0.4.0"
serde = { version = "=1.0.229", features = ["derive"] }
leptos = "=0.7.8"
web-sys = { version = "=0.3.107", features = ["Window", "Navigator", "Clipboard", "console", "Element", "Node", "NodeList", "HtmlInputElement", "KeyboardEvent", "FocusEvent", "MouseEvent", "ScrollIntoViewOptions", "ScrollLogicalPosition"] }
wasm-bindgen = "=0.2.130"
wasm-bindgen-futures = "=0.4.80"
