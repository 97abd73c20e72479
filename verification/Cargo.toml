[package]
name = "pomodoro"
version = "0.1.0"
edition = "2021"
publish = false

[dependencies]
leptos = { version = "0.8", features = ["csr"] }
idb = "0.6"
serde = { version = "1", features = ["derive"] }
serde-wasm-bindgen = "0.6"
wasm-bindgen = "0.2"
js-sys = "0.3"
web-sys = { version = "0.3", features = ["AudioContext", "BaseAudioContext", "OscillatorNode", "OscillatorType", "GainNode", "AudioParam", "AudioNode", "AudioScheduledSourceNode", "AudioDestinationNode", "console", "Event", "EventTarget", "HtmlInputElement", "KeyboardEvent"] }
gloo-timers = { version = "0.3", features = ["futures"] }
console_error_panic_hook = "0.1"
