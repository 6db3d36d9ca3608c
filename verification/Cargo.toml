[package]
name = "msx_rs"
version = "0.1.0"
edition = "2021"

[dependencies]
psg = "=1.0.1"
z80emu = "=0.11.0"
zip = { version = "=8.6.0", default-features = false, features = ["deflate"] }
png = "=0.17.16"
pollster = "0.4"
bytemuck = { version = "1", features = ["derive"] }
winit = "0.30"
wgpu = "29"
cpal = "0.17"
egui = "0.34"
egui-wgpu = "0.34"
egui-winit = "0.34"
web-time = "1"
wasm-bindgen = "0.2"
wasm-bindgen-futures = "0.4"
js-sys = "0.3"
console_error_panic_hook = "0.1"
web-sys = { version = "0.3", features = ["AudioBuffer", "AudioContext", "AudioContextState", "AudioDestinationNode", "AudioNode", "AudioProcessingEvent", "Blob", "CssStyleDeclaration", "DataTransfer", "Document", "DragEvent", "Event", "EventTarget", "File", "FileList", "HtmlCanvasElement", "HtmlElement", "Location", "Response", "ScriptProcessorNode", "Url", "UrlSearchParams", "Window", "console"] }
