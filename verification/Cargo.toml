[package]
name = "app_web"
version = "0.1.0"
edition = "2021"
publish = false

[dependencies]
anyhow = "1"
bytemuck = { version = "1", features = ["derive"] }
console_error_panic_hook = "0.1"
console_log = "1"
glam = "0.29"
instant = "0.1"
log = "0.4"
rand = "0.8"
wasm-bindgen = "0.2"
wasm-bindgen-futures = "0.4"
web-time = "1"
wgpu = "24"
web-sys = { version = "0.3", features = ["Window", "Document", "Element", "HtmlElement", "HtmlCanvasElement", "DomRect", "Event", "EventTarget", "PointerEvent", "MouseEvent", "KeyboardEvent", "CssStyleDeclaration", "AudioContext", "BaseAudioContext", "OfflineAudioContext", "AudioNode", "AudioParam", "AudioBuffer", "AudioListener", "AudioDestinationNode", "AudioScheduledSourceNode", "GainNode", "OscillatorNode", "OscillatorType", "BiquadFilterNode", "BiquadFilterType", "DynamicsCompressorNode", "ConvolverNode", "DelayNode", "WaveShaperNode", "OverSampleType", "PannerNode", "PanningModelType", "DistanceModelType", "AnalyserNode"] }
