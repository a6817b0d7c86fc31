[package]
name = "pictionary"
version = "0.1.0"
edition = "2021"
publish = false

[dependencies]
regex = "1"
lazy_static = "1"
log = "0.4"
serde = { version = "1", features = ["derive"] }
yew = "0.17"
yew-router = "0.14"
yewtil = "0.3"
gloo = "0.2"
js-sys = "0.3"
wasm-bindgen = { version = "0.2", features = ["serde-serialize"] }
wasm-bindgen-futures = "0.4"
wasm-logger = "0.2"
web-sys = { version = "0.3", features = ["WebSocket", "MessageEvent", "BinaryType", "RtcPeerConnection", "RtcConfiguration", "RtcDataChannel", "RtcDataChannelInit", "RtcDataChannelState", "RtcDataChannelEvent", "RtcIceConnectionState", "RtcPeerConnectionIceEvent", "RtcIceCandidate", "RtcIceCandidateInit", "RtcSessionDescription", "RtcSessionDescriptionInit", "RtcSdpType", "HtmlCanvasElement", "CanvasRenderingContext2d", "HtmlElement", "HtmlInputElement", "HtmlAudioElement", "HtmlMediaElement", "MouseEvent", "TouchEvent", "TouchList", "Touch", "WheelEvent", "DomRect", "Element", "CssStyleDeclaration", "Blob", "BlobEvent", "BlobPropertyBag", "MediaDevices", "MediaRecorder", "MediaRecorderOptions", "MediaStream", "MediaStreamConstraints", "MediaTrackConstraints", "Navigator", "Url", "Window", "FocusEvent", "Event", "EventTarget"] }
