[package]
name = "matrix_demo"
version = "0.1.0"
edition = "2021"
publish = false

[dependencies]
heapless = "=0.8.0"
matrix-gui = { version = "=0.3.1", features = ["interaction", "popup", "animation", "clipped_draw"] }
enum-iterator = "=2.3.0"
paste = "=1.0.15"
multi-mono-font = "=0.5.1"
embedded-graphics = "=0.8.2"
embedded-hal = "=1.0.0"
local_static = "=0.1.1"
bare-sync = "=0.1.1"
static_cell = "=2.1.1"
log = "=0.4.35"
num-traits = { version = "=0.2.19", default-features = false }
embassy-time = "=0.5.1"
wasm-bindgen = "=0.2.130"
web-sys = { version = "=0.3.107", features = ["console", "Window", "Document", "Element", "EventTarget", "MouseEvent", "HtmlCollection", "DomRect"] }
embedded-graphics-web-simulator = "=0.4.0"
console_error_panic_hook = "=0.1.7"
esp-hal = { version = "*", features = ["esp32s3"] }
esp-rtos = { version = "*", features = ["esp32s3"] }
esp-backtrace = { version = "*", features = ["esp32s3"] }
esp-println = { version = "*", features = ["esp32s3"] }
esp-bootloader-esp-idf = { version = "*", features = ["esp32s3"] }
embassy-executor = "*"
embassy-sync = "=0.7.2"
embedded-hal-bus = "*"
dummy-pin = "*"
critical-section = "=1.2.0"
st7789-lcd = "*"
