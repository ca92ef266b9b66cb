[package]
name = "daisy_rs"
version = "0.1.0"
edition = "2021"
publish = false

[dependencies]
anyhow = "1"
clap = { version = "4", features = ["derive"] }
cortex-m = "0.7"
dfu-nusb = "*"
indicatif = "*"
libm = "0.2"
libtest-mimic = "*"
nusb = "*"
object = "*"
ratatui-core = "*"
serde = { version = "1", features = ["derive"] }
stm32h7xx-hal = { version = "0.16", features = ["stm32h750v", "usb_hs"] }
tokio = { version = "1", features = ["rt", "net", "time"] }
toml = "*"
usb-device = "0.3"
usbd-dfu = "*"
usbd-serial = "0.2"
