[package]
name = "weather_station"
version = "0.1.0"
edition = "2021"
publish = false

[dependencies]
arrayvec = { version = "=0.5.2", default-features = false }
bme280 = "0.2.1"
cortex-m = "0.6.7"
cortex-m-rt = "0.6.15"
embedded-hal = "0.2.7"
panic-halt = "0.2.0"
ssd1306 = { version = "0.3.1", default-features = false }
stm32f1xx-hal = { version = "0.5.3", features = ["stm32f103", "rt"] }
