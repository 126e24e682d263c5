[package]
name = "coop_blink"
version = "0.1.0"
edition = "2021"
publish = false

[dependencies]
embassy-time = { version = "0.3.0", features = ["std"] }
embassy-executor = { version = "0.5.0", features = ["arch-std", "executor-thread"] }
embassy-stm32 = { version = "0.1.0", features = ["stm32u585ai", "exti"] }
defmt-rtt = "0.4"
panic-probe = "0.3"
