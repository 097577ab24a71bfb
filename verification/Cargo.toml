[package]
name = "bios_bootloader"
version = "0.1.0"
edition = "2021"
publish = false

[dependencies]
bit_field = "0.10"
bootloader_api = "0.11"
fatfs = "0.3"
mbrman = "0.5"
ovmf-prebuilt = "=0.1.0-alpha.1"
tempfile = "3"
