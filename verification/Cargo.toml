[package]
name = "sqzer"
version = "0.1.0"
edition = "2021"
publish = false

[dependencies]
kamadak-exif = "=0.6.1"
tiff = "=0.11.3"
exr = "=1.74.2"
jxl-oxide = "=0.12.6"
png = "=0.18.1"
gif = "=0.14.2"
zune-jpeg = "=0.5.15"
image-webp = "=0.2.4"
glob = "=0.3.4"
image = { version = "=0.25.10", default-features = false, features = ["bmp", "tga", "ico", "qoi", "pnm"] }
resvg = "=0.49.0"
avif-parse = "=2.1.0"
re_rav1d = { version = "=0.1.3", default-features = false, features = ["bitdepth_8", "bitdepth_16"] }
yuv = "=0.8.20"
