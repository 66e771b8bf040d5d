//! Host-side protocol and raster pipeline for Supvan T50 Pro family thermal label printers.
//!
//! A page travels `bitmap` (rotate, centre on the printhead) -> `buffer`
//! (4096-byte print buffers) -> `compress` (LZMA1 "alone" stream) ->
//! `speed`, and is sent by the print flow of `engine`, which drives the
//! commands of `cmd` / `usb`, the data frames of `data`, and reads the
//! responses with `status` through the transport chosen in `transport`.
pub mod battery;
pub mod bitmap;
pub mod bits;
pub mod buffer;
pub mod bytes;
pub mod cmd;
pub mod compress;
pub mod counting;
pub mod data;
pub mod device;
pub mod discover;
pub mod dither;
pub mod dump;
pub mod engine;
pub mod error;
pub mod job;
pub mod rfcomm;
pub mod speed;
pub mod status;
pub mod text;
pub mod transport;
pub mod uri;
pub mod usb;
