//! Firmware core of an I2C-attached display co-processor.
//!
//! The host uploads sprite assets over I2C into a persistent key/value
//! store and asks for glyphs to be drawn on a monochrome LCD.  This crate
//! holds the verified logic of that firmware: the byte-level command
//! protocol, the typed asset store with its LRU descriptor cache, the
//! render pipeline, the control-input counters and the register dispatch
//! tables.  Hardware transport (SPI, I2C, PWM) stays outside; the store
//! itself is the `kvs` flash key/value store driven through a small set
//! of trusted wrappers.

pub mod app;
pub mod config;
pub mod controls;
pub mod dispatch;
pub mod display;
pub mod err;
pub mod kv;
pub mod render;
pub mod server;
pub mod store;
