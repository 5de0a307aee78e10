//! Drivers and their logic for a handful of small ESP32 peripherals: the
//! single-wire DHT11 and DHT22 humidity and temperature sensors, a stepper
//! motor behind a ULN2003, and a WS2812 indicator light with the text
//! commands that set it.
//!
//! The crate names no particular hardware. The drivers reach pins and
//! timers through the traits in [`hal`], which promise nothing, so what is
//! proved of a driver holds whatever the hardware does. At the heart of the
//! sensor driver is the [`session`], a state machine that decides what a
//! read does next and what it comes to; [`trace`] states what whole reads
//! come to.

pub mod color;
pub mod command;
pub mod config;
pub mod dht;
pub mod error;
pub mod frame;
pub mod hal;
pub mod interrupt;
pub mod level;
pub mod reading;
pub mod session;
pub mod stepper;
pub mod text;
pub mod trace;
pub mod variant;
pub mod wifi;
