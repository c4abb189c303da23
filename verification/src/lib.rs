//! Command framing and reply decoding for the 7941W RFID reader/writer.
//!
//! The reader speaks a byte protocol over UART: every request frame starts with
//! `AB BA`, carries an address byte, a command byte, a length byte and a payload,
//! and ends with a checksum byte that is the XOR of every byte from the address
//! byte on. This crate builds those frames and decodes the reader's replies; the
//! serial transport itself is left to the caller.
pub mod common;
pub mod driver_125khz;
pub mod driver_nfc;
pub mod menu;
