//! Decoding of CAN bus traffic: bit-field extraction, a catalog of message
//! layouts, a live table of the latest frame per identifier, and the
//! decisions of the read/write session that feeds it.

pub mod codec;
pub mod frame;
pub mod table;
pub mod catalog;
pub mod parser;
pub mod session;
