//! A console for a microcontroller reached over a USB serial port: the line
//! tokenizer, the command registry and dispatcher, the pin ownership table,
//! the byte buffer and transport decisions, and the cooperative timer task.

pub mod text;
pub mod args;
pub mod bounded;
pub mod commands;
pub mod config;
pub mod error;
pub mod fifo_buffer;
pub mod gpios;
pub mod log;
pub mod parser;
pub mod pin_config;
pub mod program;
pub mod pwms;
pub mod serial_io;
pub mod tasklet;
