//! Bit-banged SPI flash programming over a raw GPIO adapter.
//!
//! The adapter exposes only byte-level pin writes and reads, so every part of
//! the SPI protocol — clock generation, chip-select sequencing, command
//! encoding, status polling — is synthesized in software.  This crate holds
//! the verified core: the pin model, the waveform encoder and decoder, the
//! flash command engine and the page-programming workflow.  The USB transport
//! itself performs I/O and stays outside the verified library; it executes
//! the operation scripts this crate produces and feeds observed values back
//! into the decision functions.

pub mod error;
pub mod flash;
pub mod ftdi;
pub mod pins;
pub mod spi;
pub mod workflow;
