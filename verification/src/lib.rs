//! Inspection of Kawai K4 patch-bank SysEx dumps.
//!
//! The crate validates a raw byte buffer as a well-formed K4 bank, decodes it
//! into its patch records, and renders the wave reference table.

pub mod bank;
pub mod sysex;
pub mod text;
pub mod wave;
