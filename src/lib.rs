//! Decoding of ARM CoreSight ETMv4 instruction trace captured in an
//! Embedded Trace Buffer.
//!
//! The capture is first split into one byte stream per trace source
//! (`etb_format`), each stream is synchronised on an A-Sync / Trace-Info
//! pair and then decoded packet by packet (`stream`, `etmv4`, `fields`), updating an
//! architectural tracer model (`tracer_etmv4`) and emitting structured events.

pub mod tracer_etmv4;
pub mod pktproto;
pub mod stream;
pub mod fields;
pub mod etmv4;
pub mod etb_format;
