//! Verified core of a serial telemetry ground-station pipeline.
//!
//! The crate decodes comma-separated telemetry lines into structured
//! samples, keeps a bounded FIFO history of recent samples, renders
//! append-only log records, and models the last-write-wins valve command
//! relay together with the periodic command broadcast line.  All parsing,
//! formatting, buffering and relay logic is verified; serial and file I/O
//! stay outside the library and hand it plain byte lines.

pub mod broadcast_line;
pub mod decode;
pub mod fields;
pub mod float_text;
pub mod log_record;
pub mod num_text;
pub mod pipeline;
pub mod relay;
pub mod ring;
pub mod sample;
