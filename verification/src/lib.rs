//! Reading media over HTTP: resources of known length range by range, and live
//! streams segment by segment.
//!
//! The library decides what to ask for, checks what comes back, and says which
//! bytes go to the reader. Whoever drives it does the asking.

pub mod buffer;
pub mod chunk;
pub mod encryption;
pub mod error;
pub mod hexadecimal;
pub mod laws;
pub mod live;
pub mod live_model;
pub mod media_range;
pub mod non_live;
pub mod playlist;
pub mod range;
pub mod remote_data;
pub mod resource_url;
pub mod segment;
pub mod status;
pub mod text;
pub mod views;
