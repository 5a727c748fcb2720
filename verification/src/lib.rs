//! Passive decoder for IEEE 802.11 management and data frames, and an
//! incremental topology mapper that folds decoded frames into a deduplicated
//! graph of access points, client nodes and links.
//!
//! The crate is organised as the capture pipeline is: `dot11` decodes the
//! fixed MAC header (frame control, addresses), `info` decodes the
//! variable-length management-frame bodies (SSID, supported rates, country),
//! and `mapper` aggregates decoded frames into per-BSSID collections.
//! Capture sources, OS interface control and export formats live outside
//! this crate; it works on plain byte buffers and returns plain values.

pub mod dot11;
pub mod errors;
pub mod info;
pub mod mapper;
pub mod util;
