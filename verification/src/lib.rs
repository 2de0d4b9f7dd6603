//! Verified core of a NETCONF 1.0 client for Juniper-style routers.
//!
//! The crate covers the protocol logic that can be checked: message framing
//! over a byte stream (`frame`), the schema-exact XML codec for requests and
//! replies (`tok`, `text`, `num`, `encode`, `decode`), and the interpretation
//! of reply sequences for each operation (`ops`).  Transport acquisition and
//! all I/O stay outside the crate; callers hand in raw bytes and get back
//! decoded structures or classified failures.

pub mod tok;
pub mod xml;
pub mod error;
pub mod encode;
pub mod ops;
pub mod decode;
pub mod laws;
pub mod roundtrip;
pub mod text;
pub mod num;
pub mod util;
pub mod frame;
