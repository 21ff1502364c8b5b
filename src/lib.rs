//! Packet layouts described as data, and views over byte buffers that read
//! and write their fields bit-exactly.
//!
//! A schema is an ordered list of field declarations (`schema`), whose
//! type tags follow a small grammar (`types`) and whose variable-length
//! fields are sized by restricted arithmetic over earlier fields
//! (`lengthexpr`, `expr`). A checked schema becomes a `layout::Layout`,
//! which places every field in a buffer; `view` reads and writes fields
//! through it, one bit-exact access at a time (`bits`). The remaining
//! modules describe concrete protocols with these pieces.
pub mod bits;
pub mod expr;
pub mod layout;
pub mod lengthexpr;
pub mod schema;
pub mod schemas;
pub mod types;
pub mod view;

pub mod gre;
pub mod quic;
pub mod uascsi;
pub mod usb;
pub mod usbmon;
pub mod usbpcap;
