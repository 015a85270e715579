//! Per-version protocol surfaces: one `PacketSend` per protocol version,
//! selected at connection setup by a version-keyed lookup. Builders accept
//! semantic arguments, resolve the version's numeric packet id, and encode
//! through the wire codec.

pub mod v1_13;
pub mod v1_13_2;
