//! Link Layer Discovery Protocol (IEEE 802.1AB): a verified codec for LLDP
//! data units built from type-length-value records, and the decisions of an
//! agent that announces itself and logs its neighbours.
pub mod agent;
pub mod codec;
pub mod error;
pub mod ip;
pub mod lldpdu;
pub mod text;
pub mod tlv;
