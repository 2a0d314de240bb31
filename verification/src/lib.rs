//! Core of a Matter-protocol node: the secure-transport substrate that
//! brings two endpoints from unauthenticated datagrams up to a mutually
//! authenticated, encrypted session able to carry application messages.
//!
//! The crate covers the compact-TLV codec, the ASN.1/DER writer and the
//! certificate chain verifier built on them, the SPAKE2+ engine with its
//! key schedule, and the fixed-capacity session and exchange tables with
//! message-reliability bookkeeping.

pub mod asn1_writer;
pub mod cert;
pub mod crypto;
pub mod error;
pub mod exchange;
pub mod mrp;
pub mod packet;
pub mod pake;
pub mod secure_channel;
pub mod session;
pub mod spake2p;
pub mod tlv;

pub use error::Error;
