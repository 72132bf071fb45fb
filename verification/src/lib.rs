//! A client library for the UPnP Internet Gateway Device (IGD) control
//! protocol: discovering a router's WAN connection service on the local
//! network and managing NAT port mappings through it.
//!
//! The library holds the protocol logic — SSDP reply parsing, ad-hoc XML
//! field extraction, URL splitting, and SOAP envelope construction and
//! response parsing — all of it verified. The sockets that carry the
//! requests live outside the library and hand plain strings in and out.

pub mod discovery;
pub mod ipv4;
pub mod soap;
pub mod text;
pub mod utils;
