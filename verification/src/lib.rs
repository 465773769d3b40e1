//! Doorbell detection from observed DNS traffic.
//!
//! A resolver reports the queries it sees over a dnstap stream. A query for one
//! of the doorbell vendor's hostnames means that someone pressed the button, and
//! the library turns it into messages for a publish/subscribe bus. Everything
//! here is a decision on plain values: reading sockets and talking to the bus is
//! left to the program that links the library.

pub mod address_laws;
pub mod bridge;
pub mod dns;
pub mod dns_service;
pub mod dnstap;
pub mod mock_service;
pub mod mqtt;
pub mod mqtt_service;
pub mod net;
pub mod socks;
pub mod text;
