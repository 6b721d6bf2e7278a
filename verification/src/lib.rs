//! Protocols written as typestates: an auction with its bidding client, a
//! card reader that authenticates a PIN card, and a ring of message passers.
//! Each protocol state is a type, and each transition consumes the value of
//! one state and hands back a value of the next.

pub mod auction;
pub mod auction_client_api;
pub mod card_api;
pub mod pin_entry;
mod coin;
mod sealed;
pub mod reader_api;
pub mod ring_a;
pub mod ring_b;
pub mod channel;
