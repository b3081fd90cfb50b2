//! Core of duocb: end-to-end encrypted clipboard sharing between two devices
//! that trust each other's signed identity cards.
//!
//! The crate holds the logic only. Sockets, relays, timers and the C interface
//! are driven from outside with plain values.
//!
//! - [`auth`], [`identity`]: application keys, signed identity cards, device names.
//! - [`protocol`]: the framed JSON messages of a session.
//! - [`net`]: the state machines of hosting, joining and card setup, and the
//!   key handshake.
//! - [`pin_auth`], [`card_exchange`]: proving a PIN, and swapping cards after it.
//! - [`hosting_record`], [`pin_record`], [`manual_code`]: the records and codes by
//!   which two devices find each other; [`lan`] and [`nostr`] carry them.
//! - [`subnet`], [`start_plan`], [`bridge`]: what a front end needs.
//! - [`text`], [`json`], [`hash`], [`addr`], [`order`], [`node`], [`pin`],
//!   [`pake`]: the ground they stand on.

pub mod addr;
pub mod auth;
pub mod bridge;
pub mod card_exchange;
pub mod hash;
pub mod hosting_record;
pub mod identity;
pub mod json;
pub mod lan;
pub mod manual_code;
pub mod net;
pub mod node;
pub mod nostr;
pub mod order;
pub mod pake;
pub mod pin;
pub mod pin_auth;
pub mod pin_record;
pub mod protocol;
pub mod start_plan;
pub mod subnet;
pub mod text;
