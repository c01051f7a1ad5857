//! A settlement engine for series-based collectible issuance.
//!
//! Mintable items are grouped into series: an event ticket, and companion
//! items that are redeemed at the event. A purchase mints one numbered item
//! of the event and of each of its companions, and splits the price among a
//! vault, the royalty recipients of the series, and its creator, without
//! losing a single unit to rounding.
//!
//! The engine is a state machine over plain values. The state is a
//! [`state::Contract`]; every operation takes what the host knows of the
//! call as a [`context::CallContext`], and either changes the state and
//! returns a record of what is to happen outside (items to register,
//! amounts to transfer), or fails with an [`error::Error`] and leaves the
//! state as it was. Nothing here reads a clock, touches storage or sends
//! value.
//!
//! Every function carries a contract over the mathematical model of the
//! state, [`state::ContractView`], and is proved to meet it.
//!
//! - [`account`], [`text`], [`ids`]: account identifiers, decimal
//!   rendering, and the wire format of series and item identifiers.
//! - [`pricing`]: conversion of reference prices into native amounts.
//! - [`royalty`], [`payout`], [`storage`]: royalty tables and their
//!   limits, splitting an amount, settling the storage deposit.
//! - [`state`], [`restore`], [`accessors`]: the state, its invariant, and
//!   reading and rebuilding it.
//! - [`admin`], [`registry`], [`minting`], [`purchase`], [`items`],
//!   [`queries`]: the operations.
//! - [`laws`]: what holds of every state and every operation.
//! - [`machine`]: the operations as values, and what holds of every
//!   sequence of them.

pub mod accessors;
pub mod account;
pub mod admin;
pub mod context;
pub mod error;
pub mod ids;
pub mod items;
pub mod laws;
pub mod machine;
pub mod metadata;
pub mod minting;
pub mod payout;
pub mod pricing;
pub mod purchase;
pub mod queries;
pub mod registry;
pub mod restore;
pub mod royalty;
pub mod state;
pub mod storage;
pub mod text;
pub mod views;
