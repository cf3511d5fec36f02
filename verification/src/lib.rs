//! Core of a chat-room-to-actuator bridge.
//!
//! A set of chat rooms is polled for new plain-text messages; a message whose
//! whole body is a non-negative decimal number requests that many seconds of
//! actuator activation (capped at five minutes). Each room keeps the
//! identifier of the last message it has seen, so a message is acted on at
//! most once; the per-room results of one poll cycle are combined into a
//! single decision, the largest requested duration.
//!
//! The transport that fetches timeline events and the driver that holds the
//! actuator are external: they hand this library already-fetched events and
//! take plain duration values back.

pub mod aggregate;
pub mod cycle;
pub mod duration;
pub mod filter;
pub mod tracker;
