//! Verified core of an Ethereum storage-proof relay: request validation,
//! storage-slot and block-reference decoding, and response shaping.
pub mod address;
pub mod block;
pub mod error;
pub mod hexcode;
pub mod relay;
pub mod slot;
