//! Correlation store and relay orchestration for a bridge between two chat services.
//!
//! The store records which message was mirrored to which; the engine plans what each
//! new, edited or deleted message asks of the adapters on either side, and the puppet
//! registry plans the provisioning of the accounts that post on behalf of remote users.

pub mod chat_service;
pub mod config;
pub mod engine;
pub mod markup;
pub mod puppet;
pub mod reply;
pub mod sanitize;
pub mod store;
pub mod text;
pub mod matrix_event;
