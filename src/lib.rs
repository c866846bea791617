//! Verified core of an IMAP archiving service: per-account sync decisions,
//! running-state bookkeeping, mailbox reconciliation, autoconfig and token
//! selection rules, and request authorization.

pub mod account;
pub mod auth;
pub mod autoconfig;
mod clock;
pub mod error;
pub mod message;
pub mod oauth2;
pub mod paginate;
pub mod periodic;
pub mod reconcile;
pub mod release;
pub mod running_state;
pub mod sync;
pub mod token;
pub mod web;
