//! A federation of mutually trusting institutes: members are admitted or
//! expelled through unanimous elections, and any current member may issue
//! content-addressed certificates that can later be corrected (superseded)
//! by their issuer.
//!
//! The validator side holds the singleton membership registry and the
//! per-candidate election state machine; the certificate side issues and
//! corrects content-addressed certificates, re-deriving and re-checking
//! the registry's canonical address on every call instead of trusting the
//! caller's claims about it.

pub mod address;
pub mod certificate;
pub mod codec;
pub mod election;
pub mod events;
pub mod identity;
pub mod registry;
pub mod validator;
