//! Unauthenticated Diffie-Hellman-style key exchange over a byte stream.
//!
//! Each endpoint draws a private exponent, publishes `g^a mod p`, and derives
//! the shared secret `peer^a mod p` from the value its peer published.  The
//! crate holds the arithmetic, the endpoint state, the wire encoding of a
//! public value and the decisions a connection handler and a listener take;
//! sockets and threads are left to the program that links it.

pub mod exchange;
pub mod handler;
pub mod listener;
pub mod modexp;
pub mod wire;
