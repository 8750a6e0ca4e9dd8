//! Key agreement and two-layer decryption for content that a server
//! delivers in an encrypted envelope.
//!
//! A session runs in five steps: make a Diffie-Hellman key pair
//! ([`key_agreement`]), decode the envelope the server sent ([`envelope`]),
//! decrypt its first layer under a key cut from the shared secret
//! ([`phase1`]), decrypt the second layer under a key given as hexadecimal
//! text ([`phase2`]), and hand the content back ([`session`]).
//!
//! The arithmetic on large numbers, the cipher and the hexadecimal coding
//! are done by OpenSSL and the `hex` crate ([`bignum`], [`cipher`],
//! [`hexcode`]): what those calls return is taken on trust, and everything
//! built on them is verified against it.

pub mod bigend;
pub mod bignum;
pub mod cipher;
pub mod config;
pub mod envelope;
pub mod error;
pub mod hexcode;
pub mod key_agreement;
pub mod phase1;
pub mod phase2;
pub mod session;
