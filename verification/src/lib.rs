//! A stateless password manager: the same hint, secret phrase and strength always
//! derive the same passphrase, which leaves the library only in encrypted form.
//!
//! A request runs through five stages, each a function of what the one before gave:
//! `key` recovers the encryption key from the key material, `seed` hashes a part of it
//! with the hint and the strength, `words` draws the words from a generator seeded with
//! that hash, `padding` fills them up to a buffer of constant size, and `artifact`
//! encrypts the buffer and writes it out in hexadecimal. `pipeline` runs them in turn,
//! and states what holds of every request. `cipher`, `digest` and `generator` hold the
//! calls into the cryptographic crates, whose results are named and not proved.

pub mod artifact;
pub mod bot;
pub mod cipher;
pub mod commands;
pub mod digest;
pub mod error;
pub mod generator;
pub mod hex;
pub mod key;
pub mod padding;
pub mod pipeline;
pub mod seed;
pub mod words;
