//! A two-party, turn-based contest whose per-party power values stay
//! encrypted from the arbitrating engine at all times. The engine combines
//! the encrypted records only through two fixed homomorphic circuits
//! (damage: `a - b`, growth: `(t - c)^2`) and drives the match purely from
//! discrete states that each party derives by decrypting its own value
//! locally.
//!
//! The encryption runtime is modeled: a ciphertext here carries, as plain
//! data, the plaintext it stands for and the identity of the key it is under,
//! and every operation of the engine and the parties is verified against that
//! model. The contracts state exactly which plaintext every ciphertext holds
//! after each operation, when each error is returned, and how a whole match
//! unfolds round by round.

pub mod crypto;
pub mod engine;
pub mod errors;
pub mod laws;
pub mod player;
pub mod state;
