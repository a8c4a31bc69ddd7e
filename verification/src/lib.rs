//! Threshold distributed key generation and a distributed randomness beacon
//! over the BN254 pairing-friendly curve.
//!
//! A dealer splits a master secret `a` into Shamir shares over BN254's
//! scalar field. Each member holds a share key and, for a beacon input `x`,
//! produces a partial evaluation: the BLS-style share `H(x)^{s_i}` together
//! with a Chaum-Pedersen DLEQ proof. Any `t` such partial evaluations
//! combine by Lagrange interpolation at zero into the aggregate `H(x)^a`
//! with its Blake2b-512 randomness, verifiable against the group public key
//! `g2^a` by one pairing check.

pub mod bytes;
pub mod curve;
pub mod errors;
pub mod field;
pub mod poly;
pub mod dkg;
pub mod combine;
