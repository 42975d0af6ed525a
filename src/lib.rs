//! A confidential account withdrawal, as the values its zero-knowledge circuit
//! assigns: the account's private value and blinding bits hash to a public
//! state, a withdrawal is committed to on the Jubjub curve, and the remaining
//! balance must fit in 128 bits.
//!
//! - `bits`: little-endian bit sequences and the numbers they encode.
//! - `field`: elements of BLS12-381's scalar field and their subtraction.
//! - `hash`: the state commitment, a truncated SHA-256 digest.
//! - `commitment`: the Pedersen commitment to the withdrawal.
//! - `circuit`: the witness, its synthesis into an assignment, and when that
//!   assignment satisfies every constraint.
pub mod bits;
pub mod field;
pub mod hash;
pub mod commitment;
pub mod circuit;
