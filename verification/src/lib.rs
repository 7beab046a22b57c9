//! Recovery of a kernel panic log from the packed blob that firmware keeps
//! in the `aapl,panic-info` variable.
//!
//! The blob stores eight 7-bit character codes in every seven bytes, and
//! shortens kernel-extension bundle identifiers with a small dictionary.
//! [`bitstream`] undoes the packing, [`expand`] undoes the dictionary, and
//! [`decode`](decoder::decode) runs both in one pass over the buffer.
//! [`packing`] and [`expand_proofs`] hold what is proved of the two on every
//! input. [`nvram`] and [`input`] find the blob: in the firmware's variables,
//! or in a property list.

pub mod bitstream;
pub mod decoder;
pub mod expand;
pub mod expand_proofs;
pub mod input;
pub mod nvram;
pub mod packing;
