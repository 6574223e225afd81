//! A counter kept in an account's bytes: each call of the handler checks the
//! account, reads the stored record, adds one and writes it back in place.

pub mod program;
pub mod record;

pub use program::{process_instruction, Account, Address, ThumbError};
pub use record::ThumbState;
