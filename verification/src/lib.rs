//! Decoding and repairing the spell codes of two role-playing games.

pub mod bits;
pub mod bitstream;
pub mod checksum;
pub mod checksum_laws;
pub mod codec;
pub mod cursor;
pub mod dq1;
pub mod dq1_laws;
pub mod dq2;
pub mod dq2_laws;
pub mod error;
pub mod input;
pub mod kana;
pub mod layout;
pub mod packing;
pub mod record;
pub mod recovery;
pub mod recovery_laws;
pub mod text;

pub use kana::split_dakuten;
pub use recovery::{process_dq1, process_dq2};
