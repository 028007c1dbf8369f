//! Building blocks for binary encoders and decoders: bounds-checked big-endian
//! writers threaded through a `(buffer, offset)` cursor, sequencing and control
//! combinators, length backpatching, and a few helpers for parsing and debugging.
pub mod be;
pub mod combinator;
pub mod debug;
pub mod gen;
pub mod laws;
pub mod traits;

pub use be::bytes_to_u64;
pub use combinator::{align32, align_n2};
pub use debug::{HexSlice, HexU16, HexU8};
pub use gen::{
    do_gen, gen_adjust_length, gen_adjust_length_u16, gen_align, gen_cond, gen_copy, gen_if_else,
    gen_many, gen_skip, gen_step, set_be_u16, set_be_u24, set_be_u32, set_be_u8, GenError,
    GenStep, Width,
};
pub use traits::Serialize;
