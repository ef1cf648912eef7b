//! Front end of a MIPS assembler: source text to a line-annotated program, and
//! register operands to one of the 32 general-purpose registers.
use vstd::prelude::*;

pub mod parser;
pub mod register;
pub mod text;

pub use parser::{
    parse_chars, parse_mips, ErrorLocation, MPArgument, MPDirective, MPInstruction, MPItem, ParseError,
    MPProgram,
};
pub use register::{Register, RegisterError};
pub use text::tabs_to_spaces;

verus! {

} // verus!
