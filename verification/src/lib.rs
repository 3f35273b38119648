pub mod address;
pub mod compiler;
pub mod error;
pub mod hex;
pub mod instruction;
pub mod listing;
pub mod pool;
pub mod program;
pub mod render;

pub use address::{Address, AddressRange};
pub use error::Error;
pub use instruction::{BinaryInstruction, Instruction, StyleVar, ToBinary};
pub use program::{BinaryProgram, Program};
pub use compiler::{compile, stylevar_from_tag, CompilationOutput, CompiledBinary, Element, TagKind};
pub use render::{RenderAction, StyleState, StyleVarStack};
