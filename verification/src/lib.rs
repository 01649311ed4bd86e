//! Handler declarations for a bare-metal runtime: the per-kind calling
//! contracts of entry point, exception, interrupt and pre-init functions, the
//! lowering of their resource parameters to private storage, the trampolines
//! bound to the vector table, and the hand-over of the core peripherals from
//! the code that runs before the entry point.
//!
//! The library works on a plain description of the annotated function and
//! of the tokens of the attribute's arguments, and answers with the text of
//! the expansion or with a diagnostic that names the broken clause and the
//! place it points at.

pub mod arguments;
pub mod attributes;
pub mod catalog;
pub mod codegen;
pub mod configuration;
pub mod contract;
pub mod diagnostic;
pub mod init_array;
pub mod input;
pub mod render;
pub mod statics;
pub mod syntax;
pub mod validate;

pub use attributes::{entry, exception, interrupt, pre_init};
pub use arguments::PreInitArgs;
