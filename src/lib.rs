//! Hardware abstraction building blocks for SoC power sequencing: the error
//! vocabulary shared by implementations, and the expansion engine that gives
//! every lifecycle operation a pre-hook and a post-hook.
pub mod error;
pub mod expand;
pub mod syntax;
