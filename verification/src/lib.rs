//! Reader for Luau bytecode chunks, the instruction decoder, and the
//! request-handling decisions of the decompilation server.
pub mod error;
pub mod reader;
pub mod text;
pub mod op_code;
pub mod instruction;
pub mod constant;
pub mod constant_eq;
pub mod function;
pub mod chunk;
pub mod bytecode;
pub mod server;
pub mod laws;
