//! A compiler for HEIDIC, a small language for describing the data of a game
//! engine: components, structure-of-arrays layouts, shaders and systems with
//! ordering constraints. The compiler turns a source text into C++ source.
//!
//! The phases, each with its contract:
//!
//! - [`lexer`]: source text to tokens;
//! - [`parser`]: tokens to a program, with the files that the source includes;
//! - [`type_checker`]: the typing rules of declarations and function bodies;
//! - [`codegen`]: the generated text, section by section.
//!
//! Reading files and running the shader compiler are left to the caller: the
//! parser asks for the files it needs, and the generator takes what came of
//! compiling each shader.

pub mod ast;
pub mod codegen;
pub mod error;
pub mod lexer;
pub mod parser;
pub mod text;
pub mod type_checker;
