//! Type checking and evaluation for a small procedural drawing language.
//!
//! A parsed program (see [`ast`], with [`builder`] fixing operator
//! precedence) is checked by [`program`] and then run by [`execution`],
//! which produces the textual drawing commands that a renderer consumes;
//! [`message`] groups those commands into frames and [`runtime`] serves a
//! host. [`laws`] states properties that hold of every program, proved with
//! the induction in [`frame`].
use vstd::prelude::*;

pub mod ast;
pub mod builder;
pub mod error;
pub mod execution;
pub mod frame;
pub mod keys;
pub mod laws;
pub mod message;
pub mod program;
pub mod runtime;
pub mod text;
pub mod types;
pub mod value;
