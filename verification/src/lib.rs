//! A minimal evaluator for a pure Lisp: forms, the primitive operations on
//! them, a reader from text to forms and a recursive evaluator.
//!
//! The modules:
//! - `model`: the mathematical value of a form, over which all contracts
//!   are stated;
//! - `form`: the type `Form`, with its view, `clone` and `==`;
//! - `primitives`: `atom`, `eq`, `car`, `cdr`, `cons` and the operations
//!   derived from them;
//! - `convert`: conversions from and to strings, tuples and vectors;
//! - `render`: the text by which a form is shown;
//! - `text`: the reader;
//! - `evaluator`: the evaluator and its model;
//! - `laws`: what holds of the operations and of the evaluator, for all
//!   forms;
//! - `text_laws`: what holds of the reader, for all texts.

pub mod convert;
pub mod evaluator;
pub mod form;
pub mod laws;
pub mod model;
pub mod primitives;
pub mod render;
pub mod text;
pub mod text_laws;

pub use crate::evaluator::{eval, try_eval};
pub use crate::form::{Callable, Form};
pub use crate::text::reader;
