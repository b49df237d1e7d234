//! Abstract syntax of a Music Macro Language, built from a rule-tagged parse tree.
//!
//! A grammar turns the text of a score into a tree of [`ParseNode`]s. This crate
//! turns that tree into the commands of the score, [`MmlAst`], and proves that it
//! does so as [`rules`] says. A node that yields no command is left out of the
//! score; [`MmlAst::failures`] tells which failures were met on the way.

pub mod ast;
pub mod builder;
pub mod error;
pub mod laws;
pub mod number;
pub mod rules;
pub mod text;
pub mod tree;

pub use ast::{CommentKind, MmlAst};
pub use error::{ConversionError, SyntaxError};
pub use tree::{ParseNode, Rule};
