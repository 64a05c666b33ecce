//! Front end of the Cab language: a tokenizer, lossless syntax trees with
//! typed views of their expressions, validation of what parsing cannot
//! rule out, and rendering with fully explicit grouping.

pub mod builder;
pub mod context;
pub mod cover;
pub mod format;
pub mod indent;
pub mod items;
pub mod kind;
pub mod levels;
pub mod lexer;
pub mod node;
pub mod number;
pub mod operator;
pub mod report;
pub mod text;
pub mod tokenizer;
pub mod tree;
pub mod validate;

pub use builder::{flat_tree, Checkpoint, TreeBuilder};
pub use format::{parenthesize, Fragment, Style};
pub use kind::Kind;
pub use node::ExpressionRef;
pub use report::Report;
pub use tokenizer::{tokenize, Tokenizer};
pub use tree::{Element, Node, Span, Token};
