//! Front end of an interactive computer-algebra session: one line of text is
//! turned into an expression tree, or into a failure that a renderer can show.
pub mod diagnostic;
pub mod expression;
pub mod failure;
pub mod grammar;
pub mod numeral;
pub mod parser;

pub use diagnostic::{render, Diagnostic, Label};
pub use expression::Expression;
pub use failure::{Expected, ParseFailure, Reason, Span};
pub use parser::parser;
