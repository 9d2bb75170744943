//! A stylesheet-scoping engine.
//!
//! Stylesheets from many independent authors can be merged into one document
//! without leaking styles into each other: every selector of a stylesheet is
//! rewritten so that it only applies beneath a generated scope identifier.

pub mod ast;
pub mod into_style;
pub mod parser;
pub mod selector;
pub mod style;

pub use ast::AtRule;
pub use ast::Declaration;
pub use ast::Rule;
pub use ast::Sheet;
pub use ast::SheetItem;
pub use ast::SheetRef;
pub use into_style::IntoStyle;
pub use parser::ParseError;
pub use selector::Selector;
pub use style::GlobalStyle;
pub use style::Style;
