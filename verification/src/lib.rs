//! A tree-walking interpreter for a small dynamically typed scripting
//! language with numbers, strings, booleans, `nil`, lexically scoped
//! variables, control flow and first-class functions with closures.
//!
//! Source text is cut into tokens by the [`scanner`]. A token list is
//! turned into statements by the [`parser`], whose grammar is stated in
//! [`grammar`]. Statements are run by the machine of the
//! [`interpreter`], whose steps are stated in [`semantics`]; scopes live in
//! the frames of an [`environment`] arena. The machine is stepped by its
//! host: whatever takes floating-point arithmetic, the clock or the output
//! is asked of the host, one request per step.
//!
//! What a counting loop parses to is proved in [`shapes`]. What holds of
//! every run is proved in [`discipline`], [`frame`], [`evaluation`],
//! [`straight_line`] and [`calls`].

pub mod text;
pub mod number;
pub mod token;
pub mod expr;
pub mod stmt;
pub mod error;
pub mod native;
pub mod function;
pub mod value;
pub mod environment;
pub mod scanner;
pub mod grammar;
pub mod shapes;
pub mod parser;
pub mod semantics;
pub mod discipline;
pub mod frame;
pub mod evaluation;
pub mod straight_line;
pub mod calls;
pub mod interpreter;
pub mod ast_printer;
