//! A tree-walking interpreter for the Lox language.
//!
//! Source text goes through four stages; [`lox`] holds the rule that a stage
//! which fails keeps the later ones from running. The [`scanner`] turns it into
//! tokens, as [`lexicon`] describes. The [`parser`] turns the tokens into
//! syntax trees ([`expr`], [`stmt`]), as [`grammar`] describes. The
//! [`resolver`] gives every use of a local name its distance and reports what
//! the static rules forbid, as [`resolution`] describes. The [`interpreter`]
//! runs the trees, as a machine that its host steps; [`runs`] states what
//! holds of its runs, [`limits`] what holds of lists beyond the limit of 255.
//!
//! A number is held as the bit pattern of a binary64 ([`number`]). The library
//! itself does no floating-point arithmetic: it asks its host for sums and
//! products, for the spelling of a number and for the value of a number's
//! lexeme.
pub mod environment;
pub mod err;
pub mod expr;
pub mod grammar;
pub mod interpreter;
pub mod lexicon;
pub mod limits;
pub mod lox;
pub mod lox_class;
pub mod lox_function;
pub mod lox_instance;
pub mod number;
pub mod object;
pub mod operation;
pub mod parser;
pub mod printer;
pub mod resolution;
pub mod resolvable;
pub mod resolver;
pub mod runs;
pub mod scanner;
pub mod stmt;
pub mod text;
pub mod token;
pub mod token_type;
