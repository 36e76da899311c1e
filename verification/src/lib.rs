//! A minimal evaluator for symbolic expressions: seven primitive forms
//! (`quote`, `atom`, `eq`, `car`, `cdr`, `cons`, `cond`) and three ways of
//! building functions (`lambda`, `macro`, `label`).

pub mod depth;
pub mod environment;
pub mod error;
pub mod eval;
pub mod expression;
pub mod message;
pub mod parse;
pub mod render;
pub mod roundtrip;
pub mod semantics;
pub mod session;
pub mod strings;
pub mod text;
pub mod theorems;
pub mod token;
