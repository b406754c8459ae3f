//! Query planning and WHERE-clause compilation for an embedded SQL engine.
//!
//! The crate holds two cooperating parts.
//!
//! The plan model is a tree of relational operators ([`plan`]) with its
//! column arithmetic and its `EXPLAIN` text, and the analysis of which
//! tables an expression or a subtree of the plan refers to
//! ([`table_mask`]).
//!
//! The WHERE compiler ([`where_clause`]) flattens the predicates of a
//! statement ([`select`]) into conjuncts, places each conjunct at the
//! cursor where it has to be evaluated, and emits short-circuit branch code
//! ([`condition`], [`expr`]) into a program builder ([`vdbe`]).
//!
//! Both parts read expressions as the trees of [`ast`]; the text under
//! which an expression is shown is written by the SQL parser ([`sql`]).
//! Every executable function carries a contract over the mathematical
//! views of its arguments, and the contracts are machine-checked.

pub mod ast;
pub mod condition;
pub mod error;
pub mod expr;
pub mod plan;
pub mod schema;
pub mod select;
pub mod sql;
pub mod table_mask;
pub mod util;
pub mod vdbe;
pub mod where_clause;
