//! A compiler for a small algebra of composable financial contracts.
//!
//! Source text in the contract algebra is parsed into an abstract syntax
//! tree, and a lowering pass turns named definitions over that tree into an
//! ordered sequence of imperative statements for a resource-oriented ledger
//! scripting language.

pub mod action;
pub mod ast;
pub mod client;
pub mod contract;
pub mod identifier_props;
pub mod jog;
pub mod parser;
pub mod parser_props;
pub mod visitor;
pub mod visitor_props;
