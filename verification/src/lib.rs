//! Context-free grammars over a flat space of numbered symbols.
//!
//! A grammar has tokens, variables, rules that expand a variable into a
//! sequence of symbols, and a start variable. Symbols are numbers; a
//! threshold fixed at creation tells tokens from variables. A grammar is
//! either grown rule by rule from an empty one, or made in one step from
//! prepared tables, which are then held to two conditions: the start symbol
//! is a variable, and every variable in a rule has rules of its own.
//!
//! - `grammar` holds `Cfg` and its operations.
//! - `model` says what a grammar is, as a mathematical value.
//! - `laws` proves what follows for every grammar.

pub mod grammar;
pub mod laws;
pub mod model;
mod validate;

pub use grammar::Cfg;
pub use grammar::Rule;
pub use model::CfgView;
pub use model::NO_START;
