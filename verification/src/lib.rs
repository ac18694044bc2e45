//! Fluent builders for SurrealQL-style query strings.
//!
//! The crate renders `SELECT` queries, `LET`-binding scripts and transaction
//! blocks from incremental builder calls. Every rendering function carries a
//! contract that pins the produced string down to the character, stated over
//! `Seq<char>` views of the builder state.

pub mod cond;
pub mod query;
pub mod script;
pub mod text;
pub mod transaction;

pub use cond::CondTree;
pub use cond::Condition;
pub use cond::render_condition;
pub use query::Direction;
pub use query::GraphExpandParams;
pub use query::QueryBuilder;
pub use query::QueryView;
pub use script::ScriptBuilder;
pub use script::ScriptView;
pub use text::join_strings;
pub use transaction::TransactionBuilder;
