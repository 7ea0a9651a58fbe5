//! A single static-analysis rule over lexical blocks: it flags named item
//! declarations (functions, types, modules, ...) that stand after ordinary
//! statements or after the first local-variable binding in their block.
//! Items are visible for the whole enclosing scope regardless of where they
//! are written, so declaring one late misleads a reader into thinking the
//! order matters.

pub mod ast;
pub mod items_after_statements;
