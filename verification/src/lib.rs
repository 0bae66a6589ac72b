//! Semantic validation and diagnostic reporting for a block-structured
//! logic language.
//!
//! A *block* declares a search (a pattern-matching query) and an update
//! (`bind` or `commit`). This crate checks that every variable a block
//! consumes is grounded (provided by a search output or a constant
//! binding), that aggregates and lookups are structurally well formed,
//! that referenced functions and their parameters exist in a registry,
//! and it renders every violation as a line-numbered, source-mapped
//! report.

pub mod analysis;
pub mod checks;
pub mod block;
pub mod error;
pub mod render;
pub mod span;
pub mod text;

pub use analysis::analyze_block;
pub use block::Aggregate;
pub use block::Block;
pub use block::FunctionCall;
pub use block::FunctionDef;
pub use block::Lookup;
pub use block::ParamUse;
pub use block::SearchClause;
pub use block::UpdateClause;
pub use block::VarUse;
pub use checks::check_aggregate;
pub use checks::check_call;
pub use checks::check_lookup;
pub use checks::validate_block;
pub use error::CompileError;
pub use error::Error;
pub use error::ParseError;
pub use error::ParseResult;
pub use error::from_parse_error;
pub use render::render_report;
pub use span::Position;
pub use span::Span;
