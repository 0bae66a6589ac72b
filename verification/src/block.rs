//! The block AST as the validator consumes it, and the function
//! registry the structural checks resolve calls against.
//!
//! The external parser produces these values; the validator only reads
//! them. A block declares a search section (patterns whose output
//! variables it provides), an update section (`bind`/`commit` clauses
//! that consume variables), and may contain aggregate, lookup and
//! function-call nodes.

use vstd::prelude::*;
use crate::span::Span;

verus! {

/// One occurrence of a variable, with the span of exactly that
/// occurrence so a diagnostic can underline the offending token.
#[derive(Debug, Clone, PartialEq)]
pub struct VarUse {
    pub name: String,
    pub span: Span,
}

/// A search pattern; `outputs` are the variables it provides.
#[derive(Debug, Clone, PartialEq)]
pub struct SearchClause {
    pub outputs: Vec<String>,
}

/// A `bind` or `commit` clause; `consumed` are the variable
/// occurrences it reads.
#[derive(Debug, Clone, PartialEq)]
pub struct UpdateClause {
    pub consumed: Vec<VarUse>,
}

/// An aggregation node. It consumes its `from` and `for` operands and
/// provides its result variable. For a sorted aggregate the `from`
/// list must match the `for` list in size.
#[derive(Debug, Clone, PartialEq)]
pub struct Aggregate {
    pub sorted: bool,
    pub from_vars: Vec<VarUse>,
    pub for_vars: Vec<VarUse>,
    pub result: String,
    pub from_span: Span,
    pub span: Span,
}

/// A lookup node: a mutation against the fact store, tagged `"add"` or
/// `"remove"` by its type field.
#[derive(Debug, Clone, PartialEq)]
pub struct Lookup {
    pub lookup_type: String,
    pub type_span: Span,
    pub keys: Vec<VarUse>,
}

/// One parameter supplied to a function call: the parameter name, the
/// span of that name, and the variable handed to it, if the argument
/// is a variable rather than a literal.
#[derive(Debug, Clone, PartialEq)]
pub struct ParamUse {
    pub name: String,
    pub span: Span,
    pub arg: Option<VarUse>,
}

/// A function-call node.
#[derive(Debug, Clone, PartialEq)]
pub struct FunctionCall {
    pub name: String,
    pub name_span: Span,
    pub params: Vec<ParamUse>,
}

/// A parsed block, ready for validation.
#[derive(Debug, Clone, PartialEq)]
pub struct Block {
    pub searches: Vec<SearchClause>,
    pub constant_binds: Vec<String>,
    pub aggregates: Vec<Aggregate>,
    pub updates: Vec<UpdateClause>,
    pub lookups: Vec<Lookup>,
    pub calls: Vec<FunctionCall>,
}

/// One entry of the function registry: a known function name and its
/// recognized parameter names.
#[derive(Debug, Clone, PartialEq)]
pub struct FunctionDef {
    pub name: String,
    pub params: Vec<String>,
}

} // verus!
