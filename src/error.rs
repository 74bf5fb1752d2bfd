use vstd::prelude::*;

verus! {

/// Everything that can stop a generation run.
#[derive(Debug, Clone, Copy, PartialEq, Eq, Structural)]
pub enum CodegenError {
    /// A path template has an unbalanced or empty `{...}` placeholder.
    TemplateSyntax,
    /// An endpoint name cannot be split into module identifiers.
    ModPathParse,
    /// The number of parameters does not match the number of holes.
    TemplateMismatch,
    /// An endpoint declares no HTTP method.
    VerbSelection,
    /// A declared parameter type has no host representation.
    UnmappedType,
    /// A derived endpoint names a source endpoint that does not exist.
    EndpointNotFound,
}

} // verus!
