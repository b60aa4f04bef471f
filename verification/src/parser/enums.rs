//! Enums common to the parser module.

use vstd::prelude::*;

verus! {

/// Indicates the schema of a recipe file.
///
/// Only `V1` recipes are supported; `V0` is the legacy schema, which is
/// recognised so that it can be reported, but never parsed.
#[derive(Clone, Copy, Debug, PartialEq, Eq, Structural)]
pub enum SchemaVersion {
    V0,
    V1,
}

impl SchemaVersion {
    /// Whether documents of this schema version can be parsed and constructed.
    pub open spec fn spec_is_supported(self) -> bool {
        self == SchemaVersion::V1
    }

    /// Returns `true` only for `V1`.
    #[verifier::when_used_as_spec(spec_is_supported)]
    pub fn is_supported(self) -> (supported: bool)
        ensures
            supported == self.spec_is_supported(),
    {
        match self {
            SchemaVersion::V0 => false,
            SchemaVersion::V1 => true,
        }
    }
}

/// A structural rule of the recipe grammar that a document can break.
#[derive(Clone, Copy, Debug, PartialEq, Eq, Structural)]
pub enum GrammarRule {
    /// The line after the version marker must be `name: ` followed by a
    /// non-empty name.
    Name,
    /// The line after the name must be exactly `steps:`.
    Steps,
    /// The `steps:` header must be followed by at least one line, and each
    /// of them must be ` - ` followed by a non-empty instruction.
    StepItem,
}

/// Why a piece of text could not be turned into a recipe document.
#[derive(Clone, Copy, Debug, PartialEq, Eq, Structural)]
pub enum ParseError {
    /// The text does not begin with a known version marker.
    UnrecognizedSchema,
    /// The version marker names a schema that is known but not supported.
    UnsupportedSchema { found: SchemaVersion },
    /// The schema is supported, but the text breaks its grammar: `rule` is
    /// the first rule that fails, `line` the zero-based index of the line at
    /// which it was expected to hold.
    MalformedDocument { rule: GrammarRule, line: usize },
}

} // verus!
