//! The registry of schema versions: how a version is marked in recipe text,
//! and which version a given text declares.

use crate::parser::enums::{ParseError, SchemaVersion};
use crate::parser::lines::{find_line_end, line_equals, line_ranges, lines, Span};
use vstd::prelude::*;
use vstd::string::StringSliceAdditionalSpecFns;

verus! {

/// The first line of a legacy recipe.
pub const V0_MARKER: &'static str = "version: v0";

/// The first line of a recipe in the supported schema.
pub const V1_MARKER: &'static str = "version: v1";

/// The schema version that `text` declares: its first line must be one of
/// the version markers, byte for byte.
pub open spec fn declared_version(text: Seq<u8>) -> Option<SchemaVersion> {
    let all = lines(text);
    if all.len() == 0 {
        None
    } else if all[0] == V1_MARKER.spec_bytes() {
        Some(SchemaVersion::V1)
    } else if all[0] == V0_MARKER.spec_bytes() {
        Some(SchemaVersion::V0)
    } else {
        None
    }
}

/// Reads the version marker of `raw`, taken as its UTF-8 bytes.
///
/// Returns the declared schema version, whether supported or not, and
/// `UnrecognizedSchema` where the text has no first line or that line is not
/// a known marker.
pub fn classify(raw: &str) -> (r: Result<SchemaVersion, ParseError>)
    ensures
        r == match declared_version(raw.spec_bytes()) {
            Some(version) => Ok::<SchemaVersion, ParseError>(version),
            None => Err(ParseError::UnrecognizedSchema),
        },
{
    let text = raw.as_bytes();
    if text.len() == 0 {
        return Err(ParseError::UnrecognizedSchema);
    }
    let first = Span { start: 0, end: find_line_end(text, 0) };
    assert(line_ranges(text@)[0] == first.range());
    assert(lines(text@)[0] == first.of(text@));
    if line_equals(text, first, V1_MARKER.as_bytes()) {
        Ok(SchemaVersion::V1)
    } else if line_equals(text, first, V0_MARKER.as_bytes()) {
        Ok(SchemaVersion::V0)
    } else {
        Err(ParseError::UnrecognizedSchema)
    }
}

} // verus!
