//! The recipe document and the parser that produces it.

use crate::parser::enums::{ParseError, SchemaVersion};
use crate::parser::grammar::{first_violation, validate, well_formed};
use crate::parser::lines::lines;
use crate::parser::schema::{classify, declared_version};
use vstd::prelude::*;
use vstd::utf8::encode_utf8;

verus! {

/// What a recipe document is, as a mathematical value.
pub struct RecipeView {
    /// The source text of the recipe.
    pub content: Seq<char>,
    /// The schema that the text obeys.
    pub schema_version: SchemaVersion,
    /// Whether the document has changes that were not saved.
    pub is_modified: bool,
}

impl RecipeView {
    /// The document as loaded from `content`: of the supported schema, with
    /// nothing to save.
    pub open spec fn loaded(content: Seq<char>) -> RecipeView {
        RecipeView { content, schema_version: SchemaVersion::V1, is_modified: false }
    }

    /// The document after a modification was recorded.
    pub open spec fn mark_modified(self) -> RecipeView {
        RecipeView { is_modified: true, ..self }
    }

    /// The document after it was saved.
    pub open spec fn mark_saved(self) -> RecipeView {
        RecipeView { is_modified: false, ..self }
    }
}

/// An operation on the modification flag of a document.
pub enum FlagOperation {
    /// A modification is recorded.
    MarkModified,
    /// A save is recorded.
    MarkSaved,
}

impl RecipeView {
    /// The document after one operation.
    pub open spec fn apply(self, operation: FlagOperation) -> RecipeView {
        match operation {
            FlagOperation::MarkModified => self.mark_modified(),
            FlagOperation::MarkSaved => self.mark_saved(),
        }
    }

    /// The document after a sequence of operations, first to last.
    pub open spec fn apply_all(self, operations: Seq<FlagOperation>) -> RecipeView
        decreases operations.len(),
    {
        if operations.len() == 0 {
            self
        } else {
            self.apply_all(operations.drop_last()).apply(operations.last())
        }
    }
}

/// Whether, in a sequence of operations, a modification was recorded that no
/// later save followed.
pub open spec fn modified_since_save(operations: Seq<FlagOperation>) -> bool {
    exists|i: int|
        0 <= i < operations.len() && #[trigger] operations[i] is MarkModified && forall|j: int|
            i < j < operations.len() ==> !(#[trigger] operations[j] is MarkSaved)
}

/// Recording a modification sets the flag, and recording it again changes
/// nothing more.
pub proof fn lemma_mark_modified_idempotent(document: RecipeView)
    ensures
        document.mark_modified().is_modified,
        document.mark_modified().mark_modified() == document.mark_modified(),
{
}

/// Recording a save clears the flag, and recording it again changes nothing
/// more.
pub proof fn lemma_mark_saved_idempotent(document: RecipeView)
    ensures
        !document.mark_saved().is_modified,
        document.mark_saved().mark_saved() == document.mark_saved(),
{
}

/// A modification followed by a save leaves the flag cleared, and neither
/// touches the content or the schema version.
pub proof fn lemma_modify_then_save(document: RecipeView)
    ensures
        document.mark_modified().is_modified,
        !document.mark_modified().mark_saved().is_modified,
        document.mark_modified().mark_saved() == document.mark_saved(),
        document.mark_modified().content == document.content,
        document.mark_modified().schema_version == document.schema_version,
        document.mark_saved().content == document.content,
        document.mark_saved().schema_version == document.schema_version,
{
}

/// Starting from an unmodified document, after any sequence of operations
/// the flag is set if and only if a modification was recorded since the
/// start or the last save; content and schema version stay as they were.
pub proof fn lemma_flag_follows_history(document: RecipeView, operations: Seq<FlagOperation>)
    requires
        !document.is_modified,
    ensures
        document.apply_all(operations).is_modified <==> modified_since_save(operations),
        document.apply_all(operations).content == document.content,
        document.apply_all(operations).schema_version == document.schema_version,
    decreases operations.len(),
{
    if operations.len() > 0 {
        let last = operations.len() - 1;
        lemma_flag_follows_history(document, operations.drop_last());
        match operations.last() {
            FlagOperation::MarkModified => {
                assert(operations[last] is MarkModified);
            },
            FlagOperation::MarkSaved => {
                assert(operations[last] is MarkSaved);
            },
        }
    }
}

/// The error with which parsing `text` fails, or `None` where it succeeds.
///
/// Parsing classifies the text by its version marker, refuses a version that
/// is not supported, and then holds the lines to the grammar; the first of
/// these steps that fails gives the error.
pub open spec fn parse_failure(text: Seq<u8>) -> Option<ParseError> {
    match declared_version(text) {
        None => Some(ParseError::UnrecognizedSchema),
        Some(version) => if !version.spec_is_supported() {
            Some(ParseError::UnsupportedSchema { found: version })
        } else {
            match first_violation(lines(text)) {
                Some((rule, line)) => Some(
                    ParseError::MalformedDocument { rule, line: line as usize },
                ),
                None => None,
            }
        },
    }
}

/// A recipe in memory: its source text, the schema version of that text, and
/// a flag that tells whether it was modified since it was loaded or saved.
///
/// Every document is of a supported schema version.
#[derive(Debug)]
pub struct RecipeReader {
    content: Box<str>,
    is_modified: bool,
    schema_version: SchemaVersion,
}

impl View for RecipeReader {
    type V = RecipeView;

    closed spec fn view(&self) -> RecipeView {
        RecipeView {
            content: self.content@,
            schema_version: self.schema_version,
            is_modified: self.is_modified,
        }
    }
}

impl RecipeReader {
    #[verifier::type_invariant]
    spec fn supported(self) -> bool {
        self.schema_version.spec_is_supported()
    }

    /// Constructs an unmodified document that owns `content`.
    ///
    /// Fails with `UnsupportedSchema` where `schema_version` is not
    /// supported, whatever the content.
    pub fn new(content: Box<str>, schema_version: SchemaVersion) -> (r: Result<
        RecipeReader,
        ParseError,
    >)
        ensures
            schema_version.spec_is_supported() ==> r is Ok && r->Ok_0@ == (RecipeView {
                content: content@,
                schema_version,
                is_modified: false,
            }),
            !schema_version.spec_is_supported() ==> r == Err::<RecipeReader, ParseError>(
                ParseError::UnsupportedSchema { found: schema_version },
            ),
            schema_version == SchemaVersion::V0 ==> r == Err::<RecipeReader, ParseError>(
                ParseError::UnsupportedSchema { found: SchemaVersion::V0 },
            ),
    {
        if schema_version.is_supported() {
            Ok(RecipeReader { content, is_modified: false, schema_version })
        } else {
            Err(ParseError::UnsupportedSchema { found: schema_version })
        }
    }

    /// Parses `raw_content`, taken as its UTF-8 bytes, into a document.
    ///
    /// The text is classified by its version marker, the version is checked
    /// for support, and the lines are held to the recipe grammar. The first
    /// failure is returned; on success the document owns the text, is of
    /// version `V1` and is unmodified.
    pub fn parse(raw_content: Box<str>) -> (r: Result<RecipeReader, ParseError>)
        ensures
            match r {
                Ok(document) => parse_failure(encode_utf8(raw_content@)) is None && document@
                    == RecipeView::loaded(raw_content@),
                Err(error) => parse_failure(encode_utf8(raw_content@)) == Some(error),
            },
            r is Ok <==> declared_version(encode_utf8(raw_content@)) == Some(SchemaVersion::V1)
                && well_formed(lines(encode_utf8(raw_content@))),
            r is Ok ==> r->Ok_0@.schema_version == SchemaVersion::V1 && !r->Ok_0@.is_modified,
            declared_version(encode_utf8(raw_content@)) == Some(SchemaVersion::V0) ==> r == Err::<
                RecipeReader,
                ParseError,
            >(ParseError::UnsupportedSchema { found: SchemaVersion::V0 }),
            declared_version(encode_utf8(raw_content@)) is None ==> r == Err::<
                RecipeReader,
                ParseError,
            >(ParseError::UnrecognizedSchema),
    {
        let version = match classify(&*raw_content) {
            Ok(version) => version,
            Err(error) => { return Err(error); },
        };
        if !version.is_supported() {
            return Err(ParseError::UnsupportedSchema { found: version });
        }
        match validate((&*raw_content).as_bytes()) {
            Ok(()) => {},
            Err(error) => { return Err(error); },
        }
        RecipeReader::new(raw_content, version)
    }

    /// The source text of the recipe.
    pub fn content(&self) -> (content: &str)
        ensures
            content@ == self@.content,
    {
        &*self.content
    }

    /// The schema version of the recipe, which is always a supported one.
    pub fn schema_version(&self) -> (version: SchemaVersion)
        ensures
            version == self@.schema_version,
            version == SchemaVersion::V1,
    {
        proof {
            use_type_invariant(self);
        }
        self.schema_version
    }

    /// Whether the document was modified since it was loaded or last saved.
    pub fn is_modified(&self) -> (modified: bool)
        ensures
            modified == self@.is_modified,
    {
        self.is_modified
    }

    /// Records that the document was modified. Every operation that changes
    /// the document goes through here.
    pub fn mark_modified(&mut self)
        ensures
            final(self)@ == old(self)@.mark_modified(),
    {
        proof {
            use_type_invariant(&*self);
        }
        self.is_modified = true;
    }

    /// Records that the document was saved.
    pub fn mark_saved(&mut self)
        ensures
            final(self)@ == old(self)@.mark_saved(),
    {
        proof {
            use_type_invariant(&*self);
        }
        self.is_modified = false;
    }
}

} // verus!
