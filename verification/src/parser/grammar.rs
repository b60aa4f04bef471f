//! The grammar of the supported recipe schema.
//!
//! A recipe is a sequence of lines:
//!
//! ```text
//! version: v1
//! name: <name>
//! steps:
//!  - <instruction>
//!  - <instruction>
//! ```
//!
//! The name and every instruction are non-empty, and there is at least one
//! instruction. Nothing may follow the instructions.

use crate::parser::enums::{GrammarRule, ParseError};
use crate::parser::lines::{
    extends_prefix, line_equals, line_extends, line_ranges, lines, ranges_of, split_lines,
};
use vstd::prelude::*;
use vstd::string::StringSliceAdditionalSpecFns;

verus! {

/// What a name line begins with.
pub const NAME_PREFIX: &'static str = "name: ";

/// The line that opens the list of steps.
pub const STEPS_HEADER: &'static str = "steps:";

/// What a step line begins with.
pub const STEP_PREFIX: &'static str = " - ";

/// The index of the line that must hold the name.
pub const NAME_LINE: usize = 1;

/// The index of the line that must open the list of steps.
pub const STEPS_LINE: usize = 2;

/// The index of the line that must hold the first step.
pub const FIRST_STEP_LINE: usize = 3;

/// Whether `line` gives the recipe a non-empty name.
pub open spec fn is_name_line(line: Seq<u8>) -> bool {
    extends_prefix(line, NAME_PREFIX.spec_bytes())
}

/// Whether `line` opens the list of steps.
pub open spec fn is_steps_header(line: Seq<u8>) -> bool {
    line == STEPS_HEADER.spec_bytes()
}

/// Whether `line` is a step with a non-empty instruction.
pub open spec fn is_step_line(line: Seq<u8>) -> bool {
    extends_prefix(line, STEP_PREFIX.spec_bytes())
}

/// The index of the first line at or after `from` that is not a step, or the
/// number of lines where all of them are steps.
pub open spec fn first_non_step(all: Seq<Seq<u8>>, from: int) -> int
    decreases all.len() - from,
{
    if from >= all.len() || !is_step_line(all[from]) {
        from
    } else {
        first_non_step(all, from + 1)
    }
}

/// The first grammar rule that the lines of a recipe break, with the index
/// of the line at which the rule was expected to hold; `None` where the
/// lines are a well-formed recipe. Line 0 holds the version marker and is
/// not judged here.
pub open spec fn first_violation(all: Seq<Seq<u8>>) -> Option<(GrammarRule, int)> {
    if all.len() <= NAME_LINE || !is_name_line(all[NAME_LINE as int]) {
        Some((GrammarRule::Name, NAME_LINE as int))
    } else if all.len() <= STEPS_LINE || !is_steps_header(all[STEPS_LINE as int]) {
        Some((GrammarRule::Steps, STEPS_LINE as int))
    } else if first_non_step(all, FIRST_STEP_LINE as int) < all.len() || all.len()
        <= FIRST_STEP_LINE {
        Some((GrammarRule::StepItem, first_non_step(all, FIRST_STEP_LINE as int)))
    } else {
        None
    }
}

/// Whether the lines after the version marker form a well-formed recipe:
/// a name, the steps header, then one or more steps and nothing else.
pub open spec fn well_formed(all: Seq<Seq<u8>>) -> bool {
    &&& all.len() > FIRST_STEP_LINE
    &&& is_name_line(all[NAME_LINE as int])
    &&& is_steps_header(all[STEPS_LINE as int])
    &&& forall|i: int| FIRST_STEP_LINE <= i < all.len() ==> is_step_line(#[trigger] all[i])
}

/// What validation returns for the lines of a recipe.
pub open spec fn validation_of(all: Seq<Seq<u8>>) -> Result<(), ParseError> {
    match first_violation(all) {
        Some((rule, line)) => Err(ParseError::MalformedDocument { rule, line: line as usize }),
        None => Ok(()),
    }
}

/// The first line that is not a step lies between `from` and the end, is
/// itself no step, and every line before it is one.
pub proof fn lemma_first_non_step(all: Seq<Seq<u8>>, from: int)
    requires
        0 <= from <= all.len(),
    ensures
        from <= first_non_step(all, from) <= all.len(),
        first_non_step(all, from) < all.len() ==> !is_step_line(all[first_non_step(all, from)]),
        forall|i: int| from <= i < first_non_step(all, from) ==> is_step_line(#[trigger] all[i]),
    decreases all.len() - from,
{
    if from < all.len() && is_step_line(all[from]) {
        lemma_first_non_step(all, from + 1);
    }
}

/// No rule is broken exactly when the lines are a well-formed recipe.
pub proof fn lemma_no_violation_iff_well_formed(all: Seq<Seq<u8>>)
    ensures
        first_violation(all) is None <==> well_formed(all),
{
    if all.len() >= FIRST_STEP_LINE {
        lemma_first_non_step(all, FIRST_STEP_LINE as int);
    }
}

/// Checks the lines of `text` against the recipe grammar.
///
/// Returns `MalformedDocument` with the first rule that fails and the index
/// of the line at which it was expected to hold.
pub fn validate(text: &[u8]) -> (r: Result<(), ParseError>)
    ensures
        r == validation_of(lines(text@)),
        r is Ok <==> well_formed(lines(text@)),
{
    let spans = split_lines(text);
    let ghost all = lines(text@);
    proof {
        lemma_no_violation_iff_well_formed(all);
        assert(spans@.len() == all.len());
        assert forall|i: int| 0 <= i < spans@.len() implies all[i] == (#[trigger] spans@[i]).of(
            text@,
        ) by {
            assert(ranges_of(spans@)[i] == line_ranges(text@)[i]);
        }
    }
    if spans.len() <= NAME_LINE || !line_extends(text, spans[NAME_LINE], NAME_PREFIX.as_bytes()) {
        return Err(ParseError::MalformedDocument { rule: GrammarRule::Name, line: NAME_LINE });
    }
    if spans.len() <= STEPS_LINE || !line_equals(text, spans[STEPS_LINE], STEPS_HEADER.as_bytes()) {
        return Err(ParseError::MalformedDocument { rule: GrammarRule::Steps, line: STEPS_LINE });
    }
    let mut i: usize = FIRST_STEP_LINE;
    while i < spans.len() && line_extends(text, spans[i], STEP_PREFIX.as_bytes())
        invariant
            FIRST_STEP_LINE <= i <= spans@.len() == all.len(),
            first_non_step(all, i as int) == first_non_step(all, FIRST_STEP_LINE as int),
            forall|k: int| 0 <= k < spans@.len() ==> (#[trigger] spans@[k]).within(text@),
            forall|k: int| 0 <= k < spans@.len() ==> all[k] == (#[trigger] spans@[k]).of(text@),
        decreases spans@.len() - i,
    {
        i += 1;
    }
    if i < spans.len() || spans.len() <= FIRST_STEP_LINE {
        Err(ParseError::MalformedDocument { rule: GrammarRule::StepItem, line: i })
    } else {
        Ok(())
    }
}

} // verus!
