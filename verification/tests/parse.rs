use recipe_parser::parser::enums::{GrammarRule, ParseError, SchemaVersion};
use recipe_parser::parser::grammar::validate;
use recipe_parser::parser::recipe_reader::RecipeReader;
use recipe_parser::parser::schema::classify;

fn parse(text: &str) -> Result<RecipeReader, ParseError> {
    RecipeReader::parse(text.into())
}

fn malformed(rule: GrammarRule, line: usize) -> ParseError {
    ParseError::MalformedDocument { rule, line }
}

#[test]
fn parses_a_complete_recipe() {
    let text = "version: v1\nname: Soup\nsteps:\n - boil water";
    let document = parse(text).unwrap();
    assert_eq!(document.schema_version(), SchemaVersion::V1);
    assert!(!document.is_modified());
    assert_eq!(document.content(), text);
}

#[test]
fn refuses_the_legacy_schema() {
    let error = parse("version: v0\nname: Soup").unwrap_err();
    assert_eq!(error, ParseError::UnsupportedSchema { found: SchemaVersion::V0 });
}

#[test]
fn refuses_text_without_a_version_line() {
    assert_eq!(parse("name: Soup").unwrap_err(), ParseError::UnrecognizedSchema);
}

#[test]
fn reports_the_missing_steps_section() {
    let error = parse("version: v1\nname: Soup").unwrap_err();
    assert_eq!(error, malformed(GrammarRule::Steps, 2));
}

#[test]
fn refuses_a_well_formed_legacy_recipe_too() {
    let error = parse("version: v0\nname: Soup\nsteps:\n - boil water").unwrap_err();
    assert_eq!(error, ParseError::UnsupportedSchema { found: SchemaVersion::V0 });
}

#[test]
fn refuses_the_empty_text() {
    assert_eq!(parse("").unwrap_err(), ParseError::UnrecognizedSchema);
}

#[test]
fn refuses_an_unknown_version() {
    assert_eq!(parse("version: v2\nname: Soup").unwrap_err(), ParseError::UnrecognizedSchema);
}

#[test]
fn refuses_a_marker_that_is_not_the_first_line() {
    let text = "\nversion: v1\nname: Soup\nsteps:\n - boil water";
    assert_eq!(parse(text).unwrap_err(), ParseError::UnrecognizedSchema);
}

#[test]
fn refuses_a_marker_with_anything_around_it() {
    assert_eq!(parse("version: v1 \nname: Soup").unwrap_err(), ParseError::UnrecognizedSchema);
    assert_eq!(parse(" version: v1\nname: Soup").unwrap_err(), ParseError::UnrecognizedSchema);
    assert_eq!(parse("version: v1\r\nname: Soup").unwrap_err(), ParseError::UnrecognizedSchema);
    assert_eq!(parse("version: v").unwrap_err(), ParseError::UnrecognizedSchema);
    assert_eq!(parse("Version: v1").unwrap_err(), ParseError::UnrecognizedSchema);
}

#[test]
fn accepts_a_final_line_feed() {
    let text = "version: v1\nname: Soup\nsteps:\n - boil water\n - add salt\n";
    let document = parse(text).unwrap();
    assert_eq!(document.content(), text);
    assert_eq!(document.schema_version(), SchemaVersion::V1);
    assert!(!document.is_modified());
}

#[test]
fn refuses_an_empty_line_after_the_steps() {
    let text = "version: v1\nname: Soup\nsteps:\n - boil water\n\n";
    assert_eq!(parse(text).unwrap_err(), malformed(GrammarRule::StepItem, 4));
}

#[test]
fn reports_a_missing_name() {
    assert_eq!(parse("version: v1").unwrap_err(), malformed(GrammarRule::Name, 1));
    assert_eq!(parse("version: v1\n").unwrap_err(), malformed(GrammarRule::Name, 1));
    assert_eq!(
        parse("version: v1\nsteps:\n - boil water").unwrap_err(),
        malformed(GrammarRule::Name, 1)
    );
}

#[test]
fn reports_an_empty_name() {
    let text = "version: v1\nname: \nsteps:\n - boil water";
    assert_eq!(parse(text).unwrap_err(), malformed(GrammarRule::Name, 1));
}

#[test]
fn reports_a_steps_header_out_of_place() {
    let text = "version: v1\nname: Soup\n - boil water\nsteps:";
    assert_eq!(parse(text).unwrap_err(), malformed(GrammarRule::Steps, 2));
    let text = "version: v1\nname: Soup\nsteps: \n - boil water";
    assert_eq!(parse(text).unwrap_err(), malformed(GrammarRule::Steps, 2));
}

#[test]
fn reports_a_list_of_steps_that_is_empty() {
    assert_eq!(
        parse("version: v1\nname: Soup\nsteps:").unwrap_err(),
        malformed(GrammarRule::StepItem, 3)
    );
    assert_eq!(
        parse("version: v1\nname: Soup\nsteps:\n").unwrap_err(),
        malformed(GrammarRule::StepItem, 3)
    );
}

#[test]
fn reports_the_first_line_that_is_no_step() {
    let text = "version: v1\nname: Soup\nsteps:\n - boil water\n - \n - serve\nnotes";
    assert_eq!(parse(text).unwrap_err(), malformed(GrammarRule::StepItem, 4));
    let text = "version: v1\nname: Soup\nsteps:\n - boil water\n - add salt\nname: Stew";
    assert_eq!(parse(text).unwrap_err(), malformed(GrammarRule::StepItem, 5));
    let text = "version: v1\nname: Soup\nsteps:\n- boil water";
    assert_eq!(parse(text).unwrap_err(), malformed(GrammarRule::StepItem, 3));
}

#[test]
fn reports_the_earliest_broken_rule() {
    let text = "version: v1\nnom: Soup\nstep:\nboil water";
    assert_eq!(parse(text).unwrap_err(), malformed(GrammarRule::Name, 1));
}

#[test]
fn keeps_text_outside_ascii() {
    let text = "version: v1\nname: Crème brûlée\nsteps:\n - chauffer à 150 °C\n - 冷やす";
    let document = parse(text).unwrap();
    assert_eq!(document.content(), text);
    assert_eq!(document.schema_version(), SchemaVersion::V1);
}

#[test]
fn parsing_twice_gives_the_same_outcome() {
    let good = "version: v1\nname: Soup\nsteps:\n - boil water";
    assert_eq!(parse(good).unwrap().content(), parse(good).unwrap().content());
    let bad = "version: v1\nname: Soup\nsteps:\nboil";
    assert_eq!(parse(bad).unwrap_err(), parse(bad).unwrap_err());
}

#[test]
fn classifies_by_the_first_line_alone() {
    assert_eq!(classify("version: v1"), Ok(SchemaVersion::V1));
    assert_eq!(classify("version: v1\n"), Ok(SchemaVersion::V1));
    assert_eq!(classify("version: v1\nanything at all"), Ok(SchemaVersion::V1));
    assert_eq!(classify("version: v0"), Ok(SchemaVersion::V0));
    assert_eq!(classify("version: v0\nname: Soup"), Ok(SchemaVersion::V0));
    assert_eq!(classify(""), Err(ParseError::UnrecognizedSchema));
    assert_eq!(classify("\n"), Err(ParseError::UnrecognizedSchema));
    assert_eq!(classify("name: Soup"), Err(ParseError::UnrecognizedSchema));
    assert_eq!(classify("version: v10"), Err(ParseError::UnrecognizedSchema));
    assert_eq!(classify("version:v1"), Err(ParseError::UnrecognizedSchema));
    assert_eq!(classify("version"), Err(ParseError::UnrecognizedSchema));
}

#[test]
fn only_the_current_schema_is_supported() {
    assert!(SchemaVersion::V1.is_supported());
    assert!(!SchemaVersion::V0.is_supported());
}

#[test]
fn validates_the_lines_after_the_marker() {
    assert_eq!(validate(b"version: v1\nname: Soup\nsteps:\n - boil water"), Ok(()));
    assert_eq!(validate(b"anything\nname: S\nsteps:\n - b\n"), Ok(()));
    assert_eq!(validate(b""), Err(malformed(GrammarRule::Name, 1)));
    assert_eq!(validate(b"version: v1\nname: Soup"), Err(malformed(GrammarRule::Steps, 2)));
    assert_eq!(
        validate(b"version: v1\nname: Soup\nsteps:\n -  \n -"),
        Err(malformed(GrammarRule::StepItem, 4))
    );
}
