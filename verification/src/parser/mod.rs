//! The recipe parser: schema versions, the line structure of recipe text,
//! the grammar of each supported schema, and the document that parsing yields.

pub mod enums;
pub mod grammar;
pub mod lines;
pub mod recipe_reader;
pub mod schema;
