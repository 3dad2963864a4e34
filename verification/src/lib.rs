//! The persisted schema of the timeloop store and the migrations that create it.
//!
//! - [`schema`]: tables, columns, foreign keys and indexes as data, and what
//!   makes a schema well formed.
//! - [`initial`]: version 1 of the schema.
//! - [`ddl`]: the text of the statement batch that creates a schema.
//! - [`batch`]: the batch of version 1, to the character.
//! - [`migration`]: the list of migrations handed to the store at start-up.
//! - [`store`]: what a store holds, and what a pass of a batch makes of it.
//! - [`rows`]: the rows of a store that holds version 1, and what the foreign
//!   keys make of inserting and deleting them.
//! - [`inspect`]: questions asked of a schema at run time.
//! - [`names`], [`text`]: names and texts, character by character.

pub mod batch;
pub mod ddl;
pub mod initial;
pub mod inspect;
pub mod migration;
pub mod names;
pub mod rows;
pub mod schema;
pub mod store;
pub mod text;
