//! Schema migrations of the notes store, with a verified model of the notes
//! table that each step acts on.
pub mod note_id;
pub mod schema;
pub mod table;
pub mod migrations;
pub mod database;
pub mod laws;
