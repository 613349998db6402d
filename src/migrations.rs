//! The ordered, forward-only migration sequence of the notes database.
use vstd::prelude::*;
use crate::schema::{Change, Column};

verus! {

/// Name of the database file the migrations are applied to.
pub const DATABASE_URL: &'static str = "sqlite:noto.db";

/// The highest migration version.
pub const LATEST_VERSION: i64 = 6;

pub const CREATE_NOTES_SQL: &'static str = "CREATE TABLE IF NOT EXISTS notes (
        id INTEGER PRIMARY KEY AUTOINCREMENT,
        title TEXT NOT NULL DEFAULT '',
        content TEXT NOT NULL DEFAULT '',
        created_at INTEGER NOT NULL DEFAULT (strftime('%s', 'now')),
        updated_at INTEGER NOT NULL DEFAULT (strftime('%s', 'now'))
      )";

pub const ADD_PINNED_SQL: &'static str = "ALTER TABLE notes ADD COLUMN pinned INTEGER NOT NULL DEFAULT 0";

pub const ADD_DELETED_AT_SQL: &'static str = "ALTER TABLE notes ADD COLUMN deleted_at INTEGER DEFAULT NULL";

pub const ADD_STARRED_SQL: &'static str = "ALTER TABLE notes ADD COLUMN starred INTEGER NOT NULL DEFAULT 0";

pub const DROP_PINNED_SQL: &'static str = "ALTER TABLE notes DROP COLUMN pinned";

pub const UUID_KEYS_SQL: &'static str = "
        -- Create new table with TEXT id
        CREATE TABLE notes_new (
          id TEXT PRIMARY KEY NOT NULL,
          title TEXT NOT NULL DEFAULT '',
          content TEXT NOT NULL DEFAULT '',
          starred INTEGER NOT NULL DEFAULT 0,
          created_at INTEGER NOT NULL DEFAULT (strftime('%s', 'now')),
          updated_at INTEGER NOT NULL DEFAULT (strftime('%s', 'now')),
          deleted_at INTEGER DEFAULT NULL
        );
        -- Copy existing notes with UUID conversion (using hex of random bytes as UUID-like string)
        INSERT INTO notes_new (id, title, content, starred, created_at, updated_at, deleted_at)
        SELECT
          lower(hex(randomblob(4))) || '-' || lower(hex(randomblob(2))) || '-4' || substr(lower(hex(randomblob(2))),2) || '-' || substr('89ab',abs(random()) % 4 + 1, 1) || substr(lower(hex(randomblob(2))),2) || '-' || lower(hex(randomblob(6))),
          title, content, starred, created_at, updated_at, deleted_at
        FROM notes;
        -- Drop old table
        DROP TABLE notes;
        -- Rename new table
        ALTER TABLE notes_new RENAME TO notes;
      ";

/// One step of the sequence: its version, a description, the statement the
/// migration runner executes, and the schema change that statement makes.
pub struct Migration {
    pub version: i64,
    pub description: &'static str,
    pub sql: &'static str,
    pub change: Change,
}

/// The change made by migration `v`, for `1 <= v <= 6`.
pub open spec fn step_change(v: int) -> Change {
    if v == 2 {
        Change::AddColumn(Column::Pinned)
    } else if v == 3 {
        Change::AddColumn(Column::DeletedAt)
    } else if v == 4 {
        Change::AddColumn(Column::Starred)
    } else if v == 5 {
        Change::DropColumn(Column::Pinned)
    } else if v == 6 {
        Change::RekeyWithUuid
    } else {
        Change::CreateNotes
    }
}

/// The full sequence, in ascending order: version `i + 1` stands at index
/// `i`, for versions one to six.
pub fn migrations() -> (r: Vec<Migration>)
    ensures
        r@.len() == LATEST_VERSION,
        forall|i: int|
            0 <= i < r@.len() ==> (#[trigger] r@[i]).version == i + 1 && r@[i].change
                == step_change(i + 1),
        r@[0].description@ == "create notes table"@,
        r@[1].description@ == "add pinned column"@,
        r@[2].description@ == "add deleted_at column"@,
        r@[3].description@ == "add starred column"@,
        r@[4].description@ == "drop pinned column"@,
        r@[5].description@ == "convert id to uuid"@,
        r@[0].sql == CREATE_NOTES_SQL,
        r@[1].sql == ADD_PINNED_SQL,
        r@[2].sql == ADD_DELETED_AT_SQL,
        r@[3].sql == ADD_STARRED_SQL,
        r@[4].sql == DROP_PINNED_SQL,
        r@[5].sql == UUID_KEYS_SQL,
{
    let r = vec![
        Migration {
            version: 1,
            description: "create notes table",
            sql: CREATE_NOTES_SQL,
            change: Change::CreateNotes,
        },
        Migration {
            version: 2,
            description: "add pinned column",
            sql: ADD_PINNED_SQL,
            change: Change::AddColumn(Column::Pinned),
        },
        Migration {
            version: 3,
            description: "add deleted_at column",
            sql: ADD_DELETED_AT_SQL,
            change: Change::AddColumn(Column::DeletedAt),
        },
        Migration {
            version: 4,
            description: "add starred column",
            sql: ADD_STARRED_SQL,
            change: Change::AddColumn(Column::Starred),
        },
        Migration {
            version: 5,
            description: "drop pinned column",
            sql: DROP_PINNED_SQL,
            change: Change::DropColumn(Column::Pinned),
        },
        Migration {
            version: 6,
            description: "convert id to uuid",
            sql: UUID_KEYS_SQL,
            change: Change::RekeyWithUuid,
        },
    ];
    r
}

} // verus!
