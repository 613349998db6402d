//! The shape of the `notes` table: its key kind and its ordered column list,
//! and what each kind of schema change does to it.
use vstd::prelude::*;

verus! {

/// A column of the `notes` table.
#[derive(Clone, Copy, PartialEq, Eq, Structural, Debug)]
pub enum Column {
    Id,
    Title,
    Content,
    CreatedAt,
    UpdatedAt,
    Pinned,
    DeletedAt,
    Starred,
}

/// How rows of the table are keyed.
#[derive(Clone, Copy, PartialEq, Eq, Structural, Debug)]
pub enum KeyKind {
    /// `INTEGER PRIMARY KEY AUTOINCREMENT`
    AutoInteger,
    /// `TEXT PRIMARY KEY` holding a UUID-v4-shaped string
    Uuid,
}

/// One forward-only schema change.
#[derive(Clone, Copy, PartialEq, Eq, Structural, Debug)]
pub enum Change {
    /// `CREATE TABLE IF NOT EXISTS notes (...)` with an integer key.
    CreateNotes,
    /// `ALTER TABLE notes ADD COLUMN ...` of a column with a default.
    AddColumn(Column),
    /// `ALTER TABLE notes DROP COLUMN ...`
    DropColumn(Column),
    /// Rebuild the table with a text key, giving every row a fresh identifier.
    RekeyWithUuid,
}

/// Columns that are added and dropped after creation; each has a default
/// (`0` or `NULL`) that existing rows take when it is added.
pub open spec fn is_optional(c: Column) -> bool {
    c == Column::Pinned || c == Column::DeletedAt || c == Column::Starred
}

/// A ghost description of the table's schema.
pub struct Shape {
    pub key_kind: KeyKind,
    pub columns: Seq<Column>,
}

/// Columns of the table as first created.
pub open spec fn created_columns() -> Seq<Column> {
    seq![Column::Id, Column::Title, Column::Content, Column::CreatedAt, Column::UpdatedAt]
}

/// Columns of the table after it is rebuilt with a text key.
pub open spec fn rekeyed_columns() -> Seq<Column> {
    seq![
        Column::Id,
        Column::Title,
        Column::Content,
        Column::Starred,
        Column::CreatedAt,
        Column::UpdatedAt,
        Column::DeletedAt,
    ]
}

/// `cols` with every occurrence of `c` taken out, order kept.
pub open spec fn without(cols: Seq<Column>, c: Column) -> Seq<Column>
    decreases cols.len(),
{
    if cols.len() == 0 {
        cols
    } else {
        let rest = without(cols.drop_last(), c);
        if cols.last() == c {
            rest
        } else {
            rest.push(cols.last())
        }
    }
}

/// Whether `change` can be applied to a database whose table is `s`
/// (`None`: no table yet).
pub open spec fn change_ok(s: Option<Shape>, change: Change) -> bool {
    match change {
        Change::CreateNotes => true,
        Change::AddColumn(c) => s is Some && is_optional(c) && !s->0.columns.contains(c),
        Change::DropColumn(c) => s is Some && is_optional(c) && s->0.columns.contains(c),
        Change::RekeyWithUuid => s is Some && {
            let cols = s->0.columns;
            &&& cols.contains(Column::Title)
            &&& cols.contains(Column::Content)
            &&& cols.contains(Column::Starred)
            &&& cols.contains(Column::CreatedAt)
            &&& cols.contains(Column::UpdatedAt)
            &&& cols.contains(Column::DeletedAt)
        },
    }
}

/// Whether `change` applies, `ids_ok` telling whether the identifiers the
/// rebuild would give the rows are pairwise different (the text key is a
/// primary key).
pub open spec fn change_fits(s: Option<Shape>, change: Change, ids_ok: bool) -> bool {
    change_ok(s, change) && (change == Change::RekeyWithUuid ==> ids_ok)
}

/// The table after `change`, where `change_ok(s, change)`.
pub open spec fn change_shape(s: Option<Shape>, change: Change) -> Option<Shape> {
    match change {
        Change::CreateNotes => match s {
            Some(t) => Some(t),
            None => Some(Shape { key_kind: KeyKind::AutoInteger, columns: created_columns() }),
        },
        Change::AddColumn(c) => Some(
            Shape { key_kind: s->0.key_kind, columns: s->0.columns.push(c) },
        ),
        Change::DropColumn(c) => Some(
            Shape { key_kind: s->0.key_kind, columns: without(s->0.columns, c) },
        ),
        Change::RekeyWithUuid => Some(Shape { key_kind: KeyKind::Uuid, columns: rekeyed_columns() }),
    }
}

/// Taking `c` out keeps every other column.
pub proof fn lemma_without_keeps(cols: Seq<Column>, c: Column, x: Column)
    requires
        x != c,
    ensures
        without(cols, c).contains(x) == cols.contains(x),
    decreases cols.len(),
{
    if cols.len() > 0 {
        let init = cols.drop_last();
        lemma_without_keeps(init, c, x);
        let rest = without(init, c);
        if cols.contains(x) {
            let k = choose|k: int| 0 <= k < cols.len() && cols[k] == x;
            if k < cols.len() - 1 {
                assert(init[k] == x);
            }
        }
        if init.contains(x) {
            let k = choose|k: int| 0 <= k < init.len() && init[k] == x;
            assert(cols[k] == x);
        }
        if cols.last() != c {
            assert(rest.push(cols.last()).last() == cols.last());
            if rest.contains(x) {
                let k = choose|k: int| 0 <= k < rest.len() && rest[k] == x;
                assert(rest.push(cols.last())[k] == x);
            }
            if rest.push(cols.last()).contains(x) && cols.last() != x {
                let k = choose|k: int|
                    0 <= k < rest.len() + 1 && rest.push(cols.last())[k] == x;
                assert(rest[k] == x);
            }
        }
    }
}

/// Whether `cols` holds `c`.
pub fn has_column(cols: &Vec<Column>, c: Column) -> (r: bool)
    ensures
        r == cols@.contains(c),
{
    let mut i: usize = 0;
    while i < cols.len()
        invariant
            i <= cols@.len(),
            forall|j: int| 0 <= j < i ==> cols@[j] != c,
        decreases cols@.len() - i,
    {
        if cols[i] == c {
            return true;
        }
        i = i + 1;
    }
    false
}

/// `cols` with `c` taken out, order kept.
pub fn remove_column(cols: &Vec<Column>, c: Column) -> (r: Vec<Column>)
    ensures
        r@ == without(cols@, c),
{
    let mut out: Vec<Column> = Vec::new();
    let mut i: usize = 0;
    while i < cols.len()
        invariant
            i <= cols@.len(),
            out@ == without(cols@.take(i as int), c),
        decreases cols@.len() - i,
    {
        proof {
            assert(cols@.take(i + 1).drop_last() =~= cols@.take(i as int));
        }
        if cols[i] != c {
            out.push(cols[i]);
        }
        i = i + 1;
    }
    proof {
        assert(cols@.take(cols@.len() as int) =~= cols@);
    }
    out
}

} // verus!
