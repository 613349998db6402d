//! An in-memory model of the `notes` table and the effect of each schema
//! change on its rows.
use vstd::prelude::*;
use crate::note_id::{note_id_from_bytes, note_id_text};
use crate::schema::{
    has_column, remove_column, change_fits, change_shape, is_optional, Change, Column, KeyKind,
    Shape,
};

verus! {

/// The primary key of a note.
#[derive(Clone, Debug, PartialEq, Eq)]
pub enum NoteKey {
    /// An auto-incremented integer key.
    Sequence(u64),
    /// A UUID-v4-shaped text key.
    Uuid(String),
}

/// One row of the `notes` table. A field whose column the table does not
/// have holds that column's default.
#[derive(Clone, Debug, PartialEq, Eq)]
pub struct Note {
    pub key: NoteKey,
    pub title: String,
    pub content: String,
    pub pinned: bool,
    pub starred: bool,
    pub created_at: i64,
    pub updated_at: i64,
    /// `None` means the note is not soft-deleted.
    pub deleted_at: Option<i64>,
}

/// What a key is, as a value: two keys are the same key exactly when their
/// views are equal.
pub enum KeyView {
    Sequence(u64),
    Text(Seq<char>),
}

pub open spec fn key_view(k: NoteKey) -> KeyView {
    match k {
        NoteKey::Sequence(n) => KeyView::Sequence(n),
        NoteKey::Uuid(s) => KeyView::Text(s@),
    }
}

/// No two rows share a key (the table's primary key).
pub open spec fn keys_distinct(rows: Seq<Note>) -> bool {
    forall|i: int, j: int|
        0 <= i < rows.len() && 0 <= j < rows.len() && i != j ==> key_view(#[trigger] rows[i].key)
            != key_view(#[trigger] rows[j].key)
}

/// The identifiers made from the first `n` blocks are pairwise different.
pub open spec fn ids_distinct(blocks: Seq<[u8; 16]>, n: int) -> bool {
    forall|i: int, j: int|
        0 <= i < n && 0 <= j < n && i != j ==> note_id_text(#[trigger] blocks[i]@) != note_id_text(
            #[trigger] blocks[j]@,
        )
}

pub open spec fn key_matches(k: NoteKey, kind: KeyKind) -> bool {
    match k {
        NoteKey::Sequence(_) => kind == KeyKind::AutoInteger,
        NoteKey::Uuid(_) => kind == KeyKind::Uuid,
    }
}

/// Whether the note's field for `c` holds the column's default.
pub open spec fn holds_default(n: Note, c: Column) -> bool {
    match c {
        Column::Pinned => !n.pinned,
        Column::Starred => !n.starred,
        Column::DeletedAt => n.deleted_at is None,
        _ => true,
    }
}

/// The fields that every schema change keeps.
pub open spec fn same_data(a: Note, b: Note) -> bool {
    &&& a.title@ == b.title@
    &&& a.content@ == b.content@
    &&& a.starred == b.starred
    &&& a.created_at == b.created_at
    &&& a.updated_at == b.updated_at
    &&& a.deleted_at == b.deleted_at
}

/// The fields that dropping column `c` keeps.
pub open spec fn same_data_but(a: Note, b: Note, c: Column) -> bool {
    &&& a.title@ == b.title@
    &&& a.content@ == b.content@
    &&& a.created_at == b.created_at
    &&& a.updated_at == b.updated_at
    &&& c != Column::Starred ==> a.starred == b.starred
    &&& c != Column::DeletedAt ==> a.deleted_at == b.deleted_at
}

/// The table: key kind, ordered columns, rows.
#[derive(Clone, Debug)]
pub struct NotesTable {
    pub key_kind: KeyKind,
    pub columns: Vec<Column>,
    pub rows: Vec<Note>,
}

impl NotesTable {
    pub open spec fn shape(&self) -> Shape {
        Shape { key_kind: self.key_kind, columns: self.columns@ }
    }

    /// Every row is keyed as the table is, and holds defaults in the fields
    /// whose optional column the table lacks.
    pub open spec fn wf(&self) -> bool {
        &&& keys_distinct(self.rows@)
        &&& forall|i: int|
            0 <= i < self.rows@.len() ==> {
                &&& key_matches(#[trigger] self.rows@[i].key, self.key_kind)
                &&& forall|c: Column|
                    is_optional(c) && !self.columns@.contains(c) ==> holds_default(
                        self.rows@[i],
                        c,
                    )
            }
    }
}

pub open spec fn table_shape(t: Option<NotesTable>) -> Option<Shape> {
    match t {
        Some(t) => Some(t.shape()),
        None => None,
    }
}

pub open spec fn table_wf(t: Option<NotesTable>) -> bool {
    match t {
        Some(t) => t.wf(),
        None => true,
    }
}

pub open spec fn table_rows(t: Option<NotesTable>) -> Seq<Note> {
    match t {
        Some(t) => t.rows@,
        None => Seq::empty(),
    }
}

/// Row `n` after dropping optional column `c` from `old`: that field holds
/// its default, every other field is kept.
pub open spec fn dropped_note(old: Note, n: Note, c: Column) -> bool {
    &&& same_data_but(old, n, c)
    &&& holds_default(n, c)
    &&& n.key == old.key
    &&& c != Column::Pinned ==> n.pinned == old.pinned
}

/// Whether `n` is keyed by the identifier made from `block`.
pub open spec fn keyed_from(n: Note, block: Seq<u8>) -> bool {
    n.key matches NoteKey::Uuid(id) && id@ == note_id_text(block)
}

/// Row `n` after the rebuild with a text key made from `block`.
pub open spec fn rekeyed_note(old: Note, n: Note, block: Seq<u8>) -> bool {
    &&& same_data(old, n)
    &&& !n.pinned
    &&& keyed_from(n, block)
}

/// The rows after `change`: creating or adding a column keeps them as they
/// are; dropping a column resets that field in each; the rebuild gives row
/// `i` the key made from `blocks[i]` and keeps the data of the final columns.
pub open spec fn change_rows(
    old: Seq<Note>,
    new: Seq<Note>,
    change: Change,
    blocks: Seq<[u8; 16]>,
) -> bool {
    &&& new.len() == old.len()
    &&& match change {
        Change::CreateNotes => new == old,
        Change::AddColumn(_) => new == old,
        Change::DropColumn(c) => forall|i: int|
            0 <= i < old.len() ==> dropped_note(#[trigger] old[i], new[i], c),
        Change::RekeyWithUuid => forall|i: int|
            0 <= i < old.len() ==> rekeyed_note(#[trigger] old[i], new[i], blocks[i]@),
    }
}

/// Resets the field of optional column `c` to its default in every row.
fn reset_field(rows: &mut Vec<Note>, c: Column)
    requires
        is_optional(c),
    ensures
        final(rows)@.len() == old(rows)@.len(),
        keys_distinct(old(rows)@) ==> keys_distinct(final(rows)@),
        forall|i: int|
            0 <= i < old(rows)@.len() ==> {
                let (a, b) = (old(rows)@[i], #[trigger] final(rows)@[i]);
                &&& holds_default(b, c)
                &&& b.key == a.key
                &&& b.title == a.title
                &&& b.content == a.content
                &&& b.created_at == a.created_at
                &&& b.updated_at == a.updated_at
                &&& c != Column::Pinned ==> b.pinned == a.pinned
                &&& c != Column::Starred ==> b.starred == a.starred
                &&& c != Column::DeletedAt ==> b.deleted_at == a.deleted_at
            },
{
    let ghost start = rows@;
    let mut i: usize = 0;
    while i < rows.len()
        invariant
            i <= rows@.len(),
            rows@.len() == start.len(),
            is_optional(c),
            forall|j: int|
                i <= j < rows@.len() ==> #[trigger] rows@[j] == start[j],
            forall|j: int|
                0 <= j < i ==> {
                    let (a, b) = (start[j], #[trigger] rows@[j]);
                    &&& holds_default(b, c)
                    &&& b.key == a.key
                    &&& b.title == a.title
                    &&& b.content == a.content
                    &&& b.created_at == a.created_at
                    &&& b.updated_at == a.updated_at
                    &&& c != Column::Pinned ==> b.pinned == a.pinned
                    &&& c != Column::Starred ==> b.starred == a.starred
                    &&& c != Column::DeletedAt ==> b.deleted_at == a.deleted_at
                },
        decreases rows@.len() - i,
    {
        let mut n = rows.remove(i);
        match c {
            Column::Pinned => {
                n.pinned = false;
            },
            Column::Starred => {
                n.starred = false;
            },
            _ => {
                n.deleted_at = None;
            },
        }
        rows.insert(i, n);
        i = i + 1;
    }
    proof {
        if keys_distinct(start) {
            assert forall|a: int, b: int|
                0 <= a < rows@.len() && 0 <= b < rows@.len() && a != b implies key_view(
                    #[trigger] rows@[a].key,
                ) != key_view(#[trigger] rows@[b].key) by {
                assert(rows@[a].key == start[a].key);
                assert(rows@[b].key == start[b].key);
            }
        }
    }
}

/// The identifiers made from the first `n` blocks, in order.
fn fresh_ids(blocks: &Vec<[u8; 16]>, n: usize) -> (ids: Vec<String>)
    requires
        n <= blocks@.len(),
    ensures
        ids@.len() == n,
        forall|i: int| 0 <= i < n ==> (#[trigger] ids@[i])@ == note_id_text(blocks@[i]@),
{
    let mut ids: Vec<String> = Vec::new();
    let mut i: usize = 0;
    while i < n
        invariant
            i <= n <= blocks@.len(),
            ids@.len() == i,
            forall|j: int| 0 <= j < i ==> (#[trigger] ids@[j])@ == note_id_text(blocks@[j]@),
        decreases n - i,
    {
        ids.push(note_id_from_bytes(&blocks[i]));
        i = i + 1;
    }
    ids
}

/// Whether no two of `ids` are equal.
fn all_distinct(ids: &Vec<String>) -> (r: bool)
    ensures
        r == forall|i: int, j: int|
            0 <= i < ids@.len() && 0 <= j < ids@.len() && i != j ==> (#[trigger] ids@[i])@
                != (#[trigger] ids@[j])@,
{
    let mut i: usize = 0;
    while i < ids.len()
        invariant
            i <= ids@.len(),
            forall|a: int, b: int|
                0 <= a < i && 0 <= b < ids@.len() && a != b ==> (#[trigger] ids@[a])@
                    != (#[trigger] ids@[b])@,
        decreases ids@.len() - i,
    {
        let mut j: usize = 0;
        while j < ids.len()
            invariant
                i < ids@.len(),
                j <= ids@.len(),
                forall|a: int, b: int|
                    0 <= a < i && 0 <= b < ids@.len() && a != b ==> (#[trigger] ids@[a])@
                        != (#[trigger] ids@[b])@,
                forall|b: int| 0 <= b < j && b != i ==> ids@[i as int]@ != (#[trigger] ids@[b])@,
            decreases ids@.len() - j,
        {
            if j != i && ids[i] == ids[j] {
                return false;
            }
            j = j + 1;
        }
        i = i + 1;
    }
    true
}

/// Gives row `i` the key `ids[i]`, for every row.
fn assign_keys(rows: &mut Vec<Note>, ids: &Vec<String>)
    requires
        ids@.len() == old(rows)@.len(),
    ensures
        final(rows)@.len() == old(rows)@.len(),
        forall|i: int|
            0 <= i < old(rows)@.len() ==> {
                let (a, b) = (old(rows)@[i], #[trigger] final(rows)@[i]);
                &&& b.key matches NoteKey::Uuid(id) && id@ == ids@[i]@
                &&& b.title == a.title
                &&& b.content == a.content
                &&& b.pinned == a.pinned
                &&& b.starred == a.starred
                &&& b.created_at == a.created_at
                &&& b.updated_at == a.updated_at
                &&& b.deleted_at == a.deleted_at
            },
{
    let ghost start = rows@;
    let mut i: usize = 0;
    while i < rows.len()
        invariant
            i <= rows@.len(),
            rows@.len() == start.len(),
            ids@.len() == start.len(),
            forall|j: int|
                i <= j < rows@.len() ==> #[trigger] rows@[j] == start[j],
            forall|j: int|
                0 <= j < i ==> {
                    let (a, b) = (start[j], #[trigger] rows@[j]);
                    &&& b.key matches NoteKey::Uuid(id) && id@ == ids@[j]@
                    &&& b.title == a.title
                    &&& b.content == a.content
                    &&& b.pinned == a.pinned
                    &&& b.starred == a.starred
                    &&& b.created_at == a.created_at
                    &&& b.updated_at == a.updated_at
                    &&& b.deleted_at == a.deleted_at
                },
        decreases rows@.len() - i,
    {
        let mut n = rows.remove(i);
        n.key = NoteKey::Uuid(ids[i].clone());
        rows.insert(i, n);
        i = i + 1;
    }
}

/// Applies one schema change to the table. Returns `false`, leaving the
/// table as it was, where the change does not apply to it.
pub fn apply_change(table: &mut Option<NotesTable>, change: Change, blocks: &Vec<[u8; 16]>) -> (r:
    bool)
    requires
        table_wf(*old(table)),
        blocks@.len() >= table_rows(*old(table)).len(),
    ensures
        r == change_fits(
            table_shape(*old(table)),
            change,
            ids_distinct(blocks@, table_rows(*old(table)).len() as int),
        ),
        r ==> table_shape(*final(table)) == change_shape(table_shape(*old(table)), change),
        r ==> change_rows(table_rows(*old(table)), table_rows(*final(table)), change, blocks@),
        !r ==> *final(table) == *old(table),
        table_wf(*final(table)),
{
    match change {
        Change::CreateNotes => {
            if table.is_none() {
                let columns = vec![
                    Column::Id,
                    Column::Title,
                    Column::Content,
                    Column::CreatedAt,
                    Column::UpdatedAt,
                ];
                proof {
                    assert(columns@ =~= crate::schema::created_columns());
                }
                *table = Some(NotesTable { key_kind: KeyKind::AutoInteger, columns, rows: Vec::new() });
                assert(table_rows(*old(table)) =~= Seq::<Note>::empty());
            }
            true
        },
        Change::AddColumn(c) => {
            let taken = table.take();
            match taken {
                None => false,
                Some(mut t) => {
                    let addable = (c == Column::Pinned || c == Column::DeletedAt || c
                        == Column::Starred) && !has_column(&t.columns, c);
                    if addable {
                        t.columns.push(c);
                        proof {
                            assert forall|c2: Column|
                                is_optional(c2) && !t.columns@.contains(c2) implies !old(
                                    table,
                                )->0.columns@.contains(c2) by {
                                if old(table)->0.columns@.contains(c2) {
                                    let k = choose|k: int|
                                        0 <= k < old(table)->0.columns@.len() && old(
                                            table,
                                        )->0.columns@[k] == c2;
                                    assert(t.columns@[k] == c2);
                                }
                            }
                        }
                    }
                    *table = Some(t);
                    addable
                },
            }
        },
        Change::DropColumn(c) => {
            let taken = table.take();
            match taken {
                None => false,
                Some(mut t) => {
                    let droppable = (c == Column::Pinned || c == Column::DeletedAt || c
                        == Column::Starred) && has_column(&t.columns, c);
                    if droppable {
                        let ghost before = t;
                        t.columns = remove_column(&t.columns, c);
                        reset_field(&mut t.rows, c);
                        proof {
                            assert forall|c2: Column|
                                c2 != c && !t.columns@.contains(c2) implies !before.columns@.contains(
                                    c2,
                                ) by {
                                crate::schema::lemma_without_keeps(before.columns@, c, c2);
                            }
                        }
                    }
                    *table = Some(t);
                    droppable
                },
            }
        },
        Change::RekeyWithUuid => {
            let taken = table.take();
            match taken {
                None => false,
                Some(mut t) => {
                    let rebuildable = has_column(&t.columns, Column::Title) && has_column(
                        &t.columns,
                        Column::Content,
                    ) && has_column(&t.columns, Column::Starred) && has_column(
                        &t.columns,
                        Column::CreatedAt,
                    ) && has_column(&t.columns, Column::UpdatedAt) && has_column(
                        &t.columns,
                        Column::DeletedAt,
                    );
                    let rebuilt = if rebuildable {
                        let ids = fresh_ids(blocks, t.rows.len());
                        let distinct = all_distinct(&ids);
                        proof {
                            let n = t.rows@.len() as int;
                            if ids_distinct(blocks@, n) {
                                assert forall|i: int, j: int|
                                    0 <= i < n && 0 <= j < n && i != j implies (
                                    #[trigger] ids@[i])@ != (#[trigger] ids@[j])@ by {
                                    assert(note_id_text(blocks@[i]@) != note_id_text(
                                        blocks@[j]@,
                                    ));
                                }
                            }
                            if distinct {
                                assert forall|i: int, j: int|
                                    0 <= i < n && 0 <= j < n && i != j implies note_id_text(
                                    #[trigger] blocks@[i]@,
                                ) != note_id_text(#[trigger] blocks@[j]@) by {
                                    assert(ids@[i]@ != ids@[j]@);
                                }
                            }
                        }
                        if distinct {
                            assign_keys(&mut t.rows, &ids);
                        }
                        distinct
                    } else {
                        false
                    };
                    if rebuilt {
                        reset_field(&mut t.rows, Column::Pinned);
                        t.key_kind = KeyKind::Uuid;
                        t.columns = vec![
                            Column::Id,
                            Column::Title,
                            Column::Content,
                            Column::Starred,
                            Column::CreatedAt,
                            Column::UpdatedAt,
                            Column::DeletedAt,
                        ];
                        proof {
                            assert(t.columns@ =~= crate::schema::rekeyed_columns());
                            assert forall|c2: Column|
                                is_optional(c2) && !t.columns@.contains(c2) implies c2
                                == Column::Pinned by {
                                if c2 == Column::Starred {
                                    assert(t.columns@[3] == c2);
                                }
                                if c2 == Column::DeletedAt {
                                    assert(t.columns@[6] == c2);
                                }
                            }
                        }
                    }
                    *table = Some(t);
                    rebuilt
                },
            }
        },
    }
}

} // verus!
