//! Properties of the migration sequence and of the runner.
use vstd::prelude::*;
use crate::database::{migrated, run_from, Database, Outcome};
use crate::migrations::{step_change, LATEST_VERSION};
use crate::note_id::{is_uuid_v4_shaped, lemma_note_id_shaped};
use crate::schema::{
    change_fits, change_ok, change_shape, created_columns, rekeyed_columns, without, Column, KeyKind, Shape,
};
use crate::table::{ids_distinct, keyed_from, keys_distinct, same_data, NoteKey};

verus! {

/// The table's shape once migrations one to `v` have applied to a fresh
/// database.
pub open spec fn shape_at(v: int) -> Option<Shape>
    decreases v,
{
    if v <= 0 {
        None
    } else {
        change_shape(shape_at(v - 1), step_change(v))
    }
}

/// The final schema: text key, then title, content, starred, the two
/// timestamps and the soft-delete mark.
pub open spec fn latest_shape() -> Shape {
    Shape { key_kind: KeyKind::Uuid, columns: rekeyed_columns() }
}

/// The shapes each version leaves, and that each step applies to the shape
/// its predecessor left.
pub proof fn lemma_shape_history()
    ensures
        shape_at(1) == Some(Shape { key_kind: KeyKind::AutoInteger, columns: created_columns() }),
        shape_at(2) == Some(
            Shape { key_kind: KeyKind::AutoInteger, columns: created_columns().push(Column::Pinned) },
        ),
        shape_at(3) == Some(
            Shape {
                key_kind: KeyKind::AutoInteger,
                columns: created_columns().push(Column::Pinned).push(Column::DeletedAt),
            },
        ),
        shape_at(4) == Some(
            Shape {
                key_kind: KeyKind::AutoInteger,
                columns: created_columns().push(Column::Pinned).push(Column::DeletedAt).push(
                    Column::Starred,
                ),
            },
        ),
        shape_at(5) == Some(
            Shape {
                key_kind: KeyKind::AutoInteger,
                columns: created_columns().push(Column::DeletedAt).push(Column::Starred),
            },
        ),
        shape_at(6) == Some(latest_shape()),
        forall|v: int| 1 <= v <= LATEST_VERSION ==> change_ok(#[trigger] shape_at(v - 1), step_change(v)),
{
    reveal_with_fuel(shape_at, 7);
    reveal_with_fuel(without, 9);
    let c1 = created_columns();
    let c2 = c1.push(Column::Pinned);
    let c3 = c2.push(Column::DeletedAt);
    let c4 = c3.push(Column::Starred);
    let c5 = c1.push(Column::DeletedAt).push(Column::Starred);
    assert(without(c4, Column::Pinned) =~= c5) by {
        assert(c4.drop_last() =~= c3);
        assert(c3.drop_last() =~= c2);
        assert(c2.drop_last() =~= c1);
        assert(without(c1, Column::Pinned) =~= c1) by {
            assert(c1.drop_last() =~= seq![Column::Id, Column::Title, Column::Content, Column::CreatedAt]);
            assert(c1.drop_last().drop_last() =~= seq![Column::Id, Column::Title, Column::Content]);
            assert(c1.drop_last().drop_last().drop_last() =~= seq![Column::Id, Column::Title]);
            assert(c1.drop_last().drop_last().drop_last().drop_last() =~= seq![Column::Id]);
            assert(c1.drop_last().drop_last().drop_last().drop_last().drop_last() =~= Seq::<Column>::empty());
        }
    }
    assert(!c1.contains(Column::Pinned)) by {
        assert(forall|i: int| 0 <= i < 5 ==> c1[i] != Column::Pinned);
    }
    assert(!c2.contains(Column::DeletedAt)) by {
        assert(forall|i: int| 0 <= i < 6 ==> c2[i] != Column::DeletedAt);
    }
    assert(!c3.contains(Column::Starred)) by {
        assert(forall|i: int| 0 <= i < 7 ==> c3[i] != Column::Starred);
    }
    assert(c4[5] == Column::Pinned);
    assert(c5[1] == Column::Title && c5[2] == Column::Content && c5[3] == Column::CreatedAt);
    assert(c5[4] == Column::UpdatedAt && c5[5] == Column::DeletedAt && c5[6] == Column::Starred);
    assert forall|v: int| 1 <= v <= LATEST_VERSION implies change_ok(#[trigger] shape_at(v - 1), step_change(v)) by {
        if v == 2 {
            assert(shape_at(1) == Some(Shape { key_kind: KeyKind::AutoInteger, columns: c1 }));
        }
    }
}

/// A run that succeeds leaves the marker at the latest version at least.
pub proof fn lemma_run_reaches_latest(s: Option<Shape>, v: int, ids_ok: bool)
    ensures
        run_from(s, v, ids_ok).ok ==> run_from(s, v, ids_ok).version >= LATEST_VERSION,
    decreases LATEST_VERSION - v,
{
    if v < LATEST_VERSION && change_fits(s, step_change(v + 1), ids_ok) {
        lemma_run_reaches_latest(change_shape(s, step_change(v + 1)), v + 1, ids_ok);
    }
}

/// A run never lowers the marker, and one that stops early stops below the
/// latest version.
pub proof fn lemma_run_marker(s: Option<Shape>, v: int, ids_ok: bool)
    ensures
        run_from(s, v, ids_ok).version >= v,
        !run_from(s, v, ids_ok).ok ==> run_from(s, v, ids_ok).version < LATEST_VERSION,
    decreases LATEST_VERSION - v,
{
    if v < LATEST_VERSION && change_fits(s, step_change(v + 1), ids_ok) {
        lemma_run_marker(change_shape(s, step_change(v + 1)), v + 1, ids_ok);
    }
}

/// Migration only raises the version marker: no step at or below the
/// marker runs again, and a database already past the sequence is left at
/// its version.
pub proof fn marker_only_rises(old: Database, new: Database, ok: bool, blocks: Seq<[u8; 16]>)
    requires
        migrated(old, new, ok, blocks),
    ensures
        new.version >= old.version,
        old.version >= LATEST_VERSION ==> ok && new.version == old.version && new.shape()
            == old.shape(),
        ok ==> new.version >= LATEST_VERSION,
{
    let ids_ok = ids_distinct(blocks, old.rows().len() as int);
    lemma_run_marker(old.shape(), old.version as int, ids_ok);
    lemma_run_reaches_latest(old.shape(), old.version as int, ids_ok);
}

/// Running the remaining steps from any point of the history ends where a
/// run from a fresh database ends: every step applies and the table has
/// the final schema.
pub proof fn lemma_history_runs_to_latest(v: int)
    requires
        0 <= v <= LATEST_VERSION,
    ensures
        run_from(shape_at(v), v, true) == (Outcome { ok: true, version: LATEST_VERSION as int, shape: Some(latest_shape()) }),
    decreases LATEST_VERSION - v,
{
    lemma_shape_history();
    if v < LATEST_VERSION {
        assert(change_ok(shape_at(v + 1 - 1), step_change(v + 1)));
        lemma_history_runs_to_latest(v + 1);
    }
}

/// Migrating a fresh database applies the whole sequence without error and
/// yields exactly the final schema, with no rows.
pub proof fn fresh_database_migrates_to_latest(
    old: Database,
    new: Database,
    ok: bool,
    blocks: Seq<[u8; 16]>,
)
    requires
        old.version == 0,
        old.notes is None,
        migrated(old, new, ok, blocks),
    ensures
        ok,
        new.version == LATEST_VERSION,
        new.shape() == Some(latest_shape()),
        new.rows().len() == 0,
{
    assert(ids_distinct(blocks, 0));
    lemma_history_runs_to_latest(0);
}

/// A database migrated through version three ends, after the rest of the
/// sequence, with the same schema as a fresh one, every row kept with its
/// data and given an identifier of UUID-v4 shape, no two the same. This
/// holds where the random blocks give pairwise different identifiers; where
/// they do not, the rebuild fails as the primary key demands.
pub proof fn partly_migrated_database_catches_up(
    old: Database,
    new: Database,
    ok: bool,
    blocks: Seq<[u8; 16]>,
)
    requires
        old.wf(),
        old.version == 3,
        old.shape() == shape_at(3),
        blocks.len() >= old.rows().len(),
        ids_distinct(blocks, old.rows().len() as int),
        migrated(old, new, ok, blocks),
    ensures
        ok,
        new.version == LATEST_VERSION,
        new.shape() == run_from(None, 0, true).shape,
        keys_distinct(new.rows()),
        new.rows().len() == old.rows().len(),
        forall|i: int|
            0 <= i < old.rows().len() ==> same_data(#[trigger] old.rows()[i], new.rows()[i])
                && (new.rows()[i].key matches NoteKey::Uuid(id) && is_uuid_v4_shaped(id@)),
{
    lemma_history_runs_to_latest(0);
    lemma_history_runs_to_latest(3);
    assert forall|i: int| 0 <= i < old.rows().len() implies same_data(
        #[trigger] old.rows()[i],
        new.rows()[i],
    ) && (new.rows()[i].key matches NoteKey::Uuid(id) && is_uuid_v4_shaped(id@)) by {
        assert(keyed_from(new.rows()[i], blocks[i]@));
        lemma_note_id_shaped(blocks[i]@);
    }
}

/// Running the sequence again on a fully migrated database changes nothing
/// and does not fail.
pub proof fn rerun_changes_nothing(old: Database, new: Database, ok: bool, blocks: Seq<[u8; 16]>)
    requires
        old.version == LATEST_VERSION,
        migrated(old, new, ok, blocks),
    ensures
        ok,
        new.version == old.version,
        new.shape() == old.shape(),
        new.rows().len() == old.rows().len(),
        forall|i: int|
            0 <= i < old.rows().len() ==> same_data(#[trigger] old.rows()[i], new.rows()[i])
                && new.rows()[i].key == old.rows()[i].key && new.rows()[i].pinned
                == old.rows()[i].pinned,
{
}

/// The rebuild with text keys keeps every row and all of its data: only
/// the identifier is replaced, and no two rows end with the same one.
pub proof fn rekey_keeps_rows(old: Database, new: Database, ok: bool, blocks: Seq<[u8; 16]>)
    requires
        old.version < LATEST_VERSION,
        ok,
        blocks.len() >= old.rows().len(),
        migrated(old, new, ok, blocks),
    ensures
        new.rows().len() == old.rows().len(),
        forall|i: int|
            0 <= i < old.rows().len() ==> same_data(#[trigger] old.rows()[i], new.rows()[i])
                && keyed_from(new.rows()[i], blocks[i]@),
        keys_distinct(new.rows()),
{
    lemma_run_reaches_latest(old.shape(), old.version as int, ids_distinct(blocks, old.rows().len() as int));
}

/// The `pinned` column is present after versions two to four, and absent
/// from version five on.
pub proof fn pinned_column_history()
    ensures
        shape_at(2)->0.columns.contains(Column::Pinned),
        shape_at(3)->0.columns.contains(Column::Pinned),
        shape_at(4)->0.columns.contains(Column::Pinned),
        !shape_at(5)->0.columns.contains(Column::Pinned),
        !shape_at(6)->0.columns.contains(Column::Pinned),
{
    lemma_shape_history();
    let c1 = created_columns();
    assert(c1.push(Column::Pinned)[5] == Column::Pinned);
    assert(c1.push(Column::Pinned).push(Column::DeletedAt)[5] == Column::Pinned);
    assert(c1.push(Column::Pinned).push(Column::DeletedAt).push(Column::Starred)[5] == Column::Pinned);
    let c5 = c1.push(Column::DeletedAt).push(Column::Starred);
    assert(forall|i: int| 0 <= i < 7 ==> c5[i] != Column::Pinned);
    assert(forall|i: int| 0 <= i < 7 ==> rekeyed_columns()[i] != Column::Pinned);
}

/// Migration never removes a soft-deleted row: it stays in place with its
/// deletion mark.
pub proof fn soft_deleted_rows_kept(old: Database, new: Database, ok: bool, blocks: Seq<[u8; 16]>)
    requires
        migrated(old, new, ok, blocks),
    ensures
        forall|i: int|
            0 <= i < old.rows().len() && (#[trigger] old.rows()[i]).deleted_at is Some ==> i
                < new.rows().len() && new.rows()[i].deleted_at == old.rows()[i].deleted_at,
{
}

} // verus!
