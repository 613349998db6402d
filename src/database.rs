//! The notes database and the runner that brings it up to the latest
//! migration: it compares each step's version against the persisted last
//! applied version and applies the remaining steps in order.
use vstd::prelude::*;
use crate::migrations::{migrations, step_change, LATEST_VERSION};
use crate::schema::{change_fits, change_shape, Column, Shape};
use crate::table::{
    apply_change, dropped_note, rekeyed_note, ids_distinct, keyed_from, same_data, table_rows, table_shape, table_wf, Note, NotesTable,
};

verus! {

/// A database file: the version marker the runner persists and the `notes`
/// table, if it has been created.
#[derive(Clone, Debug)]
pub struct Database {
    pub version: i64,
    pub notes: Option<NotesTable>,
}

/// The version at which migration stopped, if one failed.
#[derive(Clone, Copy, PartialEq, Eq, Structural, Debug)]
pub struct MigrationError {
    /// The version of the step that failed.
    pub version: i64,
}

impl Database {
    pub open spec fn wf(&self) -> bool {
        &&& 0 <= self.version
        &&& table_wf(self.notes)
    }

    pub open spec fn shape(&self) -> Option<Shape> {
        table_shape(self.notes)
    }

    pub open spec fn rows(&self) -> Seq<Note> {
        table_rows(self.notes)
    }

    /// A fresh database file: no table, nothing applied.
    pub fn new() -> (r: Database)
        ensures
            r.wf(),
            r.version == 0,
            r.notes is None,
    {
        Database { version: 0, notes: None }
    }
}

/// How a run of the pending steps ends: whether every step applied, the
/// version marker afterwards, and the table's shape afterwards.
pub struct Outcome {
    pub ok: bool,
    pub version: int,
    pub shape: Option<Shape>,
}

/// Applying the steps after version `v` to a table shaped `s`: each step
/// in turn, stopping at the first that does not apply. `ids_ok` tells
/// whether the identifiers the rebuild would give are pairwise different.
pub open spec fn run_from(s: Option<Shape>, v: int, ids_ok: bool) -> Outcome
    decreases LATEST_VERSION - v,
{
    if v >= LATEST_VERSION {
        Outcome { ok: true, version: v, shape: s }
    } else if change_fits(s, step_change(v + 1), ids_ok) {
        run_from(change_shape(s, step_change(v + 1)), v + 1, ids_ok)
    } else {
        Outcome { ok: false, version: v, shape: s }
    }
}

/// What a run from version `from` to version `to` does to the rows: it
/// keeps every row and its data. Where it passes the rebuild with text keys,
/// row `i` gets the key made from `blocks[i]`; otherwise keys are kept.
/// Where it passes version five or six, `pinned` is cleared; otherwise kept.
pub open spec fn rows_migrated(
    old: Seq<Note>,
    new: Seq<Note>,
    from: int,
    to: int,
    blocks: Seq<[u8; 16]>,
) -> bool {
    let rekeyed = from < LATEST_VERSION <= to;
    let cleared = from < to && 5 <= to;
    &&& new.len() == old.len()
    &&& forall|i: int| 0 <= i < old.len() ==> same_data(#[trigger] old[i], new[i])
    &&& rekeyed ==> forall|i: int| 0 <= i < old.len() ==> keyed_from(#[trigger] new[i], blocks[i]@)
    &&& !rekeyed ==> forall|i: int| 0 <= i < old.len() ==> (#[trigger] new[i]).key == old[i].key
    &&& cleared ==> forall|i: int| 0 <= i < old.len() ==> !(#[trigger] new[i]).pinned
    &&& !cleared ==> forall|i: int| 0 <= i < old.len() ==> (#[trigger] new[i]).pinned == old[i].pinned
}

/// The whole effect of `migrate` on a database, `ok` telling whether it
/// returned `Ok`.
pub open spec fn migrated(old: Database, new: Database, ok: bool, blocks: Seq<[u8; 16]>) -> bool {
    let out = run_from(
        old.shape(),
        old.version as int,
        ids_distinct(blocks, old.rows().len() as int),
    );
    &&& new.wf()
    &&& ok == out.ok
    &&& new.version == out.version
    &&& new.shape() == out.shape
    &&& rows_migrated(old.rows(), new.rows(), old.version as int, new.version as int, blocks)
}

/// Applies, in ascending order, every migration whose version is above the
/// database's marker, raising the marker after each. Stops at the first step
/// that does not apply and reports its version; the database is then left at
/// the last step that applied. `blocks` holds sixteen random bytes per row,
/// from which the rebuild with text keys makes each row's identifier; the
/// rebuild fails where two rows would get the same one.
pub fn migrate(db: &mut Database, blocks: &Vec<[u8; 16]>) -> (r: Result<(), MigrationError>)
    requires
        old(db).wf(),
        blocks@.len() >= old(db).rows().len(),
    ensures
        migrated(*old(db), *final(db), r is Ok, blocks@),
        r matches Err(e) ==> e.version == final(db).version + 1,
{
    let steps = migrations();
    let ghost start = *db;
    let ghost ids_ok = ids_distinct(blocks@, start.rows().len() as int);
    let ghost out = run_from(start.shape(), start.version as int, ids_ok);
    let mut k: usize = 0;
    while k < steps.len()
        invariant
            steps@.len() == LATEST_VERSION,
            forall|i: int|
                0 <= i < steps@.len() ==> (#[trigger] steps@[i]).version == i + 1
                    && steps@[i].change == step_change(i + 1),
            k <= steps@.len(),
            db.wf(),
            start == *old(db),
            ids_ok == ids_distinct(blocks@, start.rows().len() as int),
            out == run_from(start.shape(), start.version as int, ids_ok),
            db.version == if start.version >= k {
                start.version
            } else {
                k as i64
            },
            run_from(db.shape(), db.version as int, ids_ok) == out,
            db.rows().len() == start.rows().len(),
            blocks@.len() >= start.rows().len(),
            rows_migrated(start.rows(), db.rows(), start.version as int, db.version as int, blocks@),
        decreases steps@.len() - k,
    {
        let step = &steps[k];
        if step.version > db.version {
            let ghost before = *db;
            let applied = apply_change(&mut db.notes, step.change, blocks);
            if !applied {
                proof {
                    assert(db.version == k);
                    assert(run_from(db.shape(), db.version as int, ids_ok) == Outcome {
                        ok: false,
                        version: db.version as int,
                        shape: db.shape(),
                    });
                }
                return Err(MigrationError { version: step.version });
            }
            db.version = step.version;
            proof {
                let (o, n) = (before.rows(), db.rows());
                let (from, to) = (start.version as int, db.version as int);
                assert forall|i: int|
                    #![trigger start.rows()[i]]
                    #![trigger n[i]]
                    0 <= i < start.rows().len() implies {
                    &&& same_data(start.rows()[i], n[i])
                    &&& from < LATEST_VERSION <= to ==> keyed_from(n[i], blocks@[i]@)
                    &&& !(from < LATEST_VERSION <= to) ==> n[i].key == start.rows()[i].key
                    &&& from < to && 5 <= to ==> !n[i].pinned
                    &&& !(from < to && 5 <= to) ==> n[i].pinned == start.rows()[i].pinned
                } by {
                    assert(before.version == k);
                    assert(same_data(start.rows()[i], o[i]));
                    assert(o[i].key == start.rows()[i].key);
                    if k <= 4 {
                        assert(o[i].pinned == start.rows()[i].pinned);
                    }
                    if k < 4 {
                        assert(n[i] == o[i]);
                    } else if k == 4 {
                        assert(dropped_note(o[i], n[i], Column::Pinned));
                    } else {
                        assert(rekeyed_note(o[i], n[i], blocks@[i]@));
                    }
                }
            }
        }
        k = k + 1;
    }
    Ok(())
}

} // verus!
