use noto::database::{migrate, Database, MigrationError};
use noto::migrations::{migrations, DATABASE_URL, LATEST_VERSION};
use noto::note_id::{is_note_id, note_id_from_bytes};
use noto::schema::{has_column, remove_column, Change, Column, KeyKind};
use noto::table::{apply_change, Note, NoteKey, NotesTable};

fn final_columns() -> Vec<Column> {
    vec![
        Column::Id,
        Column::Title,
        Column::Content,
        Column::Starred,
        Column::CreatedAt,
        Column::UpdatedAt,
        Column::DeletedAt,
    ]
}

fn note(seq: u64, title: &str, deleted_at: Option<i64>) -> Note {
    Note {
        key: NoteKey::Sequence(seq),
        title: title.to_string(),
        content: format!("body of {}", title),
        pinned: false,
        starred: false,
        created_at: 1_700_000_000 + seq as i64,
        updated_at: 1_700_000_100 + seq as i64,
        deleted_at,
    }
}

fn database_at_v3(rows: Vec<Note>) -> Database {
    Database {
        version: 3,
        notes: Some(NotesTable {
            key_kind: KeyKind::AutoInteger,
            columns: vec![
                Column::Id,
                Column::Title,
                Column::Content,
                Column::CreatedAt,
                Column::UpdatedAt,
                Column::Pinned,
                Column::DeletedAt,
            ],
            rows,
        }),
    }
}

fn block(seed: u8) -> [u8; 16] {
    let mut b = [0u8; 16];
    for (i, x) in b.iter_mut().enumerate() {
        *x = seed.wrapping_mul(31).wrapping_add(i as u8 * 17);
    }
    b
}

#[test]
fn catalogue_is_ascending_from_one() {
    let steps = migrations();
    assert_eq!(steps.len(), 6);
    assert_eq!(LATEST_VERSION, 6);
    for (i, m) in steps.iter().enumerate() {
        assert_eq!(m.version, i as i64 + 1);
    }
    assert_eq!(steps[0].description, "create notes table");
    assert_eq!(steps[1].description, "add pinned column");
    assert_eq!(steps[2].description, "add deleted_at column");
    assert_eq!(steps[3].description, "add starred column");
    assert_eq!(steps[4].description, "drop pinned column");
    assert_eq!(steps[5].description, "convert id to uuid");
    assert_eq!(steps[4].sql, "ALTER TABLE notes DROP COLUMN pinned");
    assert!(steps[5].sql.contains("ALTER TABLE notes_new RENAME TO notes"));
    assert_eq!(steps[5].change, Change::RekeyWithUuid);
    assert_eq!(DATABASE_URL, "sqlite:noto.db");
}

#[test]
fn fresh_database_reaches_final_schema() {
    let mut db = Database::new();
    assert_eq!(migrate(&mut db, &vec![]), Ok(()));
    assert_eq!(db.version, 6);
    let t = db.notes.expect("table created");
    assert_eq!(t.key_kind, KeyKind::Uuid);
    assert_eq!(t.columns, final_columns());
    assert!(t.rows.is_empty());
}

#[test]
fn v3_database_catches_up_with_fresh_one() {
    let rows = vec![note(1, "first", None), note(2, "second", Some(1_700_000_500))];
    let mut db = database_at_v3(rows.clone());
    let blocks = vec![block(1), block(2)];
    assert_eq!(migrate(&mut db, &blocks), Ok(()));
    assert_eq!(db.version, 6);

    let mut fresh = Database::new();
    migrate(&mut fresh, &vec![]).unwrap();
    let t = db.notes.unwrap();
    let f = fresh.notes.unwrap();
    assert_eq!(t.key_kind, f.key_kind);
    assert_eq!(t.columns, f.columns);

    assert_eq!(t.rows.len(), 2);
    for (i, (old, new)) in rows.iter().zip(t.rows.iter()).enumerate() {
        assert_eq!(new.title, old.title);
        assert_eq!(new.content, old.content);
        assert_eq!(new.starred, old.starred);
        assert_eq!(new.created_at, old.created_at);
        assert_eq!(new.updated_at, old.updated_at);
        assert_eq!(new.deleted_at, old.deleted_at);
        match &new.key {
            NoteKey::Uuid(id) => {
                assert!(is_note_id(id));
                assert_eq!(*id, note_id_from_bytes(&blocks[i]));
            }
            other => panic!("integer key left: {:?}", other),
        }
    }
}

#[test]
fn rerun_on_migrated_database_changes_nothing() {
    let mut db = database_at_v3(vec![note(7, "kept", None)]);
    migrate(&mut db, &vec![block(9)]).unwrap();
    let before = db.clone();
    assert_eq!(migrate(&mut db, &vec![block(3)]), Ok(()));
    assert_eq!(db.version, before.version);
    let (a, b) = (db.notes.unwrap(), before.notes.unwrap());
    assert_eq!(a.columns, b.columns);
    assert_eq!(a.key_kind, b.key_kind);
    assert_eq!(a.rows, b.rows);
}

#[test]
fn rekey_keeps_every_row_and_its_data() {
    let mut rows = vec![
        note(1, "a", None),
        note(2, "b", Some(1_700_000_900)),
        note(3, "c", None),
    ];
    rows[1].starred = true;
    let mut db = Database {
        version: 5,
        notes: Some(NotesTable {
            key_kind: KeyKind::AutoInteger,
            columns: vec![
                Column::Id,
                Column::Title,
                Column::Content,
                Column::CreatedAt,
                Column::UpdatedAt,
                Column::DeletedAt,
                Column::Starred,
            ],
            rows: rows.clone(),
        }),
    };
    let blocks = vec![[0u8; 16], [0xffu8; 16], block(5)];
    assert_eq!(migrate(&mut db, &blocks), Ok(()));
    let t = db.notes.unwrap();
    assert_eq!(t.rows.len(), 3);
    for (old, new) in rows.iter().zip(t.rows.iter()) {
        let mut expected = old.clone();
        expected.key = new.key.clone();
        assert_eq!(*new, expected);
        assert_ne!(new.key, old.key);
    }
    assert_eq!(t.rows[0].key, NoteKey::Uuid("00000000-0000-4000-8000-000000000000".to_string()));
    assert_eq!(t.rows[1].key, NoteKey::Uuid("ffffffff-ffff-4fff-bfff-ffffffffffff".to_string()));
}

#[test]
fn pinned_column_present_only_before_v5() {
    let steps = migrations();
    let mut table: Option<NotesTable> = None;
    let mut present = Vec::new();
    for m in steps.iter() {
        assert!(apply_change(&mut table, m.change, &vec![]));
        present.push(has_column(&table.as_ref().unwrap().columns, Column::Pinned));
    }
    assert_eq!(present, vec![false, true, true, true, false, false]);
}

#[test]
fn soft_deleted_row_stays_present() {
    let mut db = database_at_v3(vec![note(1, "gone", Some(1_700_001_000)), note(2, "here", None)]);
    migrate(&mut db, &vec![block(1), block(2)]).unwrap();
    let t = db.notes.unwrap();
    assert_eq!(t.rows.len(), 2);
    assert_eq!(t.rows[0].title, "gone");
    assert_eq!(t.rows[0].deleted_at, Some(1_700_001_000));
    let key = t.rows[0].key.clone();
    let found: Vec<&Note> = t.rows.iter().filter(|n| n.key == key).collect();
    assert_eq!(found.len(), 1);
    assert_eq!(found[0].deleted_at, Some(1_700_001_000));
}

#[test]
fn failing_step_stops_at_last_good_version() {
    let mut db = Database { version: 1, notes: None };
    assert_eq!(migrate(&mut db, &vec![]), Err(MigrationError { version: 2 }));
    assert_eq!(db.version, 1);
    assert!(db.notes.is_none());
}

#[test]
fn step_on_unexpected_schema_fails() {
    let mut db = database_at_v3(vec![note(1, "x", None)]);
    if let Some(t) = db.notes.as_mut() {
        t.columns.push(Column::Starred);
    }
    assert_eq!(migrate(&mut db, &vec![block(1)]), Err(MigrationError { version: 4 }));
    assert_eq!(db.version, 3);
    assert_eq!(db.notes.unwrap().rows[0].key, NoteKey::Sequence(1));
}

#[test]
fn create_is_kept_when_table_exists() {
    let mut db = database_at_v3(vec![]);
    db.version = 0;
    // the create step leaves an existing table alone; adding pinned again fails
    assert_eq!(migrate(&mut db, &vec![]), Err(MigrationError { version: 2 }));
    assert_eq!(db.version, 1);
    assert_eq!(db.notes.unwrap().columns.len(), 7);
}

#[test]
fn note_id_from_counting_bytes() {
    let b: [u8; 16] = [0, 1, 2, 3, 4, 5, 6, 7, 8, 9, 10, 11, 12, 13, 14, 15];
    assert_eq!(note_id_from_bytes(&b), "00010203-0405-4607-8809-0a0b0c0d0e0f");
    let c: [u8; 16] = [0xde, 0xad, 0xbe, 0xef, 0x12, 0x34, 0xc6, 0x78, 0x5a, 0xbc, 1, 2, 3, 4, 5, 6];
    assert_eq!(note_id_from_bytes(&c), "deadbeef-1234-4678-9abc-010203040506");
}

#[test]
fn note_id_shape_checks() {
    assert!(is_note_id("123e4567-e89b-42d3-a456-426614174000"));
    assert!(is_note_id("00000000-0000-4000-b000-000000000000"));
    assert!(!is_note_id("123E4567-E89B-42D3-A456-426614174000"));
    assert!(!is_note_id("123e4567-e89b-12d3-a456-426614174000"));
    assert!(!is_note_id("123e4567-e89b-42d3-c456-426614174000"));
    assert!(!is_note_id("123e4567e89b-42d3-a456-426614174000-"));
    assert!(!is_note_id("123e4567-e89b-42d3-a456-42661417400"));
    assert!(!is_note_id(""));
    assert!(!is_note_id("123e4567-e89b-42d3-a456-42661417400g"));
}

#[test]
fn column_helpers() {
    let cols = vec![Column::Id, Column::Pinned, Column::Title, Column::Pinned];
    assert!(has_column(&cols, Column::Title));
    assert!(!has_column(&cols, Column::Starred));
    assert_eq!(remove_column(&cols, Column::Pinned), vec![Column::Id, Column::Title]);
    assert_eq!(remove_column(&cols, Column::Starred), cols);
}

#[test]
fn drop_resets_field_and_add_requires_absence() {
    let mut table = Some(NotesTable {
        key_kind: KeyKind::AutoInteger,
        columns: vec![Column::Id, Column::Title, Column::Content, Column::CreatedAt, Column::UpdatedAt, Column::Pinned],
        rows: vec![Note { pinned: true, ..note(1, "p", None) }],
    });
    assert!(!apply_change(&mut table, Change::AddColumn(Column::Pinned), &vec![]));
    assert!(!apply_change(&mut table, Change::DropColumn(Column::Starred), &vec![]));
    assert!(!apply_change(&mut table, Change::RekeyWithUuid, &vec![block(0)]));
    assert!(apply_change(&mut table, Change::DropColumn(Column::Pinned), &vec![]));
    let t = table.unwrap();
    assert!(!t.rows[0].pinned);
    assert_eq!(t.columns.len(), 5);
}

#[test]
fn equal_ids_make_rebuild_fail() {
    let mut db = database_at_v3(vec![note(1, "one", None), note(2, "two", None)]);
    let same = block(4);
    assert_eq!(migrate(&mut db, &vec![same, same]), Err(MigrationError { version: 6 }));
    assert_eq!(db.version, 5);
    let t = db.notes.unwrap();
    assert_eq!(t.key_kind, KeyKind::AutoInteger);
    assert_eq!(t.rows[0].key, NoteKey::Sequence(1));
    assert_eq!(t.rows[1].key, NoteKey::Sequence(2));
    assert!(!has_column(&t.columns, Column::Pinned));
}

#[test]
fn blocks_differing_only_in_stamped_bits_collide() {
    // the version and variant bits are overwritten, so these two give one id
    let a = [0u8; 16];
    let mut b = [0u8; 16];
    b[6] = 0x30;
    b[8] = 0x40;
    assert_eq!(note_id_from_bytes(&a), note_id_from_bytes(&b));
    let mut table = Some(NotesTable {
        key_kind: KeyKind::AutoInteger,
        columns: vec![
            Column::Id,
            Column::Title,
            Column::Content,
            Column::CreatedAt,
            Column::UpdatedAt,
            Column::DeletedAt,
            Column::Starred,
        ],
        rows: vec![note(1, "x", None), note(2, "y", None)],
    });
    let before = table.clone().unwrap().rows;
    assert!(!apply_change(&mut table, Change::RekeyWithUuid, &vec![a, b]));
    assert_eq!(table.as_ref().unwrap().rows, before);
    assert!(apply_change(&mut table, Change::RekeyWithUuid, &vec![a, block(8)]));
    let t = table.unwrap();
    assert_ne!(t.rows[0].key, t.rows[1].key);
    assert!(!t.rows[0].pinned && !t.rows[1].pinned);
}
