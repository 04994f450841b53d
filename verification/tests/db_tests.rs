use roextract::category::{AssetInfo, Category};
use roextract::coordinator::{copy_assets, create_asset_info, extract_asset_to_bytes, swap_assets};
use roextract::db::{DbError, DbSource};
use roextract::engine::Engine;

fn sql_asset(name: &str) -> AssetInfo {
    AssetInfo {
        name: name.to_owned(),
        size: 0,
        last_modified: None,
        from_file: false,
        from_sql: true,
        category: Category::All,
    }
}

fn open_store(rows: &[(&[u8], i64, i64, &[u8])]) -> DbSource {
    let conn = rusqlite::Connection::open_in_memory().unwrap();
    conn.execute(
        "CREATE TABLE files (id BLOB PRIMARY KEY, size INTEGER, ttl INTEGER, content BLOB)",
        (),
    )
    .unwrap();
    for (id, size, ttl, content) in rows {
        conn.execute(
            "INSERT INTO files (id, size, ttl, content) VALUES (?1, ?2, ?3, ?4)",
            (*id, *size, *ttl, *content),
        )
        .unwrap();
    }
    DbSource::with_connection(conn)
}

fn fresh_engine() -> Engine {
    Engine::new("/tmp/assets".to_owned(), "idling".to_owned())
}

#[test]
fn read_asset_by_hex_id() {
    let db = open_store(&[(&[0x01, 0x02], 7, 10, b"content-one")]);
    let bytes = db.read_asset(&sql_asset("0102")).unwrap();
    assert_eq!(bytes, b"content-one".to_vec());
}

#[test]
fn read_asset_accepts_uppercase_hex() {
    let db = open_store(&[(&[0xab], 1, 1, b"x")]);
    assert_eq!(db.read_asset(&sql_asset("AB")).unwrap(), b"x".to_vec());
}

#[test]
fn read_asset_rejects_malformed_id() {
    let db = open_store(&[]);
    assert!(matches!(
        db.read_asset(&sql_asset("zz")),
        Err(DbError::InvalidId)
    ));
    assert!(matches!(
        db.read_asset(&sql_asset("abc")),
        Err(DbError::InvalidId)
    ));
}

#[test]
fn read_asset_reports_missing_row() {
    let db = open_store(&[(&[0x01], 1, 1, b"x")]);
    assert!(matches!(
        db.read_asset(&sql_asset("02")),
        Err(DbError::NotFound)
    ));
}

#[test]
fn closed_source_reports_no_connection_until_reconnected() {
    let db = DbSource::unconnected();
    assert!(matches!(
        db.read_asset(&sql_asset("01")),
        Err(DbError::NoConnection)
    ));
    assert_eq!(db.get_db_path(), None);
}

#[test]
fn create_asset_info_resolves_stored_metadata() {
    let db = open_store(&[(&[0x0f, 0x10], 123, 456, b"c")]);
    let info = db.create_asset_info("0f10", Category::Images).unwrap();
    assert_eq!(info.name, "0f10");
    assert_eq!(info.size, 123);
    assert_eq!(info.last_modified, Some(456));
    assert!(info.from_sql);
    assert!(!info.from_file);
    assert_eq!(info.category, Category::Images);
}

#[test]
fn create_asset_info_misses_absent_row() {
    let db = open_store(&[]);
    assert!(db.create_asset_info("0f10", Category::All).is_none());
}

#[test]
fn coordinator_create_asset_info_falls_back_in_order() {
    let db = open_store(&[(&[0x01], 5, 6, b"c")]);
    // Database hit wins.
    let info = create_asset_info(&db, "01", Category::Sounds, None);
    assert!(info.from_sql);
    assert_eq!(info.size, 5);
    // Directory answer is taken when the database misses.
    let dir = AssetInfo {
        name: "02".to_owned(),
        size: 9,
        last_modified: Some(1),
        from_file: true,
        from_sql: false,
        category: Category::Sounds,
    };
    let info = create_asset_info(&db, "02", Category::Sounds, Some(dir));
    assert!(info.from_file);
    assert_eq!(info.size, 9);
    // Neither backend: a placeholder is made up anyway.
    let info = create_asset_info(&db, "02", Category::Sounds, None);
    assert_eq!(info.name, "02");
    assert_eq!(info.size, 0);
    assert!(!info.from_file && !info.from_sql);
    assert_eq!(info.category, Category::Sounds);
}

#[test]
fn swap_exchanges_contents_and_swapping_twice_restores_them() {
    let mut db = open_store(&[(&[0x01], 1, 1, b"first"), (&[0x02], 2, 2, b"second")]);
    let a = sql_asset("01");
    let b = sql_asset("02");

    db.swap_assets(&a, &b).unwrap();
    assert_eq!(db.read_asset(&a).unwrap(), b"second".to_vec());
    assert_eq!(db.read_asset(&b).unwrap(), b"first".to_vec());

    // The exchange is an involution: the same swap again restores the
    // original contents exactly.
    db.swap_assets(&a, &b).unwrap();
    assert_eq!(db.read_asset(&a).unwrap(), b"first".to_vec());
    assert_eq!(db.read_asset(&b).unwrap(), b"second".to_vec());
}

#[test]
fn swap_of_an_asset_with_itself_changes_nothing() {
    let mut db = open_store(&[(&[0x01], 1, 1, b"only")]);
    let a = sql_asset("01");
    db.swap_assets(&a, &a).unwrap();
    assert_eq!(db.read_asset(&a).unwrap(), b"only".to_vec());
}

#[test]
fn swap_with_missing_row_changes_nothing() {
    let mut db = open_store(&[(&[0x01], 1, 1, b"first")]);
    let r = db.swap_assets(&sql_asset("01"), &sql_asset("02"));
    assert!(matches!(r, Err(DbError::NotFound)));
    assert_eq!(db.read_asset(&sql_asset("01")).unwrap(), b"first".to_vec());
}

#[test]
fn copy_overwrites_target_and_keeps_source() {
    let mut db = open_store(&[(&[0x01], 1, 1, b"first"), (&[0x02], 2, 2, b"second")]);
    db.copy_assets(&sql_asset("01"), &sql_asset("02")).unwrap();
    assert_eq!(db.read_asset(&sql_asset("01")).unwrap(), b"first".to_vec());
    assert_eq!(db.read_asset(&sql_asset("02")).unwrap(), b"first".to_vec());
}

#[test]
fn coordinator_swap_succeeds_when_either_backend_succeeds() {
    let mut engine = fresh_engine();
    let mut db = open_store(&[(&[0x01], 1, 1, b"x"), (&[0x02], 2, 2, b"y")]);
    let (ok, dbres) = swap_assets(
        &mut engine,
        &mut db,
        &sql_asset("01"),
        &sql_asset("02"),
        false,
        "swapped".to_owned(),
        "failed".to_owned(),
    );
    assert!(ok);
    assert!(dbres.is_ok());
    assert_eq!(engine.get_status(), "swapped");

    // Both backends failing is the only failure.
    let (ok, dbres) = swap_assets(
        &mut engine,
        &mut db,
        &sql_asset("01"),
        &sql_asset("09"),
        false,
        "swapped".to_owned(),
        "failed".to_owned(),
    );
    assert!(!ok);
    assert!(dbres.is_err());
    assert_eq!(engine.get_status(), "failed");

    // A directory-side success carries the operation even when the
    // database side fails.
    let (ok, _) = copy_assets(
        &mut engine,
        &mut db,
        &sql_asset("01"),
        &sql_asset("09"),
        true,
        "copied".to_owned(),
        "failed".to_owned(),
    );
    assert!(ok);
    assert_eq!(engine.get_status(), "copied");
}

#[test]
fn refresh_lists_matching_rows_with_hex_names() {
    let mut engine = fresh_engine();
    let db = open_store(&[
        (&[0x01, 0xfe], 10, 100, b"....OggS-audio"),
        (&[0x02], 20, 200, b"junk with nothing"),
        (&[0x03], 30, 300, b"..PNG-image"),
    ]);
    db.refresh(&mut engine, Category::All, false).unwrap();
    let mut names: Vec<String> = engine.get_file_list().iter().map(|a| a.name.clone()).collect();
    names.sort();
    assert_eq!(names, vec!["01fe".to_owned(), "03".to_owned()]);
    for entry in engine.get_file_list() {
        assert!(entry.from_sql);
        assert!(!entry.from_file);
        if entry.name == "01fe" {
            assert_eq!(entry.size, 10);
            assert_eq!(entry.last_modified, Some(100));
            assert_eq!(entry.category, Category::Sounds);
        } else {
            assert_eq!(entry.size, 30);
            assert_eq!(entry.category, Category::Images);
        }
    }
}

#[test]
fn refresh_decompresses_row_content_before_matching() {
    let compressed = zstd::stream::encode_all(&b"..OggS-compressed-audio"[..], 3).unwrap();
    let mut engine = fresh_engine();
    let db = open_store(&[(&[0x0a], 1, 1, &compressed)]);
    db.refresh(&mut engine, Category::Sounds, false).unwrap();
    let list = engine.get_file_list();
    assert_eq!(list.len(), 1);
    assert_eq!(list[0].name, "0a");
    assert_eq!(list[0].category, Category::Sounds);
}

#[test]
fn refresh_filters_by_requested_category() {
    let mut engine = fresh_engine();
    let db = open_store(&[
        (&[0x01], 1, 1, b"..OggS.."),
        (&[0x02], 2, 2, b"..PNG.."),
    ]);
    db.refresh(&mut engine, Category::Images, false).unwrap();
    let list = engine.get_file_list();
    assert_eq!(list.len(), 1);
    assert_eq!(list[0].name, "02");
    assert_eq!(list[0].category, Category::Images);
}

#[test]
fn refresh_skips_music_and_needs_a_connection() {
    let mut engine = fresh_engine();
    let db = open_store(&[(&[0x01], 1, 1, b"..OggS..")]);
    db.refresh(&mut engine, Category::Music, false).unwrap();
    assert!(engine.get_file_list().is_empty());

    let closed = DbSource::unconnected();
    let r = closed.refresh(&mut engine, Category::All, false);
    assert!(matches!(r, Err(DbError::NoConnection)));
    assert!(engine.get_file_list().is_empty());
}

#[test]
fn extract_asset_to_bytes_decompresses_and_slices() {
    let compressed = zstd::stream::encode_all(&b"zzPNG-the-payload"[..], 3).unwrap();
    let db = open_store(&[(&[0x01], 1, 1, &compressed)]);
    let mut asset = sql_asset("01");
    asset.category = Category::Images;
    let payload = extract_asset_to_bytes(&db, &asset).unwrap();
    // PNG carries a backward offset of one container byte.
    assert_eq!(payload, b"zPNG-the-payload".to_vec());
}

#[test]
fn extract_asset_to_bytes_turns_directory_assets_away() {
    let db = open_store(&[]);
    let mut asset = sql_asset("01");
    asset.from_sql = false;
    asset.from_file = true;
    assert!(matches!(
        extract_asset_to_bytes(&db, &asset),
        Err(DbError::NotDatabaseAsset)
    ));
}

#[test]
fn extract_asset_without_signature_returns_decompressed_bytes() {
    let db = open_store(&[(&[0x01], 1, 1, b"no markers at all")]);
    let mut asset = sql_asset("01");
    asset.category = Category::Images;
    let payload = extract_asset_to_bytes(&db, &asset).unwrap();
    assert_eq!(payload, b"no markers at all".to_vec());
}

#[test]
fn prepare_clear_hands_back_path_and_closes() {
    let mut db = open_store(&[(&[0x01], 1, 1, b"x")]);
    // An in-memory database reports the empty path.
    let path = db.prepare_clear();
    assert_eq!(path, Some(String::new()));
    assert!(matches!(
        db.read_asset(&sql_asset("01")),
        Err(DbError::NoConnection)
    ));
}

#[test]
fn reset_database_installs_fresh_resolution_or_none() {
    let mut db = open_store(&[(&[0x01], 1, 1, b"x")]);
    db.reset_database(None).unwrap();
    assert!(matches!(
        db.read_asset(&sql_asset("01")),
        Err(DbError::NoConnection)
    ));

    let conn = rusqlite::Connection::open_in_memory().unwrap();
    conn.execute(
        "CREATE TABLE files (id BLOB PRIMARY KEY, size INTEGER, ttl INTEGER, content BLOB)",
        (),
    )
    .unwrap();
    conn.execute(
        "INSERT INTO files (id, size, ttl, content) VALUES (?1, ?2, ?3, ?4)",
        (&[0x05u8][..], 1i64, 1i64, &b"fresh"[..]),
    )
    .unwrap();
    db.reset_database(Some(conn)).unwrap();
    assert_eq!(db.read_asset(&sql_asset("05")).unwrap(), b"fresh".to_vec());
}

#[test]
fn clean_up_closes_the_connection() {
    let mut db = open_store(&[]);
    db.clean_up().unwrap();
    assert!(matches!(
        db.read_asset(&sql_asset("01")),
        Err(DbError::NoConnection)
    ));
}

#[test]
fn closing_an_already_closed_source_succeeds() {
    let mut db = open_store(&[]);
    assert!(db.clean_up().is_ok());
    // Already closed: closing again is owed to succeed, as is a reset
    // that installs nothing.
    assert!(db.clean_up().is_ok());
    assert!(db.reset_database(None).is_ok());
}

#[test]
fn db_error_messages() {
    assert_eq!(DbError::NoConnection.message(), "No SQL connection");
    assert_eq!(DbError::InvalidId.message(), "Invalid asset id");
    assert_eq!(DbError::NotFound.message(), "Asset not found");
    assert_eq!(DbError::NotDatabaseAsset.message(), "Not a database asset");
    assert_eq!(DbError::Failure("boom".to_owned()).message(), "boom");
}
