use cantabile::db::{
    init_plan, reset_plan, Access, ConnectionError, CONNECTION_ERROR, CREATE_ALBUMS_TABLE,
    CREATE_TRACKS_TABLE, DEFAULT_FILE_NAME, DELETE_ALBUMS, DELETE_TRACKS,
};
use rusqlite::Connection;

fn count(conn: &Connection, table: &str) -> i64 {
    conn.query_row(&format!("SELECT COUNT(*) FROM {table}"), (), |row| row.get(0)).unwrap()
}

fn initialised() -> Connection {
    let conn = Connection::open_in_memory().unwrap();
    for statement in init_plan(Access::Absent).unwrap() {
        conn.execute(statement, ()).unwrap();
    }
    conn
}

#[test]
fn schema_is_as_documented() {
    assert_eq!(
        CREATE_ALBUMS_TABLE,
        "CREATE TABLE IF NOT EXISTS Albums (\n    path TEXT PRIMARY KEY,\n    name TEXT,\n    artists TEXT,\n    year INTEGER,\n    cover BLOB\n);\n"
    );
    assert_eq!(
        CREATE_TRACKS_TABLE,
        "CREATE TABLE IF NOT EXISTS Tracks (\n    path TEXT PRIMARY KEY,\n    album_path TEXT REFERENCES Albums (path),\n    title TEXT,\n    artists TEXT,\n    genre TEXT,\n    year INTEGER,\n    position INTEGER\n);\n"
    );
    assert_eq!(DELETE_ALBUMS, "DELETE FROM Albums;");
    assert_eq!(DELETE_TRACKS, "DELETE FROM Tracks;");
    assert_eq!(DEFAULT_FILE_NAME, "database.sqlite");
    assert!(CONNECTION_ERROR.contains("permissions"));
}

#[test]
fn a_read_only_file_is_refused_before_anything_is_created() {
    assert_eq!(init_plan(Access::ReadOnly), Err(ConnectionError::PermissionDenied));
}

#[test]
fn a_writable_or_absent_file_is_initialised() {
    assert_eq!(init_plan(Access::Writable), Ok([CREATE_ALBUMS_TABLE, CREATE_TRACKS_TABLE]));
    assert_eq!(init_plan(Access::Absent), Ok([CREATE_ALBUMS_TABLE, CREATE_TRACKS_TABLE]));
}

#[test]
fn a_reset_deletes_albums_then_tracks() {
    assert_eq!(reset_plan(), [DELETE_ALBUMS, DELETE_TRACKS]);
}

#[test]
fn initialisation_creates_both_tables_and_can_be_repeated() {
    let conn = initialised();
    assert_eq!(count(&conn, "Albums"), 0);
    assert_eq!(count(&conn, "Tracks"), 0);
    conn.execute("INSERT INTO Albums VALUES ('p', 'n', 'a', 1999, x'00')", ()).unwrap();
    for statement in init_plan(Access::Writable).unwrap() {
        conn.execute(statement, ()).unwrap();
    }
    assert_eq!(count(&conn, "Albums"), 1);
}

#[test]
fn a_reset_leaves_both_tables_empty() {
    let conn = initialised();
    conn.execute(
        "INSERT INTO Albums VALUES ('some_path', 'some_name', 'some_artist', 8564, 'some_blob')",
        (),
    )
    .unwrap();
    conn.execute(
        "INSERT INTO Tracks VALUES ('track_path', 'some_path', 'title', 'artist', 'genre', 8564, 3)",
        (),
    )
    .unwrap();
    assert_eq!(count(&conn, "Albums"), 1);
    assert_eq!(count(&conn, "Tracks"), 1);
    for statement in reset_plan() {
        conn.execute(statement, ()).unwrap();
    }
    assert_eq!(count(&conn, "Albums"), 0);
    assert_eq!(count(&conn, "Tracks"), 0);
    for statement in reset_plan() {
        conn.execute(statement, ()).unwrap();
    }
    assert_eq!(count(&conn, "Albums"), 0);
}
