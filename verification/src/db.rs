//! The shape of the index database and the plans of its lifecycle
//! operations. The statements are run by the caller, who holds the
//! connection.

use vstd::prelude::*;

verus! {

/// The statement that creates the table of albums unless it exists.
pub const CREATE_ALBUMS_TABLE: &'static str = "CREATE TABLE IF NOT EXISTS Albums (
    path TEXT PRIMARY KEY,
    name TEXT,
    artists TEXT,
    year INTEGER,
    cover BLOB
);
";

/// The statement that creates the table of tracks unless it exists. Each
/// track refers to its album by the album's path.
pub const CREATE_TRACKS_TABLE: &'static str = "CREATE TABLE IF NOT EXISTS Tracks (
    path TEXT PRIMARY KEY,
    album_path TEXT REFERENCES Albums (path),
    title TEXT,
    artists TEXT,
    genre TEXT,
    year INTEGER,
    position INTEGER
);
";

/// The statement that deletes every album.
pub const DELETE_ALBUMS: &'static str = "DELETE FROM Albums;";

/// The statement that deletes every track.
pub const DELETE_TRACKS: &'static str = "DELETE FROM Tracks;";

/// The name of the database file under the current directory, used where
/// no path is given.
pub const DEFAULT_FILE_NAME: &'static str = "database.sqlite";

/// What to tell the user when the database file cannot be written.
pub const CONNECTION_ERROR: &'static str =
    "Failed to get connection to database. Does cantabile have readwrite permissions?";

/// What a look at the database path found, before anything is opened.
#[derive(Debug, Clone, Copy, PartialEq, Eq, Structural)]
pub enum Access {
    /// No file could be opened at the path; the database will be created.
    Absent,
    /// A file is there and can be written.
    Writable,
    /// A file is there and is read-only.
    ReadOnly,
}

/// Why no connection to the database is made.
#[derive(Debug, Clone, Copy, PartialEq, Eq, Structural)]
pub enum ConnectionError {
    /// The database file exists and cannot be written.
    PermissionDenied,
}

/// The statements of initialisation, in the order in which they are run.
pub open spec fn init_statements() -> Seq<Seq<char>> {
    seq![CREATE_ALBUMS_TABLE@, CREATE_TRACKS_TABLE@]
}

/// The statements of a reset, in the order in which they are run.
pub open spec fn reset_statements() -> Seq<Seq<char>> {
    seq![DELETE_ALBUMS@, DELETE_TRACKS@]
}

/// The views of a sequence of statements.
pub open spec fn statement_views(v: Seq<&'static str>) -> Seq<Seq<char>> {
    v.map_values(|s: &'static str| s@)
}

/// Plans the initialisation of the database for what was found at its
/// path. A read-only file is refused before anything is opened or
/// created; otherwise the plan is to open the database and to create the
/// albums table, then the tracks table, each unless it exists.
pub fn init_plan(access: Access) -> (r: Result<[&'static str; 2], ConnectionError>)
    ensures
        match r {
            Ok(statements) => access != Access::ReadOnly && statement_views(statements@)
                == init_statements(),
            Err(e) => access == Access::ReadOnly && e == ConnectionError::PermissionDenied,
        },
{
    match access {
        Access::ReadOnly => Err(ConnectionError::PermissionDenied),
        _ => {
            let statements = [CREATE_ALBUMS_TABLE, CREATE_TRACKS_TABLE];
            assert(statement_views(statements@) =~= init_statements());
            Ok(statements)
        },
    }
}

/// Plans a reset: every album is deleted, then every track. The tracks'
/// reference to their album deletes nothing by itself.
pub fn reset_plan() -> (r: [&'static str; 2])
    ensures
        statement_views(r@) == reset_statements(),
{
    let statements = [DELETE_ALBUMS, DELETE_TRACKS];
    assert(statement_views(statements@) =~= reset_statements());
    statements
}

} // verus!
