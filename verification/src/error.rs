//! Errors, and the messages the command prints for them.

use vstd::prelude::*;
use vstd::string::*;

verus! {

/// Declares rusqlite's error type, which database errors carry.
#[verifier::external_type_specification]
#[verifier::external_body]
pub struct ExSqliteError(rusqlite::Error);

/// Declares std's I/O error type.
#[verifier::external_type_specification]
#[verifier::external_body]
pub struct ExIoError(std::io::Error);

#[derive(Debug)]
pub enum TdoError {
    DbNotFound,
    DbLocked,
    AuthMissing,
    Sqlite(rusqlite::Error),
    Io(std::io::Error),
    Json(serde_json::Error),
    NotFound(String),
}

pub open spec fn not_found_message(id: Seq<char>) -> Seq<char> {
    "Item not found: "@ + id + "\nHint: use `tdo search <query>` to find items and their UUIDs."@
}

impl TdoError {
    /// The message printed for the error (after `error: `).
    ///
    /// For the errors of the database, of I/O and of JSON, the text that
    /// follows the prefix is the wrapped error's own `Display` text.
    pub fn message(&self) -> (r: String)
        ensures
            self is DbNotFound ==> r@
                == "Things 3 database not found. Is Things installed?\nHint: use --db-path to specify the database location manually."@,
            self is DbLocked ==> r@
                == "Things 3 database is locked (sync in progress?). Retried 3 times but it remains locked."@,
            self is AuthMissing ==> r@
                == "Auth token required for write operations.\nSet via --auth-token flag or TDO_AUTH_TOKEN environment variable.\nFind your token in Things > Settings > General > Enable Things URLs > Authentication Token."@,
            self matches TdoError::NotFound(id) ==> r@ == not_found_message(id@),
            self matches TdoError::Sqlite(e) ==> exists|t: String|
                to_string_from_display_ensures::<rusqlite::Error>(&e, t) && r@ == "Database error: "@
                    + t@,
            self matches TdoError::Io(e) ==> exists|t: String|
                to_string_from_display_ensures::<std::io::Error>(&e, t) && r@ == "IO error: "@ + t@,
            self matches TdoError::Json(e) ==> exists|t: String|
                to_string_from_display_ensures::<serde_json::Error>(&e, t) && r@ == "JSON error: "@
                    + t@,
    {
        match self {
            TdoError::DbNotFound => {
                "Things 3 database not found. Is Things installed?\nHint: use --db-path to specify the database location manually.".to_owned()
            },
            TdoError::DbLocked => {
                "Things 3 database is locked (sync in progress?). Retried 3 times but it remains locked.".to_owned()
            },
            TdoError::AuthMissing => {
                "Auth token required for write operations.\nSet via --auth-token flag or TDO_AUTH_TOKEN environment variable.\nFind your token in Things > Settings > General > Enable Things URLs > Authentication Token.".to_owned()
            },
            TdoError::Sqlite(e) => {
                let t = e.to_string();
                let mut r = "Database error: ".to_owned();
                r.append(t.as_str());
                r
            },
            TdoError::Io(e) => {
                let t = e.to_string();
                let mut r = "IO error: ".to_owned();
                r.append(t.as_str());
                r
            },
            TdoError::Json(e) => {
                let t = e.to_string();
                let mut r = "JSON error: ".to_owned();
                r.append(t.as_str());
                r
            },
            TdoError::NotFound(id) => {
                let mut r = "Item not found: ".to_owned();
                r.append(id.as_str());
                r.append("\nHint: use `tdo search <query>` to find items and their UUIDs.");
                r
            },
        }
    }
}

impl From<rusqlite::Error> for TdoError {
    fn from(e: rusqlite::Error) -> (r: Self) {
        TdoError::Sqlite(e)
    }
}

impl vstd::std_specs::convert::FromSpecImpl<rusqlite::Error> for TdoError {
    open spec fn obeys_from_spec() -> bool {
        true
    }

    open spec fn from_spec(e: rusqlite::Error) -> Self {
        TdoError::Sqlite(e)
    }
}

impl From<std::io::Error> for TdoError {
    fn from(e: std::io::Error) -> (r: Self) {
        TdoError::Io(e)
    }
}

impl vstd::std_specs::convert::FromSpecImpl<std::io::Error> for TdoError {
    open spec fn obeys_from_spec() -> bool {
        true
    }

    open spec fn from_spec(e: std::io::Error) -> Self {
        TdoError::Io(e)
    }
}

impl From<serde_json::Error> for TdoError {
    fn from(e: serde_json::Error) -> (r: Self) {
        TdoError::Json(e)
    }
}

impl vstd::std_specs::convert::FromSpecImpl<serde_json::Error> for TdoError {
    open spec fn obeys_from_spec() -> bool {
        true
    }

    open spec fn from_spec(e: serde_json::Error) -> Self {
        TdoError::Json(e)
    }
}

} // verus!
