//! The persisted database: the `entries` table mapping each tracked path
//! to its last-seen fingerprint, and the `posts` table holding the post
//! index. All SQL runs through thin trusted wrappers around `rusqlite`;
//! everything the database's contents mean to a build is decided by
//! verified code over the values these wrappers pass.

use vstd::prelude::*;

verus! {

#[verifier::external_type_specification]
#[verifier::external_body]
pub struct ExConnection(rusqlite::Connection);

/// A handle to the site's database.
pub struct Db {
    conn: rusqlite::Connection,
}

/// One row of the `posts` table, as stored: all columns as text, tags as
/// a JSON array, dates as ISO-8601 text.
#[derive(Debug, PartialEq, Eq)]
pub struct PostRow {
    pub path: String,
    pub permalink: String,
    pub title: String,
    pub tags_json: String,
    pub date: String,
    pub updated: String,
    pub summary: String,
}

impl Db {
    /// Relies on `rusqlite::Connection::open`: opens or creates the
    /// database file at the given path.
    #[verifier::external_body]
    fn connect(path: &str) -> Result<Db, String> {
        match rusqlite::Connection::open(path) {
            Ok(conn) => Ok(Db { conn }),
            Err(e) => Err(e.to_string()),
        }
    }

    /// Relies on `rusqlite::Connection::open_in_memory`: opens a fresh
    /// empty in-memory database.
    #[verifier::external_body]
    fn connect_in_memory() -> Result<Db, String> {
        match rusqlite::Connection::open_in_memory() {
            Ok(conn) => Ok(Db { conn }),
            Err(e) => Err(e.to_string()),
        }
    }

    /// Relies on `rusqlite::Connection::execute` with `CREATE TABLE IF
    /// NOT EXISTS`: ensures the `entries` table exists, one row per
    /// tracked path, unique on path.
    #[verifier::external_body]
    fn create_entries_table(&self) -> Result<(), String> {
        let sql = "CREATE TABLE IF NOT EXISTS entries (entry_id INTEGER PRIMARY KEY, \
            path VARCHAR NOT NULL UNIQUE, hash TEXT NOT NULL)";
        match self.conn.execute(sql, ()) {
            Ok(_) => Ok(()),
            Err(e) => Err(e.to_string()),
        }
    }

    /// Relies on `rusqlite::Connection::execute` with `CREATE TABLE IF
    /// NOT EXISTS`: ensures the `posts` table exists, one row per
    /// indexed page, unique on path.
    #[verifier::external_body]
    fn create_posts_table(&self) -> Result<(), String> {
        let sql = "CREATE TABLE IF NOT EXISTS posts (post_id INTEGER PRIMARY KEY, \
            path VARCHAR NOT NULL UNIQUE, permalink TEXT NOT NULL, title TEXT NOT NULL, \
            tags JSON NOT NULL, date TEXT NOT NULL, updated TEXT NOT NULL, summary TEXT NOT NULL)";
        match self.conn.execute(sql, ()) {
            Ok(_) => Ok(()),
            Err(e) => Err(e.to_string()),
        }
    }

    /// Opens the database file and creates the two tables when absent.
    pub fn open(path: &str) -> Result<Db, String> {
        let db = Db::connect(path)?;
        db.create_entries_table()?;
        db.create_posts_table()?;
        Ok(db)
    }

    /// Opens a fresh in-memory database with the two tables.
    pub fn open_in_memory() -> Result<Db, String> {
        let db = Db::connect_in_memory()?;
        db.create_entries_table()?;
        db.create_posts_table()?;
        Ok(db)
    }

    /// Relies on `rusqlite::Statement::query` over `SELECT hash FROM
    /// entries`: returns the stored fingerprint for the path, or `None`
    /// when the path is untracked.
    #[verifier::external_body]
    pub fn get_hash(&self, path: &str) -> Result<Option<String>, String> {
        let mut stmt = match self.conn.prepare("SELECT hash FROM entries WHERE path = ?1") {
            Ok(s) => s,
            Err(e) => return Err(e.to_string()),
        };
        let mut rows = match stmt.query((path,)) {
            Ok(r) => r,
            Err(e) => return Err(e.to_string()),
        };
        match rows.next() {
            Ok(Some(row)) => row.get(0).map_err(|e| e.to_string()).map(Some),
            Ok(None) => Ok(None),
            Err(e) => Err(e.to_string()),
        }
    }

    /// Relies on `rusqlite::Connection::execute` with `INSERT INTO
    /// entries`: records a first fingerprint for the path; the unique
    /// constraint makes it an error when one is already stored.
    #[verifier::external_body]
    pub fn insert_entry(&self, path: &str, hash: &str) -> Result<(), String> {
        match self.conn.execute("INSERT INTO entries (path, hash) VALUES (?1, ?2)", (path, hash)) {
            Ok(_) => Ok(()),
            Err(e) => Err(e.to_string()),
        }
    }

    /// Relies on `rusqlite::Connection::execute` with `UPDATE entries`:
    /// replaces the stored fingerprint for the path and reports how many
    /// rows changed.
    #[verifier::external_body]
    fn update_entry_row(&self, path: &str, hash: &str) -> Result<usize, String> {
        match self.conn.execute("UPDATE entries SET hash = ?1 WHERE path = ?2", (hash, path)) {
            Ok(n) => Ok(n),
            Err(e) => Err(e.to_string()),
        }
    }

    /// Replaces the stored fingerprint for a tracked path; a path with
    /// no stored fingerprint is an error, as the caller should have
    /// inserted instead.
    pub fn update_entry_hash(&self, path: &str, hash: &str) -> (r: Result<(), String>) {
        match self.update_entry_row(path, hash) {
            Ok(n) => {
                if n == 0 {
                    Err(String::from_str("no stored fingerprint for the path"))
                } else {
                    Ok(())
                }
            },
            Err(e) => Err(e),
        }
    }

    /// Relies on `rusqlite::Connection::execute` with `INSERT INTO
    /// posts`: records a new post index row.
    #[verifier::external_body]
    pub fn insert_post_row(&self, row: &PostRow) -> Result<(), String> {
        let sql = "INSERT INTO posts (path, permalink, title, tags, date, updated, summary) \
            VALUES (?1, ?2, ?3, ?4, ?5, ?6, ?7)";
        let args = (&row.path, &row.permalink, &row.title, &row.tags_json, &row.date,
            &row.updated, &row.summary);
        match self.conn.execute(sql, args) {
            Ok(_) => Ok(()),
            Err(e) => Err(e.to_string()),
        }
    }

    /// Relies on `rusqlite::Connection::execute` with `UPDATE posts`:
    /// replaces the post index row stored for the row's path and reports
    /// how many rows changed.
    #[verifier::external_body]
    fn update_post_columns(&self, row: &PostRow) -> Result<usize, String> {
        let sql = "UPDATE posts SET permalink = ?1, title = ?2, tags = ?3, date = ?4, \
            updated = ?5, summary = ?6 WHERE path = ?7";
        let args = (&row.permalink, &row.title, &row.tags_json, &row.date, &row.updated,
            &row.summary, &row.path);
        match self.conn.execute(sql, args) {
            Ok(n) => Ok(n),
            Err(e) => Err(e.to_string()),
        }
    }

    /// Replaces the post index row stored for the row's path; a path
    /// with no stored row is an error, as the caller should have
    /// inserted instead.
    pub fn update_post_row(&self, row: &PostRow) -> (r: Result<(), String>) {
        match self.update_post_columns(row) {
            Ok(n) => {
                if n == 0 {
                    Err(String::from_str("no post index row for the path"))
                } else {
                    Ok(())
                }
            },
            Err(e) => Err(e),
        }
    }

    /// Relies on `rusqlite::Statement::query` over `SELECT ... FROM
    /// posts`: returns every stored post row, in unspecified order; the
    /// caller orders them.
    #[verifier::external_body]
    pub fn get_post_rows(&self) -> Result<Vec<PostRow>, String> {
        let sql = "SELECT path, permalink, title, tags, date, updated, summary FROM posts";
        let mut stmt = self.conn.prepare(sql).map_err(|e| e.to_string())?;
        let rows = stmt.query_map((), |row| {
            Ok(PostRow {
                path: row.get(0)?, permalink: row.get(1)?, title: row.get(2)?,
                tags_json: row.get(3)?, date: row.get(4)?, updated: row.get(5)?,
                summary: row.get(6)?,
            })
        }).map_err(|e| e.to_string())?;
        rows.collect::<Result<Vec<PostRow>, rusqlite::Error>>().map_err(|e| e.to_string())
    }

    /// Records an entry's fingerprint: a fresh path gets a new row, a
    /// tracked path has its stored fingerprint replaced. This runs right
    /// after classification, so the store matches the on-disk content
    /// whether or not rendering later succeeds.
    pub fn record_entry(&self, path: &str, hash: &str, fresh: bool) -> (r: Result<(), String>) {
        if fresh {
            self.insert_entry(path, hash)
        } else {
            self.update_entry_hash(path, hash)
        }
    }

    /// Records a page in the post index: a fresh page gets a new row, an
    /// already-indexed page has its row replaced, keyed by path.
    pub fn record_post(&self, row: &PostRow, fresh: bool) -> (r: Result<(), String>) {
        if fresh {
            self.insert_post_row(row)
        } else {
            self.update_post_row(row)
        }
    }
}

} // verus!
