//! Versioned schema migrations.
//!
//! The schema version is kept in SQLite's own `user_version` pragma, so there is no bootstrap table and no
//! chicken and egg problem on a fresh database. Migrations are append only: never edit an existing entry,
//! add a new one, because installed services will already have run the old version.
//!
//! The library holds the list and decides which entries a database still needs; running the statements
//! is the job of whoever holds the connection.

use vstd::prelude::*;

verus! {

/// One schema step.
#[derive(Debug, Clone, Copy)]
pub struct Migration {
    pub version: i32,
    pub name: &'static str,
    pub sql: &'static str,
}

/// Version 1: initial schema.
pub const INITIAL_SCHEMA: &'static str = r#"
        CREATE TABLE settings (
            key           TEXT PRIMARY KEY,
            value         TEXT NOT NULL,
            updated_at_ms INTEGER NOT NULL
        );

        CREATE TABLE sessions (
            id            INTEGER PRIMARY KEY AUTOINCREMENT,
            device_id     TEXT NOT NULL,
            device_name   TEXT NOT NULL,
            sample_rate   INTEGER NOT NULL,
            channels      INTEGER NOT NULL,
            started_at_ms INTEGER NOT NULL,
            ended_at_ms   INTEGER
        );

        CREATE INDEX idx_sessions_started_at ON sessions (started_at_ms);

        CREATE TABLE segments (
            id            INTEGER PRIMARY KEY AUTOINCREMENT,
            session_id    INTEGER NOT NULL REFERENCES sessions (id) ON DELETE CASCADE,
            sequence      INTEGER NOT NULL,
            path          TEXT NOT NULL,
            started_at_ms INTEGER NOT NULL,
            ended_at_ms   INTEGER NOT NULL,
            sample_rate   INTEGER NOT NULL,
            channels      INTEGER NOT NULL,
            byte_len      INTEGER NOT NULL,
            peaks         BLOB NOT NULL
        );

        CREATE INDEX idx_segments_range ON segments (started_at_ms, ended_at_ms);
        CREATE UNIQUE INDEX idx_segments_session_sequence ON segments (session_id, sequence);
    "#;

/// Version 2: index segments by local calendar day.
///
/// The backfill uses SQLite's own `localtime` modifier so segments recorded before this migration
/// land on the same day they would have been filed under had the column always existed. Their
/// files stay where they are: `path` is stored per row, so the old flat layout keeps resolving.
pub const DAY_INDEX: &'static str = r#"
        ALTER TABLE segments ADD COLUMN day TEXT NOT NULL DEFAULT '';

        UPDATE segments
        SET day = date(started_at_ms / 1000, 'unixepoch', 'localtime')
        WHERE day = '';

        CREATE INDEX idx_segments_day ON segments (day, started_at_ms);
    "#;

/// Version 3: timeline bookmarks.
///
/// Bookmarks point at a moment rather than at a segment. Deliberately no foreign key: a moment can
/// be marked before the segment covering it has closed, and the timestamp stays meaningful even
/// once the audio around it is gone.
pub const BOOKMARKS: &'static str = r#"
        CREATE TABLE bookmarks (
            id            INTEGER PRIMARY KEY AUTOINCREMENT,
            timestamp_ms  INTEGER NOT NULL,
            label         TEXT NOT NULL,
            note          TEXT,
            created_at_ms INTEGER NOT NULL
        );

        CREATE INDEX idx_bookmarks_timestamp ON bookmarks (timestamp_ms);
    "#;

/// Version 4: accounts and login sessions.
///
/// The mode lives in a one row table rather than in `settings`, because settings are edited through
/// the settings endpoint and whether a login is required must never be changeable that way. Every
/// existing install arrives here as undecided, so its owner is asked the question on the next visit.
/// 
/// Login sessions store a SHA-256 of the cookie value, never the value itself, so a copied database
/// file cannot be used to sign in.
pub const ACCOUNTS: &'static str = r#"
        CREATE TABLE auth_state (
            id            INTEGER PRIMARY KEY CHECK (id = 1),
            mode          TEXT NOT NULL CHECK (mode IN ('undecided', 'open', 'accounts')),
            decided_at_ms INTEGER
        );

        INSERT INTO auth_state (id, mode, decided_at_ms) VALUES (1, 'undecided', NULL);

        CREATE TABLE users (
            id                     INTEGER PRIMARY KEY AUTOINCREMENT,
            email                  TEXT NOT NULL UNIQUE COLLATE NOCASE,
            password_hash          TEXT NOT NULL,
            role                   TEXT NOT NULL CHECK (role IN ('admin', 'listener')),
            created_at_ms          INTEGER NOT NULL,
            password_changed_at_ms INTEGER NOT NULL
        );

        CREATE TABLE auth_sessions (
            token_hash      BLOB PRIMARY KEY,
            user_id         INTEGER NOT NULL REFERENCES users (id) ON DELETE CASCADE,
            created_at_ms   INTEGER NOT NULL,
            expires_at_ms   INTEGER NOT NULL,
            last_seen_at_ms INTEGER NOT NULL
        );

        CREATE INDEX idx_auth_sessions_user ON auth_sessions (user_id);
    "#;

/// Version 5: two factor sign in.
///
/// The authenticator secret has to be readable, because the server recomputes the code to check
/// it, so it is stored as is, like every authenticator app stores it. A pending secret waits here
/// between showing the QR code and the first code that proves it was scanned. The last accepted
/// time step is what stops a code being replayed while it is still on the screen.
/// 
/// Recovery codes are one time and high entropy, so a SHA-256 of each is enough, and a used code
/// is kept with its time rather than deleted, so "how many are left" is a count, not a guess.
pub const TWO_FACTOR: &'static str = r#"
        ALTER TABLE users ADD COLUMN totp_secret BLOB;
        ALTER TABLE users ADD COLUMN totp_pending_secret BLOB;
        ALTER TABLE users ADD COLUMN totp_last_step INTEGER;

        CREATE TABLE recovery_codes (
            id         INTEGER PRIMARY KEY AUTOINCREMENT,
            user_id    INTEGER NOT NULL REFERENCES users (id) ON DELETE CASCADE,
            code_hash  BLOB NOT NULL,
            used_at_ms INTEGER
        );

        CREATE INDEX idx_recovery_codes_user ON recovery_codes (user_id);
    "#;

/// The versions of the known migrations, in the order they run.
pub open spec fn known_versions() -> Seq<i32> {
    seq![1i32, 2i32, 3i32, 4i32, 5i32]
}

/// Every migration this build knows, oldest first. Versions strictly ascend.
pub fn migrations() -> (list: Vec<Migration>)
    ensures
        list@.len() == known_versions().len(),
        forall|i: int| 0 <= i < list@.len() ==> #[trigger] list@[i].version == known_versions()[i],
        list@[0].sql == INITIAL_SCHEMA,
        list@[1].sql == DAY_INDEX,
        list@[2].sql == BOOKMARKS,
        list@[3].sql == ACCOUNTS,
        list@[4].sql == TWO_FACTOR,
{
    let mut list: Vec<Migration> = Vec::new();
    list.push(Migration { version: 1, name: "initial schema", sql: INITIAL_SCHEMA });
    list.push(Migration { version: 2, name: "index segments by local calendar day", sql: DAY_INDEX });
    list.push(Migration { version: 3, name: "timeline bookmarks", sql: BOOKMARKS });
    list.push(Migration { version: 4, name: "accounts and login sessions", sql: ACCOUNTS });
    list.push(Migration { version: 5, name: "two factor sign in", sql: TWO_FACTOR });
    list
}

/// The highest of some versions, zero for none.
pub open spec fn highest_version(versions: Seq<i32>) -> i32
    decreases versions.len(),
{
    if versions.len() == 0 {
        0
    } else if versions.last() > highest_version(versions.drop_last()) {
        versions.last()
    } else {
        highest_version(versions.drop_last())
    }
}

/// The versions a database stamped with `current` still needs, in the order they run.
pub open spec fn pending_versions(versions: Seq<i32>, current: int) -> Seq<i32> {
    versions.filter(|version: i32| version > current)
}

/// Highest migration version this build knows about.
pub fn latest_version() -> (version: i32)
    ensures
        version == highest_version(known_versions()),
{
    let list = migrations();
    let mut latest: i32 = 0;
    let mut i: usize = 0;
    while i < list.len()
        invariant
            i <= list@.len(),
            list@.len() == known_versions().len(),
            forall|k: int| 0 <= k < list@.len() ==> #[trigger] list@[k].version == known_versions()[k],
            latest == highest_version(known_versions().take(i as int)),
        decreases list@.len() - i,
    {
        assert(known_versions().take(i + 1).drop_last() =~= known_versions().take(i as int));
        if list[i].version > latest {
            latest = list[i].version;
        }
        i = i + 1;
    }
    assert(known_versions().take(list@.len() as int) =~= known_versions());
    latest
}

/// The migrations a database stamped with `current` still needs, oldest first.
pub fn pending_migrations(current: i32) -> (pending: Vec<Migration>)
    ensures
        pending@.map_values(|migration: Migration| migration.version) == pending_versions(
            known_versions(),
            current as int,
        ),
{
    let list = migrations();
    let mut pending: Vec<Migration> = Vec::new();
    let mut i: usize = 0;
    while i < list.len()
        invariant
            i <= list@.len(),
            list@.len() == known_versions().len(),
            forall|k: int| 0 <= k < list@.len() ==> #[trigger] list@[k].version == known_versions()[k],
            pending@.map_values(|migration: Migration| migration.version) == pending_versions(
                known_versions().take(i as int),
                current as int,
            ),
        decreases list@.len() - i,
    {
        let migration = list[i];
        proof {
            let before = known_versions().take(i as int);
            let after = known_versions().take(i + 1);
            assert(after =~= before.push(migration.version));
            assert(after.drop_last() =~= before);
            before.lemma_filter_push(migration.version, |version: i32| version > current);
        }
        if migration.version > current {
            pending.push(migration);
        }
        proof {
            assert(pending@.map_values(|migration: Migration| migration.version)
                =~= pending_versions(known_versions().take(i + 1), current as int));
        }
        i = i + 1;
    }
    assert(known_versions().take(list@.len() as int) =~= known_versions());
    pending
}

/// The known versions strictly ascend, the newest is the last, a fresh database needs every migration
/// and a database at the newest version needs none, which is what makes running them again harmless.
pub proof fn lemma_migrations_ascend_and_settle()
    ensures
        forall|i: int, j: int|
            0 <= i < j < known_versions().len() ==> known_versions()[i] < known_versions()[j],
        highest_version(known_versions()) == known_versions().last(),
        pending_versions(known_versions(), 0) == known_versions(),
        pending_versions(known_versions(), highest_version(known_versions()) as int).len() == 0,
{
    let v = known_versions();
    reveal_with_fuel(highest_version, 6);
    assert(highest_version(v) == 5);
    reveal_with_fuel(vstd::seq::Seq::filter, 6);
    assert(pending_versions(v, 0) =~= v);
    assert(pending_versions(v, 5) =~= Seq::<i32>::empty());
}

} // verus!
