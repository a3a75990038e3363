//! The wallet engine's configuration, and how its databases are opened and
//! encrypted.
use vstd::prelude::*;

use crate::external::{debug_path, path_in_debug_form};
use crate::paths::{join, with_extension};
use crate::text::{chars_of, joined};

verus! {

/// The Zcash network that a wallet belongs to.
#[derive(Clone, Copy, Debug, PartialEq, Eq, Structural)]
pub enum Network {
    Main,
    Test,
}

/// Core wallet engine: where its databases are, and which network and server it
/// uses. Database connections are opened on demand from the stored paths.
#[derive(Debug)]
pub struct ZipherEngine {
    pub db_data_path: String,
    pub db_cache_path: String,
    pub params: Network,
    pub server_url: String,
    pub birthday: u32,
    pub db_cipher_key: Option<String>,
}

/// The wallet and block cache databases of the data directory `data_dir`.
pub fn db_paths(data_dir: &str) -> (r: (String, String))
    ensures
        r.0@ == data_path(data_dir@),
        r.1@ == cache_path(data_dir@),
{
    proof {
        reveal_strlit("zipher-data.sqlite");
        reveal_strlit("zipher-cache.sqlite");
    }
    (join(data_dir, "zipher-data.sqlite"), join(data_dir, "zipher-cache.sqlite"))
}

/// The wallet database of a data directory.
pub open spec fn data_path(data_dir: Seq<char>) -> Seq<char> {
    crate::paths::join_spec(data_dir, "zipher-data.sqlite"@)
}

/// The block cache database of a data directory.
pub open spec fn cache_path(data_dir: Seq<char>) -> Seq<char> {
    crate::paths::join_spec(data_dir, "zipher-cache.sqlite"@)
}

// ---------------------------------------------------------------------------
// Opening a database
// ---------------------------------------------------------------------------

/// One statement on a database connection that was just opened.
#[derive(Debug)]
pub enum ConnStep {
    /// Set the encryption key.
    Key(String),
    /// Wait this many seconds for a lock before giving up.
    BusyTimeoutSecs(u64),
    /// Keep a write-ahead log.
    WriteAheadLog,
}

/// What to do, in order, on a connection that was just opened. The key, where
/// there is one, comes before everything else: an encrypted database can be
/// read by no other statement first.
pub fn open_cipher_conn(key: &Option<String>) -> (r: Vec<ConnStep>)
    ensures
        r@ == conn_steps(*key),
{
    let mut steps: Vec<ConnStep> = Vec::new();
    if let Some(k) = key {
        steps.push(ConnStep::Key(k.clone()));
    }
    steps.push(ConnStep::BusyTimeoutSecs(10));
    steps.push(ConnStep::WriteAheadLog);
    assert(steps@ =~= conn_steps(*key));
    steps
}

/// The statements on a fresh connection.
pub open spec fn conn_steps(key: Option<String>) -> Seq<ConnStep> {
    let rest = seq![ConnStep::BusyTimeoutSecs(10), ConnStep::WriteAheadLog];
    match key {
        Some(k) => seq![ConnStep::Key(k)] + rest,
        None => rest,
    }
}

/// On an encrypted database the key is the very first statement, and it is the
/// only place where a key is set.
pub proof fn law_key_comes_first(key: Option<String>, i: int)
    requires
        0 <= i < conn_steps(key).len(),
    ensures
        conn_steps(key)[i] is Key <==> (i == 0 && key is Some),
        conn_steps(key)[i] is Key ==> Some(conn_steps(key)[i]->Key_0) == key,
{
}

// ---------------------------------------------------------------------------
// Encrypting an existing database
// ---------------------------------------------------------------------------

/// The text with every single quote doubled, as inside an SQL literal.
pub open spec fn quoted(s: Seq<char>) -> Seq<char>
    decreases s.len(),
{
    if s.len() == 0 {
        Seq::empty()
    } else if s.last() == '\'' {
        quoted(s.drop_last()) + seq!['\'', '\'']
    } else {
        quoted(s.drop_last()).push(s.last())
    }
}

/// The statements that copy a plain database into an encrypted one at `target`.
pub open spec fn export_sql_spec(target: Seq<char>, key: Seq<char>) -> Seq<char> {
    "ATTACH DATABASE '"@ + quoted(target) + "' AS encrypted KEY '"@ + quoted(key)
        + "';\n         SELECT sqlcipher_export('encrypted');\n         DETACH DATABASE encrypted;"@
}

/// Appends `s` with every single quote doubled.
fn push_quoted(out: &mut String, s: &str)
    ensures
        final(out)@ == old(out)@ + quoted(s@),
{
    let chars = chars_of(s);
    let ghost start = out@;
    assert(chars@.take(0) =~= Seq::<char>::empty());
    assert(out@ =~= start + quoted(chars@.take(0)));
    for i in 0..chars.len()
        invariant
            out@ == start + quoted(chars@.take(i as int)),
    {
        assert(chars@.take(i + 1).drop_last() =~= chars@.take(i as int));
        let c = chars[i];
        if c == '\'' {
            out.push('\'');
        }
        out.push(c);
        assert(out@ =~= start + quoted(chars@.take(i + 1)));
    }
    assert(chars@.take(chars@.len() as int) =~= s@);
}

/// The statements that copy a plain database into an encrypted one at `target`.
pub fn export_sql(target: &str, key: &str) -> (r: String)
    ensures
        r@ == export_sql_spec(target@, key@),
{
    let mut sql = "ATTACH DATABASE '".to_owned();
    push_quoted(&mut sql, target);
    sql.append("' AS encrypted KEY '");
    push_quoted(&mut sql, key);
    sql.append(
        "';\n         SELECT sqlcipher_export('encrypted');\n         DETACH DATABASE encrypted;",
    );
    sql
}

/// Why a database could not be encrypted.
#[derive(Debug)]
pub enum MigrationError {
    /// A step of the database or the file system failed.
    Step(String),
    /// The database can be read neither as it is nor with the key.
    Unreadable,
}

/// Why the database at `path` could not be encrypted, in words.
pub open spec fn migration_error_text(e: MigrationError, path: Seq<char>) -> Seq<char> {
    match e {
        MigrationError::Step(text) => text@,
        MigrationError::Unreadable => "Database at "@ + debug_path(path)
            + " is neither plain nor validly encrypted"@,
    }
}

impl MigrationError {
    /// Why the database at `path` could not be encrypted, in words.
    pub fn message(&self, path: &str) -> (r: String)
        ensures
            r@ == migration_error_text(*self, path@),
    {
        match self {
            MigrationError::Step(text) => text.clone(),
            MigrationError::Unreadable => {
                let shown = path_in_debug_form(path);
                let mut out = joined("Database at ", shown.as_str());
                out.append(" is neither plain nor validly encrypted");
                out
            },
        }
    }
}

/// What the encryption of a database waits for.
#[derive(Debug)]
pub enum MigrationStage {
    /// Open the database, set the key, and try to read it.
    TryKey,
    /// Open the database without a key, and try to read it.
    TryPlain,
    /// Run the export statements on the plain connection, then close it.
    Export,
    /// Move the encrypted copy over the database.
    Replace,
    /// Finished: whether the database was encrypted just now.
    Done(Result<bool, MigrationError>),
}

/// The encryption of an existing database in place.
#[derive(Debug)]
pub struct Migration {
    /// Where the encrypted copy is made.
    pub copy_path: String,
    /// The export statements.
    pub sql: String,
    pub stage: MigrationStage,
}

/// What came of a step of a migration.
#[derive(Debug)]
pub enum MigrationEvent {
    /// The database was opened; whether it could be read.
    Readable(bool),
    /// The step was carried out.
    Finished,
    /// The step failed.
    Failed(String),
}

/// The stage that follows `stage` on `event`; an event that the stage does not
/// wait for changes nothing.
pub open spec fn migration_next(stage: MigrationStage, event: MigrationEvent) -> MigrationStage {
    match (stage, event) {
        (MigrationStage::Done(r), _) => MigrationStage::Done(r),
        (_, MigrationEvent::Failed(text)) => MigrationStage::Done(Err(MigrationError::Step(text))),
        (MigrationStage::TryKey, MigrationEvent::Readable(ok)) => if ok {
            MigrationStage::Done(Ok(false))
        } else {
            MigrationStage::TryPlain
        },
        (MigrationStage::TryPlain, MigrationEvent::Readable(ok)) => if ok {
            MigrationStage::Export
        } else {
            MigrationStage::Done(Err(MigrationError::Unreadable))
        },
        (MigrationStage::Export, MigrationEvent::Finished) => MigrationStage::Replace,
        (MigrationStage::Replace, MigrationEvent::Finished) => MigrationStage::Done(Ok(true)),
        (other, _) => other,
    }
}

/// Where the encrypted copy of the database at `path` is made.
pub open spec fn copy_of(path: Seq<char>) -> Seq<char> {
    crate::paths::with_extension_spec(path, "sqlite.enc_tmp"@)
}

/// The migration of the database at `path` is at its start. Without a key it has
/// ended before it began.
pub open spec fn is_first_stage(m: Migration, path: Seq<char>, key: Seq<char>) -> bool {
    &&& m.copy_path@ == copy_of(path)
    &&& m.sql@ == export_sql_spec(copy_of(path), key)
    &&& m.stage == (if key.len() == 0 {
        MigrationStage::Done(Ok(false))
    } else {
        MigrationStage::TryKey
    })
}

/// Starts to encrypt the database at `path` with `key`. Without a key there is
/// nothing to do.
pub fn migrate_to_encrypted(path: &str, key: &str) -> (r: Migration)
    ensures
        is_first_stage(r, path@, key@),
{
    proof {
        reveal_strlit("sqlite.enc_tmp");
    }
    let copy_path = with_extension(path, "sqlite.enc_tmp");
    let sql = export_sql(copy_path.as_str(), key);
    let stage = if key.is_empty() {
        MigrationStage::Done(Ok(false))
    } else {
        MigrationStage::TryKey
    };
    Migration { copy_path, sql, stage }
}

impl Migration {
    /// Goes on with what came of the step that the migration waited for.
    pub fn step(self, event: MigrationEvent) -> (r: Migration)
        ensures
            r == (Migration { stage: migration_next(self.stage, event), ..self }),
    {
        let Migration { copy_path, sql, stage } = self;
        let stage = match (stage, event) {
            (MigrationStage::Done(r), _) => MigrationStage::Done(r),
            (_, MigrationEvent::Failed(text)) => MigrationStage::Done(
                Err(MigrationError::Step(text)),
            ),
            (MigrationStage::TryKey, MigrationEvent::Readable(ok)) => if ok {
                MigrationStage::Done(Ok(false))
            } else {
                MigrationStage::TryPlain
            },
            (MigrationStage::TryPlain, MigrationEvent::Readable(ok)) => if ok {
                MigrationStage::Export
            } else {
                MigrationStage::Done(Err(MigrationError::Unreadable))
            },
            (MigrationStage::Export, MigrationEvent::Finished) => MigrationStage::Replace,
            (MigrationStage::Replace, MigrationEvent::Finished) => MigrationStage::Done(Ok(true)),
            (other, _) => other,
        };
        Migration { copy_path, sql, stage }
    }
}

// ---------------------------------------------------------------------------
// Laws
// ---------------------------------------------------------------------------

/// What an SQL reader makes of the text behind an opening quote: the characters
/// up to the closing quote, a doubled quote standing for one, and what follows
/// the closing quote. None where the quote is never closed.
pub open spec fn read_literal(s: Seq<char>) -> Option<(Seq<char>, Seq<char>)>
    decreases s.len(),
{
    if s.len() == 0 {
        None
    } else if s[0] != '\'' {
        match read_literal(s.skip(1)) {
            Some((text, rest)) => Some((seq![s[0]] + text, rest)),
            None => None,
        }
    } else if s.len() > 1 && s[1] == '\'' {
        match read_literal(s.skip(2)) {
            Some((text, rest)) => Some((seq!['\''] + text, rest)),
            None => None,
        }
    } else {
        Some((Seq::empty(), s.skip(1)))
    }
}

/// Doubling goes character by character.
proof fn lemma_quoted_front(s: Seq<char>)
    requires
        s.len() > 0,
    ensures
        quoted(s) == (if s[0] == '\'' {
            seq!['\'', '\'']
        } else {
            seq![s[0]]
        }) + quoted(s.skip(1)),
    decreases s.len(),
{
    if s.len() == 1 {
        assert(s.skip(1) =~= Seq::<char>::empty());
        assert(s.drop_last() =~= Seq::<char>::empty());
        assert(s.last() == s[0]);
        assert(quoted(Seq::<char>::empty()) =~= Seq::<char>::empty());
        if s[0] == '\'' {
            assert(quoted(s) =~= seq!['\'', '\''] + quoted(s.skip(1)));
        } else {
            assert(quoted(s) =~= seq![s[0]] + quoted(s.skip(1)));
        }
    } else {
        let init = s.drop_last();
        lemma_quoted_front(init);
        assert(init.skip(1) =~= s.skip(1).drop_last());
        assert(s.skip(1).last() == s.last());
        let head = if s[0] == '\'' {
            seq!['\'', '\'']
        } else {
            seq![s[0]]
        };
        assert(quoted(s) =~= head + quoted(s.skip(1)));
    }
}

/// A text reads back as it is from the literal that the export statements make
/// of it, whatever quotes are in it, and the statements go on behind it.
pub proof fn law_a_literal_reads_back(text: Seq<char>, rest: Seq<char>)
    requires
        rest.len() == 0 || rest[0] != '\'',
    ensures
        read_literal(quoted(text) + seq!['\''] + rest) == Some((text, rest)),
    decreases text.len(),
{
    let s = quoted(text) + seq!['\''] + rest;
    if text.len() == 0 {
        assert(quoted(text) =~= Seq::<char>::empty());
        assert(s =~= seq!['\''] + rest);
        assert(s.skip(1) =~= rest);
        if s.len() > 1 {
            assert(s[1] == rest[0]);
        }
        assert(text =~= Seq::<char>::empty());
    } else {
        lemma_quoted_front(text);
        law_a_literal_reads_back(text.skip(1), rest);
        let tail = quoted(text.skip(1)) + seq!['\''] + rest;
        if text[0] == '\'' {
            assert(s =~= seq!['\'', '\''] + tail);
            assert(s.skip(2) =~= tail);
            assert(seq!['\''] + text.skip(1) =~= text);
        } else {
            assert(s =~= seq![text[0]] + tail);
            assert(s.skip(1) =~= tail);
            assert(seq![s[0]] + text.skip(1) =~= text);
        }
    }
}

/// What follows `head` at the start of `s`.
pub open spec fn behind(s: Seq<char>, head: Seq<char>) -> Option<Seq<char>> {
    if s.len() >= head.len() && s.take(head.len() as int) == head {
        Some(s.skip(head.len() as int))
    } else {
        None
    }
}

/// The file and the key that a reader of SQL reads from a statement that
/// attaches a database.
pub open spec fn attached(sql: Seq<char>) -> Option<(Seq<char>, Seq<char>)> {
    match behind(sql, "ATTACH DATABASE '"@) {
        None => None,
        Some(s) => match read_literal(s) {
            None => None,
            Some((file, rest)) => match behind(rest, " AS encrypted KEY '"@) {
                None => None,
                Some(t) => match read_literal(t) {
                    None => None,
                    Some((key, _)) => Some((file, key)),
                },
            },
        },
    }
}

/// The export statements hold the file and the key as they are: a reader of SQL
/// reads exactly these from them, whatever quotes are in either.
pub proof fn law_the_export_reads_back(target: Seq<char>, key: Seq<char>)
    ensures
        attached(export_sql_spec(target, key)) == Some((target, key)),
{
    let head = "ATTACH DATABASE '"@;
    let mid = "' AS encrypted KEY '"@;
    let end =
        "';\n         SELECT sqlcipher_export('encrypted');\n         DETACH DATABASE encrypted;"@;
    reveal_strlit("' AS encrypted KEY '");
    reveal_strlit(" AS encrypted KEY '");
    reveal_strlit(
        "';\n         SELECT sqlcipher_export('encrypted');\n         DETACH DATABASE encrypted;",
    );
    let sql = export_sql_spec(target, key);
    let after_key = end.skip(1);
    let after_file = " AS encrypted KEY '"@ + (quoted(key) + seq!['\''] + after_key);
    assert(mid =~= seq!['\''] + " AS encrypted KEY '"@);
    assert(end =~= seq!['\''] + after_key);
    assert(sql =~= head + (quoted(target) + seq!['\''] + after_file));
    assert(sql.take(head.len() as int) =~= head);
    assert(sql.skip(head.len() as int) =~= quoted(target) + seq!['\''] + after_file);
    assert(after_file[0] == ' ');
    law_a_literal_reads_back(target, after_file);
    let n = " AS encrypted KEY '"@.len() as int;
    assert(after_file.take(n) =~= " AS encrypted KEY '"@);
    assert(after_file.skip(n) =~= quoted(key) + seq!['\''] + after_key);
    law_a_literal_reads_back(key, after_key);
}

/// The stage that a migration reaches from `stage` on these events.
pub open spec fn migration_run(
    stage: MigrationStage,
    events: Seq<MigrationEvent>,
) -> MigrationStage
    decreases events.len(),
{
    if events.len() == 0 {
        stage
    } else {
        migration_next(migration_run(stage, events.drop_last()), events.last())
    }
}

/// The database could not be read with the key at `i`, and could be read
/// without one at `j`.
pub open spec fn found_plain(events: Seq<MigrationEvent>, i: int, j: int) -> bool {
    &&& 0 <= i < j < events.len()
    &&& events[i] == MigrationEvent::Readable(false)
    &&& events[j] == MigrationEvent::Readable(true)
}

/// A database is exported only after it was found to be a plain one, and the
/// copy takes its place only after the export was carried out: a database that
/// the key opens, or that nothing opens, is never touched.
pub proof fn law_only_a_plain_database_is_replaced(events: Seq<MigrationEvent>)
    ensures
        ({
            let stage = migration_run(MigrationStage::TryKey, events);
            &&& stage is TryPlain ==> events.contains(MigrationEvent::Readable(false))
            &&& stage is Export ==> exists|i: int, j: int| found_plain(events, i, j)
            &&& stage is Replace ==> exists|i: int, j: int, k: int|
                {
                    &&& #[trigger] found_plain(events, i, j)
                    &&& j < k < events.len()
                    &&& #[trigger] events[k] == MigrationEvent::Finished
                }
        }),
    decreases events.len(),
{
    if events.len() > 0 {
        let before = events.drop_last();
        let n = events.len() - 1;
        law_only_a_plain_database_is_replaced(before);
        let was = migration_run(MigrationStage::TryKey, before);
        let stage = migration_run(MigrationStage::TryKey, events);
        assert(events[n] == events.last());
        if was is TryPlain {
            let i = choose|i: int| 0 <= i < before.len() && before[i] == MigrationEvent::Readable(
                false,
            );
            assert(events[i] == MigrationEvent::Readable(false));
            if stage is Export {
                assert(found_plain(events, i, n));
            }
        }
        if was is Export {
            let (i, j) = choose|i: int, j: int| found_plain(before, i, j);
            assert(found_plain(events, i, j));
        }
        if was is Replace {
            let (i, j, k) = choose|i: int, j: int, k: int|
                {
                    &&& #[trigger] found_plain(before, i, j)
                    &&& j < k < before.len()
                    &&& #[trigger] before[k] == MigrationEvent::Finished
                };
            assert(found_plain(events, i, j));
            assert(events[k] == MigrationEvent::Finished);
        }
    }
}

/// A migration reports that it encrypted the database only when the copy took
/// its place just then, and one that ended stays as it is.
pub proof fn law_success_means_replaced(stage: MigrationStage, event: MigrationEvent)
    ensures
        migration_next(stage, event) == MigrationStage::Done(Ok(true)) ==> {
            ||| stage == MigrationStage::Done(Ok(true))
            ||| stage is Replace && event is Finished
        },
        stage is Done ==> migration_next(stage, event) == stage,
{
}

/// A database file: the key that it is encrypted with, if any, and what it
/// holds.
pub struct Stored<D> {
    pub key: Option<Seq<char>>,
    pub contents: D,
}

/// What comes of the step of a migration with `key` on a disk where a database
/// opens with its own key and no other, a plain one without a key, and where
/// nothing else goes wrong.
pub open spec fn answer<D>(
    m: Migration,
    path: Seq<char>,
    key: Seq<char>,
    disk: Map<Seq<char>, Stored<D>>,
) -> MigrationEvent {
    match m.stage {
        MigrationStage::TryKey => MigrationEvent::Readable(disk[path].key == Some(key)),
        MigrationStage::TryPlain => MigrationEvent::Readable(disk[path].key is None),
        _ => MigrationEvent::Finished,
    }
}

/// The disk after the step of a migration: the export makes a copy of the
/// contents in the file and with the key that its statements name, and the
/// replacement moves the copy over the database.
pub open spec fn carried_out<D>(
    m: Migration,
    path: Seq<char>,
    disk: Map<Seq<char>, Stored<D>>,
) -> Map<Seq<char>, Stored<D>> {
    match m.stage {
        MigrationStage::Export => match attached(m.sql@) {
            Some((file, key)) => disk.insert(
                file,
                Stored { key: Some(key), contents: disk[path].contents },
            ),
            None => disk,
        },
        MigrationStage::Replace => disk.insert(path, disk[m.copy_path@]).remove(m.copy_path@),
        _ => disk,
    }
}

/// A migration and the disk after `n` steps.
pub open spec fn migrated<D>(
    m: Migration,
    path: Seq<char>,
    key: Seq<char>,
    disk: Map<Seq<char>, Stored<D>>,
    n: nat,
) -> (Migration, Map<Seq<char>, Stored<D>>)
    decreases n,
{
    if n == 0 {
        (m, disk)
    } else {
        let (q, d) = migrated(m, path, key, disk, (n - 1) as nat);
        (
            Migration { stage: migration_next(q.stage, answer(q, path, key, d)), ..q },
            carried_out(q, path, d),
        )
    }
}

/// A plain database becomes one that opens with exactly the key, with the same
/// contents; no copy is left behind, and no other file is touched. To migrate it
/// again with the same key changes nothing and says so.
pub proof fn law_a_migrated_database_keeps_its_contents<D>(
    m: Migration,
    again: Migration,
    path: Seq<char>,
    key: Seq<char>,
    disk: Map<Seq<char>, Stored<D>>,
)
    requires
        is_first_stage(m, path, key),
        is_first_stage(again, path, key),
        key.len() > 0,
        crate::paths::has_file_name(path),
        disk.contains_key(path),
        disk[path].key is None,
        !disk.contains_key(copy_of(path)),
    ensures
        ({
            let (q, after) = migrated(m, path, key, disk, 4);
            let (r, later) = migrated(again, path, key, after, 1);
            &&& q.stage == MigrationStage::Done(Ok(true))
            &&& after == disk.insert(
                path,
                Stored { key: Some(key), contents: disk[path].contents },
            )
            &&& !after.contains_key(copy_of(path))
            &&& r.stage == MigrationStage::Done(Ok(false))
            &&& later == after
        }),
{
    reveal_with_fuel(migrated, 5);
    law_the_export_reads_back(copy_of(path), key);
    crate::paths::law_the_copy_is_another_file(path);
    let (q2, d2) = migrated(m, path, key, disk, 2);
    assert(q2.stage == MigrationStage::Export && d2 == disk);
    let (q3, d3) = migrated(m, path, key, disk, 3);
    let copy = Stored { key: Some(key), contents: disk[path].contents };
    assert(d3 == disk.insert(copy_of(path), copy));
    let (q4, d4) = migrated(m, path, key, disk, 4);
    assert(d4 =~= disk.insert(path, copy));
}

/// A database that is encrypted already is left as it is: with this key the
/// migration says that there was nothing to do, with another that it cannot be
/// read.
pub proof fn law_an_encrypted_database_is_left_alone<D>(
    m: Migration,
    path: Seq<char>,
    key: Seq<char>,
    disk: Map<Seq<char>, Stored<D>>,
)
    requires
        is_first_stage(m, path, key),
        key.len() > 0,
        disk[path].key is Some,
    ensures
        ({
            let (q, after) = migrated(m, path, key, disk, 2);
            &&& after == disk
            &&& q.stage == if disk[path].key == Some(key) {
                MigrationStage::Done(Ok(false))
            } else {
                MigrationStage::Done(Err(MigrationError::Unreadable))
            }
        }),
{
    reveal_with_fuel(migrated, 3);
}

/// The databases of two data directories are the same exactly where the
/// directories are, the wallet database of one is never the block cache of
/// another, and both lie in their directory.
pub proof fn law_each_directory_has_its_own_databases(a: Seq<char>, b: Seq<char>)
    ensures
        crate::paths::same_path_spec(data_path(a), data_path(b)) <==> crate::paths::same_path_spec(
            a,
            b,
        ),
        crate::paths::same_path_spec(cache_path(a), cache_path(b))
            <==> crate::paths::same_path_spec(a, b),
        !crate::paths::same_path_spec(data_path(a), cache_path(b)),
        crate::paths::parent_spec(data_path(a)) == Some(crate::paths::trimmed(a)),
        crate::paths::parent_spec(cache_path(a)) == Some(crate::paths::trimmed(a)),
{
    reveal_strlit("zipher-data.sqlite");
    reveal_strlit("zipher-cache.sqlite");
    let data = "zipher-data.sqlite"@;
    let cache = "zipher-cache.sqlite"@;
    assert(data.len() != cache.len());
    crate::paths::law_files_differ_by_directory_and_name(a, b, data, cache);
    crate::paths::law_files_differ_by_directory_and_name(a, b, cache, data);
    crate::paths::law_the_parent_of_a_file_is_its_directory(a, data);
    crate::paths::law_the_parent_of_a_file_is_its_directory(a, cache);
}

/// The databases of a data directory are the directory, a slash and their names.
pub proof fn law_the_names_of_the_databases(data_dir: Seq<char>)
    ensures
        data_dir.len() > 0 && data_dir.last() != '/' ==> {
            &&& data_path(data_dir) == data_dir + seq!['/'] + "zipher-data.sqlite"@
            &&& cache_path(data_dir) == data_dir + seq!['/'] + "zipher-cache.sqlite"@
        },
        data_dir.len() > 0 && data_dir.last() == '/' ==> {
            &&& data_path(data_dir) == data_dir + "zipher-data.sqlite"@
            &&& cache_path(data_dir) == data_dir + "zipher-cache.sqlite"@
        },
        data_dir.len() == 0 ==> {
            &&& data_path(data_dir) == "zipher-data.sqlite"@
            &&& cache_path(data_dir) == "zipher-cache.sqlite"@
        },
{
    crate::paths::law_a_name_follows_its_directory(data_dir, "zipher-data.sqlite"@);
    crate::paths::law_a_name_follows_its_directory(data_dir, "zipher-cache.sqlite"@);
    if data_dir.len() == 0 {
        assert(data_dir =~= Seq::<char>::empty());
    }
}

/// Every fresh connection waits ten seconds for a lock and keeps a write-ahead
/// log, in this order, whether or not there is a key, and nothing else is done to
/// it but to set the key.
pub proof fn law_a_fresh_connection_is_prepared(key: Option<String>)
    ensures
        ({
            let steps = conn_steps(key);
            let n = steps.len() as int;
            &&& n == if key is Some {
                3int
            } else {
                2
            }
            &&& steps[n - 2] == ConnStep::BusyTimeoutSecs(10)
            &&& steps[n - 1] == ConnStep::WriteAheadLog
            &&& key is Some ==> steps[0] == ConnStep::Key(key->0)
        }),
{
}

/// A database that opens with the key is left as it is. One that does not is
/// tried without a key: if it opens it is exported and then replaced, and if it
/// does not, nothing can be done.
pub proof fn law_a_plain_database_is_encrypted(readable: bool)
    ensures
        migration_next(MigrationStage::TryKey, MigrationEvent::Readable(readable)) == if readable {
            MigrationStage::Done(Ok(false))
        } else {
            MigrationStage::TryPlain
        },
        migration_next(MigrationStage::TryPlain, MigrationEvent::Readable(readable))
            == if readable {
            MigrationStage::Export
        } else {
            MigrationStage::Done(Err(MigrationError::Unreadable))
        },
        migration_next(MigrationStage::Export, MigrationEvent::Finished)
            == MigrationStage::Replace,
        migration_next(MigrationStage::Replace, MigrationEvent::Finished)
            == MigrationStage::Done(Ok(true)),
{
}

/// A step that fails, whichever it is, ends the migration with what the step
/// said. What was not asked for changes nothing.
pub proof fn law_a_failed_step_ends_the_migration(
    stage: MigrationStage,
    text: String,
    readable: bool,
    path: Seq<char>,
)
    requires
        !(stage is Done),
    ensures
        ({
            let next = migration_next(stage, MigrationEvent::Failed(text));
            &&& next is Done
            &&& next->Done_0 is Err
            &&& migration_error_text(next->Done_0->Err_0, path) == text@
        }),
        stage is TryKey || stage is TryPlain ==> migration_next(stage, MigrationEvent::Finished)
            == stage,
        stage is Export || stage is Replace ==> migration_next(
            stage,
            MigrationEvent::Readable(readable),
        ) == stage,
        migration_error_text(MigrationError::Unreadable, path) == "Database at "@ + debug_path(path)
            + " is neither plain nor validly encrypted"@,
{
}

/// With a key a migration starts by trying it, whatever the key is; without one
/// there is nothing to do. The copy is made beside the database, under its name
/// with another extension, and the statements name it and the key.
pub proof fn law_a_migration_starts_with_the_key(
    m: Migration,
    base: Seq<char>,
    stem: Seq<char>,
    extension: Seq<char>,
    key: Seq<char>,
)
    requires
        stem.len() > 0,
        crate::paths::is_file_name(stem.push('.') + extension),
        stem.push('.') + extension != seq!['.', '.'],
        forall|i: int| 0 <= i < extension.len() ==> extension[i] != '.',
        is_first_stage(m, crate::paths::join_spec(base, stem.push('.') + extension), key),
    ensures
        key.len() > 0 ==> m.stage == MigrationStage::TryKey,
        key.len() == 0 ==> m.stage == MigrationStage::Done(Ok(false)),
        m.copy_path@ == crate::paths::join_spec(base, stem.push('.') + "sqlite.enc_tmp"@),
        attached(m.sql@) == Some((m.copy_path@, key)),
{
    crate::paths::law_an_extension_is_replaced(base, stem, extension, "sqlite.enc_tmp"@);
    law_the_export_reads_back(m.copy_path@, key);
}

/// Behind the attached copy everything is exported into it, and it is detached.
pub proof fn law_the_export_is_complete(target: Seq<char>, key: Seq<char>)
    ensures
        ({
            let sql = export_sql_spec(target, key);
            let rest =
                ";\n         SELECT sqlcipher_export('encrypted');\n         DETACH DATABASE encrypted;"@;
            &&& sql.len() >= rest.len()
            &&& sql.skip(sql.len() - rest.len()) == rest
        }),
{
    let end =
        "';\n         SELECT sqlcipher_export('encrypted');\n         DETACH DATABASE encrypted;"@;
    let rest =
        ";\n         SELECT sqlcipher_export('encrypted');\n         DETACH DATABASE encrypted;"@;
    reveal_strlit(
        "';\n         SELECT sqlcipher_export('encrypted');\n         DETACH DATABASE encrypted;",
    );
    reveal_strlit(
        ";\n         SELECT sqlcipher_export('encrypted');\n         DETACH DATABASE encrypted;",
    );
    let sql = export_sql_spec(target, key);
    assert(end.skip(1) =~= rest);
    assert(sql.skip(sql.len() - end.len()) =~= end);
    assert(sql.skip(sql.len() - rest.len()) =~= rest);
}

} // verus!
