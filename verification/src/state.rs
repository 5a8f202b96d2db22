//! Versioned key-value state, with a write-ahead log that lets an interrupted
//! migration be rolled back.

use crate::json::{Json, JsonTree};
use crate::paths::{join, joined};
use crate::split::{lemma_texts_push, lines, lines_of, texts};
use crate::table::Table;
use crate::text::str_eq;
use crate::version::opt_text;
use vstd::prelude::*;
use vstd::string::*;

verus! {

/// A value and the version of its schema.
pub struct StateEntry {
    pub value: Json,
    pub schema_version: u64,
}

/// The content of a `StateEntry`.
pub ghost struct StateValue {
    pub value: JsonTree,
    pub schema_version: u64,
}

impl View for StateEntry {
    type V = StateValue;

    open spec fn view(&self) -> StateValue {
        StateValue { value: self.value.tree(), schema_version: self.schema_version }
    }
}

/// The contents of a table of entries.
pub open spec fn state_map(t: Table<StateEntry>) -> Map<Seq<char>, StateValue> {
    t@.map_values(|e: StateEntry| e@)
}

/// The table is in order and every value is a document.
pub open spec fn state_wf(t: Table<StateEntry>) -> bool {
    &&& t.wf()
    &&& forall|k: Seq<char>| t@.contains_key(k) ==> (#[trigger] t@[k]).value.wf()
}

/// The state that all versions of the agent share.
pub struct StateStore {
    base_dir: String,
    cache: Table<StateEntry>,
}

/// The mathematical state of a `StateStore`.
pub ghost struct StoreState {
    pub dir: Seq<char>,
    pub entries: Map<Seq<char>, StateValue>,
}

impl View for StateStore {
    type V = StoreState;

    closed spec fn view(&self) -> StoreState {
        StoreState { dir: self.base_dir@, entries: state_map(self.cache) }
    }
}

/// The key whose state a file holds: the name before the extension `json`.
pub open spec fn key_of_file(name: Seq<char>) -> Option<Seq<char>> {
    if name.len() > 5 && name.skip(name.len() - 5) == ".json"@ {
        Some(name.take(name.len() - 5))
    } else {
        None
    }
}

/// The key whose state a file holds.
pub fn state_key(name: &str) -> (k: Option<String>)
    ensures
        opt_text(k) == key_of_file(name@),
{
    let n: usize = name.unicode_len();
    if n > 5 {
        let end = name.substring_char(n - 5, n);
        assert(end@ =~= name@.skip(n - 5));
        if str_eq(end, ".json") {
            let start = name.substring_char(0, n - 5);
            assert(start@ =~= name@.take(n - 5));
            return Some(start.to_owned());
        }
    }
    None
}

impl StateStore {
    pub closed spec fn wf(self) -> bool {
        state_wf(self.cache)
    }

    pub fn new(base_dir: &str) -> (s: StateStore)
        ensures
            s.wf(),
            s@ == (StoreState { dir: joined(base_dir@, "state"@), entries: Map::empty() }),
    {
        let s = StateStore { base_dir: join(base_dir, "state"), cache: Table::new() };
        assert(s@.entries =~= Map::empty());
        s
    }

    /// The directories that the store needs.
    pub fn directories(&self) -> (r: Vec<String>)
        ensures
            texts(r@) == seq![
                self@.dir,
                joined(self@.dir, "snapshots"@),
                joined(self@.dir, "wal"@),
            ],
    {
        let mut r: Vec<String> = Vec::new();
        r.push(self.base_dir.clone());
        r.push(join(self.base_dir.as_str(), "snapshots"));
        r.push(join(self.base_dir.as_str(), "wal"));
        assert(texts(r@) =~= seq![
            self@.dir,
            joined(self@.dir, "snapshots"@),
            joined(self@.dir, "wal"@),
        ]);
        r
    }

    /// The file of a key.
    pub fn state_file_path(&self, key: &str) -> (p: String)
        ensures
            p@ == state_file(self@.dir, key@),
    {
        let mut name = key.to_owned();
        name.append(".json");
        join(self.base_dir.as_str(), name.as_str())
    }

    /// The write-ahead log of migrations.
    pub fn wal_path(&self) -> (p: String)
        ensures
            p@ == wal_file(self@.dir),
    {
        join(join(self.base_dir.as_str(), "wal").as_str(), "migration.log")
    }

    /// The file that keeps the state before a migration between two versions.
    pub fn snapshot_path(&self, from_version: &str, to_version: &str) -> (p: String)
        ensures
            p@ == snapshot_file(self@.dir, from_version@, to_version@),
    {
        let mut name = "snap_".to_owned();
        name.append(from_version);
        name.append("_");
        name.append(to_version);
        name.append(".json");
        join(join(self.base_dir.as_str(), "snapshots").as_str(), name.as_str())
    }

    pub fn get(&self, key: &str) -> (e: Option<&StateEntry>)
        requires
            self.wf(),
        ensures
            e is Some <==> self@.entries.contains_key(key@),
            e is Some ==> e->Some_0@ == self@.entries[key@] && e->Some_0.value.wf(),
    {
        self.cache.get(key)
    }

    /// Stores a value.
    pub fn set(&mut self, key: &str, value: Json, schema_version: u64)
        requires
            old(self).wf(),
            value.wf(),
        ensures
            final(self).wf(),
            final(self)@ == (StoreState {
                entries: old(self)@.entries.insert(
                    key@,
                    StateValue { value: value.tree(), schema_version },
                ),
                ..old(self)@
            }),
    {
        self.cache.insert(key, StateEntry { value, schema_version });
        assert(self@.entries =~= old(self)@.entries.insert(
            key@,
            StateValue { value: value.tree(), schema_version },
        ));
    }

    /// The entries, to be written to a snapshot.
    pub fn entries(&self) -> (t: &Table<StateEntry>)
        ensures
            state_map(*t) == self@.entries,
            self.wf() ==> state_wf(*t),
    {
        &self.cache
    }

    /// Whether a file is that of an entry.
    fn has_file(&self, entries: &Table<StateEntry>, path: &str) -> (b: bool)
        requires
            entries.wf(),
        ensures
            b == is_file_of(self@.dir, state_map(*entries).dom(), path@),
    {
        proof {
            entries.lemma_keys();
        }
        let mut i: usize = 0;
        while i < entries.len()
            invariant
                i <= entries.keys().len(),
                entries.wf(),
                forall|k: int|
                    0 <= k < i ==> path@ != state_file(self@.dir, #[trigger] entries.keys()[k]),
                forall|k: Seq<char>| #[trigger]
                    entries@.contains_key(k) <==> entries.keys().contains(k),
            decreases entries.keys().len() - i,
        {
            let own = self.state_file_path(entries.key_at(i));
            if str_eq(own.as_str(), path) {
                assert(entries.keys().contains(entries.keys()[i as int]));
                assert(state_map(*entries).dom().contains(entries.keys()[i as int]));
                return true;
            }
            i += 1;
        }
        proof {
            assert forall|k: Seq<char>| state_map(*entries).dom().contains(k) implies path@
                != #[trigger] state_file(self@.dir, k) by {
                assert(entries@.contains_key(k));
            }
        }
        false
    }

    /// Replaces all entries by those of a snapshot, given the keys that were
    /// changed since. Returns the files that have to go: those of changed keys
    /// that are no file of the snapshot's.
    pub fn restore_from_snapshot(
        &mut self,
        restored: Table<StateEntry>,
        changed: &Vec<String>,
    ) -> (files: Vec<String>)
        requires
            old(self).wf(),
            state_wf(restored),
        ensures
            final(self).wf(),
            final(self)@ == (StoreState { entries: state_map(restored), ..old(self)@ }),
            texts(files@) == leftover_files(
                old(self)@.dir,
                texts(changed@),
                state_map(restored).dom(),
            ),
    {
        let ghost all = texts(changed@);
        let ghost known = state_map(restored).dom();
        let mut files: Vec<String> = Vec::new();
        let mut i: usize = 0;
        assert(texts(files@) =~= leftover_files(self@.dir, all.take(0), known));
        while i < changed.len()
            invariant
                i <= changed@.len(),
                *self == *old(self),
                state_wf(restored),
                known == state_map(restored).dom(),
                all == texts(changed@),
                texts(files@) == leftover_files(self@.dir, all.take(i as int), known),
            decreases changed@.len() - i,
        {
            proof {
                assert(all.take(i + 1).drop_last() =~= all.take(i as int));
                assert(all.take(i + 1).last() == changed@[i as int]@);
            }
            let key = changed[i].as_str();
            let path = self.state_file_path(key);
            if !self.has_file(&restored, path.as_str()) {
                proof {
                    lemma_texts_push(files@, path);
                }
                files.push(path);
            }
            i += 1;
        }
        assert(all.take(changed@.len() as int) =~= all);
        self.cache = restored;
        files
    }
}

/// The file of a key.
pub open spec fn state_file(dir: Seq<char>, key: Seq<char>) -> Seq<char> {
    joined(dir, key + ".json"@)
}

/// Whether a file is that of a known key.
pub open spec fn is_file_of(dir: Seq<char>, known: Set<Seq<char>>, file: Seq<char>) -> bool {
    exists|k: Seq<char>| known.contains(k) && file == #[trigger] state_file(dir, k)
}

/// The files of the changed keys that are no file of a known one.
pub open spec fn leftover_files(
    dir: Seq<char>,
    changed: Seq<Seq<char>>,
    known: Set<Seq<char>>,
) -> Seq<Seq<char>>
    decreases changed.len(),
{
    if changed.len() == 0 {
        Seq::empty()
    } else {
        let before = leftover_files(dir, changed.drop_last(), known);
        let file = state_file(dir, changed.last());
        if is_file_of(dir, known, file) {
            before
        } else {
            before.push(file)
        }
    }
}

/// The write-ahead log of migrations.
pub open spec fn wal_file(dir: Seq<char>) -> Seq<char> {
    joined(joined(dir, "wal"@), "migration.log"@)
}

/// The file that keeps the state before a migration between two versions.
pub open spec fn snapshot_file(
    dir: Seq<char>,
    from_version: Seq<char>,
    to_version: Seq<char>,
) -> Seq<char> {
    joined(joined(dir, "snapshots"@), "snap_"@ + from_version + "_"@ + to_version + ".json"@)
}

/// One line of the write-ahead log.
pub struct WalEntry {
    pub operation: String,
    pub from_version: Option<String>,
    pub to_version: Option<String>,
    pub key: Option<String>,
    pub from_schema: Option<u64>,
    pub to_schema: Option<u64>,
    pub result: Option<String>,
    pub snapshot_path: Option<String>,
}

/// The content of a `WalEntry`.
pub ghost struct WalLine {
    pub operation: Seq<char>,
    pub from_version: Option<Seq<char>>,
    pub to_version: Option<Seq<char>>,
    pub key: Option<Seq<char>>,
    pub from_schema: Option<u64>,
    pub to_schema: Option<u64>,
    pub result: Option<Seq<char>>,
    pub snapshot_path: Option<Seq<char>>,
}

impl View for WalEntry {
    type V = WalLine;

    open spec fn view(&self) -> WalLine {
        WalLine {
            operation: self.operation@,
            from_version: opt_text(self.from_version),
            to_version: opt_text(self.to_version),
            key: opt_text(self.key),
            from_schema: self.from_schema,
            to_schema: self.to_schema,
            result: opt_text(self.result),
            snapshot_path: opt_text(self.snapshot_path),
        }
    }
}

/// The contents of a log.
pub open spec fn wal_views(v: Seq<WalEntry>) -> Seq<WalLine> {
    Seq::new(v.len(), |i: int| v[i]@)
}

/// A line that says nothing but its operation.
pub open spec fn wal_operation(operation: Seq<char>) -> WalLine {
    WalLine {
        operation,
        from_version: None,
        to_version: None,
        key: None,
        from_schema: None,
        to_schema: None,
        result: None,
        snapshot_path: None,
    }
}

/// The line that opens a migration.
pub open spec fn begin_line(
    from_version: Seq<char>,
    to_version: Seq<char>,
    snapshot_path: Seq<char>,
) -> WalLine {
    WalLine {
        from_version: Some(from_version),
        to_version: Some(to_version),
        snapshot_path: Some(snapshot_path),
        ..wal_operation("BEGIN_MIGRATION"@)
    }
}

/// The line before a key is changed.
pub open spec fn transform_line(key: Seq<char>, from_schema: u64, to_schema: u64) -> WalLine {
    WalLine {
        key: Some(key),
        from_schema: Some(from_schema),
        to_schema: Some(to_schema),
        ..wal_operation("TRANSFORM"@)
    }
}

/// The line after a key was changed.
pub open spec fn validate_line(key: Seq<char>) -> WalLine {
    WalLine { key: Some(key), result: Some("OK"@), ..wal_operation("VALIDATE"@) }
}

/// The line that closes a migration.
pub open spec fn commit_line(from_version: Seq<char>, to_version: Seq<char>) -> WalLine {
    WalLine {
        from_version: Some(from_version),
        to_version: Some(to_version),
        ..wal_operation("COMMIT"@)
    }
}

/// What a log found at start-up calls for. The log is removed in any case.
pub enum Recovery<T> {
    /// There is nothing in it.
    Empty,
    /// The migration was completed.
    Committed,
    /// The migration was not completed: go back to the snapshot, where one is named.
    RollBack(Option<T>),
}

/// The first line that opens a migration.
pub open spec fn first_begin(log: Seq<WalLine>) -> Option<WalLine>
    decreases log.len(),
{
    if log.len() == 0 {
        None
    } else if log[0].operation == "BEGIN_MIGRATION"@ {
        Some(log[0])
    } else {
        first_begin(log.drop_first())
    }
}

/// What a log calls for.
pub open spec fn recovery(log: Seq<WalLine>) -> Recovery<Seq<char>> {
    if log.len() == 0 {
        Recovery::Empty
    } else if log.last().operation == "COMMIT"@ {
        Recovery::Committed
    } else {
        match first_begin(log) {
            Some(b) => Recovery::RollBack(b.snapshot_path),
            None => Recovery::RollBack(None),
        }
    }
}

impl View for Recovery<String> {
    type V = Recovery<Seq<char>>;

    open spec fn view(&self) -> Recovery<Seq<char>> {
        match self {
            Recovery::Empty => Recovery::Empty,
            Recovery::Committed => Recovery::Committed,
            Recovery::RollBack(p) => Recovery::RollBack(opt_text(*p)),
        }
    }
}

/// Decides what a log found at start-up calls for.
pub fn recover_from_wal(log: &Vec<WalEntry>) -> (r: Recovery<String>)
    ensures
        r@ == recovery(wal_views(log@)),
{
    let ghost l = wal_views(log@);
    if log.len() == 0 {
        return Recovery::Empty;
    }
    assert(l.last() == log@[log@.len() - 1]@);
    if str_eq(log[log.len() - 1].operation.as_str(), "COMMIT") {
        return Recovery::Committed;
    }
    let mut i: usize = 0;
    assert(l.skip(0) =~= l);
    while i < log.len()
        invariant
            i <= log@.len(),
            l == wal_views(log@),
            l.len() > 0,
            l.last().operation != "COMMIT"@,
            first_begin(l.skip(i as int)) == first_begin(l),
        decreases log@.len() - i,
    {
        let e = &log[i];
        assert(l.skip(i as int)[0] == e@);
        if str_eq(e.operation.as_str(), "BEGIN_MIGRATION") {
            return Recovery::RollBack(e.snapshot_path.clone());
        }
        assert(l.skip(i as int).drop_first() =~= l.skip(i + 1));
        i += 1;
    }
    Recovery::RollBack(None)
}

/// The keys that a migration was about to change by its log, in order.
pub open spec fn changed_keys(log: Seq<WalLine>) -> Seq<Seq<char>>
    decreases log.len(),
{
    if log.len() == 0 {
        Seq::empty()
    } else {
        let before = changed_keys(log.drop_last());
        match log.last().key {
            Some(k) if log.last().operation == "TRANSFORM"@ => before.push(k),
            _ => before,
        }
    }
}

/// The keys that a migration was about to change by its log.
pub fn logged_keys(log: &Vec<WalEntry>) -> (r: Vec<String>)
    ensures
        texts(r@) == changed_keys(wal_views(log@)),
{
    let ghost l = wal_views(log@);
    let mut r: Vec<String> = Vec::new();
    let mut i: usize = 0;
    assert(texts(r@) =~= changed_keys(l.take(0)));
    while i < log.len()
        invariant
            i <= log@.len(),
            l == wal_views(log@),
            texts(r@) == changed_keys(l.take(i as int)),
        decreases log@.len() - i,
    {
        let e = &log[i];
        proof {
            assert(l.take(i + 1).drop_last() =~= l.take(i as int));
            assert(l.take(i + 1).last() == e@);
        }
        if str_eq(e.operation.as_str(), "TRANSFORM") {
            match &e.key {
                Some(k) => {
                    let k = k.clone();
                    proof {
                        lemma_texts_push(r@, k);
                    }
                    r.push(k);
                },
                None => {},
            }
        }
        i += 1;
    }
    assert(l.take(log@.len() as int) =~= l);
    r
}

/// The lines of a log file that are not empty.
pub open spec fn full_lines(all: Seq<Seq<char>>) -> Seq<Seq<char>>
    decreases all.len(),
{
    if all.len() == 0 {
        Seq::empty()
    } else if all.last().len() > 0 {
        full_lines(all.drop_last()).push(all.last())
    } else {
        full_lines(all.drop_last())
    }
}

/// The lines of a log file that are not empty.
pub fn wal_lines(content: &str) -> (r: Vec<String>)
    ensures
        texts(r@) == full_lines(lines(content@)),
{
    let all = lines_of(content);
    let ghost a = texts(all@);
    let mut r: Vec<String> = Vec::new();
    let mut i: usize = 0;
    assert(texts(r@) =~= full_lines(a.take(0)));
    while i < all.len()
        invariant
            i <= all@.len(),
            a == texts(all@),
            texts(r@) == full_lines(a.take(i as int)),
        decreases all@.len() - i,
    {
        assert(a.take(i + 1).drop_last() =~= a.take(i as int));
        if all[i].as_str().unicode_len() > 0 {
            let line = all[i].clone();
            proof {
                lemma_texts_push(r@, line);
            }
            r.push(line);
        }
        i += 1;
    }
    assert(a.take(all@.len() as int) =~= a);
    r
}

/// A migration between two versions, from its snapshot to its commit.
pub struct MigrationTransaction {
    from_version: String,
    to_version: String,
    snapshot_path: String,
    log: Vec<WalEntry>,
}

/// How far a change of a key has come: its line in the log, its file, and the
/// line that confirms it are written one after the other.
pub enum Written {
    /// The first line could not be logged, and why.
    Unlogged(String),
    /// The file could not be written, and why.
    Unstored(String),
    /// The second line could not be logged, and why.
    Unconfirmed(String),
    All,
}

fn begin_entry(from_version: &str, to_version: &str, snapshot_path: &str) -> (e: WalEntry)
    ensures
        e@ == begin_line(from_version@, to_version@, snapshot_path@),
{
    WalEntry {
        operation: "BEGIN_MIGRATION".to_owned(),
        from_version: Some(from_version.to_owned()),
        to_version: Some(to_version.to_owned()),
        key: None,
        from_schema: None,
        to_schema: None,
        result: None,
        snapshot_path: Some(snapshot_path.to_owned()),
    }
}

/// The line to be logged before a key's file is written.
pub fn transform_entry(store: &StateStore, key: &str, new_schema_version: u64) -> (e: WalEntry)
    requires
        store.wf(),
    ensures
        e@ == transform_line(key@, schema_of(store@, key@), new_schema_version),
{
    let old_schema: u64 = match store.get(key) {
        Some(e) => e.schema_version,
        None => 0,
    };
    WalEntry {
        operation: "TRANSFORM".to_owned(),
        from_version: None,
        to_version: None,
        key: Some(key.to_owned()),
        from_schema: Some(old_schema),
        to_schema: Some(new_schema_version),
        result: None,
        snapshot_path: None,
    }
}

/// The line to be logged after a key's file was written.
pub fn validate_entry(key: &str) -> (e: WalEntry)
    ensures
        e@ == validate_line(key@),
{
    WalEntry {
        operation: "VALIDATE".to_owned(),
        from_version: None,
        to_version: None,
        key: Some(key.to_owned()),
        from_schema: None,
        to_schema: None,
        result: Some("OK".to_owned()),
        snapshot_path: None,
    }
}

/// The version of a key's schema, 0 for a key that is not there.
pub open spec fn schema_of(s: StoreState, key: Seq<char>) -> u64 {
    if s.entries.contains_key(key) {
        s.entries[key].schema_version
    } else {
        0
    }
}

/// The state after a key was changed as far as that went: it counts once its
/// file was written.
pub open spec fn after_change(
    s: StoreState,
    key: Seq<char>,
    value: JsonTree,
    schema_version: u64,
    written: Written,
) -> StoreState {
    if written is Unlogged || written is Unstored {
        s
    } else {
        StoreState { entries: s.entries.insert(key, StateValue { value, schema_version }), ..s }
    }
}

/// The mathematical state of a `MigrationTransaction`.
pub ghost struct Migration {
    pub from_version: Seq<char>,
    pub to_version: Seq<char>,
    pub snapshot_path: Seq<char>,
    /// The lines that the write-ahead log holds of it.
    pub log: Seq<WalLine>,
}

impl View for MigrationTransaction {
    type V = Migration;

    closed spec fn view(&self) -> Migration {
        Migration {
            from_version: self.from_version@,
            to_version: self.to_version@,
            snapshot_path: self.snapshot_path@,
            log: wal_views(self.log@),
        }
    }
}

/// The log of a migration that is under way: its opening, then only lines on keys.
pub open spec fn open_log(m: Migration) -> bool {
    &&& m.log.len() > 0
    &&& m.log[0] == begin_line(m.from_version, m.to_version, m.snapshot_path)
    &&& forall|i: int|
        1 <= i < m.log.len() ==> (#[trigger] m.log[i]).operation == "TRANSFORM"@
            || m.log[i].operation == "VALIDATE"@
}

impl MigrationTransaction {
    /// Opens a migration, whose snapshot has been written. The line is to be
    /// logged before anything is changed.
    pub fn begin(store: &StateStore, from_version: &str, to_version: &str) -> (r: (
        MigrationTransaction,
        WalEntry,
    ))
        ensures
            r.0@ == (Migration {
                from_version: from_version@,
                to_version: to_version@,
                snapshot_path: snapshot_file(store@.dir, from_version@, to_version@),
                log: seq![r.1@],
            }),
            open_log(r.0@),
    {
        let snapshot_path = store.snapshot_path(from_version, to_version);
        let entry = begin_entry(from_version, to_version, snapshot_path.as_str());
        let mut log: Vec<WalEntry> = Vec::new();
        log.push(begin_entry(from_version, to_version, snapshot_path.as_str()));
        let t = MigrationTransaction {
            from_version: from_version.to_owned(),
            to_version: to_version.to_owned(),
            snapshot_path,
            log,
        };
        assert(t@.log =~= seq![entry@]);
        (t, entry)
    }

    /// The file that a rollback restores.
    pub fn snapshot_path(&self) -> (p: &str)
        ensures
            p@ == self@.snapshot_path,
    {
        self.snapshot_path.as_str()
    }

    fn note(&mut self, entry: WalEntry)
        ensures
            final(self)@ == (Migration { log: old(self)@.log.push(entry@), ..old(self)@ }),
    {
        self.log.push(entry);
        assert(wal_views(self.log@) =~= old(self)@.log.push(entry@));
    }

    /// Changes a key, given how far its line in the log, its file and the line
    /// that confirms it could be written. The store follows the file; the log
    /// follows what was logged.
    pub fn transform(
        &mut self,
        store: &mut StateStore,
        key: &str,
        value: Json,
        new_schema_version: u64,
        written: Written,
    ) -> (r: Result<(), String>)
        requires
            old(store).wf(),
            value.wf(),
        ensures
            final(store).wf(),
            final(store)@ == after_change(
                old(store)@,
                key@,
                value.tree(),
                new_schema_version,
                written,
            ),
            final(self)@ == (Migration {
                log: logged(
                    old(self)@.log,
                    transform_line(key@, schema_of(old(store)@, key@), new_schema_version),
                    validate_line(key@),
                    written,
                ),
                ..old(self)@
            }),
            open_log(old(self)@) ==> open_log(final(self)@),
            (match written {
                Written::Unlogged(e) => r is Err && r->Err_0@ == e@,
                Written::Unstored(e) => r is Err && r->Err_0@ == e@,
                Written::Unconfirmed(e) => r is Err && r->Err_0@ == e@,
                Written::All => r is Ok,
            }),
    {
        match written {
            Written::Unlogged(e) => Err(e),
            Written::Unstored(e) => {
                let line = transform_entry(store, key, new_schema_version);
                self.note(line);
                Err(e)
            },
            Written::Unconfirmed(e) => {
                let line = transform_entry(store, key, new_schema_version);
                self.note(line);
                store.set(key, value, new_schema_version);
                Err(e)
            },
            Written::All => {
                let line = transform_entry(store, key, new_schema_version);
                self.note(line);
                store.set(key, value, new_schema_version);
                self.note(validate_entry(key));
                Ok(())
            },
        }
    }

    /// The line that closes the migration. Once it is logged there is no way back.
    pub fn commit(&self) -> (entry: WalEntry)
        ensures
            entry@ == commit_line(self@.from_version, self@.to_version),
    {
        WalEntry {
            operation: "COMMIT".to_owned(),
            from_version: Some(self.from_version.clone()),
            to_version: Some(self.to_version.clone()),
            key: None,
            from_schema: None,
            to_schema: None,
            result: None,
            snapshot_path: None,
        }
    }

    /// Gives the migration up: the store goes back to what its snapshot holds,
    /// where that could be read. Returns the files that have to go: those of the
    /// keys that the migration was the first to set, and the log.
    pub fn abandon(self, store: &mut StateStore, snapshot: Option<Table<StateEntry>>) -> (files:
        Vec<String>)
        requires
            old(store).wf(),
            snapshot is Some ==> state_wf(snapshot->Some_0),
        ensures
            final(store).wf(),
            final(store)@ == (match snapshot {
                Some(t) => StoreState { entries: state_map(t), ..old(store)@ },
                None => old(store)@,
            }),
            texts(files@) == (match snapshot {
                Some(t) => leftover_files(
                    old(store)@.dir,
                    changed_keys(self@.log),
                    state_map(t).dom(),
                ),
                None => Seq::empty(),
            }).push(wal_file(old(store)@.dir)),
    {
        let mut files: Vec<String> = match snapshot {
            Some(t) => {
                let changed = logged_keys(&self.log);
                store.restore_from_snapshot(t, &changed)
            },
            None => {
                let none: Vec<String> = Vec::new();
                assert(texts(none@) =~= Seq::empty());
                none
            },
        };
        let wal = store.wal_path();
        proof {
            lemma_texts_push(files@, wal);
        }
        files.push(wal);
        files
    }
}

/// A log after a key was changed as far as that went.
pub open spec fn logged(
    log: Seq<WalLine>,
    first: WalLine,
    second: WalLine,
    written: Written,
) -> Seq<WalLine> {
    match written {
        Written::Unlogged(_) => log,
        Written::Unstored(_) => log.push(first),
        Written::Unconfirmed(_) => log.push(first),
        Written::All => log.push(first).push(second),
    }
}

/// An interrupted migration is rolled back to the snapshot that it began with,
/// wherever it was interrupted after its opening line.
pub proof fn law_interrupted_migration_rolls_back(m: Migration, n: int)
    requires
        open_log(m),
        0 < n <= m.log.len(),
    ensures
        recovery(m.log.take(n)) == Recovery::RollBack(Some(m.snapshot_path)),
{
    reveal_strlit("COMMIT");
    reveal_strlit("BEGIN_MIGRATION");
    reveal_strlit("TRANSFORM");
    reveal_strlit("VALIDATE");
    let cut = m.log.take(n);
    assert(cut[0] == m.log[0]);
    assert(cut.last() == m.log[n - 1]);
    assert("COMMIT"@.len() == 6);
    assert("BEGIN_MIGRATION"@.len() == 15);
    assert("TRANSFORM"@.len() == 9);
    assert("VALIDATE"@.len() == 8);
}

/// A migration whose closing line is logged is never rolled back.
pub proof fn law_committed_migration_stays(m: Migration)
    ensures
        recovery(m.log.push(commit_line(m.from_version, m.to_version))) is Committed,
{
}

/// The files that hold the entries of a state.
pub open spec fn files_of(dir: Seq<char>, entries: Map<Seq<char>, StateValue>) -> Map<
    Seq<char>,
    StateValue,
> {
    Map::new(
        |file: Seq<char>| is_file_of(dir, entries.dom(), file),
        |file: Seq<char>|
            entries[choose|k: Seq<char>|
                entries.dom().contains(k) && file == #[trigger] state_file(dir, k)],
    )
}

/// The files after those of a snapshot were written and those that have to go
/// were removed.
pub open spec fn restored_files(
    dir: Seq<char>,
    files: Map<Seq<char>, StateValue>,
    snapshot: Map<Seq<char>, StateValue>,
    changed: Seq<Seq<char>>,
) -> Map<Seq<char>, StateValue> {
    files.union_prefer_right(files_of(dir, snapshot)).remove_keys(
        Set::new(|f: Seq<char>| leftover_files(dir, changed, snapshot.dom()).contains(f)),
    )
}

/// A key is named by the log before its file is touched: whatever became of a
/// change, the keys that the log names are those from before and this one, or
/// nothing was touched.
pub proof fn law_changes_are_logged_first(
    m: Migration,
    key: Seq<char>,
    from_schema: u64,
    to_schema: u64,
    written: Written,
)
    ensures
        changed_keys(
            logged(m.log, transform_line(key, from_schema, to_schema), validate_line(key), written),
        ) == (if written is Unlogged {
            changed_keys(m.log)
        } else {
            changed_keys(m.log).push(key)
        }),
{
    let first = transform_line(key, from_schema, to_schema);
    let second = validate_line(key);
    let once = m.log.push(first);
    let twice = once.push(second);
    reveal_strlit("TRANSFORM");
    reveal_strlit("VALIDATE");
    assert("TRANSFORM"@.len() == 9);
    assert("VALIDATE"@.len() == 8);
    assert(once.drop_last() =~= m.log);
    assert(once.last() == first);
    assert(changed_keys(once) == changed_keys(m.log).push(key));
    assert(twice.drop_last() =~= once);
    assert(twice.last() == second);
    assert(changed_keys(twice) == changed_keys(once));
}

/// A file goes when a migration is given up exactly where it is that of a
/// changed key and of no key that the snapshot knows.
pub proof fn law_leftover_files_are_those_of_new_keys(
    dir: Seq<char>,
    changed: Seq<Seq<char>>,
    known: Set<Seq<char>>,
    file: Seq<char>,
)
    ensures
        leftover_files(dir, changed, known).contains(file) <==> is_file_of(
            dir,
            changed.to_set(),
            file,
        ) && !is_file_of(dir, known, file),
    decreases changed.len(),
{
    let all = leftover_files(dir, changed, known);
    if changed.len() > 0 {
        let d = changed.drop_last();
        let x = changed.last();
        let before = leftover_files(dir, d, known);
        law_leftover_files_are_those_of_new_keys(dir, d, known, file);
        assert(changed =~= d.push(x));
        if all.contains(file) {
            let i = choose|i: int| 0 <= i < all.len() && all[i] == file;
            if i < before.len() {
                assert(before[i] == file);
                assert(before.contains(file));
                let k = choose|k: Seq<char>|
                    d.to_set().contains(k) && file == #[trigger] state_file(dir, k);
                let j = choose|j: int| 0 <= j < d.len() && d[j] == k;
                assert(changed[j] == k);
                assert(changed.to_set().contains(k));
            } else {
                assert(changed[changed.len() - 1] == x);
                assert(changed.to_set().contains(x) && file == state_file(dir, x));
            }
        }
        if is_file_of(dir, changed.to_set(), file) && !is_file_of(dir, known, file) {
            let k = choose|k: Seq<char>|
                changed.to_set().contains(k) && file == #[trigger] state_file(dir, k);
            let j = choose|j: int| 0 <= j < changed.len() && changed[j] == k;
            if j < d.len() {
                assert(d[j] == k);
                assert(d.to_set().contains(k));
                assert(before.contains(file));
                let i = choose|i: int| 0 <= i < before.len() && before[i] == file;
                assert(all[i] == file);
            } else {
                assert(all[all.len() - 1] == file);
            }
        }
    }
}

/// A migration that is given up leaves no trace in the files: where they were
/// those of the snapshot when it began, and have since changed at most for the
/// keys that its log names, they are those of the snapshot again.
pub proof fn law_given_up_migration_leaves_no_trace(
    m: Migration,
    dir: Seq<char>,
    snapshot: Map<Seq<char>, StateValue>,
    files: Map<Seq<char>, StateValue>,
)
    requires
        forall|f: Seq<char>|
            !is_file_of(dir, changed_keys(m.log).to_set(), f) ==> {
                &&& #[trigger] files.contains_key(f) == files_of(dir, snapshot).contains_key(f)
                &&& files.contains_key(f) ==> files[f] == files_of(dir, snapshot)[f]
            },
    ensures
        restored_files(dir, files, snapshot, changed_keys(m.log)) == files_of(dir, snapshot),
{
    let changed = changed_keys(m.log);
    let r = restored_files(dir, files, snapshot, changed);
    let want = files_of(dir, snapshot);
    assert forall|f: Seq<char>| #[trigger] r.contains_key(f) == want.contains_key(f) by {
        law_leftover_files_are_those_of_new_keys(dir, changed, snapshot.dom(), f);
        assert(files.contains_key(f) || !files.contains_key(f));
    }
    assert(r =~= want);
}

/// The file of a key is named by the key, and is read back as that of the key.
pub proof fn law_files_are_named_by_their_keys(key: Seq<char>, name: Seq<char>)
    ensures
        key.len() > 0 ==> key_of_file(key + ".json"@) == Some(key),
        key_of_file(name) is Some ==> name == key_of_file(name)->0 + ".json"@,
        key_of_file(name) is Some ==> key_of_file(name)->0.len() > 0,
{
    reveal_strlit(".json");
    let f = key + ".json"@;
    assert(f.skip(key.len() as int) =~= ".json"@);
    assert(f.take(key.len() as int) =~= key);
    if key_of_file(name) is Some {
        assert(name =~= name.take(name.len() - 5) + ".json"@);
    }
}

/// The lines of a log say what they are about.
pub proof fn law_log_lines_say_what_happens(
    a: Seq<char>,
    b: Seq<char>,
    snapshot: Seq<char>,
    key: Seq<char>,
    from_schema: u64,
    to_schema: u64,
)
    ensures
        begin_line(a, b, snapshot).operation == "BEGIN_MIGRATION"@,
        begin_line(a, b, snapshot).from_version == Some(a),
        begin_line(a, b, snapshot).to_version == Some(b),
        begin_line(a, b, snapshot).snapshot_path == Some(snapshot),
        transform_line(key, from_schema, to_schema).operation == "TRANSFORM"@,
        transform_line(key, from_schema, to_schema).key == Some(key),
        transform_line(key, from_schema, to_schema).from_schema == Some(from_schema),
        transform_line(key, from_schema, to_schema).to_schema == Some(to_schema),
        validate_line(key).operation == "VALIDATE"@,
        validate_line(key).key == Some(key),
        validate_line(key).result == Some("OK"@),
        commit_line(a, b).operation == "COMMIT"@,
        commit_line(a, b).from_version == Some(a),
        commit_line(a, b).to_version == Some(b),
{
}

/// The snapshot that an interrupted migration goes back to is that of the first
/// line that opens one.
pub proof fn law_first_opening_counts(before: Seq<WalLine>, begin: WalLine, after: Seq<WalLine>)
    requires
        begin.operation == "BEGIN_MIGRATION"@,
        forall|i: int|
            0 <= i < before.len() ==> (#[trigger] before[i]).operation != "BEGIN_MIGRATION"@,
    ensures
        first_begin(before + seq![begin] + after) == Some(begin),
        first_begin(before) is None,
        (before + seq![begin] + after).last().operation != "COMMIT"@ ==> recovery(
            before + seq![begin] + after,
        ) == Recovery::RollBack(begin.snapshot_path),
        recovery(Seq::empty()) is Empty,
    decreases before.len(),
{
    let log = before + seq![begin] + after;
    if before.len() > 0 {
        let d = before.drop_first();
        assert(log[0] == before[0]);
        assert(log.drop_first() =~= d + seq![begin] + after);
        assert forall|i: int| 0 <= i < d.len() implies (#[trigger] d[i]).operation
            != "BEGIN_MIGRATION"@ by {
            assert(d[i] == before[i + 1]);
        }
        assert(before[0].operation != "BEGIN_MIGRATION"@);
        lemma_first_begin(d, begin, after);
    } else {
        assert(log[0] == begin);
    }
}

proof fn lemma_first_begin(before: Seq<WalLine>, begin: WalLine, after: Seq<WalLine>)
    requires
        begin.operation == "BEGIN_MIGRATION"@,
        forall|i: int|
            0 <= i < before.len() ==> (#[trigger] before[i]).operation != "BEGIN_MIGRATION"@,
    ensures
        first_begin(before + seq![begin] + after) == Some(begin),
        first_begin(before) is None,
    decreases before.len(),
{
    let log = before + seq![begin] + after;
    if before.len() > 0 {
        let d = before.drop_first();
        assert(log[0] == before[0]);
        assert(log.drop_first() =~= d + seq![begin] + after);
        assert forall|i: int| 0 <= i < d.len() implies (#[trigger] d[i]).operation
            != "BEGIN_MIGRATION"@ by {
            assert(d[i] == before[i + 1]);
        }
        assert(before[0].operation != "BEGIN_MIGRATION"@);
        lemma_first_begin(d, begin, after);
    } else {
        assert(log[0] == begin);
    }
}

/// The keys that a log names are those of its lines on changes, in their order.
pub proof fn law_changed_keys_are_those_of_the_changes(log: Seq<WalLine>, line: WalLine)
    ensures
        changed_keys(Seq::empty()).len() == 0,
        line.operation == "TRANSFORM"@ && line.key is Some ==> changed_keys(log.push(line))
            == changed_keys(log).push(line.key->0),
        line.operation != "TRANSFORM"@ || line.key is None ==> changed_keys(log.push(line))
            == changed_keys(log),
{
    assert(log.push(line).drop_last() =~= log);
}

/// The lines of a log file are those that are not empty, in their order.
pub proof fn law_empty_lines_are_passed_over(all: Seq<Seq<char>>, line: Seq<char>)
    ensures
        full_lines(Seq::empty()).len() == 0,
        line.len() > 0 ==> full_lines(all.push(line)) == full_lines(all).push(line),
        line.len() == 0 ==> full_lines(all.push(line)) == full_lines(all),
{
    assert(all.push(line).drop_last() =~= all);
}

/// The version of a schema is that of the stored state, 0 where there is none.
pub proof fn law_schema_versions_are_those_stored(s: StoreState, key: Seq<char>)
    ensures
        s.entries.contains_key(key) ==> schema_of(s, key) == s.entries[key].schema_version,
        !s.entries.contains_key(key) ==> schema_of(s, key) == 0,
{
}

/// The files of the state lie in its directory: each key's under its name, the
/// log and the snapshots in directories of their own.
pub proof fn law_state_files_lie_in_the_directory(
    dir: Seq<char>,
    key: Seq<char>,
    a: Seq<char>,
    b: Seq<char>,
)
    ensures
        state_file(dir, key) == joined(dir, key + ".json"@),
        wal_file(dir) == joined(joined(dir, "wal"@), "migration.log"@),
        snapshot_file(dir, a, b) == joined(
            joined(dir, "snapshots"@),
            "snap_"@ + a + "_"@ + b + ".json"@,
        ),
{
}

/// Lines of a log are what their parts say.
pub proof fn law_log_entries_are_what_they_say(e: WalEntry)
    ensures
        e@.operation == e.operation@,
        e@.from_version == opt_text(e.from_version),
        e@.to_version == opt_text(e.to_version),
        e@.key == opt_text(e.key),
        e@.from_schema == e.from_schema,
        e@.to_schema == e.to_schema,
        e@.result == opt_text(e.result),
        e@.snapshot_path == opt_text(e.snapshot_path),
{
}

/// A change counts exactly where its file was written, for its key alone.
pub proof fn law_changes_count_once_written(
    s: StoreState,
    key: Seq<char>,
    value: JsonTree,
    schema_version: u64,
    written: Written,
    other: Seq<char>,
)
    requires
        other != key,
    ensures
        ({
            let t = after_change(s, key, value, schema_version, written);
            &&& written is All || written is Unconfirmed ==> t.entries.contains_key(key)
                && t.entries[key].value == value && t.entries[key].schema_version == schema_version
            &&& written is Unlogged || written is Unstored ==> t == s
            &&& t.entries.contains_key(other) == s.entries.contains_key(other)
            &&& s.entries.contains_key(other) ==> t.entries[other] == s.entries[other]
            &&& t.dir == s.dir
        }),
{
}

/// The log has both lines of a change that went through, the first where it was
/// begun, and none where it could not be logged.
pub proof fn law_changes_are_logged_as_far_as_they_went(
    log: Seq<WalLine>,
    first: WalLine,
    second: WalLine,
    written: Written,
)
    ensures
        written is Unlogged ==> logged(log, first, second, written) == log,
        written is Unstored || written is Unconfirmed ==> logged(log, first, second, written)
            == log + seq![first],
        written is All ==> logged(log, first, second, written) == log + seq![first, second],
{
    assert(log.push(first) =~= log + seq![first]);
    assert(log.push(first).push(second) =~= log + seq![first, second]);
}

} // verus!
