//! The task store: a single `tasks` table in a SQLite database,
//! reached through rusqlite and modelled as a map from id to
//! description.
use vstd::prelude::*;
use rusqlite::OptionalExtension;

verus! {

#[verifier::external_type_specification]
#[verifier::external_body]
pub struct ExConnection(rusqlite::Connection);

#[verifier::external_type_specification]
#[verifier::external_body]
pub struct ExRusqliteError(rusqlite::Error);

/// The rows of the `tasks` table that a connection reaches: each
/// row's id, mapped to that row's description. A database without
/// that table holds no task rows.
pub uninterp spec fn db_rows(conn: rusqlite::Connection) -> Map<int, Seq<char>>;

/// The `tasks` table that the connection reaches is declared exactly
/// as this tool declares it — `id INTEGER PRIMARY KEY` (the rowid)
/// and `description TEXT NOT NULL` — and no trigger acts on it. The
/// row contracts below are stated of that shape; a foreign table of
/// the same name, or one with a trigger attached, does not have it.
pub uninterp spec fn db_schema_ok(conn: rusqlite::Connection) -> bool;

/// A table named `tasks` exists in the database the connection
/// reaches.
pub uninterp spec fn db_has_tasks(conn: rusqlite::Connection) -> bool;

/// An id that SQLite can assign to a row: a positive 64-bit rowid.
pub open spec fn valid_id(i: int) -> bool {
    1 <= i <= 0x7fff_ffff_ffff_ffff
}

/// A task as the store hands it out.
#[derive(Debug)]
pub struct Task {
    pub id: u64,
    pub description: String,
}

/// An error from the persistence layer, carrying the backend's own
/// error value.
#[derive(Debug)]
pub struct StoreError {
    pub backend: rusqlite::Error,
}

/// `v` lists the rows of `m` exactly: every entry is a row of `m`,
/// the ids come strictly ascending, and every row of `m` appears.
pub open spec fn listing_of(m: Map<int, Seq<char>>, v: Seq<(u64, Seq<char>)>) -> bool {
    &&& (forall|k: int|
        0 <= k < v.len() ==> m.dom().contains((#[trigger] v[k]).0 as int) && m[v[k].0 as int]
            == v[k].1)
    &&& (forall|k1: int, k2: int|
        0 <= k1 < k2 < v.len() ==> (#[trigger] v[k1]).0 < (#[trigger] v[k2]).0)
    &&& (forall|i: int|
        m.dom().contains(i) ==> exists|k: int| 0 <= k < v.len() && (#[trigger] v[k]).0 as int == i)
}

/// A connection that, when open, reaches no `tasks` table and so no
/// task rows at all.
pub open spec fn fresh_conn(r: &Result<rusqlite::Connection, rusqlite::Error>) -> bool {
    match r {
        Ok(conn) => db_rows(*conn) == Map::<int, Seq<char>>::empty() && !db_has_tasks(*conn),
        Err(_) => true,
    }
}

/// Relies on rusqlite's `Connection::open_in_memory`: a freshly
/// created in-memory database holds no tables, so no task rows.
#[verifier::external_body]
fn open_memory_conn() -> (r: Result<rusqlite::Connection, rusqlite::Error>)
    ensures
        fresh_conn(&r),
{
    rusqlite::Connection::open_in_memory()
}

/// Relies on rusqlite's `Connection::execute` of `CREATE TABLE IF NOT
/// EXISTS`: the table is created only when absent, existing rows are
/// never touched, and a table already of this tool's shape keeps it.
/// Where no `tasks` table existed — so no trigger could act on one —
/// success leaves exactly this tool's declaration and nothing else on
/// it. A failed statement changes nothing.
#[verifier::external_body]
fn exec_create_table(conn: &mut rusqlite::Connection) -> (r: Result<(), rusqlite::Error>)
    ensures
        db_rows(*final(conn)) == db_rows(*old(conn)),
        db_schema_ok(*old(conn)) ==> db_schema_ok(*final(conn)),
        r is Ok && !db_has_tasks(*old(conn)) ==> db_schema_ok(*final(conn)),
{
    let res = conn.execute(
        "CREATE TABLE IF NOT EXISTS tasks(id INTEGER PRIMARY KEY, description TEXT NOT NULL)",
        [],
    );
    res.map(|_| ())
}

/// Relies on rusqlite's `Connection::execute` of an `INSERT` that
/// names no id, and on SQLite's documented rowid assignment for a
/// rowid-keyed table: the first row of an empty table gets rowid 1;
/// while every id in use is below the largest rowid, the new row gets
/// one past the largest in use; at the largest rowid an unused
/// positive one is picked. The new id is always fresh and positive,
/// and a failed statement changes nothing.
#[verifier::external_body]
fn exec_insert(conn: &mut rusqlite::Connection, description: &str) -> (r: Result<
    (),
    rusqlite::Error,
>)
    requires
        db_schema_ok(*old(conn)),
        forall|i: int| db_rows(*old(conn)).dom().contains(i) ==> valid_id(i),
    ensures
        db_schema_ok(*final(conn)),
        r is Ok ==> exists|id: int|
            valid_id(id) && !db_rows(*old(conn)).dom().contains(id) && db_rows(*final(conn))
                == db_rows(*old(conn)).insert(id, description@) && (db_rows(*old(conn)).dom()
                == Set::<int>::empty() ==> id == 1) && ((forall|i: int|
                db_rows(*old(conn)).dom().contains(i) ==> i < 0x7fff_ffff_ffff_ffff)
                ==> forall|i: int| db_rows(*old(conn)).dom().contains(i) ==> i < id),
        r is Err ==> db_rows(*final(conn)) == db_rows(*old(conn)),
{
    conn.execute("INSERT INTO tasks (description) VALUES (?1)", [description]).map(|_| ())
}

/// Relies on rusqlite's `Connection::execute` of `DELETE ... WHERE
/// id=?` on a trigger-free rowid table: exactly the row with that id
/// goes, none when it is absent, and a failed statement changes
/// nothing.
#[verifier::external_body]
fn exec_delete(conn: &mut rusqlite::Connection, id: u64) -> (r: Result<(), rusqlite::Error>)
    requires
        db_schema_ok(*old(conn)),
    ensures
        db_schema_ok(*final(conn)),
        r is Ok ==> db_rows(*final(conn)) == db_rows(*old(conn)).remove(id as int),
        r is Err ==> db_rows(*final(conn)) == db_rows(*old(conn)),
{
    conn.execute("DELETE FROM tasks WHERE id=?1", [id]).map(|_| ())
}

/// Relies on rusqlite's `Connection::execute` of `UPDATE ... WHERE
/// id=?` on a trigger-free rowid table: it rewrites the description
/// of the row with that id, does nothing when the id is absent, and a
/// failed statement changes nothing.
#[verifier::external_body]
fn exec_update(conn: &mut rusqlite::Connection, id: u64, description: &str) -> (r: Result<
    (),
    rusqlite::Error,
>)
    requires
        db_schema_ok(*old(conn)),
    ensures
        db_schema_ok(*final(conn)),
        r is Ok && db_rows(*old(conn)).dom().contains(id as int) ==> db_rows(*final(conn))
            == db_rows(*old(conn)).insert(id as int, description@),
        r is Ok && !db_rows(*old(conn)).dom().contains(id as int) ==> db_rows(*final(conn))
            == db_rows(*old(conn)),
        r is Err ==> db_rows(*final(conn)) == db_rows(*old(conn)),
{
    conn.execute("UPDATE tasks SET description=?2 WHERE id=?1", (id, description)).map(|_| ())
}

/// Relies on rusqlite's `prepare` and `query_map` of `SELECT id,
/// description FROM tasks ORDER BY id`: on success every row comes
/// back exactly once, ascending by id; a row whose id does not fit
/// `u64` makes the query fail instead.
#[verifier::external_body]
fn query_all(conn: &rusqlite::Connection) -> (r: Result<Vec<(u64, String)>, rusqlite::Error>)
    requires
        db_schema_ok(*conn),
    ensures
        r is Ok ==> listing_of(
            db_rows(*conn),
            (r->Ok_0)@.map_values(|p: (u64, String)| (p.0, p.1@)),
        ),
{
    let mut stmt = conn.prepare("SELECT id, description FROM tasks ORDER BY id")?;
    let rows = stmt.query_map([], |row| Ok((row.get(0)?, row.get(1)?)))?;
    rows.collect()
}

/// Relies on rusqlite's `query_row` of `SELECT description ... WHERE
/// id=?` with `optional`: the description of the row with that id,
/// or nothing when the id is absent.
#[verifier::external_body]
fn query_one_desc(conn: &rusqlite::Connection, id: u64) -> (r: Result<
    Option<String>,
    rusqlite::Error,
>)
    requires
        db_schema_ok(*conn),
    ensures
        r is Ok ==> match r->Ok_0 {
            Some(d) => db_rows(*conn).dom().contains(id as int) && db_rows(*conn)[id as int] == d@,
            None => !db_rows(*conn).dom().contains(id as int),
        },
{
    conn.query_row("SELECT description FROM tasks WHERE id=?1", [id], |row| row.get(0)).optional()
}

/// Relies on rusqlite's `query_row` of `SELECT MIN(id), MAX(id) FROM
/// tasks`: both aggregates are NULL exactly over an empty table, and
/// otherwise are the least and greatest id in use — each an id of
/// some row — and bound every id in it.
#[verifier::external_body]
fn query_id_bounds(conn: &rusqlite::Connection) -> (r: Result<Option<(i64, i64)>, rusqlite::Error>)
    requires
        db_schema_ok(*conn),
    ensures
        r is Ok ==> match r->Ok_0 {
            Some(b) => db_rows(*conn).dom().contains(b.0 as int) && db_rows(*conn).dom().contains(
                b.1 as int,
            ) && forall|i: int| db_rows(*conn).dom().contains(i) ==> b.0 <= i <= b.1,
            None => db_rows(*conn).dom() == Set::<int>::empty(),
        },
{
    let b: (Option<i64>, Option<i64>) = conn.query_row(
        "SELECT MIN(id), MAX(id) FROM tasks",
        [],
        |row| Ok((row.get(0)?, row.get(1)?)),
    )?;
    Ok(match b {
        (Some(mn), Some(mx)) => Some((mn, mx)),
        _ => None,
    })
}

/// Relies on rusqlite's `query_row` over `sqlite_master`: the stored
/// declaration text of the `tasks` table — the CREATE statement as
/// SQLite keeps it, `IF NOT EXISTS` dropped — or nothing when no such
/// table exists, beside the count of triggers acting on `tasks`
/// (every trigger on it has a `sqlite_master` row with that
/// `tbl_name`). The table has this tool's shape exactly when the text
/// is this tool's own declaration and the trigger count is zero.
#[verifier::external_body]
fn query_schema_info(conn: &rusqlite::Connection) -> (r: Result<
    (Option<String>, i64),
    rusqlite::Error,
>)
    ensures
        r is Ok ==> db_schema_ok(*conn) == match r->Ok_0 {
            (Some(s), n) => s@
                == "CREATE TABLE tasks(id INTEGER PRIMARY KEY, description TEXT NOT NULL)"@ && n
                == 0,
            (None, _) => false,
        },
{
    conn.query_row(
        "SELECT (SELECT sql FROM sqlite_master WHERE type='table' AND name='tasks'),
                (SELECT COUNT(*) FROM sqlite_master WHERE type='trigger' AND tbl_name='tasks')",
        [],
        |row| Ok((row.get(0)?, row.get(1)?)),
    )
}

/// The store: one open connection to the task database.
pub struct TaskStore {
    conn: rusqlite::Connection,
}

impl TaskStore {
    /// The store's content: the rows of its `tasks` table.
    pub closed spec fn rows(&self) -> Map<int, Seq<char>> {
        db_rows(self.conn)
    }

    /// Every id in the store is a positive SQLite rowid.
    pub open spec fn wf(&self) -> bool {
        forall|i: int| self.rows().dom().contains(i) ==> valid_id(i)
    }

    /// The store's `tasks` table has the shape this tool declares,
    /// with no trigger acting on it.
    pub closed spec fn schema_ok(&self) -> bool {
        db_schema_ok(self.conn)
    }

    /// A table named `tasks` exists in the store's database.
    pub closed spec fn has_tasks(&self) -> bool {
        db_has_tasks(self.conn)
    }

    /// Wrap an already-open database connection. The connection is
    /// taken to be the only route to its database while the store
    /// holds it: the contracts read the store's contents through this
    /// one handle, so a second connection to the same file, or an
    /// outside writer, is not accounted for.
    pub fn from_connection(conn: rusqlite::Connection) -> (s: TaskStore)
        ensures
            s.rows() == db_rows(conn),
            s.schema_ok() == db_schema_ok(conn),
    {
        TaskStore { conn }
    }

    /// Open a store over a fresh in-memory database: empty, without a
    /// `tasks` table yet, and so well-formed.
    pub fn open_in_memory() -> (r: Result<TaskStore, StoreError>)
        ensures
            r is Ok ==> (r->Ok_0).rows() == Map::<int, Seq<char>>::empty() && (r->Ok_0).wf() && !(
            r->Ok_0).has_tasks(),
    {
        match open_memory_conn() {
            Ok(conn) => Ok(TaskStore { conn }),
            Err(e) => Err(StoreError { backend: e }),
        }
    }

    /// Create the `tasks` table when it is absent — on a database
    /// that had none, success leaves exactly this tool's shape. Rows
    /// are never touched, so calling this any number of times changes
    /// nothing.
    pub fn ensure_schema(&mut self) -> (r: Result<(), StoreError>)
        ensures
            final(self).rows() == old(self).rows(),
            old(self).wf() ==> final(self).wf(),
            old(self).schema_ok() ==> final(self).schema_ok(),
            r is Ok && !old(self).has_tasks() ==> final(self).schema_ok(),
    {
        match exec_create_table(&mut self.conn) {
            Ok(u) => Ok(u),
            Err(e) => Err(StoreError { backend: e }),
        }
    }

    /// Check that the `tasks` table is declared as this tool declares
    /// it and carries no trigger; the answer is `true` exactly when
    /// `schema_ok` holds. A store over a foreign database file is
    /// vetted here, after `ensure_schema`, before any row is trusted
    /// to the row contracts.
    pub fn check_schema(&self) -> (r: Result<bool, StoreError>)
        ensures
            r is Ok ==> (r->Ok_0 == self.schema_ok()),
    {
        match query_schema_info(&self.conn) {
            Ok((Some(s), n)) => Ok(
                n == 0 && crate::cli::str_eq(
                    s.as_str(),
                    "CREATE TABLE tasks(id INTEGER PRIMARY KEY, description TEXT NOT NULL)",
                ),
            ),
            Ok((None, _)) => Ok(false),
            Err(e) => Err(StoreError { backend: e }),
        }
    }

    /// Insert a new task. On success exactly one row is added: its
    /// description is the one given, its id fresh among the rows that
    /// were there — 1 on an empty store, and past every id in use
    /// while the largest rowid is not yet taken.
    pub fn add_task(&mut self, description: &str) -> (r: Result<(), StoreError>)
        requires
            old(self).wf(),
            old(self).schema_ok(),
        ensures
            final(self).wf(),
            final(self).schema_ok(),
            r is Ok ==> exists|id: int|
                valid_id(id) && !old(self).rows().dom().contains(id) && final(self).rows() == old(
                    self,
                ).rows().insert(id, description@) && (old(self).rows().dom()
                == Set::<int>::empty() ==> id == 1) && ((forall|i: int|
                old(self).rows().dom().contains(i) ==> i < 0x7fff_ffff_ffff_ffff) ==> forall|
                    i: int,
                |
                    old(self).rows().dom().contains(i) ==> i < id),
            r is Err ==> final(self).rows() == old(self).rows(),
    {
        match exec_insert(&mut self.conn, description) {
            Ok(u) => {
                proof {
                    let id = choose|id: int|
                        valid_id(id) && !old(self).rows().dom().contains(id) && final(self).rows()
                            == old(self).rows().insert(id, description@);
                    assert forall|i: int| final(self).rows().dom().contains(i) implies valid_id(
                        i,
                    ) by {
                        if i != id {
                            assert(old(self).rows().dom().contains(i));
                        }
                    }
                }
                Ok(u)
            },
            Err(e) => Err(StoreError { backend: e }),
        }
    }

    /// Delete the row with this id; deleting an absent id succeeds
    /// and leaves the rows unchanged.
    pub fn delete_task(&mut self, id: u64) -> (r: Result<(), StoreError>)
        requires
            old(self).schema_ok(),
        ensures
            old(self).wf() ==> final(self).wf(),
            final(self).schema_ok(),
            r is Ok ==> final(self).rows() == old(self).rows().remove(id as int),
            r is Ok && !old(self).rows().dom().contains(id as int) ==> final(self).rows() == old(
                self,
            ).rows(),
            r is Err ==> final(self).rows() == old(self).rows(),
    {
        let r = exec_delete(&mut self.conn, id);
        match r {
            Ok(u) => {
                proof {
                    if !old(self).rows().dom().contains(id as int) {
                        assert(old(self).rows().remove(id as int) =~= old(self).rows());
                    }
                }
                Ok(u)
            },
            Err(e) => Err(StoreError { backend: e }),
        }
    }

    /// Replace the description of the row with this id; an absent id
    /// is a silent no-op.
    pub fn update_task(&mut self, id: u64, description: &str) -> (r: Result<(), StoreError>)
        requires
            old(self).schema_ok(),
        ensures
            old(self).wf() ==> final(self).wf(),
            final(self).schema_ok(),
            r is Ok && old(self).rows().dom().contains(id as int) ==> final(self).rows() == old(
                self,
            ).rows().insert(id as int, description@),
            r is Ok && !old(self).rows().dom().contains(id as int) ==> final(self).rows() == old(
                self,
            ).rows(),
            r is Err ==> final(self).rows() == old(self).rows(),
    {
        match exec_update(&mut self.conn, id, description) {
            Ok(u) => Ok(u),
            Err(e) => Err(StoreError { backend: e }),
        }
    }

    /// List every task, ascending by id; an empty store yields an
    /// empty list, not an error.
    pub fn list_tasks(&self) -> (r: Result<Vec<Task>, StoreError>)
        requires
            self.schema_ok(),
        ensures
            r is Ok ==> listing_of(
                self.rows(),
                (r->Ok_0)@.map_values(|t: Task| (t.id, t.description@)),
            ),
    {
        let raw = match query_all(&self.conn) {
            Ok(v) => v,
            Err(e) => {
                return Err(StoreError { backend: e });
            },
        };
        let ghost raw_view = raw@.map_values(|p: (u64, String)| (p.0, p.1@));
        let mut out: Vec<Task> = Vec::new();
        let n = raw.len();
        let mut j: usize = 0;
        while j < n
            invariant
                n == raw.len(),
                0 <= j <= n,
                out@.len() == j,
                forall|k: int|
                    0 <= k < j ==> (#[trigger] out@[k]).id == raw@[k].0 && out@[k].description@
                        == raw@[k].1@,
            decreases n - j,
        {
            let id = raw[j].0;
            let description = raw[j].1.clone();
            out.push(Task { id, description });
            j = j + 1;
        }
        proof {
            assert(out@.map_values(|t: Task| (t.id, t.description@)) =~= raw_view);
        }
        Ok(out)
    }

    /// Read one task's description; an absent id yields `None`.
    pub fn get_task(&self, id: u64) -> (r: Result<Option<String>, StoreError>)
        requires
            self.schema_ok(),
        ensures
            r is Ok ==> match r->Ok_0 {
                Some(d) => self.rows().dom().contains(id as int) && self.rows()[id as int] == d@,
                None => !self.rows().dom().contains(id as int),
            },
    {
        match query_one_desc(&self.conn, id) {
            Ok(d) => Ok(d),
            Err(e) => Err(StoreError { backend: e }),
        }
    }

    /// Check that every id now in the table is a positive rowid: the
    /// answer is `true` exactly when `wf` holds, so a store taken
    /// over from an arbitrary database file can be vetted before it
    /// is written to.
    pub fn check_ids(&self) -> (r: Result<bool, StoreError>)
        requires
            self.schema_ok(),
        ensures
            r is Ok ==> r->Ok_0 == self.wf(),
    {
        match query_id_bounds(&self.conn) {
            Ok(None) => Ok(true),
            Ok(Some(b)) => {
                let good = b.0 >= 1;
                proof {
                    if good {
                        assert forall|i: int| self.rows().dom().contains(i) implies valid_id(
                            i,
                        ) by {
                            assert(b.0 <= i <= b.1);
                        }
                    } else {
                        assert(self.rows().dom().contains(b.0 as int));
                        assert(!valid_id(b.0 as int));
                    }
                }
                Ok(good)
            },
            Err(e) => Err(StoreError { backend: e }),
        }
    }
}

/// After an add, a listing shows exactly one new row — the given
/// description under the fresh id, at a single position — every row
/// that was already there, and nothing else.
pub proof fn lemma_add_then_list(m: Map<int, Seq<char>>, id: int, d: Seq<char>, v: Seq<
    (u64, Seq<char>),
>)
    requires
        !m.dom().contains(id),
        listing_of(m.insert(id, d), v),
    ensures
        exists|k: int| 0 <= k < v.len() && (#[trigger] v[k]).0 as int == id && v[k].1 == d,
        forall|k: int|
            0 <= k < v.len() && (#[trigger] v[k]).0 as int != id ==> m.dom().contains(
                v[k].0 as int,
            ) && m[v[k].0 as int] == v[k].1,
        forall|k1: int, k2: int|
            0 <= k1 < v.len() && 0 <= k2 < v.len() && (#[trigger] v[k1]).0 as int == id && (
            #[trigger] v[k2]).0 as int == id ==> k1 == k2,
        forall|i: int|
            m.dom().contains(i) ==> exists|k: int|
                0 <= k < v.len() && (#[trigger] v[k]).0 as int == i && v[k].1 == m[i],
{
    let m2 = m.insert(id, d);
    assert(m2.dom().contains(id));
    let k = choose|k: int| 0 <= k < v.len() && (#[trigger] v[k]).0 as int == id;
    assert(v[k].1 == m2[id]);
    assert forall|k1: int, k2: int|
        0 <= k1 < v.len() && 0 <= k2 < v.len() && (#[trigger] v[k1]).0 as int == id && (
        #[trigger] v[k2]).0 as int == id implies k1 == k2 by {
        if k1 < k2 {
            assert(v[k1].0 < v[k2].0);
        }
        if k2 < k1 {
            assert(v[k2].0 < v[k1].0);
        }
    }
    assert forall|i: int| m.dom().contains(i) implies exists|k: int|
        0 <= k < v.len() && (#[trigger] v[k]).0 as int == i && v[k].1 == m[i] by {
        assert(m2.dom().contains(i));
        let ki = choose|k: int| 0 <= k < v.len() && (#[trigger] v[k]).0 as int == i;
        assert(v[ki].1 == m2[i]);
    }
}

/// A listing has exactly one entry per row: as many entries as the
/// store has rows.
pub proof fn lemma_listing_len(m: Map<int, Seq<char>>, v: Seq<(u64, Seq<char>)>)
    requires
        listing_of(m, v),
    ensures
        m.dom().finite(),
        v.len() == m.dom().len(),
{
    broadcast use vstd::seq_lib::seq_to_set_is_finite;
    broadcast use vstd::set::group_set_axioms;

    let ids = Seq::new(v.len(), |k: int| v[k].0 as int);
    assert(ids.no_duplicates()) by {
        assert forall|k1: int, k2: int|
            0 <= k1 < ids.len() && 0 <= k2 < ids.len() && k1 != k2 implies ids[k1] != ids[k2] by {
            if k1 < k2 {
                assert(v[k1].0 < v[k2].0);
            } else {
                assert(v[k2].0 < v[k1].0);
            }
        }
    }
    assert(m.dom() =~= ids.to_set()) by {
        assert forall|i: int| m.dom().contains(i) implies ids.to_set().contains(i) by {
            let k = choose|k: int| 0 <= k < v.len() && (#[trigger] v[k]).0 as int == i;
            assert(ids[k] == i);
            assert(ids.contains(i));
        }
        assert forall|i: int| ids.to_set().contains(i) implies m.dom().contains(i) by {
            let k = choose|k: int| 0 <= k < ids.len() && ids[k] == i;
            assert(v[k].0 as int == i);
        }
    }
    ids.unique_seq_to_set();
}

/// A listing taken right after an add is one entry longer than the
/// store was before it.
pub proof fn lemma_add_count(m: Map<int, Seq<char>>, id: int, d: Seq<char>, v: Seq<
    (u64, Seq<char>),
>)
    requires
        m.dom().finite(),
        !m.dom().contains(id),
        listing_of(m.insert(id, d), v),
    ensures
        v.len() == m.dom().len() + 1,
{
    broadcast use vstd::set::group_set_axioms;

    lemma_listing_len(m.insert(id, d), v);
    assert(m.insert(id, d).dom() =~= m.dom().insert(id));
}

/// Deleting an id that is not in the row set leaves it unchanged.
pub proof fn lemma_delete_absent(m: Map<int, Seq<char>>, id: int)
    requires
        !m.dom().contains(id),
    ensures
        m.remove(id) == m,
{
    assert(m.remove(id) =~= m);
}

/// Updating a task right after adding it replaces the description
/// wholesale and keeps the set of ids — and so the row count — as it
/// was after the add.
pub proof fn lemma_update_after_add(m: Map<int, Seq<char>>, id: int, d1: Seq<char>, d2: Seq<char>)
    requires
        !m.dom().contains(id),
    ensures
        m.insert(id, d1).insert(id, d2) == m.insert(id, d2),
        m.insert(id, d1).insert(id, d2)[id] == d2,
        m.insert(id, d1).insert(id, d2).dom() == m.insert(id, d1).dom(),
{
    assert(m.insert(id, d1).insert(id, d2) =~= m.insert(id, d2));
    assert(m.insert(id, d1).insert(id, d2).dom() =~= m.insert(id, d1).dom());
}

/// The first task added to an empty store is listed as the one row
/// with id 1 and the given description, and nothing else.
pub proof fn lemma_first_add_lists_id_one(d: Seq<char>, v: Seq<(u64, Seq<char>)>)
    requires
        listing_of(Map::<int, Seq<char>>::empty().insert(1, d), v),
    ensures
        v.len() == 1,
        v[0].0 == 1,
        v[0].1 == d,
{
    broadcast use vstd::set::group_set_axioms;

    let m = Map::<int, Seq<char>>::empty().insert(1, d);
    assert(m.dom().contains(1));
    let k = choose|k: int| 0 <= k < v.len() && (#[trigger] v[k]).0 as int == 1;
    assert(forall|j: int| 0 <= j < v.len() ==> (#[trigger] v[j]).0 as int == 1);
    if v.len() >= 2 {
        assert(v[0].0 < v[1].0);
    }
    assert(v[0].1 == m[1]);
}

/// A listing of an empty store is empty.
pub proof fn lemma_empty_listing(v: Seq<(u64, Seq<char>)>)
    requires
        listing_of(Map::<int, Seq<char>>::empty(), v),
    ensures
        v.len() == 0,
{
    if v.len() > 0 {
        assert(Map::<int, Seq<char>>::empty().dom().contains(v[0].0 as int));
    }
}

} // verus!
