use task::store::TaskStore;

fn fresh_store() -> TaskStore {
    let mut s = TaskStore::open_in_memory().expect("in-memory database");
    s.ensure_schema().expect("schema");
    assert!(s.check_schema().expect("vet"));
    s
}

#[test]
fn add_then_list_shows_one_new_row() {
    let mut s = fresh_store();
    s.add_task("buy milk").expect("add");
    let tasks = s.list_tasks().expect("list");
    assert_eq!(tasks.len(), 1);
    assert_eq!(tasks[0].description, "buy milk");
    let first_id = tasks[0].id;

    s.add_task("water plants").expect("add");
    let tasks = s.list_tasks().expect("list");
    assert_eq!(tasks.len(), 2);
    let new: Vec<_> = tasks.iter().filter(|t| t.description == "water plants").collect();
    assert_eq!(new.len(), 1);
    assert_ne!(new[0].id, first_id);
}

#[test]
fn delete_absent_id_is_a_silent_no_op() {
    let mut s = fresh_store();
    s.add_task("keep me").expect("add");
    let before = s.list_tasks().expect("list");
    s.delete_task(9999).expect("delete of an absent id reports no error");
    let after = s.list_tasks().expect("list");
    assert_eq!(before.len(), after.len());
    assert_eq!(before[0].id, after[0].id);
    assert_eq!(before[0].description, after[0].description);
}

#[test]
fn update_replaces_description_and_keeps_count() {
    let mut s = fresh_store();
    s.add_task("first draft").expect("add");
    let id = s.list_tasks().expect("list")[0].id;
    s.update_task(id, "second draft").expect("update");
    let tasks = s.list_tasks().expect("list");
    assert_eq!(tasks.len(), 1);
    assert_eq!(tasks[0].id, id);
    assert_eq!(tasks[0].description, "second draft");
}

#[test]
fn update_absent_id_is_a_silent_no_op() {
    let mut s = fresh_store();
    s.add_task("untouched").expect("add");
    s.update_task(9999, "never written").expect("update of absent id");
    let tasks = s.list_tasks().expect("list");
    assert_eq!(tasks.len(), 1);
    assert_eq!(tasks[0].description, "untouched");
}

#[test]
fn empty_store_lists_nothing() {
    let s = fresh_store();
    let tasks = s.list_tasks().expect("list");
    assert_eq!(tasks.len(), 0);
}

#[test]
fn ensure_schema_twice_is_idempotent() {
    let mut s = fresh_store();
    s.add_task("survives").expect("add");
    s.ensure_schema().expect("second ensure_schema reports no error");
    s.ensure_schema().expect("third ensure_schema reports no error");
    let tasks = s.list_tasks().expect("list");
    assert_eq!(tasks.len(), 1);
    assert_eq!(tasks[0].description, "survives");
}

#[test]
fn a_failing_write_is_a_store_error() {
    let conn = rusqlite::Connection::open_in_memory().expect("open");
    conn.execute(
        "CREATE TABLE IF NOT EXISTS tasks(id INTEGER PRIMARY KEY, description TEXT NOT NULL)",
        [],
    )
    .expect("create");
    conn.execute_batch("PRAGMA query_only = ON").expect("pragma");
    let mut s = TaskStore::from_connection(conn);
    assert_eq!(s.check_schema().expect("vet"), true);
    assert_eq!(s.check_ids().expect("vet"), true);
    let e = s.add_task("never written").expect_err("write to a read-only database");
    let text = format!("{:?}", e.backend);
    assert!(!text.is_empty());
    assert_eq!(s.list_tasks().expect("list").len(), 0);
}

#[test]
fn get_task_reads_back_what_was_added() {
    let mut s = fresh_store();
    s.add_task("readable").expect("add");
    let id = s.list_tasks().expect("list")[0].id;
    assert_eq!(s.get_task(id).expect("get"), Some("readable".to_string()));
    assert_eq!(s.get_task(id + 1).expect("get"), None);
}

#[test]
fn list_is_ascending_by_id() {
    let mut s = fresh_store();
    s.add_task("a").expect("add");
    s.add_task("b").expect("add");
    s.add_task("c").expect("add");
    let tasks = s.list_tasks().expect("list");
    assert_eq!(tasks.len(), 3);
    assert!(tasks[0].id < tasks[1].id);
    assert!(tasks[1].id < tasks[2].id);
}

#[test]
fn check_ids_accepts_this_library_s_own_rows() {
    let mut s = fresh_store();
    assert_eq!(s.check_ids().expect("check"), true);
    s.add_task("x").expect("add");
    assert_eq!(s.check_ids().expect("check"), true);
}

#[test]
fn check_ids_rejects_a_foreign_nonpositive_id() {
    let conn = rusqlite::Connection::open_in_memory().expect("open");
    conn.execute(
        "CREATE TABLE tasks(id INTEGER PRIMARY KEY, description TEXT NOT NULL)",
        [],
    )
    .expect("create");
    conn.execute("INSERT INTO tasks (id, description) VALUES (-5, 'alien')", [])
        .expect("insert");
    let s = TaskStore::from_connection(conn);
    assert_eq!(s.check_ids().expect("check"), false);
}

#[test]
fn check_schema_accepts_this_tool_s_own_table() {
    let s = fresh_store();
    assert_eq!(s.check_schema().expect("check"), true);
}

#[test]
fn check_schema_rejects_a_missing_table() {
    let s = TaskStore::open_in_memory().expect("open");
    assert_eq!(s.check_schema().expect("check"), false);
}

#[test]
fn check_schema_rejects_a_foreign_table_shape() {
    let conn = rusqlite::Connection::open_in_memory().expect("open");
    conn.execute("CREATE TABLE tasks(id INT, description TEXT)", [])
        .expect("create");
    let s = TaskStore::from_connection(conn);
    assert_eq!(s.check_schema().expect("check"), false);
}

#[test]
fn check_schema_rejects_a_trigger_on_the_table() {
    let conn = rusqlite::Connection::open_in_memory().expect("open");
    conn.execute(
        "CREATE TABLE tasks(id INTEGER PRIMARY KEY, description TEXT NOT NULL)",
        [],
    )
    .expect("create");
    conn.execute(
        "CREATE TRIGGER rewrite AFTER INSERT ON tasks BEGIN UPDATE tasks SET description='x'; END",
        [],
    )
    .expect("trigger");
    let s = TaskStore::from_connection(conn);
    assert_eq!(s.check_schema().expect("vet"), false);
}

#[test]
fn first_add_into_an_empty_store_gets_id_one() {
    let mut s = fresh_store();
    s.add_task("first").expect("add");
    let tasks = s.list_tasks().expect("list");
    assert_eq!(tasks.len(), 1);
    assert_eq!(tasks[0].id, 1);
}

#[test]
fn deleting_the_only_row_empties_the_store() {
    let mut s = fresh_store();
    s.add_task("short lived").expect("add");
    let id = s.list_tasks().expect("list")[0].id;
    s.delete_task(id).expect("delete");
    assert_eq!(s.list_tasks().expect("list").len(), 0);
}
