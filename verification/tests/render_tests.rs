use task::render::render_tasks;
use task::store::Task;
use task::store::TaskStore;

#[test]
fn empty_list_renders_the_no_tasks_message() {
    let tasks: Vec<Task> = Vec::new();
    assert_eq!(render_tasks(&tasks), "No Tasks");
}

#[test]
fn a_row_renders_id_and_description_in_columns() {
    let tasks = vec![Task { id: 1, description: "buy milk".to_string() }];
    let out = render_tasks(&tasks);
    assert!(out.lines().any(|l| l.contains('|') && l.contains('1') && l.contains("buy milk")));
    assert!(out.lines().any(|l| l.contains("ID") && l.contains("Description")));
    assert_ne!(out, "buy milk");
}

#[test]
fn end_to_end_add_update_delete() {
    let mut s = TaskStore::open_in_memory().expect("open");
    s.ensure_schema().expect("schema");

    s.add_task("buy milk").expect("add");
    let tasks = s.list_tasks().expect("list");
    assert_eq!(tasks.len(), 1);
    assert_eq!(tasks[0].id, 1);
    let shown = render_tasks(&tasks);
    assert!(shown.lines().any(|l| l.contains('1') && l.contains("buy milk")));

    s.update_task(1, "buy oat milk").expect("update");
    let tasks = s.list_tasks().expect("list");
    let shown = render_tasks(&tasks);
    assert!(shown.lines().any(|l| l.contains('1') && l.contains("buy oat milk")));
    assert!(!shown.contains("buy milk"));

    s.delete_task(1).expect("delete");
    let tasks = s.list_tasks().expect("list");
    assert_eq!(render_tasks(&tasks), "No Tasks");
}
