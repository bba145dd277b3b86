use std::collections::HashMap;

use notemaker::kanban::{
    add_kanban_task, create_kanban, delete_kanban_task, get_task_file_path, is_kanban,
    kanban_name, read_kanban, update_kanban_settings, update_kanban_task,
    update_task_description,
};
use notemaker::types::{FileOp, FsError, KanbanIndex, KanbanSettings, TaskUpdates};

fn apply(files: &mut HashMap<String, String>, ops: Vec<FileOp>) {
    for op in ops {
        match op {
            FileOp::Write { name, content } => {
                files.insert(name, content);
            }
            FileOp::Delete { name } => {
                files.remove(&name);
            }
        }
    }
}

fn no_updates() -> TaskUpdates {
    TaskUpdates { title: None, status: None, priority: None, due: None, description: None }
}

#[test]
fn create_kanban_defaults() {
    let (index, board) = create_kanban("/vault/work.kanban", false, None).unwrap();
    assert_eq!(index.version, 1);
    let cols: Vec<&str> = index.columns.iter().map(|c| c.as_str()).collect();
    assert_eq!(cols, vec!["backlog", "ready", "working", "done", "closed"]);
    assert!(index.tasks.is_empty());
    assert_eq!(index.settings.card_density, "standard");
    assert!(!index.settings.show_closed);
    assert_eq!(board.name, "work");
}

#[test]
fn create_kanban_fails_when_path_exists() {
    assert!(matches!(
        create_kanban("/vault/work.kanban", true, None),
        Err(FsError::InvalidPath(_))
    ));
}

#[test]
fn add_task_defaults_status_to_first_column() {
    let (mut index, _) = create_kanban("/vault/w.kanban", false, None).unwrap();
    let (task, ops) = add_kanban_task(
        &mut index,
        "t1".to_string(),
        "2024-01-01T00:00:00+00:00".to_string(),
        "Do things".to_string(),
        None,
        None,
        None,
        None,
    )
    .unwrap();
    assert_eq!(task.status, "backlog");
    assert_eq!(task.created, "2024-01-01T00:00:00+00:00");
    assert_eq!(task.updated, "2024-01-01T00:00:00+00:00");
    assert_eq!(task.description, "");
    assert!(ops.is_empty());
    assert_eq!(index.tasks.len(), 1);
}

#[test]
fn add_task_with_description_writes_file() {
    let (mut index, _) = create_kanban("/vault/w.kanban", false, None).unwrap();
    let (_, ops) = add_kanban_task(
        &mut index,
        "t1".to_string(),
        "now".to_string(),
        "Title".to_string(),
        Some("ready".to_string()),
        Some("high".to_string()),
        None,
        Some("details here".to_string()),
    )
    .unwrap();
    assert_eq!(ops.len(), 1);
    match &ops[0] {
        FileOp::Write { name, content } => {
            assert_eq!(name, "t1.md");
            assert_eq!(content, "details here");
        }
        _ => panic!("expected a write"),
    }
    assert_eq!(index.tasks[0].status, "ready");
    assert_eq!(index.tasks[0].priority.as_deref(), Some("high"));
}

#[test]
fn add_task_rejects_blank_title() {
    let (mut index, _) = create_kanban("/vault/w.kanban", false, None).unwrap();
    let r = add_kanban_task(
        &mut index,
        "t1".to_string(),
        "now".to_string(),
        "   ".to_string(),
        None,
        None,
        None,
        None,
    );
    assert!(matches!(r, Err(FsError::InvalidPath(_))));
    assert!(index.tasks.is_empty());
}

#[test]
fn update_task_empty_priority_clears_it() {
    let (mut index, _) = create_kanban("/vault/w.kanban", false, None).unwrap();
    add_kanban_task(
        &mut index,
        "t1".to_string(),
        "t0".to_string(),
        "Title".to_string(),
        None,
        Some("high".to_string()),
        None,
        None,
    )
    .unwrap();
    let updates = TaskUpdates { priority: Some("".to_string()), ..no_updates() };
    let (task, _) =
        update_kanban_task(&mut index, "t1", updates, "t1-time".to_string(), None).unwrap();
    assert_eq!(task.priority, None);
    assert_eq!(index.tasks[0].priority, None);
    assert_eq!(task.updated, "t1-time");
}

#[test]
fn update_task_without_fields_keeps_priority_but_refreshes_updated() {
    let (mut index, _) = create_kanban("/vault/w.kanban", false, None).unwrap();
    add_kanban_task(
        &mut index,
        "t1".to_string(),
        "t0".to_string(),
        "Title".to_string(),
        None,
        Some("high".to_string()),
        None,
        None,
    )
    .unwrap();
    let (task, ops) =
        update_kanban_task(&mut index, "t1", no_updates(), "t9".to_string(), None).unwrap();
    assert_eq!(task.priority.as_deref(), Some("high"));
    assert_eq!(task.updated, "t9");
    assert_eq!(task.created, "t0");
    assert!(ops.is_empty());
    assert_eq!(index.tasks[0].updated, "t9");
}

#[test]
fn update_task_empty_due_clears_it_and_fields_replace() {
    let (mut index, _) = create_kanban("/vault/w.kanban", false, None).unwrap();
    add_kanban_task(
        &mut index,
        "t1".to_string(),
        "t0".to_string(),
        "Old title".to_string(),
        None,
        None,
        Some("2024-06-01".to_string()),
        None,
    )
    .unwrap();
    let updates = TaskUpdates {
        title: Some("New title".to_string()),
        status: Some("done".to_string()),
        due: Some("".to_string()),
        ..no_updates()
    };
    let (task, _) =
        update_kanban_task(&mut index, "t1", updates, "t2".to_string(), None).unwrap();
    assert_eq!(task.title, "New title");
    assert_eq!(task.status, "done");
    assert_eq!(task.due, None);
}

#[test]
fn update_task_description_field_writes_file() {
    let (mut index, _) = create_kanban("/vault/w.kanban", false, None).unwrap();
    add_kanban_task(
        &mut index,
        "t1".to_string(),
        "t0".to_string(),
        "Title".to_string(),
        None,
        None,
        None,
        None,
    )
    .unwrap();
    let updates = TaskUpdates { description: Some("body".to_string()), ..no_updates() };
    let (task, ops) =
        update_kanban_task(&mut index, "t1", updates, "t2".to_string(), None).unwrap();
    assert_eq!(task.description, "body");
    assert_eq!(ops.len(), 1);
    match &ops[0] {
        FileOp::Write { name, content } => {
            assert_eq!(name, "t1.md");
            assert_eq!(content, "body");
        }
        _ => panic!("expected a write"),
    }
}

#[test]
fn update_task_not_found() {
    let (mut index, _) = create_kanban("/vault/w.kanban", false, None).unwrap();
    assert!(matches!(
        update_kanban_task(&mut index, "ghost", no_updates(), "t".to_string(), None),
        Err(FsError::NotFound(_))
    ));
}

#[test]
fn delete_task_removes_record_and_file() {
    let (mut index, _) = create_kanban("/vault/w.kanban", false, None).unwrap();
    let mut files: HashMap<String, String> = HashMap::new();
    let (_, ops) = add_kanban_task(
        &mut index,
        "t1".to_string(),
        "t0".to_string(),
        "Title".to_string(),
        None,
        None,
        None,
        Some("body".to_string()),
    )
    .unwrap();
    apply(&mut files, ops);
    assert!(files.contains_key("t1.md"));

    let ops = delete_kanban_task(&mut index, "t1").unwrap();
    apply(&mut files, ops);
    assert!(index.tasks.is_empty());
    assert!(!files.contains_key("t1.md"));
}

#[test]
fn delete_task_not_found() {
    let (mut index, _) = create_kanban("/vault/w.kanban", false, None).unwrap();
    assert!(matches!(
        delete_kanban_task(&mut index, "ghost"),
        Err(FsError::NotFound(_))
    ));
}

#[test]
fn update_description_only_touches_file_and_stamp() {
    let (mut index, _) = create_kanban("/vault/w.kanban", false, None).unwrap();
    add_kanban_task(
        &mut index,
        "t1".to_string(),
        "t0".to_string(),
        "Title".to_string(),
        Some("ready".to_string()),
        Some("low".to_string()),
        None,
        None,
    )
    .unwrap();
    let ops =
        update_task_description(&mut index, "t1", "new body".to_string(), "t3".to_string())
            .unwrap();
    assert_eq!(ops.len(), 1);
    match &ops[0] {
        FileOp::Write { name, content } => {
            assert_eq!(name, "t1.md");
            assert_eq!(content, "new body");
        }
        _ => panic!("expected a write"),
    }
    assert_eq!(index.tasks[0].updated, "t3");
    assert_eq!(index.tasks[0].created, "t0");
    assert_eq!(index.tasks[0].status, "ready");
    assert_eq!(index.tasks[0].priority.as_deref(), Some("low"));
}

#[test]
fn read_kanban_joins_descriptions() {
    let (mut index, _) = create_kanban("/vault/w.kanban", false, None).unwrap();
    add_kanban_task(
        &mut index,
        "t1".to_string(),
        "t0".to_string(),
        "First".to_string(),
        None,
        None,
        None,
        None,
    )
    .unwrap();
    add_kanban_task(
        &mut index,
        "t2".to_string(),
        "t0".to_string(),
        "Second".to_string(),
        None,
        None,
        None,
        None,
    )
    .unwrap();
    let contents = vec![Some("one".to_string()), None];
    let board = read_kanban("/vault/w.kanban", true, &index, &contents).unwrap();
    assert_eq!(board.name, "w");
    assert_eq!(board.tasks.len(), 2);
    assert_eq!(board.tasks[0].description, "one");
    assert_eq!(board.tasks[1].description, "");
}

#[test]
fn read_kanban_rejects_non_kanban() {
    let index = KanbanIndex::default();
    let contents: Vec<Option<String>> = Vec::new();
    assert!(matches!(
        read_kanban("/vault/w.md", true, &index, &contents),
        Err(FsError::InvalidPath(_))
    ));
}

#[test]
fn settings_replaced_whole() {
    let (mut index, _) = create_kanban("/vault/w.kanban", false, None).unwrap();
    update_kanban_settings(
        &mut index,
        KanbanSettings { card_density: "compact".to_string(), show_closed: true },
    );
    assert_eq!(index.settings.card_density, "compact");
    assert!(index.settings.show_closed);
}

#[test]
fn kanban_paths_and_names() {
    assert!(is_kanban("/vault/w.kanban", true));
    assert!(!is_kanban("/vault/w.kanban", false));
    assert!(!is_kanban("/vault/w.md", true));
    assert_eq!(get_task_file_path("/vault/w.kanban", "t1"), "/vault/w.kanban/t1.md");
    assert_eq!(kanban_name("/vault/w.kanban"), "w");
}

#[test]
fn default_kanban_index_columns() {
    let index = KanbanIndex::default();
    let cols: Vec<&str> = index.columns.iter().map(|c| c.as_str()).collect();
    assert_eq!(cols, vec!["todo", "in_progress", "done"]);
    assert_eq!(index.version, 1);
    assert!(index.tasks.is_empty());
}
