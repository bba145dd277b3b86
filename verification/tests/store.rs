use std::collections::HashMap;

use notemaker::convert::convert_note_to_notebook;
use notemaker::notebook::{
    add_notebook_block, change_block_type, create_notebook, delete_notebook_block, is_notebook,
    move_notebook_block, notebook_index_path, notebook_name, read_notebook, update_notebook_block,
};
use notemaker::parser::parse_markdown_blocks;
use notemaker::types::{BlockType, FileOp, FsError, NotebookIndex};

fn apply(files: &mut HashMap<String, String>, ops: Vec<FileOp>) {
    for op in ops {
        match op {
            FileOp::Write { name, content } => {
                files.insert(name, content);
            }
            FileOp::Delete { name } => {
                files.remove(&name);
            }
        }
    }
}

fn contents_for(index: &NotebookIndex, files: &HashMap<String, String>) -> Vec<Option<String>> {
    index.blocks.iter().map(|b| files.get(&b.file).cloned()).collect()
}

#[test]
fn create_then_read_roundtrip() {
    let (index, ops, created) = create_notebook(
        "/vault/notes.md",
        false,
        Some("My Title".to_string()),
        "abc123".to_string(),
    )
    .unwrap();
    assert_eq!(index.version, 1);
    assert_eq!(index.blocks.len(), 1);
    assert_eq!(created.name, "My Title");

    let mut files: HashMap<String, String> = HashMap::new();
    apply(&mut files, ops);

    let contents = contents_for(&index, &files);
    let nb = read_notebook("/vault/notes.md", true, &index, &contents).unwrap();
    assert_eq!(nb.blocks.len(), 1);
    assert_eq!(nb.blocks[0].id, "abc123");
    assert_eq!(nb.blocks[0].content, "# My Title\n\n");
}

#[test]
fn create_fails_when_path_exists() {
    let r = create_notebook("/vault/notes.md", true, None, "id1".to_string());
    assert!(matches!(r, Err(FsError::InvalidPath(_))));
}

#[test]
fn create_title_from_path_stem() {
    let (_, _, created) =
        create_notebook("/vault/journal.md", false, None, "id1".to_string()).unwrap();
    assert_eq!(created.name, "journal");
}

#[test]
fn read_rejects_non_notebook() {
    let index = NotebookIndex::default();
    let contents: Vec<Option<String>> = Vec::new();
    assert!(matches!(
        read_notebook("/vault/notes.md", false, &index, &contents),
        Err(FsError::InvalidPath(_))
    ));
    assert!(matches!(
        read_notebook("/vault/plain", true, &index, &contents),
        Err(FsError::InvalidPath(_))
    ));
}

#[test]
fn missing_content_file_reads_as_empty() {
    let (index, _, _) =
        create_notebook("/vault/n.md", false, None, "id1".to_string()).unwrap();
    let contents = vec![None];
    let nb = read_notebook("/vault/n.md", true, &index, &contents).unwrap();
    assert_eq!(nb.blocks[0].content, "");
}

#[test]
fn add_block_after_id_inserts_immediately_after() {
    let mut index = NotebookIndex::default();
    add_notebook_block(&mut index, "a".to_string(), BlockType::Markdown, None, None);
    add_notebook_block(&mut index, "b".to_string(), BlockType::Markdown, None, None);
    add_notebook_block(
        &mut index,
        "c".to_string(),
        BlockType::Code,
        Some("python".to_string()),
        Some("a".to_string()),
    );
    let ids: Vec<&str> = index.blocks.iter().map(|b| b.id.as_str()).collect();
    assert_eq!(ids, vec!["a", "c", "b"]);
    assert_eq!(index.blocks[1].file, "c.py");
}

#[test]
fn add_block_without_after_id_appends() {
    let mut index = NotebookIndex::default();
    add_notebook_block(&mut index, "a".to_string(), BlockType::Markdown, None, None);
    add_notebook_block(&mut index, "b".to_string(), BlockType::Markdown, None, None);
    let ids: Vec<&str> = index.blocks.iter().map(|b| b.id.as_str()).collect();
    assert_eq!(ids, vec!["a", "b"]);
}

#[test]
fn add_block_after_unknown_id_appends() {
    let mut index = NotebookIndex::default();
    add_notebook_block(&mut index, "a".to_string(), BlockType::Markdown, None, None);
    add_notebook_block(
        &mut index,
        "b".to_string(),
        BlockType::Markdown,
        None,
        Some("nonexistent".to_string()),
    );
    let ids: Vec<&str> = index.blocks.iter().map(|b| b.id.as_str()).collect();
    assert_eq!(ids, vec!["a", "b"]);
}

#[test]
fn add_block_writes_empty_file() {
    let mut index = NotebookIndex::default();
    let (block, ops) =
        add_notebook_block(&mut index, "x".to_string(), BlockType::Markdown, None, None);
    assert_eq!(block.content, "");
    assert_eq!(ops.len(), 1);
    match &ops[0] {
        FileOp::Write { name, content } => {
            assert_eq!(name, "x.md");
            assert_eq!(content, "");
        }
        _ => panic!("expected a write"),
    }
}

#[test]
fn update_block_overwrites_only_its_file() {
    let mut index = NotebookIndex::default();
    add_notebook_block(&mut index, "a".to_string(), BlockType::Markdown, None, None);
    let ops = update_notebook_block(&index, "a", "new text".to_string()).unwrap();
    assert_eq!(ops.len(), 1);
    match &ops[0] {
        FileOp::Write { name, content } => {
            assert_eq!(name, "a.md");
            assert_eq!(content, "new text");
        }
        _ => panic!("expected a write"),
    }
}

#[test]
fn update_block_not_found() {
    let index = NotebookIndex::default();
    assert!(matches!(
        update_notebook_block(&index, "ghost", "x".to_string()),
        Err(FsError::NotFound(_))
    ));
}

#[test]
fn delete_block_removes_record_and_file() {
    let mut files: HashMap<String, String> = HashMap::new();
    let (mut index, ops, _) =
        create_notebook("/vault/n.md", false, None, "id1".to_string()).unwrap();
    apply(&mut files, ops);
    let (_, ops) = add_notebook_block(
        &mut index,
        "id2".to_string(),
        BlockType::Markdown,
        None,
        None,
    );
    apply(&mut files, ops);

    let ops = delete_notebook_block(&mut index, "id1").unwrap();
    apply(&mut files, ops);

    assert!(!files.contains_key("id1.md"));
    let contents = contents_for(&index, &files);
    let nb = read_notebook("/vault/n.md", true, &index, &contents).unwrap();
    assert!(nb.blocks.iter().all(|b| b.id != "id1"));
    assert_eq!(nb.blocks.len(), 1);
}

#[test]
fn delete_block_not_found() {
    let mut index = NotebookIndex::default();
    assert!(matches!(
        delete_notebook_block(&mut index, "ghost"),
        Err(FsError::NotFound(_))
    ));
}

#[test]
fn change_block_kind_renames_and_preserves_content() {
    let mut files: HashMap<String, String> = HashMap::new();
    let (mut index, ops, _) =
        create_notebook("/vault/n.md", false, None, "id1".to_string()).unwrap();
    apply(&mut files, ops);
    let current = files.get("id1.md").cloned();

    let (block, ops) = change_block_type(
        &mut index,
        "id1",
        BlockType::Code,
        Some("python".to_string()),
        current.clone(),
    )
    .unwrap();
    apply(&mut files, ops);

    assert_eq!(block.id, "id1");
    assert_eq!(block.content, current.unwrap());
    assert_eq!(index.blocks[0].file, "id1.py");
    assert!(files.contains_key("id1.py"));
    assert!(!files.contains_key("id1.md"));
    assert_eq!(files.get("id1.py").unwrap(), &block.content);
}

#[test]
fn change_block_kind_not_found() {
    let mut index = NotebookIndex::default();
    assert!(matches!(
        change_block_type(&mut index, "ghost", BlockType::Markdown, None, None),
        Err(FsError::NotFound(_))
    ));
}

#[test]
fn move_block_clamps_to_end() {
    let mut index = NotebookIndex::default();
    add_notebook_block(&mut index, "a".to_string(), BlockType::Markdown, None, None);
    add_notebook_block(&mut index, "b".to_string(), BlockType::Markdown, None, None);
    add_notebook_block(&mut index, "c".to_string(), BlockType::Markdown, None, None);
    move_notebook_block(&mut index, "a", 1000).unwrap();
    let ids: Vec<&str> = index.blocks.iter().map(|b| b.id.as_str()).collect();
    assert_eq!(ids, vec!["b", "c", "a"]);
}

#[test]
fn move_block_to_front() {
    let mut index = NotebookIndex::default();
    add_notebook_block(&mut index, "a".to_string(), BlockType::Markdown, None, None);
    add_notebook_block(&mut index, "b".to_string(), BlockType::Markdown, None, None);
    move_notebook_block(&mut index, "b", 0).unwrap();
    let ids: Vec<&str> = index.blocks.iter().map(|b| b.id.as_str()).collect();
    assert_eq!(ids, vec!["b", "a"]);
}

#[test]
fn move_block_not_found() {
    let mut index = NotebookIndex::default();
    assert!(matches!(
        move_notebook_block(&mut index, "ghost", 0),
        Err(FsError::NotFound(_))
    ));
}

#[test]
fn is_notebook_checks_extension_and_dir() {
    assert!(is_notebook("/vault/notes.md", true));
    assert!(!is_notebook("/vault/notes.md", false));
    assert!(!is_notebook("/vault/notes.kanban", true));
    assert!(!is_notebook("/vault/notes", true));
}

#[test]
fn notebook_paths_and_names() {
    assert_eq!(notebook_index_path("/vault/notes.md"), "/vault/notes.md/.index.json");
    assert_eq!(notebook_name("/vault/notes.md"), "notes");
    assert_eq!(notebook_name("/vault/a.md.md"), "a");
    assert_eq!(notebook_name("/"), "Untitled");
}

#[test]
fn convert_note_builds_blocks_per_fragment() {
    let text = "# Title\n\n```python\nprint(1)\n```\n\nMore text";
    let fragments = parse_markdown_blocks(text);
    let ids = vec!["f1".to_string(), "f2".to_string(), "f3".to_string()];
    let (index, ops, nb) =
        convert_note_to_notebook("/vault/note.md", true, false, fragments, ids).unwrap();
    assert_eq!(index.blocks.len(), 3);
    assert_eq!(index.blocks[0].file, "f1.md");
    assert_eq!(index.blocks[1].file, "f2.py");
    assert_eq!(index.blocks[1].language.as_deref(), Some("python"));
    assert_eq!(index.blocks[2].file, "f3.md");
    assert_eq!(nb.name, "note");

    let mut files: HashMap<String, String> = HashMap::new();
    apply(&mut files, ops);
    assert_eq!(files.get("f1.md").unwrap(), "# Title");
    assert_eq!(files.get("f2.py").unwrap(), "print(1)");
    assert_eq!(files.get("f3.md").unwrap(), "More text");
}

#[test]
fn convert_empty_note_synthesizes_one_block() {
    let fragments = parse_markdown_blocks("");
    assert_eq!(fragments.len(), 0);
    let ids = vec!["only".to_string()];
    let (index, ops, nb) =
        convert_note_to_notebook("/vault/empty.md", true, false, fragments, ids).unwrap();
    assert_eq!(index.blocks.len(), 1);
    assert_eq!(index.blocks[0].file, "only.md");
    assert_eq!(nb.blocks[0].content, "# empty\n\n");
    let mut files: HashMap<String, String> = HashMap::new();
    apply(&mut files, ops);
    assert_eq!(files.get("only.md").unwrap(), "# empty\n\n");
}

#[test]
fn convert_rejects_missing_or_directory() {
    let ids = vec!["x".to_string()];
    assert!(matches!(
        convert_note_to_notebook("/vault/gone.md", false, false, Vec::new(), ids.clone()),
        Err(FsError::NotFound(_))
    ));
    assert!(matches!(
        convert_note_to_notebook("/vault/dir.md", true, true, Vec::new(), ids),
        Err(FsError::InvalidPath(_))
    ));
}
