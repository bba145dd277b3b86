//! The store's data model: manifest records for notebooks (blocks) and
//! kanban boards (tasks), the hydrated forms handed back to callers, the
//! error taxonomy, and the file operations an operation asks its caller to
//! perform against the container directory.

use vstd::prelude::*;

verus! {

/// A notebook entry's content kind.
#[derive(Debug, Clone, Copy, PartialEq, Eq, Structural)]
pub enum BlockType {
    Markdown,
    Code,
}

/// A block record in a notebook manifest.
#[derive(Debug, Clone)]
pub struct NotebookBlock {
    pub id: String,
    pub block_type: BlockType,
    pub file: String,
    pub language: Option<String>,
    pub encrypted: Option<bool>,
}

/// Mathematical image of a `NotebookBlock`.
pub ghost struct BlockView {
    pub id: Seq<char>,
    pub block_type: BlockType,
    pub file: Seq<char>,
    pub language: Option<Seq<char>>,
    pub encrypted: Option<bool>,
}

impl View for NotebookBlock {
    type V = BlockView;

    open spec fn view(&self) -> BlockView {
        BlockView {
            id: self.id@,
            block_type: self.block_type,
            file: self.file@,
            language: self.language.deep_view(),
            encrypted: self.encrypted,
        }
    }
}

impl DeepView for NotebookBlock {
    type V = BlockView;

    open spec fn deep_view(&self) -> BlockView {
        self.view()
    }
}

/// A notebook manifest: the ordered block records, under a schema version.
#[derive(Debug, Clone)]
pub struct NotebookIndex {
    pub version: u32,
    pub blocks: Vec<NotebookBlock>,
}

impl Default for NotebookIndex {
    /// The manifest an unmaterialized notebook is taken to have: schema
    /// version 1 and no blocks.
    fn default() -> (r: Self)
        ensures
            r.version == 1,
            r.blocks@.len() == 0,
    {
        NotebookIndex { version: 1, blocks: Vec::new() }
    }
}

/// A block together with its content, as read back from a container.
#[derive(Debug, Clone)]
pub struct NotebookBlockWithContent {
    pub id: String,
    pub block_type: BlockType,
    pub language: Option<String>,
    pub content: String,
    pub encrypted: Option<bool>,
}

/// Mathematical image of a `NotebookBlockWithContent`.
pub ghost struct BlockContentView {
    pub id: Seq<char>,
    pub block_type: BlockType,
    pub language: Option<Seq<char>>,
    pub content: Seq<char>,
    pub encrypted: Option<bool>,
}

impl View for NotebookBlockWithContent {
    type V = BlockContentView;

    open spec fn view(&self) -> BlockContentView {
        BlockContentView {
            id: self.id@,
            block_type: self.block_type,
            language: self.language.deep_view(),
            content: self.content@,
            encrypted: self.encrypted,
        }
    }
}

impl DeepView for NotebookBlockWithContent {
    type V = BlockContentView;

    open spec fn deep_view(&self) -> BlockContentView {
        self.view()
    }
}

/// A fully hydrated notebook: its path, display name, and blocks with
/// content in manifest order.
#[derive(Debug, Clone)]
pub struct Notebook {
    pub path: String,
    pub name: String,
    pub blocks: Vec<NotebookBlockWithContent>,
}

/// A task record in a kanban manifest.
#[derive(Debug, Clone)]
pub struct KanbanTask {
    pub id: String,
    pub title: String,
    pub status: String,
    pub priority: Option<String>,
    pub due: Option<String>,
    pub created: String,
    pub updated: String,
}

/// Mathematical image of a `KanbanTask`.
pub ghost struct TaskView {
    pub id: Seq<char>,
    pub title: Seq<char>,
    pub status: Seq<char>,
    pub priority: Option<Seq<char>>,
    pub due: Option<Seq<char>>,
    pub created: Seq<char>,
    pub updated: Seq<char>,
}

impl View for KanbanTask {
    type V = TaskView;

    open spec fn view(&self) -> TaskView {
        TaskView {
            id: self.id@,
            title: self.title@,
            status: self.status@,
            priority: self.priority.deep_view(),
            due: self.due.deep_view(),
            created: self.created@,
            updated: self.updated@,
        }
    }
}

impl DeepView for KanbanTask {
    type V = TaskView;

    open spec fn deep_view(&self) -> TaskView {
        self.view()
    }
}

/// Display settings of a kanban board.
#[derive(Debug, Clone)]
pub struct KanbanSettings {
    pub card_density: String,
    pub show_closed: bool,
}

impl Default for KanbanSettings {
    /// Standard density, closed tasks hidden.
    fn default() -> (r: Self)
        ensures
            r.card_density@ == "standard"@,
            !r.show_closed,
    {
        KanbanSettings { card_density: crate::settings::default_card_density(), show_closed: false }
    }
}

/// A kanban manifest: column names in display order, task records, and
/// display settings, under a schema version.
#[derive(Debug, Clone)]
pub struct KanbanIndex {
    pub version: u32,
    pub columns: Vec<String>,
    pub tasks: Vec<KanbanTask>,
    pub settings: KanbanSettings,
}

impl Default for KanbanIndex {
    /// The manifest an unmaterialized board is taken to have: version 1,
    /// the three classic columns, no tasks, default settings.
    fn default() -> (r: Self)
        ensures
            r.version == 1,
            r.columns.deep_view() =~= seq!["todo"@, "in_progress"@, "done"@],
            r.tasks@.len() == 0,
            r.settings.card_density@ == "standard"@,
            !r.settings.show_closed,
    {
        let mut columns: Vec<String> = Vec::new();
        columns.push(String::from_str("todo"));
        columns.push(String::from_str("in_progress"));
        columns.push(String::from_str("done"));
        KanbanIndex {
            version: 1,
            columns,
            tasks: Vec::new(),
            settings: KanbanSettings::default(),
        }
    }
}

/// A task together with its description, as read back from a board.
#[derive(Debug, Clone)]
pub struct KanbanTaskWithContent {
    pub id: String,
    pub title: String,
    pub status: String,
    pub priority: Option<String>,
    pub due: Option<String>,
    pub created: String,
    pub updated: String,
    pub description: String,
}

/// Mathematical image of a `KanbanTaskWithContent`.
pub ghost struct TaskContentView {
    pub id: Seq<char>,
    pub title: Seq<char>,
    pub status: Seq<char>,
    pub priority: Option<Seq<char>>,
    pub due: Option<Seq<char>>,
    pub created: Seq<char>,
    pub updated: Seq<char>,
    pub description: Seq<char>,
}

impl View for KanbanTaskWithContent {
    type V = TaskContentView;

    open spec fn view(&self) -> TaskContentView {
        TaskContentView {
            id: self.id@,
            title: self.title@,
            status: self.status@,
            priority: self.priority.deep_view(),
            due: self.due.deep_view(),
            created: self.created@,
            updated: self.updated@,
            description: self.description@,
        }
    }
}

impl DeepView for KanbanTaskWithContent {
    type V = TaskContentView;

    open spec fn deep_view(&self) -> TaskContentView {
        self.view()
    }
}

/// A fully hydrated kanban board.
#[derive(Debug, Clone)]
pub struct Kanban {
    pub path: String,
    pub name: String,
    pub tasks: Vec<KanbanTaskWithContent>,
    pub settings: KanbanSettings,
}

/// A partial update of a task: a field that is `None` is left unchanged; an
/// empty string for `priority` or `due` clears the field.
#[derive(Debug, Clone)]
pub struct TaskUpdates {
    pub title: Option<String>,
    pub status: Option<String>,
    pub priority: Option<String>,
    pub due: Option<String>,
    pub description: Option<String>,
}

/// Mathematical image of a `TaskUpdates`.
pub ghost struct TaskUpdatesView {
    pub title: Option<Seq<char>>,
    pub status: Option<Seq<char>>,
    pub priority: Option<Seq<char>>,
    pub due: Option<Seq<char>>,
    pub description: Option<Seq<char>>,
}

impl View for TaskUpdates {
    type V = TaskUpdatesView;

    open spec fn view(&self) -> TaskUpdatesView {
        TaskUpdatesView {
            title: self.title.deep_view(),
            status: self.status.deep_view(),
            priority: self.priority.deep_view(),
            due: self.due.deep_view(),
            description: self.description.deep_view(),
        }
    }
}

impl Default for TaskUpdates {
    /// The empty update: every field left unchanged.
    fn default() -> (r: Self)
        ensures
            r.title is None,
            r.status is None,
            r.priority is None,
            r.due is None,
            r.description is None,
    {
        TaskUpdates { title: None, status: None, priority: None, due: None, description: None }
    }
}

/// Errors a store operation can report.
#[derive(Debug, Clone)]
pub enum FsError {
    /// A container or entry was absent.
    NotFound(String),
    /// An operation precondition was violated, or a manifest was malformed.
    InvalidPath(String),
    /// A path escaped its approved root.
    PathTraversal,
}

impl FsError {
    /// A short label for the error, for callers that show it.
    pub fn label(&self) -> (r: String)
        ensures
            self is NotFound ==> r@ == "Path not found: "@ + self->NotFound_0@,
            self is InvalidPath ==> r@ == "Invalid path: "@ + self->InvalidPath_0@,
            self is PathTraversal ==> r@ == "Path traversal detected"@,
    {
        match self {
            FsError::NotFound(s) => crate::strutil::concat2("Path not found: ", s.as_str()),
            FsError::InvalidPath(s) => crate::strutil::concat2("Invalid path: ", s.as_str()),
            FsError::PathTraversal => String::from_str("Path traversal detected"),
        }
    }
}

/// One file operation a store operation asks its caller to perform inside
/// the container directory, in order. `name` is the file's name within the
/// container. Deleting a file that is absent is not an error.
#[derive(Debug, Clone)]
pub enum FileOp {
    Write { name: String, content: String },
    Delete { name: String },
}

/// Mathematical image of a `FileOp`.
pub ghost enum FileOpView {
    Write { name: Seq<char>, content: Seq<char> },
    Delete { name: Seq<char> },
}

impl View for FileOp {
    type V = FileOpView;

    open spec fn view(&self) -> FileOpView {
        match self {
            FileOp::Write { name, content } => FileOpView::Write {
                name: name@,
                content: content@,
            },
            FileOp::Delete { name } => FileOpView::Delete { name: name@ },
        }
    }
}

impl DeepView for FileOp {
    type V = FileOpView;

    open spec fn deep_view(&self) -> FileOpView {
        self.view()
    }
}

/// The container's content files after one operation, as a map from file
/// name to content.
pub open spec fn apply_op(
    files: Map<Seq<char>, Seq<char>>,
    op: FileOpView,
) -> Map<Seq<char>, Seq<char>> {
    match op {
        FileOpView::Write { name, content } => files.insert(name, content),
        FileOpView::Delete { name } => files.remove(name),
    }
}

/// The container's content files after a sequence of operations.
pub open spec fn apply_ops(
    files: Map<Seq<char>, Seq<char>>,
    ops: Seq<FileOpView>,
) -> Map<Seq<char>, Seq<char>>
    decreases ops.len(),
{
    if ops.len() == 0 {
        files
    } else {
        apply_ops(apply_op(files, ops[0]), ops.drop_first())
    }
}

/// Well-formedness of a manifest's block sequence: ids are unique.
pub open spec fn blocks_unique_ids(blocks: Seq<BlockView>) -> bool {
    forall|i: int, j: int| 0 <= i < j < blocks.len() ==> blocks[i].id != blocks[j].id
}

/// Well-formedness of a manifest's task sequence: ids are unique.
pub open spec fn tasks_unique_ids(tasks: Seq<TaskView>) -> bool {
    forall|i: int, j: int| 0 <= i < j < tasks.len() ==> tasks[i].id != tasks[j].id
}

} // verus!
