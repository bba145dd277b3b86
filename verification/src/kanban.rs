//! Kanban operations: pure state transitions over the board's manifest.
//! Tasks are unordered records keyed by id; each task's free-text
//! description lives in `{id}.md` beside the manifest, and is omitted
//! entirely while empty.

use vstd::prelude::*;

use crate::strutil::{concat2, concat3, extension_spec, file_stem_spec, path_extension, path_file_stem, str_eq, trim_end_matches_spec, trim_end_matches_str, trim_spec, trim_str};
use crate::types::{
    FileOp, FileOpView, FsError, Kanban, KanbanIndex, KanbanSettings, KanbanTask,
    KanbanTaskWithContent, TaskContentView, TaskUpdates, TaskView,
};

verus! {

/// A path names a kanban board when it is a directory whose name carries
/// the `kanban` extension.
pub open spec fn is_kanban_spec(path: Seq<char>, is_dir: bool) -> bool {
    is_dir && extension_spec(path) == Option::Some("kanban"@)
}

/// Whether `path` (a directory or not, as the caller observed) is a kanban
/// container.
pub fn is_kanban(path: &str, is_dir: bool) -> (r: bool)
    ensures
        r == is_kanban_spec(path@, is_dir),
{
    if !is_dir {
        return false;
    }
    match path_extension(path) {
        Some(e) => str_eq(e.as_str(), "kanban"),
        None => false,
    }
}

/// A board's display name: the path's stem with every trailing `.kanban`
/// stripped, or `Untitled` when the path has no final component.
pub open spec fn kanban_name_spec(path: Seq<char>) -> Seq<char> {
    match file_stem_spec(path) {
        Option::Some(s) => trim_end_matches_spec(s, ".kanban"@),
        Option::None => "Untitled"@,
    }
}

/// Derives a board's display name from its path.
pub fn kanban_name(path: &str) -> (r: String)
    ensures
        r@ == kanban_name_spec(path@),
{
    match path_file_stem(path) {
        Some(s) => trim_end_matches_str(s.as_str(), ".kanban"),
        None => String::from_str("Untitled"),
    }
}

/// A task's description file name within the container: `{id}.md`.
pub open spec fn task_file_spec(task_id: Seq<char>) -> Seq<char> {
    task_id + ".md"@
}

/// The full path of a task's description file.
pub fn get_task_file_path(kanban_path: &str, task_id: &str) -> (r: String)
    ensures
        r@ == kanban_path@ + "/"@ + task_file_spec(task_id@),
{
    let r = concat3(kanban_path, "/", task_id);
    let r2 = concat2(r.as_str(), ".md");
    proof {
        assert(r2@ =~= kanban_path@ + "/"@ + (task_id@ + ".md"@));
    }
    r2
}

/// The description file name alone, container-relative.
pub fn task_file_name(task_id: &str) -> (r: String)
    ensures
        r@ == task_file_spec(task_id@),
{
    concat2(task_id, ".md")
}

/// Whether some task carries the id.
pub open spec fn has_task(tasks: Seq<TaskView>, id: Seq<char>) -> bool {
    exists|j: int| 0 <= j < tasks.len() && tasks[j].id == id
}

/// The position of the first task carrying the id.
pub open spec fn task_position_of(tasks: Seq<TaskView>, id: Seq<char>) -> int
    decreases tasks.len(),
{
    if tasks.len() == 0 {
        0
    } else if tasks[0].id == id {
        0
    } else {
        1 + task_position_of(tasks.drop_first(), id)
    }
}

proof fn lemma_task_position_at(tasks: Seq<TaskView>, id: Seq<char>, k: int)
    requires
        0 <= k < tasks.len(),
        tasks[k].id == id,
        forall|j: int| 0 <= j < k ==> tasks[j].id != id,
    ensures
        task_position_of(tasks, id) == k,
    decreases k,
{
    if k > 0 {
        let t = tasks.drop_first();
        assert forall|j: int| 0 <= j < k - 1 implies t[j].id != id by {
            assert(t[j] == tasks[j + 1]);
        }
        assert(t[k - 1] == tasks[k]);
        lemma_task_position_at(t, id, k - 1);
    }
}

/// Finds the first task with the given id: its position, or `None` when no
/// task carries it.
pub fn find_task_position(tasks: &Vec<KanbanTask>, task_id: &str) -> (r: Option<usize>)
    ensures
        r is Some <==> has_task(tasks.deep_view(), task_id@),
        r matches Some(i) ==> 0 <= i < tasks@.len() && tasks.deep_view()[i as int].id == task_id@
            && i as int == task_position_of(tasks.deep_view(), task_id@),
{
    let ghost ts = tasks.deep_view();
    let n = tasks.len();
    let mut i: usize = 0;
    while i < n
        invariant
            0 <= i <= n,
            n == tasks@.len(),
            ts == tasks.deep_view(),
            ts.len() == n,
            forall|j: int| 0 <= j < i ==> ts[j].id != task_id@,
        decreases n - i,
    {
        if str_eq(tasks[i].id.as_str(), task_id) {
            proof {
                lemma_task_position_at(ts, task_id@, i as int);
            }
            return Some(i);
        }
        i = i + 1;
    }
    None
}

/// The columns a fresh board starts with.
pub open spec fn default_columns_spec() -> Seq<Seq<char>> {
    seq!["backlog"@, "ready"@, "working"@, "done"@, "closed"@]
}

/// Creates a kanban board: the default columns, no tasks, default settings.
/// Fails when the path already exists, as the caller observed it.
pub fn create_kanban(path: &str, path_exists: bool, title: Option<String>) -> (r: Result<
    (KanbanIndex, Kanban),
    FsError,
>)
    ensures
        r is Err <==> path_exists,
        r matches Err(e) ==> e is InvalidPath,
        r matches Ok(out) ==> ({
            let name = match title.deep_view() {
                Option::Some(t) => t,
                Option::None => kanban_name_spec(path@),
            };
            &&& out.0.version == 1
            &&& out.0.columns.deep_view() == default_columns_spec()
            &&& out.0.tasks@.len() == 0
            &&& out.0.settings.card_density@ == "standard"@
            &&& !out.0.settings.show_closed
            &&& out.1.path@ == path@
            &&& out.1.name@ == name
            &&& out.1.tasks@.len() == 0
            &&& out.1.settings.card_density@ == "standard"@
            &&& !out.1.settings.show_closed
        }),
{
    if path_exists {
        return Err(FsError::InvalidPath(String::from_str("Path already exists")));
    }
    let name = match title {
        Some(t) => t,
        None => kanban_name(path),
    };
    let mut columns: Vec<String> = Vec::new();
    columns.push(String::from_str("backlog"));
    columns.push(String::from_str("ready"));
    columns.push(String::from_str("working"));
    columns.push(String::from_str("done"));
    columns.push(String::from_str("closed"));
    proof {
        assert(columns.deep_view() =~= default_columns_spec());
    }
    let index = KanbanIndex {
        version: 1,
        columns,
        tasks: Vec::new(),
        settings: KanbanSettings::default(),
    };
    let settings = KanbanSettings { card_density: index.settings.card_density.clone(), show_closed: index.settings.show_closed };
    let board = Kanban { path: String::from_str(path), name, tasks: Vec::new(), settings };
    Ok((index, board))
}

/// A task record joined with the description its file held: an absent file
/// reads as empty.
pub open spec fn read_task_spec(t: TaskView, c: Option<Seq<char>>) -> TaskContentView {
    TaskContentView {
        id: t.id,
        title: t.title,
        status: t.status,
        priority: t.priority,
        due: t.due,
        created: t.created,
        updated: t.updated,
        description: match c {
            Option::Some(s) => s,
            Option::None => Seq::empty(),
        },
    }
}

/// All tasks joined with their descriptions, in manifest order.
pub open spec fn read_tasks_spec(tasks: Seq<TaskView>, contents: Seq<Option<Seq<char>>>) -> Seq<
    TaskContentView,
> {
    Seq::new(tasks.len(), |i: int| read_task_spec(tasks[i], contents[i]))
}

fn clone_opt_string(o: &Option<String>) -> (r: Option<String>)
    ensures
        r.deep_view() == o.deep_view(),
{
    match o {
        Some(s) => Some(s.clone()),
        None => None,
    }
}

/// Reads a kanban board: the manifest's tasks joined with the descriptions
/// the caller read from each task's file (`None` for a missing file, which
/// reads as empty). Fails when the path is not a kanban container.
pub fn read_kanban(
    path: &str,
    is_dir: bool,
    index: &KanbanIndex,
    contents: &Vec<Option<String>>,
) -> (r: Result<Kanban, FsError>)
    requires
        contents@.len() == index.tasks@.len(),
    ensures
        r is Err <==> !is_kanban_spec(path@, is_dir),
        r matches Err(e) ==> e is InvalidPath,
        r matches Ok(kb) ==> ({
            &&& kb.path@ == path@
            &&& kb.name@ == kanban_name_spec(path@)
            &&& kb.tasks.deep_view() == read_tasks_spec(
                index.tasks.deep_view(),
                contents.deep_view(),
            )
            &&& kb.settings.card_density@ == index.settings.card_density@
            &&& kb.settings.show_closed == index.settings.show_closed
        }),
{
    if !is_kanban(path, is_dir) {
        return Err(FsError::InvalidPath(String::from_str("Not a kanban board")));
    }
    let name = kanban_name(path);
    let ghost ts = index.tasks.deep_view();
    let ghost cs = contents.deep_view();
    let n = index.tasks.len();
    let mut tasks: Vec<KanbanTaskWithContent> = Vec::new();
    let mut i: usize = 0;
    while i < n
        invariant
            0 <= i <= n,
            n == index.tasks@.len(),
            contents@.len() == n,
            ts == index.tasks.deep_view(),
            cs == contents.deep_view(),
            ts.len() == n,
            cs.len() == n,
            tasks.deep_view() =~= read_tasks_spec(ts, cs).take(i as int),
        decreases n - i,
    {
        let t = &index.tasks[i];
        let description = match &contents[i] {
            Some(c) => c.clone(),
            None => String::new(),
        };
        let hydrated = KanbanTaskWithContent {
            id: t.id.clone(),
            title: t.title.clone(),
            status: t.status.clone(),
            priority: clone_opt_string(&t.priority),
            due: clone_opt_string(&t.due),
            created: t.created.clone(),
            updated: t.updated.clone(),
            description,
        };
        proof {
            assert(index.tasks@[i as int].deep_view() == ts[i as int]);
            assert(contents@[i as int].deep_view() == cs[i as int]);
            assert(hydrated.deep_view() == read_task_spec(ts[i as int], cs[i as int]));
        }
        tasks.push(hydrated);
        proof {
            let spec_all = read_tasks_spec(ts, cs);
            assert(tasks.deep_view() =~= spec_all.take(i as int).push(spec_all[i as int]));
            assert(spec_all.take(i + 1) =~= spec_all.take(i as int).push(spec_all[i as int]));
        }
        i = i + 1;
    }
    proof {
        assert(read_tasks_spec(ts, cs).take(n as int) =~= read_tasks_spec(ts, cs));
    }
    let settings = KanbanSettings {
        card_density: index.settings.card_density.clone(),
        show_closed: index.settings.show_closed,
    };
    Ok(Kanban { path: String::from_str(path), name, tasks, settings })
}

/// The status a new task gets when none is given: the board's first column,
/// or `backlog` when the board has none.
pub open spec fn default_status_spec(columns: Seq<Seq<char>>) -> Seq<char> {
    if columns.len() > 0 {
        columns[0]
    } else {
        "backlog"@
    }
}

/// Adds a task: stamped with `now` for both `created` and `updated`, status
/// defaulting to the board's first column, and a description file written
/// only when a nonempty description is given. Fails when the title is blank.
pub fn add_kanban_task(
    index: &mut KanbanIndex,
    task_id: String,
    now: String,
    title: String,
    status: Option<String>,
    priority: Option<String>,
    due: Option<String>,
    description: Option<String>,
) -> (r: Result<(KanbanTaskWithContent, Vec<FileOp>), FsError>)
    ensures
        r is Err <==> trim_spec(title@).len() == 0,
        r matches Err(e) ==> e is InvalidPath && *final(index) == *old(index),
        final(index).version == old(index).version,
        final(index).columns == old(index).columns,
        final(index).settings == old(index).settings,
        r matches Ok(out) ==> ({
            let statusv = match status.deep_view() {
                Option::Some(s) => s,
                Option::None => default_status_spec(old(index).columns.deep_view()),
            };
            let descv = match description.deep_view() {
                Option::Some(d) => d,
                Option::None => Seq::<char>::empty(),
            };
            let tv = TaskView {
                id: task_id@,
                title: title@,
                status: statusv,
                priority: priority.deep_view(),
                due: due.deep_view(),
                created: now@,
                updated: now@,
            };
            &&& final(index).tasks.deep_view() == old(index).tasks.deep_view().push(tv)
            &&& (descv.len() > 0 ==> out.1.deep_view() == seq![
                FileOpView::Write { name: task_file_spec(task_id@), content: descv },
            ])
            &&& (descv.len() == 0 ==> out.1.deep_view() == Seq::<FileOpView>::empty())
            &&& out.0@ == TaskContentView {
                id: task_id@,
                title: title@,
                status: statusv,
                priority: priority.deep_view(),
                due: due.deep_view(),
                created: now@,
                updated: now@,
                description: descv,
            }
        }),
{
    let trimmed = trim_str(title.as_str());
    if trimmed.as_str().unicode_len() == 0 {
        return Err(FsError::InvalidPath(String::from_str("Task title cannot be empty")));
    }
    let ghost ts = index.tasks.deep_view();
    let task_status = match status {
        Some(s) => s,
        None => {
            if index.columns.len() > 0 {
                index.columns[0].clone()
            } else {
                String::from_str("backlog")
            }
        },
    };
    let task = KanbanTask {
        id: task_id.clone(),
        title: title.clone(),
        status: task_status.clone(),
        priority: clone_opt_string(&priority),
        due: clone_opt_string(&due),
        created: now.clone(),
        updated: now.clone(),
    };
    index.tasks.push(task);
    let task_description = match description {
        Some(d) => d,
        None => String::new(),
    };
    let mut ops: Vec<FileOp> = Vec::new();
    if task_description.as_str().unicode_len() > 0 {
        ops.push(
            FileOp::Write { name: task_file_name(task_id.as_str()), content: task_description.clone() },
        );
    }
    let result = KanbanTaskWithContent {
        id: task_id,
        title,
        status: task_status,
        priority,
        due,
        created: now.clone(),
        updated: now,
        description: task_description,
    };
    proof {
        let tv = TaskView {
            id: result.id@,
            title: result.title@,
            status: result.status@,
            priority: result.priority.deep_view(),
            due: result.due.deep_view(),
            created: result.created@,
            updated: result.updated@,
        };
        assert(index.tasks.deep_view() =~= ts.push(tv));
        if result.description@.len() > 0 {
            assert(ops.deep_view() =~= seq![
                FileOpView::Write {
                    name: task_file_spec(result.id@),
                    content: result.description@,
                },
            ]);
        } else {
            assert(ops.deep_view() =~= Seq::<FileOpView>::empty());
        }
    }
    Ok((result, ops))
}

/// The task record after a partial update: present fields replace the old
/// ones, an empty `priority` or `due` clears the field, `created` is kept,
/// and `updated` becomes `now`.
pub open spec fn apply_updates_spec(
    t: TaskView,
    u: crate::types::TaskUpdatesView,
    now: Seq<char>,
) -> TaskView {
    TaskView {
        id: t.id,
        title: match u.title {
            Option::Some(x) => x,
            Option::None => t.title,
        },
        status: match u.status {
            Option::Some(x) => x,
            Option::None => t.status,
        },
        priority: match u.priority {
            Option::Some(p) => if p.len() == 0 {
                Option::None
            } else {
                Option::Some(p)
            },
            Option::None => t.priority,
        },
        due: match u.due {
            Option::Some(d) => if d.len() == 0 {
                Option::None
            } else {
                Option::Some(d)
            },
            Option::None => t.due,
        },
        created: t.created,
        updated: now,
    }
}

/// Applies a partial update to a task: only the fields present in `updates`
/// change, an explicit empty `priority` or `due` clears that field, and
/// `updated` is always refreshed to `now`. When the update carries a
/// description it is written to the task's file; otherwise the returned
/// description is `existing_description`, what the caller read from the
/// file (`None` when absent, reading as empty). Fails with `NotFound`
/// exactly when no task carries the id.
pub fn update_kanban_task(
    index: &mut KanbanIndex,
    task_id: &str,
    updates: TaskUpdates,
    now: String,
    existing_description: Option<String>,
) -> (r: Result<(KanbanTaskWithContent, Vec<FileOp>), FsError>)
    ensures
        r is Ok <==> has_task(old(index).tasks.deep_view(), task_id@),
        r matches Err(e) ==> e is NotFound && *final(index) == *old(index),
        final(index).version == old(index).version,
        final(index).columns == old(index).columns,
        final(index).settings == old(index).settings,
        r matches Ok(out) ==> ({
            let ts = old(index).tasks.deep_view();
            let pos = task_position_of(ts, task_id@);
            let updated_task = apply_updates_spec(ts[pos], updates@, now@);
            let descv = match updates@.description {
                Option::Some(d) => d,
                Option::None => match existing_description.deep_view() {
                    Option::Some(e) => e,
                    Option::None => Seq::<char>::empty(),
                },
            };
            &&& final(index).tasks.deep_view() == ts.update(pos, updated_task)
            &&& (updates@.description is Some ==> out.1.deep_view() == seq![
                FileOpView::Write { name: task_file_spec(task_id@), content: descv },
            ])
            &&& (updates@.description is None ==> out.1.deep_view()
                == Seq::<FileOpView>::empty())
            &&& out.0@ == TaskContentView {
                id: updated_task.id,
                title: updated_task.title,
                status: updated_task.status,
                priority: updated_task.priority,
                due: updated_task.due,
                created: updated_task.created,
                updated: updated_task.updated,
                description: descv,
            }
        }),
{
    let ghost ts = index.tasks.deep_view();
    match find_task_position(&index.tasks, task_id) {
        Some(pos) => {
            let prev = index.tasks.remove(pos);
            let new_title = match updates.title {
                Some(t) => t,
                None => prev.title,
            };
            let new_status = match updates.status {
                Some(s) => s,
                None => prev.status,
            };
            let new_priority = match updates.priority {
                Some(p) => {
                    if p.as_str().unicode_len() == 0 {
                        None
                    } else {
                        Some(p)
                    }
                },
                None => prev.priority,
            };
            let new_due = match updates.due {
                Some(d) => {
                    if d.as_str().unicode_len() == 0 {
                        None
                    } else {
                        Some(d)
                    }
                },
                None => prev.due,
            };
            let updated_task = KanbanTask {
                id: prev.id,
                title: new_title,
                status: new_status,
                priority: new_priority,
                due: new_due,
                created: prev.created,
                updated: now,
            };
            let mut ops: Vec<FileOp> = Vec::new();
            let description = match updates.description {
                Some(d) => {
                    ops.push(
                        FileOp::Write { name: task_file_name(task_id), content: d.clone() },
                    );
                    d
                },
                None => {
                    match existing_description {
                        Some(e) => e,
                        None => String::new(),
                    }
                },
            };
            let result = KanbanTaskWithContent {
                id: updated_task.id.clone(),
                title: updated_task.title.clone(),
                status: updated_task.status.clone(),
                priority: clone_opt_string(&updated_task.priority),
                due: clone_opt_string(&updated_task.due),
                created: updated_task.created.clone(),
                updated: updated_task.updated.clone(),
                description,
            };
            index.tasks.insert(pos, updated_task);
            proof {
                let posn = pos as int;
                let utv = apply_updates_spec(ts[posn], updates@, result.updated@);
                assert(index.tasks.deep_view() =~= ts.update(posn, utv));
                if updates@.description is Some {
                    assert(ops.deep_view() =~= seq![
                        FileOpView::Write {
                            name: task_file_spec(task_id@),
                            content: result.description@,
                        },
                    ]);
                } else {
                    assert(ops.deep_view() =~= Seq::<FileOpView>::empty());
                }
            }
            Ok((result, ops))
        },
        None => Err(
            FsError::NotFound(concat2("Task not found: ", task_id)),
        ),
    }
}

/// Deletes a task: the record leaves the manifest and its description file
/// is removed (a file already absent is not an error). Fails with
/// `NotFound` exactly when no task carries the id.
pub fn delete_kanban_task(index: &mut KanbanIndex, task_id: &str) -> (r: Result<
    Vec<FileOp>,
    FsError,
>)
    ensures
        r is Ok <==> has_task(old(index).tasks.deep_view(), task_id@),
        r matches Err(e) ==> e is NotFound && *final(index) == *old(index),
        final(index).version == old(index).version,
        final(index).columns == old(index).columns,
        final(index).settings == old(index).settings,
        r matches Ok(ops) ==> ({
            let ts = old(index).tasks.deep_view();
            let pos = task_position_of(ts, task_id@);
            &&& final(index).tasks.deep_view() == ts.remove(pos)
            &&& ops.deep_view() == seq![FileOpView::Delete { name: task_file_spec(task_id@) }]
        }),
{
    let ghost ts = index.tasks.deep_view();
    match find_task_position(&index.tasks, task_id) {
        Some(pos) => {
            index.tasks.remove(pos);
            let mut ops: Vec<FileOp> = Vec::new();
            ops.push(FileOp::Delete { name: task_file_name(task_id) });
            proof {
                assert(index.tasks.deep_view() =~= ts.remove(pos as int));
                assert(ops.deep_view() =~= seq![
                    FileOpView::Delete { name: task_file_spec(task_id@) },
                ]);
            }
            Ok(ops)
        },
        None => Err(
            FsError::NotFound(concat2("Task not found: ", task_id)),
        ),
    }
}

/// Rewrites a task's description file and refreshes its `updated` stamp;
/// every other field is kept. Fails with `NotFound` exactly when no task
/// carries the id.
pub fn update_task_description(
    index: &mut KanbanIndex,
    task_id: &str,
    description: String,
    now: String,
) -> (r: Result<Vec<FileOp>, FsError>)
    ensures
        r is Ok <==> has_task(old(index).tasks.deep_view(), task_id@),
        r matches Err(e) ==> e is NotFound && *final(index) == *old(index),
        final(index).version == old(index).version,
        final(index).columns == old(index).columns,
        final(index).settings == old(index).settings,
        r matches Ok(ops) ==> ({
            let ts = old(index).tasks.deep_view();
            let pos = task_position_of(ts, task_id@);
            let prev = ts[pos];
            let stamped = TaskView {
                id: prev.id,
                title: prev.title,
                status: prev.status,
                priority: prev.priority,
                due: prev.due,
                created: prev.created,
                updated: now@,
            };
            &&& final(index).tasks.deep_view() == ts.update(pos, stamped)
            &&& ops.deep_view() == seq![
                FileOpView::Write { name: task_file_spec(task_id@), content: description@ },
            ]
        }),
{
    let ghost ts = index.tasks.deep_view();
    match find_task_position(&index.tasks, task_id) {
        Some(pos) => {
            let prev = index.tasks.remove(pos);
            let stamped = KanbanTask {
                id: prev.id,
                title: prev.title,
                status: prev.status,
                priority: prev.priority,
                due: prev.due,
                created: prev.created,
                updated: now,
            };
            index.tasks.insert(pos, stamped);
            let mut ops: Vec<FileOp> = Vec::new();
            ops.push(FileOp::Write { name: task_file_name(task_id), content: description });
            proof {
                let posn = pos as int;
                let prevv = ts[posn];
                let stampedv = TaskView {
                    id: prevv.id,
                    title: prevv.title,
                    status: prevv.status,
                    priority: prevv.priority,
                    due: prevv.due,
                    created: prevv.created,
                    updated: ops@[0]->Write_content@,
                };
                assert(index.tasks.deep_view() =~= ts.update(posn, TaskView {
                    updated: index.tasks.deep_view()[posn].updated,
                    ..prevv
                }));
                assert(ops.deep_view() =~= seq![
                    FileOpView::Write { name: task_file_spec(task_id@), content: ops@[0]->Write_content@ },
                ]);
            }
            Ok(ops)
        },
        None => Err(
            FsError::NotFound(concat2("Task not found: ", task_id)),
        ),
    }
}

/// Deleting a task removes both the manifest record and the description
/// file: no task of the resulting manifest carries the id (ids being
/// unique), the file is gone from the container, and a subsequent read
/// lists no task with that id, whatever contents the remaining files hold.
pub proof fn lemma_delete_removes_task(
    tasks: Seq<TaskView>,
    files: Map<Seq<char>, Seq<char>>,
    contents: Seq<Option<Seq<char>>>,
    id: Seq<char>,
    pos: int,
)
    requires
        crate::types::tasks_unique_ids(tasks),
        0 <= pos < tasks.len(),
        tasks[pos].id == id,
    ensures
        !has_task(tasks.remove(pos), id),
        !crate::types::apply_ops(
            files,
            seq![FileOpView::Delete { name: task_file_spec(id) }],
        ).contains_key(task_file_spec(id)),
        forall|k: int|
            0 <= k < tasks.remove(pos).len() ==> read_tasks_spec(tasks.remove(pos), contents)[k].id
                != id,
{
    let rem = tasks.remove(pos);
    assert forall|j: int| 0 <= j < rem.len() implies rem[j].id != id by {
        if j < pos {
            assert(rem[j] == tasks[j]);
        } else {
            assert(rem[j] == tasks[j + 1]);
        }
    }
    let ops = seq![FileOpView::Delete { name: task_file_spec(id) }];
    let m1 = crate::types::apply_op(files, ops[0]);
    assert(crate::types::apply_ops(files, ops) == crate::types::apply_ops(m1, ops.drop_first()));
    assert(ops.drop_first().len() == 0);
    assert(crate::types::apply_ops(m1, ops.drop_first()) == m1);
    assert(m1 == files.remove(task_file_spec(id)));
}

/// Replaces the board's display settings; columns and tasks are untouched.
pub fn update_kanban_settings(index: &mut KanbanIndex, settings: KanbanSettings)
    ensures
        final(index).version == old(index).version,
        final(index).columns == old(index).columns,
        final(index).tasks == old(index).tasks,
        final(index).settings == settings,
{
    index.settings = settings;
}

} // verus!
