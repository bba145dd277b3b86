//! Notebook operations: pure state transitions over the manifest. Each
//! operation returns the file operations the caller must perform inside the
//! container directory, in order, and never touches the disk itself.

use vstd::prelude::*;

use crate::kinds::{block_file_name, block_file_spec};
use crate::strutil::{
    concat2, concat3, extension_spec, file_stem_spec, path_extension, path_file_stem, str_eq,
    trim_end_matches_spec, trim_end_matches_str,
};
use crate::types::{
    BlockContentView, BlockType, BlockView, FileOp, FileOpView, FsError, Notebook, NotebookBlock,
    NotebookBlockWithContent, NotebookIndex,
};

verus! {

/// A path names a notebook when it is a directory whose name carries the
/// `md` extension.
pub open spec fn is_notebook_spec(path: Seq<char>, is_dir: bool) -> bool {
    is_dir && extension_spec(path) == Option::Some("md"@)
}

/// Whether `path` (a directory or not, as the caller observed) is a
/// notebook container.
pub fn is_notebook(path: &str, is_dir: bool) -> (r: bool)
    ensures
        r == is_notebook_spec(path@, is_dir),
{
    if !is_dir {
        return false;
    }
    match path_extension(path) {
        Some(e) => str_eq(e.as_str(), "md"),
        None => false,
    }
}

/// The manifest file's path inside a container.
pub fn notebook_index_path(notebook_path: &str) -> (r: String)
    ensures
        r@ == notebook_path@ + "/.index.json"@,
{
    concat2(notebook_path, "/.index.json")
}

/// A notebook's display name: the path's stem with every trailing `.md`
/// stripped, or `Untitled` when the path has no final component.
pub open spec fn notebook_name_spec(path: Seq<char>) -> Seq<char> {
    match file_stem_spec(path) {
        Option::Some(s) => trim_end_matches_spec(s, ".md"@),
        Option::None => "Untitled"@,
    }
}

/// Derives a notebook's display name from its path.
pub fn notebook_name(path: &str) -> (r: String)
    ensures
        r@ == notebook_name_spec(path@),
{
    match path_file_stem(path) {
        Some(s) => trim_end_matches_str(s.as_str(), ".md"),
        None => String::from_str("Untitled"),
    }
}

/// Whether some block carries the id.
pub open spec fn has_block(blocks: Seq<BlockView>, id: Seq<char>) -> bool {
    exists|j: int| 0 <= j < blocks.len() && blocks[j].id == id
}

/// The position of the first block carrying the id.
pub open spec fn block_position_of(blocks: Seq<BlockView>, id: Seq<char>) -> int
    decreases blocks.len(),
{
    if blocks.len() == 0 {
        0
    } else if blocks[0].id == id {
        0
    } else {
        1 + block_position_of(blocks.drop_first(), id)
    }
}

proof fn lemma_block_position_at(blocks: Seq<BlockView>, id: Seq<char>, k: int)
    requires
        0 <= k < blocks.len(),
        blocks[k].id == id,
        forall|j: int| 0 <= j < k ==> blocks[j].id != id,
    ensures
        block_position_of(blocks, id) == k,
    decreases k,
{
    if k > 0 {
        let t = blocks.drop_first();
        assert forall|j: int| 0 <= j < k - 1 implies t[j].id != id by {
            assert(t[j] == blocks[j + 1]);
        }
        assert(t[k - 1] == blocks[k]);
        lemma_block_position_at(t, id, k - 1);
    }
}

/// Finds the first block with the given id: its position, or `None` when no
/// block carries it.
pub fn find_block_position(blocks: &Vec<NotebookBlock>, block_id: &str) -> (r: Option<usize>)
    ensures
        r is Some <==> has_block(blocks.deep_view(), block_id@),
        r matches Some(i) ==> 0 <= i < blocks@.len() && blocks.deep_view()[i as int].id
            == block_id@ && i as int == block_position_of(blocks.deep_view(), block_id@),
{
    let ghost bs = blocks.deep_view();
    let n = blocks.len();
    proof {
        assert(bs.len() == blocks@.len());
    }
    let mut i: usize = 0;
    while i < n
        invariant
            0 <= i <= n,
            n == blocks@.len(),
            bs == blocks.deep_view(),
            bs.len() == n,
            forall|j: int| 0 <= j < i ==> bs[j].id != block_id@,
        decreases n - i,
    {
        if str_eq(blocks[i].id.as_str(), block_id) {
            proof {
                lemma_block_position_at(bs, block_id@, i as int);
            }
            return Some(i);
        }
        i = i + 1;
    }
    None
}

/// The block a fresh notebook is created with: one markdown block whose
/// file is `{id}.md`.
pub open spec fn created_block_spec(id: Seq<char>) -> BlockView {
    BlockView {
        id: id,
        block_type: BlockType::Markdown,
        file: id + ".md"@,
        language: Option::None,
        encrypted: Option::None,
    }
}

/// The content a fresh notebook's single block starts with: a heading line
/// holding the title, then a blank line.
pub open spec fn initial_content_spec(name: Seq<char>) -> Seq<char> {
    "# "@ + name + "\n\n"@
}

/// The title a create operation settles on: the given one, or the name
/// derived from the path.
pub open spec fn create_title_spec(path: Seq<char>, title: Option<Seq<char>>) -> Seq<char> {
    match title {
        Option::Some(t) => t,
        Option::None => notebook_name_spec(path),
    }
}

/// Creates a notebook: one markdown block titled from `title` or the path's
/// stem. Fails when the path already exists, as the caller observed it.
/// Returns the new manifest, the file operations to perform, and the
/// hydrated notebook.
pub fn create_notebook(
    path: &str,
    path_exists: bool,
    title: Option<String>,
    block_id: String,
) -> (r: Result<(NotebookIndex, Vec<FileOp>, Notebook), FsError>)
    ensures
        r is Err <==> path_exists,
        r matches Err(e) ==> e is InvalidPath,
        r matches Ok(out) ==> ({
            let name = create_title_spec(path@, title.deep_view());
            let content = initial_content_spec(name);
            let b = created_block_spec(block_id@);
            &&& out.0.version == 1
            &&& out.0.blocks.deep_view() == seq![b]
            &&& out.1.deep_view() == seq![FileOpView::Write { name: b.file, content: content }]
            &&& out.2.path@ == path@
            &&& out.2.name@ == name
            &&& out.2.blocks.deep_view() == seq![
                BlockContentView {
                    id: block_id@,
                    block_type: BlockType::Markdown,
                    language: Option::None,
                    content: content,
                    encrypted: Option::None,
                },
            ]
        }),
{
    if path_exists {
        return Err(FsError::InvalidPath(String::from_str("Path already exists")));
    }
    let name = match title {
        Some(t) => t,
        None => notebook_name(path),
    };
    let block_file = concat2(block_id.as_str(), ".md");
    let content = concat3("# ", name.as_str(), "\n\n");
    let mut blocks: Vec<NotebookBlock> = Vec::new();
    blocks.push(
        NotebookBlock {
            id: block_id.clone(),
            block_type: BlockType::Markdown,
            file: block_file.clone(),
            language: None,
            encrypted: None,
        },
    );
    let index = NotebookIndex { version: 1, blocks };
    let mut ops: Vec<FileOp> = Vec::new();
    ops.push(FileOp::Write { name: block_file, content: content.clone() });
    let mut nb_blocks: Vec<NotebookBlockWithContent> = Vec::new();
    nb_blocks.push(
        NotebookBlockWithContent {
            id: block_id,
            block_type: BlockType::Markdown,
            language: None,
            content: content,
            encrypted: None,
        },
    );
    let notebook = Notebook { path: String::from_str(path), name, blocks: nb_blocks };
    proof {
        let namev = create_title_spec(path@, title.deep_view());
        assert(index.blocks.deep_view() =~= seq![created_block_spec(block_id@)]);
        assert(ops.deep_view() =~= seq![
            FileOpView::Write {
                name: created_block_spec(block_id@).file,
                content: initial_content_spec(namev),
            },
        ]);
        assert(notebook.blocks.deep_view() =~= seq![
            BlockContentView {
                id: block_id@,
                block_type: BlockType::Markdown,
                language: Option::None,
                content: initial_content_spec(namev),
                encrypted: Option::None,
            },
        ]);
    }
    Ok((index, ops, notebook))
}

/// A block record joined with the content its file held: an absent file
/// reads as empty content.
pub open spec fn read_block_spec(b: BlockView, c: Option<Seq<char>>) -> BlockContentView {
    BlockContentView {
        id: b.id,
        block_type: b.block_type,
        language: b.language,
        content: match c {
            Option::Some(s) => s,
            Option::None => Seq::empty(),
        },
        encrypted: b.encrypted,
    }
}

/// All blocks joined with their contents, in manifest order.
pub open spec fn read_blocks_spec(
    blocks: Seq<BlockView>,
    contents: Seq<Option<Seq<char>>>,
) -> Seq<BlockContentView> {
    Seq::new(blocks.len(), |i: int| read_block_spec(blocks[i], contents[i]))
}

/// The contents a reader finds on disk for each block, given the
/// container's files: the file's content, or nothing when it is absent.
pub open spec fn contents_of(
    files: Map<Seq<char>, Seq<char>>,
    blocks: Seq<BlockView>,
) -> Seq<Option<Seq<char>>> {
    Seq::new(
        blocks.len(),
        |i: int|
            if files.contains_key(blocks[i].file) {
                Option::Some(files[blocks[i].file])
            } else {
                Option::None
            },
    )
}

fn clone_opt_string(o: &Option<String>) -> (r: Option<String>)
    ensures
        r.deep_view() == o.deep_view(),
{
    match o {
        Some(s) => Some(s.clone()),
        None => None,
    }
}

/// Reads a notebook: the manifest's blocks joined with the contents the
/// caller read from each block's file (`None` for a missing file, which
/// reads as empty). Fails when the path is not a notebook container.
pub fn read_notebook(
    path: &str,
    is_dir: bool,
    index: &NotebookIndex,
    contents: &Vec<Option<String>>,
) -> (r: Result<Notebook, FsError>)
    requires
        contents@.len() == index.blocks@.len(),
    ensures
        r is Err <==> !is_notebook_spec(path@, is_dir),
        r matches Err(e) ==> e is InvalidPath,
        r matches Ok(nb) ==> ({
            &&& nb.path@ == path@
            &&& nb.name@ == notebook_name_spec(path@)
            &&& nb.blocks.deep_view() == read_blocks_spec(
                index.blocks.deep_view(),
                contents.deep_view(),
            )
        }),
{
    if !is_notebook(path, is_dir) {
        return Err(FsError::InvalidPath(String::from_str("Not a notebook")));
    }
    let name = notebook_name(path);
    let ghost bs = index.blocks.deep_view();
    let ghost cs = contents.deep_view();
    let n = index.blocks.len();
    let mut blocks: Vec<NotebookBlockWithContent> = Vec::new();
    let mut i: usize = 0;
    while i < n
        invariant
            0 <= i <= n,
            n == index.blocks@.len(),
            contents@.len() == n,
            bs == index.blocks.deep_view(),
            cs == contents.deep_view(),
            bs.len() == n,
            cs.len() == n,
            blocks.deep_view() =~= read_blocks_spec(bs, cs).take(i as int),
        decreases n - i,
    {
        let b = &index.blocks[i];
        let content = match &contents[i] {
            Some(c) => c.clone(),
            None => String::new(),
        };
        let hydrated = NotebookBlockWithContent {
            id: b.id.clone(),
            block_type: b.block_type,
            language: clone_opt_string(&b.language),
            content,
            encrypted: b.encrypted,
        };
        proof {
            assert(index.blocks@[i as int].deep_view() == bs[i as int]);
            assert(contents@[i as int].deep_view() == cs[i as int]);
            assert(hydrated.deep_view() == read_block_spec(bs[i as int], cs[i as int]));
        }
        blocks.push(hydrated);
        proof {
            let spec_all = read_blocks_spec(bs, cs);
            assert(blocks.deep_view() =~= spec_all.take(i as int).push(spec_all[i as int]));
            assert(spec_all.take(i + 1) =~= spec_all.take(i as int).push(spec_all[i as int]));
        }
        i = i + 1;
    }
    proof {
        assert(read_blocks_spec(bs, cs).take(n as int) =~= read_blocks_spec(bs, cs));
    }
    Ok(Notebook { path: String::from_str(path), name, blocks })
}

/// Where a new block lands: right after the block `after` names, or at the
/// end when no block is named or the named one is absent.
pub open spec fn insert_position_spec(blocks: Seq<BlockView>, after: Option<Seq<char>>) -> int {
    match after {
        Option::None => blocks.len() as int,
        Option::Some(aid) => if has_block(blocks, aid) {
            block_position_of(blocks, aid) + 1
        } else {
            blocks.len() as int
        },
    }
}

/// Adds a block: an empty content file named by the kind's extension, the
/// record inserted immediately after `after_block_id` (or appended when that
/// id is absent or not given).
pub fn add_notebook_block(
    index: &mut NotebookIndex,
    block_id: String,
    block_type: BlockType,
    language: Option<String>,
    after_block_id: Option<String>,
) -> (r: (NotebookBlockWithContent, Vec<FileOp>))
    ensures
        final(index).version == old(index).version,
        ({
            let file = block_file_spec(block_id@, block_type, language.deep_view());
            let nb = BlockView {
                id: block_id@,
                block_type: block_type,
                file: file,
                language: language.deep_view(),
                encrypted: Option::None,
            };
            let pos = insert_position_spec(old(index).blocks.deep_view(), after_block_id.deep_view());
            &&& final(index).blocks.deep_view() == old(index).blocks.deep_view().insert(pos, nb)
            &&& r.1.deep_view() == seq![
                FileOpView::Write { name: file, content: Seq::<char>::empty() },
            ]
            &&& r.0@ == BlockContentView {
                id: block_id@,
                block_type: block_type,
                language: language.deep_view(),
                content: Seq::<char>::empty(),
                encrypted: Option::None,
            }
        }),
{
    let ghost bs = index.blocks.deep_view();
    let file = block_file_name(block_id.as_str(), &block_type, language.as_ref());
    let new_block = NotebookBlock {
        id: block_id.clone(),
        block_type: block_type,
        file: file.clone(),
        language: clone_opt_string(&language),
        encrypted: None,
    };
    let n = index.blocks.len();
    let pos: usize = match &after_block_id {
        Some(aid) => {
            match find_block_position(&index.blocks, aid.as_str()) {
                Some(p) => p + 1,
                None => n,
            }
        },
        None => n,
    };
    proof {
        assert(pos as int == insert_position_spec(bs, after_block_id.deep_view()));
    }
    index.blocks.insert(pos, new_block);
    let mut ops: Vec<FileOp> = Vec::new();
    ops.push(FileOp::Write { name: file, content: String::new() });
    let result = NotebookBlockWithContent {
        id: block_id,
        block_type: block_type,
        language: language,
        content: String::new(),
        encrypted: None,
    };
    proof {
        let filev = block_file_spec(result.id@, block_type, result.language.deep_view());
        let nbv = BlockView {
            id: result.id@,
            block_type: block_type,
            file: filev,
            language: result.language.deep_view(),
            encrypted: Option::None,
        };
        assert(index.blocks.deep_view() =~= bs.insert(pos as int, nbv));
        assert(ops.deep_view() =~= seq![
            FileOpView::Write { name: filev, content: Seq::<char>::empty() },
        ]);
    }
    (result, ops)
}

/// Overwrites a block's content file; the manifest is untouched. Fails with
/// `NotFound` exactly when no block carries the id.
pub fn update_notebook_block(index: &NotebookIndex, block_id: &str, content: String) -> (r: Result<
    Vec<FileOp>,
    FsError,
>)
    ensures
        r is Ok <==> has_block(index.blocks.deep_view(), block_id@),
        r matches Err(e) ==> e is NotFound,
        r matches Ok(ops) ==> ({
            let bs = index.blocks.deep_view();
            ops.deep_view() == seq![
                FileOpView::Write {
                    name: bs[block_position_of(bs, block_id@)].file,
                    content: content@,
                },
            ]
        }),
{
    match find_block_position(&index.blocks, block_id) {
        Some(pos) => {
            let file = index.blocks[pos].file.clone();
            let mut ops: Vec<FileOp> = Vec::new();
            ops.push(FileOp::Write { name: file, content });
            proof {
                let bs = index.blocks.deep_view();
                assert(ops.deep_view() =~= seq![
                    FileOpView::Write {
                        name: bs[block_position_of(bs, block_id@)].file,
                        content: ops@[0]->Write_content@,
                    },
                ]);
            }
            Ok(ops)
        },
        None => Err(
            FsError::NotFound(concat2("Block not found: ", block_id)),
        ),
    }
}

/// Deletes a block: the record leaves the manifest and its content file is
/// removed (a file already absent is not an error). Fails with `NotFound`
/// exactly when no block carries the id.
pub fn delete_notebook_block(index: &mut NotebookIndex, block_id: &str) -> (r: Result<
    Vec<FileOp>,
    FsError,
>)
    ensures
        r is Ok <==> has_block(old(index).blocks.deep_view(), block_id@),
        r matches Err(e) ==> e is NotFound && *final(index) == *old(index),
        final(index).version == old(index).version,
        r matches Ok(ops) ==> ({
            let bs = old(index).blocks.deep_view();
            let pos = block_position_of(bs, block_id@);
            &&& final(index).blocks.deep_view() == bs.remove(pos)
            &&& ops.deep_view() == seq![FileOpView::Delete { name: bs[pos].file }]
        }),
{
    let ghost bs = index.blocks.deep_view();
    match find_block_position(&index.blocks, block_id) {
        Some(pos) => {
            let removed = index.blocks.remove(pos);
            let mut ops: Vec<FileOp> = Vec::new();
            ops.push(FileOp::Delete { name: removed.file });
            proof {
                assert(index.blocks.deep_view() =~= bs.remove(pos as int));
                assert(ops.deep_view() =~= seq![
                    FileOpView::Delete { name: bs[pos as int].file },
                ]);
            }
            Ok(ops)
        },
        None => Err(
            FsError::NotFound(concat2("Block not found: ", block_id)),
        ),
    }
}

/// Moves a block to `new_index`, clamped to the end: the record is removed
/// from its position and reinserted at `min(new_index, remaining length)`.
/// Fails with `NotFound` exactly when no block carries the id.
pub fn move_notebook_block(index: &mut NotebookIndex, block_id: &str, new_index: usize) -> (r:
    Result<(), FsError>)
    ensures
        r is Ok <==> has_block(old(index).blocks.deep_view(), block_id@),
        r matches Err(e) ==> e is NotFound && *final(index) == *old(index),
        final(index).version == old(index).version,
        r is Ok ==> ({
            let bs = old(index).blocks.deep_view();
            let pos = block_position_of(bs, block_id@);
            let moved = bs[pos];
            let rem = bs.remove(pos);
            let ins = if new_index < rem.len() {
                new_index as int
            } else {
                rem.len() as int
            };
            final(index).blocks.deep_view() == rem.insert(ins, moved)
        }),
{
    let ghost bs = index.blocks.deep_view();
    match find_block_position(&index.blocks, block_id) {
        Some(pos) => {
            let moved = index.blocks.remove(pos);
            proof {
                assert(index.blocks.deep_view() =~= bs.remove(pos as int));
            }
            let rem_len = index.blocks.len();
            let ins = if new_index < rem_len {
                new_index
            } else {
                rem_len
            };
            index.blocks.insert(ins, moved);
            proof {
                let rem = bs.remove(pos as int);
                let insi = if new_index < rem.len() {
                    new_index as int
                } else {
                    rem.len() as int
                };
                assert(index.blocks.deep_view() =~= rem.insert(insi, bs[pos as int]));
            }
            Ok(())
        },
        None => Err(
            FsError::NotFound(concat2("Block not found: ", block_id)),
        ),
    }
}

/// Changes a block's kind and language in place: the content moves to a
/// file named by the new extension, the old file is deleted only when the
/// name changed, and id and encrypted flag are preserved. `current_content`
/// is what the caller read from the block's current file (`None` when the
/// file is missing, which counts as empty). Fails with `NotFound` exactly
/// when no block carries the id.
pub fn change_block_type(
    index: &mut NotebookIndex,
    block_id: &str,
    new_type: BlockType,
    new_language: Option<String>,
    current_content: Option<String>,
) -> (r: Result<(NotebookBlockWithContent, Vec<FileOp>), FsError>)
    ensures
        r is Ok <==> has_block(old(index).blocks.deep_view(), block_id@),
        r matches Err(e) ==> e is NotFound && *final(index) == *old(index),
        final(index).version == old(index).version,
        r matches Ok(out) ==> ({
            let bs = old(index).blocks.deep_view();
            let pos = block_position_of(bs, block_id@);
            let prev = bs[pos];
            let content = match current_content.deep_view() {
                Option::Some(c) => c,
                Option::None => Seq::<char>::empty(),
            };
            let new_file = block_file_spec(prev.id, new_type, new_language.deep_view());
            let updated = BlockView {
                id: prev.id,
                block_type: new_type,
                file: new_file,
                language: new_language.deep_view(),
                encrypted: prev.encrypted,
            };
            &&& final(index).blocks.deep_view() == bs.update(pos, updated)
            &&& (new_file != prev.file ==> out.1.deep_view() == seq![
                FileOpView::Write { name: new_file, content: content },
                FileOpView::Delete { name: prev.file },
            ])
            &&& (new_file == prev.file ==> out.1.deep_view() == seq![
                FileOpView::Write { name: new_file, content: content },
            ])
            &&& out.0@ == BlockContentView {
                id: prev.id,
                block_type: new_type,
                language: new_language.deep_view(),
                content: content,
                encrypted: prev.encrypted,
            }
        }),
{
    let ghost bs = index.blocks.deep_view();
    match find_block_position(&index.blocks, block_id) {
        Some(pos) => {
            let prev = index.blocks.remove(pos);
            let content = match current_content {
                Some(c) => c,
                None => String::new(),
            };
            let new_file = block_file_name(prev.id.as_str(), &new_type, new_language.as_ref());
            let updated = NotebookBlock {
                id: prev.id.clone(),
                block_type: new_type,
                file: new_file.clone(),
                language: clone_opt_string(&new_language),
                encrypted: prev.encrypted,
            };
            index.blocks.insert(pos, updated);
            let mut ops: Vec<FileOp> = Vec::new();
            ops.push(FileOp::Write { name: new_file.clone(), content: content.clone() });
            if !str_eq(new_file.as_str(), prev.file.as_str()) {
                ops.push(FileOp::Delete { name: prev.file });
            }
            let result = NotebookBlockWithContent {
                id: prev.id,
                block_type: new_type,
                language: new_language,
                content,
                encrypted: prev.encrypted,
            };
            proof {
                let posn = pos as int;
                let prevv = bs[posn];
                let new_filev = block_file_spec(prevv.id, new_type, result.language.deep_view());
                let updatedv = BlockView {
                    id: prevv.id,
                    block_type: new_type,
                    file: new_filev,
                    language: result.language.deep_view(),
                    encrypted: prevv.encrypted,
                };
                assert(index.blocks.deep_view() =~= bs.update(posn, updatedv));
                if new_filev != prevv.file {
                    assert(ops.deep_view() =~= seq![
                        FileOpView::Write { name: new_filev, content: result.content@ },
                        FileOpView::Delete { name: prevv.file },
                    ]);
                } else {
                    assert(ops.deep_view() =~= seq![
                        FileOpView::Write { name: new_filev, content: result.content@ },
                    ]);
                }
            }
            Ok((result, ops))
        },
        None => Err(
            FsError::NotFound(concat2("Block not found: ", block_id)),
        ),
    }
}

/// Round trip: a freshly created notebook, read back from exactly the files
/// the create operation wrote into an empty directory, holds one entry whose
/// content is the initial content that was written.
pub proof fn lemma_create_then_read(id: Seq<char>, name: Seq<char>)
    ensures
        ({
            let b = created_block_spec(id);
            let ops = seq![
                FileOpView::Write { name: b.file, content: initial_content_spec(name) },
            ];
            let files = crate::types::apply_ops(Map::<Seq<char>, Seq<char>>::empty(), ops);
            let entries = read_blocks_spec(seq![b], contents_of(files, seq![b]));
            &&& entries.len() == 1
            &&& entries[0].id == id
            &&& entries[0].content == initial_content_spec(name)
        }),
{
    let b = created_block_spec(id);
    let ops = seq![FileOpView::Write { name: b.file, content: initial_content_spec(name) }];
    let files0 = Map::<Seq<char>, Seq<char>>::empty();
    let m1 = crate::types::apply_op(files0, ops[0]);
    assert(crate::types::apply_ops(files0, ops) == crate::types::apply_ops(m1, ops.drop_first()));
    assert(ops.drop_first().len() == 0);
    assert(crate::types::apply_ops(m1, ops.drop_first()) == m1);
    assert(m1 == files0.insert(b.file, initial_content_spec(name)));
    let files = crate::types::apply_ops(files0, ops);
    assert(files.contains_key(b.file));
    assert(files[b.file] == initial_content_spec(name));
}

/// Deleting an entry removes both the manifest record and the content file:
/// no block of the resulting manifest carries the id (ids being unique), the
/// file is gone from the container, and a subsequent read lists no entry
/// with that id, whatever contents the remaining files hold.
pub proof fn lemma_delete_removes_entry(
    blocks: Seq<BlockView>,
    files: Map<Seq<char>, Seq<char>>,
    contents: Seq<Option<Seq<char>>>,
    id: Seq<char>,
    pos: int,
)
    requires
        crate::types::blocks_unique_ids(blocks),
        0 <= pos < blocks.len(),
        blocks[pos].id == id,
    ensures
        !has_block(blocks.remove(pos), id),
        !crate::types::apply_ops(
            files,
            seq![FileOpView::Delete { name: blocks[pos].file }],
        ).contains_key(blocks[pos].file),
        forall|k: int|
            0 <= k < blocks.remove(pos).len() ==> read_blocks_spec(blocks.remove(pos), contents)[k].id
                != id,
{
    let rem = blocks.remove(pos);
    assert forall|j: int| 0 <= j < rem.len() implies rem[j].id != id by {
        if j < pos {
            assert(rem[j] == blocks[j]);
        } else {
            assert(rem[j] == blocks[j + 1]);
        }
    }
    let ops = seq![FileOpView::Delete { name: blocks[pos].file }];
    let m1 = crate::types::apply_op(files, ops[0]);
    assert(crate::types::apply_ops(files, ops) == crate::types::apply_ops(m1, ops.drop_first()));
    assert(ops.drop_first().len() == 0);
    assert(crate::types::apply_ops(m1, ops.drop_first()) == m1);
    assert(m1 == files.remove(blocks[pos].file));
}

/// A kind change's file effects: after writing the content under the new
/// name and deleting the old file, the container maps the new name to the
/// content and no longer holds the old name.
pub proof fn lemma_change_kind_files(
    files: Map<Seq<char>, Seq<char>>,
    new_file: Seq<char>,
    old_file: Seq<char>,
    content: Seq<char>,
)
    requires
        new_file != old_file,
    ensures
        ({
            let files2 = crate::types::apply_ops(
                files,
                seq![
                    FileOpView::Write { name: new_file, content: content },
                    FileOpView::Delete { name: old_file },
                ],
            );
            &&& files2.contains_key(new_file)
            &&& files2[new_file] == content
            &&& !files2.contains_key(old_file)
        }),
{
    let ops = seq![
        FileOpView::Write { name: new_file, content: content },
        FileOpView::Delete { name: old_file },
    ];
    let m1 = crate::types::apply_op(files, ops[0]);
    assert(m1 == files.insert(new_file, content));
    let rest = ops.drop_first();
    assert(crate::types::apply_ops(files, ops) == crate::types::apply_ops(m1, rest));
    assert(rest =~= seq![FileOpView::Delete { name: old_file }]);
    let m2 = crate::types::apply_op(m1, rest[0]);
    assert(crate::types::apply_ops(m1, rest) == crate::types::apply_ops(m2, rest.drop_first()));
    assert(rest.drop_first().len() == 0);
    assert(crate::types::apply_ops(m2, rest.drop_first()) == m2);
    assert(m2 == m1.remove(old_file));
}

} // verus!
