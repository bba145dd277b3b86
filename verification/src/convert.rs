//! Converting a single markdown note into a notebook container: the note's
//! text is parsed into fragments, each fragment becomes a block with its own
//! content file under the same id/filename scheme an add uses, and a note
//! that parses to nothing still yields one titled markdown block, so a
//! container is never created with zero entries.
//!
//! The caller deletes the original note file and creates the directory; this
//! operation only decides the blocks and the files to write.

use vstd::prelude::*;

use crate::kinds::{block_file_name, block_file_spec};
use crate::notebook::{created_block_spec, initial_content_spec, notebook_name, notebook_name_spec};
use crate::parser::{FragmentView, ParsedMarkdownBlock};
use crate::strutil::concat2;
use crate::types::{
    BlockContentView, BlockType, BlockView, FileOp, FileOpView, FsError, Notebook, NotebookBlock,
    NotebookBlockWithContent, NotebookIndex,
};

verus! {

/// The block kind a fragment converts to.
pub open spec fn fragment_kind(f: FragmentView) -> BlockType {
    if f.is_code {
        BlockType::Code
    } else {
        BlockType::Markdown
    }
}

/// The language a fragment converts with: code without a tag gets `text`;
/// markdown has none.
pub open spec fn fragment_language(f: FragmentView) -> Option<Seq<char>> {
    if f.is_code {
        Option::Some(
            match f.language {
                Option::Some(l) => l,
                Option::None => "text"@,
            },
        )
    } else {
        Option::None
    }
}

/// The manifest record a fragment converts to, under a fresh id.
pub open spec fn convert_block_spec(f: FragmentView, id: Seq<char>) -> BlockView {
    BlockView {
        id: id,
        block_type: fragment_kind(f),
        file: block_file_spec(id, fragment_kind(f), fragment_language(f)),
        language: fragment_language(f),
        encrypted: Option::None,
    }
}

/// The records all fragments convert to, in order.
pub open spec fn convert_blocks_spec(frags: Seq<FragmentView>, ids: Seq<Seq<char>>) -> Seq<
    BlockView,
> {
    Seq::new(frags.len(), |i: int| convert_block_spec(frags[i], ids[i]))
}

/// The file writes the conversion asks for: each fragment's content under
/// its block's file name.
pub open spec fn convert_ops_spec(frags: Seq<FragmentView>, ids: Seq<Seq<char>>) -> Seq<
    FileOpView,
> {
    Seq::new(
        frags.len(),
        |i: int|
            FileOpView::Write {
                name: convert_block_spec(frags[i], ids[i]).file,
                content: frags[i].content,
            },
    )
}

/// The hydrated blocks the conversion returns.
pub open spec fn convert_hydrated_spec(frags: Seq<FragmentView>, ids: Seq<Seq<char>>) -> Seq<
    BlockContentView,
> {
    Seq::new(
        frags.len(),
        |i: int|
            BlockContentView {
                id: ids[i],
                block_type: fragment_kind(frags[i]),
                language: fragment_language(frags[i]),
                content: frags[i].content,
                encrypted: Option::None,
            },
    )
}

/// Converts a parsed note into a notebook at the note's own path. Takes the
/// fragments `parse_markdown_blocks` produced and one fresh id per block
/// (one id when there are no fragments, for the synthesized empty block).
/// Fails with `NotFound` when the note does not exist and with an invalid
/// path when it is already a directory, as the caller observed; the
/// resulting manifest never has zero blocks.
pub fn convert_note_to_notebook(
    path: &str,
    note_exists: bool,
    note_is_dir: bool,
    fragments: Vec<ParsedMarkdownBlock>,
    ids: Vec<String>,
) -> (r: Result<(NotebookIndex, Vec<FileOp>, Notebook), FsError>)
    requires
        ids@.len() == if fragments@.len() == 0 {
            1int
        } else {
            fragments@.len() as int
        },
    ensures
        r is Err <==> (!note_exists || note_is_dir),
        r matches Err(e) ==> (!note_exists ==> e is NotFound) && (note_exists ==> e
            is InvalidPath),
        r matches Ok(out) ==> ({
            let title = notebook_name_spec(path@);
            let fv = fragments.deep_view();
            let iv = ids.deep_view();
            &&& out.0.version == 1
            &&& out.0.blocks@.len() >= 1
            &&& out.2.path@ == path@
            &&& out.2.name@ == title
            &&& (fv.len() > 0 ==> {
                &&& out.0.blocks.deep_view() == convert_blocks_spec(fv, iv)
                &&& out.1.deep_view() == convert_ops_spec(fv, iv)
                &&& out.2.blocks.deep_view() == convert_hydrated_spec(fv, iv)
            })
            &&& (fv.len() == 0 ==> {
                &&& out.0.blocks.deep_view() == seq![created_block_spec(iv[0])]
                &&& out.1.deep_view() == seq![
                    FileOpView::Write {
                        name: created_block_spec(iv[0]).file,
                        content: initial_content_spec(title),
                    },
                ]
                &&& out.2.blocks.deep_view() == seq![
                    BlockContentView {
                        id: iv[0],
                        block_type: BlockType::Markdown,
                        language: Option::None,
                        content: initial_content_spec(title),
                        encrypted: Option::None,
                    },
                ]
            })
        }),
{
    if !note_exists {
        return Err(FsError::NotFound(String::from_str(path)));
    }
    if note_is_dir {
        return Err(FsError::InvalidPath(String::from_str("Path is already a directory")));
    }
    let ghost fv = fragments.deep_view();
    let ghost iv = ids.deep_view();
    let title = notebook_name(path);
    let n = fragments.len();
    let mut index_blocks: Vec<NotebookBlock> = Vec::new();
    let mut nb_blocks: Vec<NotebookBlockWithContent> = Vec::new();
    let mut ops: Vec<FileOp> = Vec::new();
    if n > 0 {
        let mut i: usize = 0;
        while i < n
            invariant
                0 <= i <= n,
                n == fragments@.len(),
                ids@.len() == n,
                fv == fragments.deep_view(),
                iv == ids.deep_view(),
                fv.len() == n,
                iv.len() == n,
                index_blocks.deep_view() =~= convert_blocks_spec(fv, iv).take(i as int),
                ops.deep_view() =~= convert_ops_spec(fv, iv).take(i as int),
                nb_blocks.deep_view() =~= convert_hydrated_spec(fv, iv).take(i as int),
            decreases n - i,
        {
            let f = &fragments[i];
            let id = ids[i].clone();
            let kind = if f.is_code {
                BlockType::Code
            } else {
                BlockType::Markdown
            };
            let language: Option<String> = if f.is_code {
                match &f.language {
                    Some(l) => Some(l.clone()),
                    None => Some(String::from_str("text")),
                }
            } else {
                None
            };
            let file = block_file_name(id.as_str(), &kind, language.as_ref());
            proof {
                assert(fragments@[i as int].deep_view() == fv[i as int]);
                assert(ids@[i as int].deep_view() == iv[i as int]);
                assert(kind == fragment_kind(fv[i as int]));
                assert(language.deep_view() == fragment_language(fv[i as int]));
                assert(file@ == convert_block_spec(fv[i as int], iv[i as int]).file);
            }
            let record = NotebookBlock {
                id: id.clone(),
                block_type: kind,
                file: file.clone(),
                language: match &language {
                    Some(l) => Some(l.clone()),
                    None => None,
                },
                encrypted: None,
            };
            proof {
                assert(record.deep_view() == convert_block_spec(fv[i as int], iv[i as int]));
            }
            index_blocks.push(record);
            ops.push(FileOp::Write { name: file, content: f.content.clone() });
            let hydrated = NotebookBlockWithContent {
                id: id,
                block_type: kind,
                language: language,
                content: f.content.clone(),
                encrypted: None,
            };
            nb_blocks.push(hydrated);
            proof {
                let bsp = convert_blocks_spec(fv, iv);
                let osp = convert_ops_spec(fv, iv);
                let hsp = convert_hydrated_spec(fv, iv);
                assert(index_blocks.deep_view() =~= bsp.take(i as int).push(bsp[i as int]));
                assert(bsp.take(i + 1) =~= bsp.take(i as int).push(bsp[i as int]));
                assert(ops.deep_view() =~= osp.take(i as int).push(osp[i as int]));
                assert(osp.take(i + 1) =~= osp.take(i as int).push(osp[i as int]));
                assert(nb_blocks.deep_view() =~= hsp.take(i as int).push(hsp[i as int]));
                assert(hsp.take(i + 1) =~= hsp.take(i as int).push(hsp[i as int]));
            }
            i = i + 1;
        }
        proof {
            assert(convert_blocks_spec(fv, iv).take(n as int) =~= convert_blocks_spec(fv, iv));
            assert(convert_ops_spec(fv, iv).take(n as int) =~= convert_ops_spec(fv, iv));
            assert(convert_hydrated_spec(fv, iv).take(n as int) =~= convert_hydrated_spec(
                fv,
                iv,
            ));
        }
    } else {
        let id = ids[0].clone();
        let file = concat2(id.as_str(), ".md");
        let content = crate::strutil::concat3("# ", title.as_str(), "\n\n");
        index_blocks.push(
            NotebookBlock {
                id: id.clone(),
                block_type: BlockType::Markdown,
                file: file.clone(),
                language: None,
                encrypted: None,
            },
        );
        ops.push(FileOp::Write { name: file, content: content.clone() });
        nb_blocks.push(
            NotebookBlockWithContent {
                id: id,
                block_type: BlockType::Markdown,
                language: None,
                content: content,
                encrypted: None,
            },
        );
        proof {
            assert(index_blocks.deep_view() =~= seq![created_block_spec(iv[0])]);
            assert(ops.deep_view() =~= seq![
                FileOpView::Write {
                    name: created_block_spec(iv[0]).file,
                    content: initial_content_spec(notebook_name_spec(path@)),
                },
            ]);
            assert(nb_blocks.deep_view() =~= seq![
                BlockContentView {
                    id: iv[0],
                    block_type: BlockType::Markdown,
                    language: Option::None,
                    content: initial_content_spec(notebook_name_spec(path@)),
                    encrypted: Option::None,
                },
            ]);
        }
    }
    let index = NotebookIndex { version: 1, blocks: index_blocks };
    let notebook = Notebook { path: String::from_str(path), name: title, blocks: nb_blocks };
    Ok((index, ops, notebook))
}

} // verus!
