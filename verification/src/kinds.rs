//! The kind-to-filename convention: a block's kind and language decide its
//! content file's extension, and an entry's file is always `{id}.{ext}`.

use vstd::prelude::*;

use crate::strutil::{concat3, str_eq};
use crate::types::BlockType;

verus! {

/// The extension the static table assigns to a language tag; `txt` for an
/// unrecognized tag.
pub open spec fn extension_for_language(lang: Seq<char>) -> Seq<char> {
    if lang == "python"@ {
        "py"@
    } else if lang == "javascript"@ {
        "js"@
    } else if lang == "typescript"@ {
        "ts"@
    } else if lang == "rust"@ {
        "rs"@
    } else if lang == "sql"@ {
        "sql"@
    } else if lang == "bash"@ || lang == "shell"@ || lang == "sh"@ {
        "sh"@
    } else if lang == "markdown"@ || lang == "md"@ {
        "md"@
    } else {
        "txt"@
    }
}

/// The extension for a block of the given kind: markdown is always `md`;
/// code goes through the language table, an absent language counting as
/// unrecognized.
pub open spec fn extension_for_block(kind: BlockType, language: Option<Seq<char>>) -> Seq<char> {
    if kind == BlockType::Code {
        extension_for_language(
            match language {
                Option::Some(l) => l,
                Option::None => "txt"@,
            },
        )
    } else {
        "md"@
    }
}

/// An entry's content file name: `{id}.{ext}`.
pub open spec fn block_file_spec(id: Seq<char>, kind: BlockType, language: Option<Seq<char>>) -> Seq<
    char,
> {
    id + "."@ + extension_for_block(kind, language)
}

/// Resolves a language tag to a file extension via the static table.
pub fn language_to_extension(language: &str) -> (r: &'static str)
    ensures
        r@ == extension_for_language(language@),
{
    if str_eq(language, "python") {
        "py"
    } else if str_eq(language, "javascript") {
        "js"
    } else if str_eq(language, "typescript") {
        "ts"
    } else if str_eq(language, "rust") {
        "rs"
    } else if str_eq(language, "sql") {
        "sql"
    } else if str_eq(language, "bash") || str_eq(language, "shell") || str_eq(language, "sh") {
        "sh"
    } else if str_eq(language, "markdown") || str_eq(language, "md") {
        "md"
    } else {
        "txt"
    }
}

/// The extension for a block's kind and optional language.
pub fn extension_for(kind: &BlockType, language: Option<&String>) -> (r: &'static str)
    ensures
        r@ == extension_for_block(*kind, match language {
            Option::Some(l) => Option::Some(l@),
            Option::None => Option::None,
        }),
{
    match kind {
        BlockType::Code => {
            match language {
                Some(l) => language_to_extension(l.as_str()),
                None => language_to_extension("txt"),
            }
        },
        BlockType::Markdown => "md",
    }
}

/// The content file name for an entry: `{id}.{ext}`.
pub fn block_file_name(id: &str, kind: &BlockType, language: Option<&String>) -> (r: String)
    ensures
        r@ == block_file_spec(id@, *kind, match language {
            Option::Some(l) => Option::Some(l@),
            Option::None => Option::None,
        }),
{
    let ext = extension_for(kind, language);
    concat3(id, ".", ext)
}

} // verus!
