//! The markdown block parser: splits a freeform markdown document into an
//! ordered sequence of typed fragments, scanning line by line. A line that
//! begins with three backticks toggles fence state: entering a fence emits
//! the accumulated markdown (trimmed, dropped when blank) and starts a code
//! fragment whose language tag is the fence line after its backticks;
//! leaving one emits the code fragment with its trailing whitespace trimmed.
//! An unterminated fence is still emitted as code at end of input.
//!
//! The executable parser is proved equal to `parse_markdown_spec`, a fold of
//! one spec step over the document's lines.

use vstd::prelude::*;

use crate::strutil::{spec_lines, split_lines, trim_end_spec, trim_end_str, trim_spec, trim_str};

verus! {

/// A parsed fragment: markdown text, or code with an optional language tag.
#[derive(Debug, Clone)]
pub struct ParsedMarkdownBlock {
    pub is_code: bool,
    pub language: Option<String>,
    pub content: String,
}

/// Mathematical image of a `ParsedMarkdownBlock`.
pub ghost struct FragmentView {
    pub is_code: bool,
    pub language: Option<Seq<char>>,
    pub content: Seq<char>,
}

impl View for ParsedMarkdownBlock {
    type V = FragmentView;

    open spec fn view(&self) -> FragmentView {
        FragmentView {
            is_code: self.is_code,
            language: self.language.deep_view(),
            content: self.content@,
        }
    }
}

impl DeepView for ParsedMarkdownBlock {
    type V = FragmentView;

    open spec fn deep_view(&self) -> FragmentView {
        self.view()
    }
}

/// A code block located inside a markdown document, with its line span, as
/// handed to the display layer.
#[derive(Debug, Clone)]
pub struct ParsedCodeBlock {
    pub language: String,
    pub content: String,
    pub start_line: usize,
    pub end_line: usize,
}

/// The parser's accumulation state between lines.
pub ghost struct ParseState {
    pub frags: Seq<FragmentView>,
    pub text: Seq<char>,
    pub in_code: bool,
    pub lang: Seq<char>,
    pub code: Seq<char>,
}

/// The state scanning starts in.
pub open spec fn init_state() -> ParseState {
    ParseState {
        frags: Seq::empty(),
        text: Seq::empty(),
        in_code: false,
        lang: Seq::empty(),
        code: Seq::empty(),
    }
}

/// A fence line: three backticks at the start.
pub open spec fn is_fence(line: Seq<char>) -> bool {
    line.len() >= 3 && line[0] == '`' && line[1] == '`' && line[2] == '`'
}

/// The fence line without its leading backticks: the language tag.
pub open spec fn strip_backticks_spec(line: Seq<char>) -> Seq<char>
    decreases line.len(),
{
    if line.len() > 0 && line[0] == '`' {
        strip_backticks_spec(line.drop_first())
    } else {
        line
    }
}

/// A line joined onto an accumulator: with a newline between, except onto an
/// empty accumulator.
pub open spec fn append_line(acc: Seq<char>, line: Seq<char>) -> Seq<char> {
    if acc.len() == 0 {
        line
    } else {
        acc + seq!['\n'] + line
    }
}

/// The code fragment an accumulated fence emits: trailing whitespace
/// trimmed, an empty language tag becoming no language.
pub open spec fn code_fragment(lang: Seq<char>, code: Seq<char>) -> FragmentView {
    FragmentView {
        is_code: true,
        language: if lang.len() == 0 {
            Option::None
        } else {
            Option::Some(lang)
        },
        content: trim_end_spec(code),
    }
}

/// The markdown fragment an accumulation emits: trimmed at both ends.
pub open spec fn md_fragment(text: Seq<char>) -> FragmentView {
    FragmentView { is_code: false, language: Option::None, content: trim_spec(text) }
}

/// One line's effect on the parser state.
pub open spec fn pstep(st: ParseState, line: Seq<char>) -> ParseState {
    if is_fence(line) {
        if st.in_code {
            ParseState {
                frags: st.frags.push(code_fragment(st.lang, st.code)),
                text: st.text,
                in_code: false,
                lang: Seq::empty(),
                code: Seq::empty(),
            }
        } else {
            ParseState {
                frags: if trim_spec(st.text).len() > 0 {
                    st.frags.push(md_fragment(st.text))
                } else {
                    st.frags
                },
                text: Seq::empty(),
                in_code: true,
                lang: strip_backticks_spec(line),
                code: st.code,
            }
        }
    } else if st.in_code {
        ParseState {
            frags: st.frags,
            text: st.text,
            in_code: st.in_code,
            lang: st.lang,
            code: append_line(st.code, line),
        }
    } else {
        ParseState {
            frags: st.frags,
            text: append_line(st.text, line),
            in_code: st.in_code,
            lang: st.lang,
            code: st.code,
        }
    }
}

/// The state after scanning all lines.
pub open spec fn pfold(st: ParseState, lines: Seq<Seq<char>>) -> ParseState
    decreases lines.len(),
{
    if lines.len() == 0 {
        st
    } else {
        pfold(pstep(st, lines[0]), lines.drop_first())
    }
}

/// End of input: an open fence still emits its code; otherwise any
/// accumulated markdown is emitted, trimmed and dropped when blank.
pub open spec fn pfinish(st: ParseState) -> Seq<FragmentView> {
    if st.in_code {
        st.frags.push(code_fragment(st.lang, st.code))
    } else if trim_spec(st.text).len() > 0 {
        st.frags.push(md_fragment(st.text))
    } else {
        st.frags
    }
}

/// The fragments a markdown document parses into.
pub open spec fn parse_markdown_spec(content: Seq<char>) -> Seq<FragmentView> {
    pfinish(pfold(init_state(), spec_lines(content)))
}

proof fn lemma_pfold_snoc(st: ParseState, lines: Seq<Seq<char>>, k: int)
    requires
        0 <= k < lines.len(),
    ensures
        pfold(st, lines.take(k + 1)) == pstep(pfold(st, lines.take(k)), lines[k]),
    decreases k,
{
    if k == 0 {
        assert(lines.take(1).drop_first() =~= lines.take(0));
        assert(lines.take(1)[0] == lines[0]);
        assert(lines.take(0).len() == 0);
        assert(pfold(st, lines.take(1)) == pfold(pstep(st, lines[0]), lines.take(0)));
        assert(pfold(st, lines.take(0)) == st);
    } else {
        let st2 = pstep(st, lines[0]);
        let rest = lines.drop_first();
        lemma_pfold_snoc(st2, rest, k - 1);
        assert(lines.take(k + 1)[0] == lines[0]);
        assert(lines.take(k + 1).drop_first() =~= rest.take(k));
        assert(pfold(st, lines.take(k + 1)) == pfold(st2, rest.take(k)));
        assert(lines.take(k)[0] == lines[0]);
        assert(lines.take(k).drop_first() =~= rest.take(k - 1));
        assert(pfold(st, lines.take(k)) == pfold(st2, rest.take(k - 1)));
        assert(rest[k - 1] == lines[k]);
        assert(pfold(st2, rest.take(k)) == pstep(pfold(st2, rest.take(k - 1)), lines[k]));
    }
}

/// Strips the leading backticks off a fence line, leaving the language tag.
fn strip_leading_backticks(line: &str) -> (r: String)
    ensures
        r@ == strip_backticks_spec(line@),
{
    let n = line.unicode_len();
    proof {
        assert(line@.subrange(0, n as int) =~= line@);
    }
    let mut j: usize = 0;
    while j < n && line.get_char(j) == '`'
        invariant
            0 <= j <= n,
            n == line@.len(),
            strip_backticks_spec(line@) == strip_backticks_spec(line@.subrange(j as int, n as int)),
        decreases n - j,
    {
        proof {
            let t = line@.subrange(j as int, n as int);
            assert(t.drop_first() =~= line@.subrange(j + 1, n as int));
        }
        j = j + 1;
    }
    proof {
        assert(line@.subrange(0, n as int) =~= line@);
        let t = line@.subrange(j as int, n as int);
        if t.len() > 0 {
            assert(t[0] == line@[j as int]);
        }
        assert(strip_backticks_spec(t) == t);
    }
    String::from_str(line.substring_char(j, n))
}

/// Whether a line begins with three backticks.
fn line_is_fence(line: &str) -> (r: bool)
    ensures
        r == is_fence(line@),
{
    line.unicode_len() >= 3 && line.get_char(0) == '`' && line.get_char(1) == '`'
        && line.get_char(2) == '`'
}

/// Parses a markdown document into typed fragments, per
/// `parse_markdown_spec`.
pub fn parse_markdown_blocks(content: &str) -> (r: Vec<ParsedMarkdownBlock>)
    ensures
        r.deep_view() == parse_markdown_spec(content@),
{
    let lines = split_lines(content);
    let ghost lv = lines.deep_view();
    proof {
        assert(lv == spec_lines(content@));
    }
    let n = lines.len();
    let mut blocks: Vec<ParsedMarkdownBlock> = Vec::new();
    let mut current_text = String::new();
    let mut in_code_block = false;
    let mut code_language = String::new();
    let mut code_content = String::new();
    proof {
        assert(blocks.deep_view() =~= init_state().frags);
        assert(lv.take(0).len() == 0);
    }
    let mut i: usize = 0;
    while i < n
        invariant
            0 <= i <= n,
            n == lines@.len(),
            lv == lines.deep_view(),
            lv.len() == n,
            blocks.deep_view() == pfold(init_state(), lv.take(i as int)).frags,
            current_text@ == pfold(init_state(), lv.take(i as int)).text,
            in_code_block == pfold(init_state(), lv.take(i as int)).in_code,
            code_language@ == pfold(init_state(), lv.take(i as int)).lang,
            code_content@ == pfold(init_state(), lv.take(i as int)).code,
        decreases n - i,
    {
        let ghost st = pfold(init_state(), lv.take(i as int));
        let ghost st2 = pstep(st, lv[i as int]);
        proof {
            lemma_pfold_snoc(init_state(), lv, i as int);
            assert(lines@[i as int].deep_view() == lv[i as int]);
        }
        let line = &lines[i];
        if line_is_fence(line.as_str()) {
            if in_code_block {
                let language = if code_language.as_str().unicode_len() == 0 {
                    None
                } else {
                    Some(code_language.clone())
                };
                let frag = ParsedMarkdownBlock {
                    is_code: true,
                    language,
                    content: trim_end_str(code_content.as_str()),
                };
                proof {
                    assert(frag@ == code_fragment(st.lang, st.code));
                }
                blocks.push(frag);
                code_content = String::new();
                code_language = String::new();
                in_code_block = false;
                proof {
                    assert(blocks.deep_view() =~= st.frags.push(
                        code_fragment(st.lang, st.code),
                    ));
                }
            } else {
                let trimmed = trim_str(current_text.as_str());
                if trimmed.as_str().unicode_len() > 0 {
                    let frag = ParsedMarkdownBlock {
                        is_code: false,
                        language: None,
                        content: trimmed,
                    };
                    proof {
                        assert(frag@ == md_fragment(st.text));
                    }
                    blocks.push(frag);
                    proof {
                        assert(blocks.deep_view() =~= st.frags.push(md_fragment(st.text)));
                    }
                }
                current_text = String::new();
                code_language = strip_leading_backticks(line.as_str());
                in_code_block = true;
            }
        } else if in_code_block {
            if code_content.as_str().unicode_len() > 0 {
                code_content.append("\n");
                proof {
                    reveal_strlit("\n");
                    assert("\n"@ =~= seq!['\n']);
                }
            }
            code_content.append(line.as_str());
            proof {
                assert(code_content@ =~= append_line(st.code, lv[i as int]));
            }
        } else {
            if current_text.as_str().unicode_len() > 0 {
                current_text.append("\n");
                proof {
                    reveal_strlit("\n");
                    assert("\n"@ =~= seq!['\n']);
                }
            }
            current_text.append(line.as_str());
            proof {
                assert(current_text@ =~= append_line(st.text, lv[i as int]));
            }
        }
        i = i + 1;
        proof {
            assert(lv.take(i as int) =~= lv.take(i - 1).push(lv[i - 1]));
        }
    }
    proof {
        assert(lv.take(n as int) =~= lv);
    }
    let ghost st = pfold(init_state(), lv);
    if in_code_block {
        let language = if code_language.as_str().unicode_len() == 0 {
            None
        } else {
            Some(code_language)
        };
        let frag = ParsedMarkdownBlock {
            is_code: true,
            language,
            content: trim_end_str(code_content.as_str()),
        };
        proof {
            assert(frag@ == code_fragment(st.lang, st.code));
        }
        blocks.push(frag);
        proof {
            assert(blocks.deep_view() =~= st.frags.push(code_fragment(st.lang, st.code)));
        }
    } else {
        let trimmed = trim_str(current_text.as_str());
        if trimmed.as_str().unicode_len() > 0 {
            let frag = ParsedMarkdownBlock { is_code: false, language: None, content: trimmed };
            proof {
                assert(frag@ == md_fragment(st.text));
            }
            blocks.push(frag);
            proof {
                assert(blocks.deep_view() =~= st.frags.push(md_fragment(st.text)));
            }
        }
    }
    blocks
}

} // verus!
