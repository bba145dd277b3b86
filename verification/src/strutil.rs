//! String helpers the store's logic is built on: character classification,
//! trimming, line splitting, suffix stripping, equality and concatenation,
//! and the path-name conventions (final component, stem, extension).
//!
//! Each executable function is proved against a spec function that defines
//! the operation over the string's view, a `Seq<char>`.

use vstd::prelude::*;

verus! {

/// The characters Rust's `char::is_whitespace` accepts: the Unicode
/// `White_Space` set.
pub open spec fn is_ws(c: char) -> bool {
    c == ' ' || c == '\t' || c == '\n' || c == '\r' || c == '\u{0b}' || c == '\u{0c}'
        || c == '\u{85}' || c == '\u{a0}' || c == '\u{1680}'
        || (0x2000 <= c as u32 && c as u32 <= 0x200a)
        || c == '\u{2028}' || c == '\u{2029}' || c == '\u{202f}' || c == '\u{205f}'
        || c == '\u{3000}'
}

/// Decides `is_ws`.
pub fn is_ws_char(c: char) -> (r: bool)
    ensures
        r == is_ws(c),
{
    c == ' ' || c == '\t' || c == '\n' || c == '\r' || c == '\u{0b}' || c == '\u{0c}'
        || c == '\u{85}' || c == '\u{a0}' || c == '\u{1680}'
        || ('\u{2000}' <= c && c <= '\u{200a}')
        || c == '\u{2028}' || c == '\u{2029}' || c == '\u{202f}' || c == '\u{205f}'
        || c == '\u{3000}'
}

/// `s` with leading whitespace removed.
pub open spec fn trim_start_spec(s: Seq<char>) -> Seq<char>
    decreases s.len(),
{
    if s.len() > 0 && is_ws(s[0]) {
        trim_start_spec(s.drop_first())
    } else {
        s
    }
}

/// `s` with trailing whitespace removed.
pub open spec fn trim_end_spec(s: Seq<char>) -> Seq<char>
    decreases s.len(),
{
    if s.len() > 0 && is_ws(s[s.len() - 1]) {
        trim_end_spec(s.drop_last())
    } else {
        s
    }
}

/// `s` with whitespace removed at both ends, as `str::trim` does.
pub open spec fn trim_spec(s: Seq<char>) -> Seq<char> {
    trim_end_spec(trim_start_spec(s))
}

proof fn lemma_trim_start_step(s: Seq<char>, i: int)
    requires
        0 <= i < s.len(),
        forall|j: int| 0 <= j < i ==> is_ws(s[j]),
        is_ws(s[i]),
    ensures
        trim_start_spec(s.subrange(i, s.len() as int)) == trim_start_spec(
            s.subrange(i + 1, s.len() as int),
        ),
{
    let t = s.subrange(i, s.len() as int);
    assert(t.drop_first() =~= s.subrange(i + 1, s.len() as int));
}

proof fn lemma_trim_start_prefix(s: Seq<char>, i: int)
    requires
        0 <= i <= s.len(),
        forall|j: int| 0 <= j < i ==> is_ws(s[j]),
    ensures
        trim_start_spec(s) == trim_start_spec(s.subrange(i, s.len() as int)),
    decreases i,
{
    if i == 0 {
        assert(s.subrange(0, s.len() as int) =~= s);
    } else {
        lemma_trim_start_prefix(s, i - 1);
        lemma_trim_start_step(s, i - 1);
    }
}

proof fn lemma_trim_end_step(s: Seq<char>, i: int, j: int)
    requires
        0 <= i < j <= s.len(),
        is_ws(s[j - 1]),
    ensures
        trim_end_spec(s.subrange(i, j)) == trim_end_spec(s.subrange(i, j - 1)),
{
    let t = s.subrange(i, j);
    assert(t.drop_last() =~= s.subrange(i, j - 1));
}

/// Trims whitespace from both ends, as `str::trim` does.
pub fn trim_str(s: &str) -> (r: String)
    ensures
        r@ == trim_spec(s@),
{
    let n = s.unicode_len();
    let mut i: usize = 0;
    while i < n && is_ws_char(s.get_char(i))
        invariant
            0 <= i <= n,
            n == s@.len(),
            forall|j: int| 0 <= j < i ==> is_ws(s@[j]),
        decreases n - i,
    {
        i = i + 1;
    }
    proof {
        lemma_trim_start_prefix(s@, i as int);
        let t = s@.subrange(i as int, n as int);
        if t.len() > 0 {
            assert(!is_ws(t[0]));
        }
        assert(trim_start_spec(t) == t);
    }
    let mut j: usize = n;
    while j > i && is_ws_char(s.get_char(j - 1))
        invariant
            i <= j <= n,
            n == s@.len(),
            trim_end_spec(s@.subrange(i as int, n as int)) == trim_end_spec(
                s@.subrange(i as int, j as int),
            ),
        decreases j,
    {
        proof {
            lemma_trim_end_step(s@, i as int, j as int);
        }
        j = j - 1;
    }
    proof {
        let t = s@.subrange(i as int, j as int);
        if t.len() > 0 {
            assert(!is_ws(t[t.len() - 1]));
        }
        assert(trim_end_spec(t) == t);
    }
    String::from_str(s.substring_char(i, j))
}

/// Trims whitespace from the end only, as `str::trim_end` does.
pub fn trim_end_str(s: &str) -> (r: String)
    ensures
        r@ == trim_end_spec(s@),
{
    let n = s.unicode_len();
    proof {
        assert(s@.subrange(0, n as int) =~= s@);
    }
    let mut j: usize = n;
    while j > 0 && is_ws_char(s.get_char(j - 1))
        invariant
            0 <= j <= n,
            n == s@.len(),
            trim_end_spec(s@) == trim_end_spec(s@.subrange(0, j as int)),
        decreases j,
    {
        proof {
            assert(s@.subrange(0, n as int) =~= s@);
            lemma_trim_end_step(s@, 0, j as int);
        }
        j = j - 1;
    }
    proof {
        assert(s@.subrange(0, n as int) =~= s@);
        let t = s@.subrange(0, j as int);
        if t.len() > 0 {
            assert(!is_ws(t[t.len() - 1]));
        }
        assert(trim_end_spec(t) == t);
    }
    String::from_str(s.substring_char(0, j))
}

/// Character-for-character string equality.
pub fn str_eq(a: &str, b: &str) -> (r: bool)
    ensures
        r == (a@ == b@),
{
    let na = a.unicode_len();
    let nb = b.unicode_len();
    if na != nb {
        return false;
    }
    let mut i: usize = 0;
    while i < na
        invariant
            0 <= i <= na,
            na == a@.len(),
            na == b@.len(),
            forall|j: int| 0 <= j < i ==> a@[j] == b@[j],
        decreases na - i,
    {
        if a.get_char(i) != b.get_char(i) {
            return false;
        }
        i = i + 1;
    }
    proof {
        assert(a@ =~= b@);
    }
    true
}

/// Whether `s` begins with `p`, over views.
pub fn starts_with_str(s: &str, p: &str) -> (r: bool)
    ensures
        r == p@.is_prefix_of(s@),
{
    let ns = s.unicode_len();
    let np = p.unicode_len();
    if np > ns {
        return false;
    }
    let mut i: usize = 0;
    while i < np
        invariant
            0 <= i <= np,
            np <= ns,
            ns == s@.len(),
            np == p@.len(),
            forall|j: int| 0 <= j < i ==> s@[j] == p@[j],
        decreases np - i,
    {
        if s.get_char(i) != p.get_char(i) {
            proof {
                assert(s@.subrange(0, np as int)[i as int] == s@[i as int]);
            }
            return false;
        }
        i = i + 1;
    }
    proof {
        assert(p@ =~= s@.subrange(0, np as int));
    }
    true
}

/// The index of the last occurrence of `c` in `s`, or `-1` if there is none.
pub open spec fn last_index_of(s: Seq<char>, c: char) -> int
    decreases s.len(),
{
    if s.len() == 0 {
        -1
    } else if s[s.len() - 1] == c {
        s.len() - 1
    } else {
        last_index_of(s.drop_last(), c)
    }
}

proof fn lemma_last_index_of_at(s: Seq<char>, c: char, k: int)
    requires
        -1 <= k < s.len(),
        k >= 0 ==> s[k] == c,
        forall|j: int| k < j < s.len() ==> s[j] != c,
    ensures
        last_index_of(s, c) == k,
    decreases s.len(),
{
    if s.len() == 0 {
    } else if k == s.len() - 1 {
    } else {
        let t = s.drop_last();
        assert forall|j: int| k < j < t.len() implies t[j] != c by {
            assert(t[j] == s[j]);
        }
        if k >= 0 {
            assert(t[k] == s[k]);
        }
        lemma_last_index_of_at(t, c, k);
    }
}

/// `s` without its trailing path separators.
pub open spec fn strip_trailing_slashes(s: Seq<char>) -> Seq<char>
    decreases s.len(),
{
    if s.len() > 0 && s[s.len() - 1] == '/' {
        strip_trailing_slashes(s.drop_last())
    } else {
        s
    }
}

/// The final component of a path: what stands after the last separator,
/// trailing separators ignored; `None` for an empty path or a bare run of
/// separators.
pub open spec fn file_name_spec(path: Seq<char>) -> Option<Seq<char>> {
    let t = strip_trailing_slashes(path);
    if t.len() == 0 {
        None
    } else {
        Some(t.subrange(last_index_of(t, '/') + 1, t.len() as int))
    }
}

/// The component before the final dot of a file name; the whole name when
/// the name has no dot, or only a leading one.
pub open spec fn stem_of(name: Seq<char>) -> Seq<char> {
    let d = last_index_of(name, '.');
    if d <= 0 {
        name
    } else {
        name.subrange(0, d)
    }
}

/// What stands after the final dot of a file name; `None` when the name has
/// no dot, or only a leading one.
pub open spec fn ext_of(name: Seq<char>) -> Option<Seq<char>> {
    let d = last_index_of(name, '.');
    if d <= 0 {
        None
    } else {
        Some(name.subrange(d + 1, name.len() as int))
    }
}

/// The stem of a path's final component.
pub open spec fn file_stem_spec(path: Seq<char>) -> Option<Seq<char>> {
    match file_name_spec(path) {
        Option::None => Option::None,
        Option::Some(n) => Option::Some(stem_of(n)),
    }
}

/// The extension of a path's final component.
pub open spec fn extension_spec(path: Seq<char>) -> Option<Seq<char>> {
    match file_name_spec(path) {
        Option::None => Option::None,
        Option::Some(n) => ext_of(n),
    }
}

/// The final component of a path, per `file_name_spec`.
pub fn path_file_name(path: &str) -> (r: Option<String>)
    ensures
        r.deep_view() == file_name_spec(path@),
{
    let n = path.unicode_len();
    proof {
        assert(path@.subrange(0, n as int) =~= path@);
    }
    let mut e: usize = n;
    while e > 0 && path.get_char(e - 1) == '/'
        invariant
            0 <= e <= n,
            n == path@.len(),
            strip_trailing_slashes(path@) == strip_trailing_slashes(path@.subrange(0, e as int)),
        decreases e,
    {
        proof {
            let t = path@.subrange(0, e as int);
            assert(t.drop_last() =~= path@.subrange(0, e - 1));
        }
        e = e - 1;
    }
    let ghost t = path@.subrange(0, e as int);
    proof {
        if t.len() > 0 {
            assert(t[t.len() - 1] == path@[e - 1]);
        }
        assert(strip_trailing_slashes(t) == t);
    }
    if e == 0 {
        return None;
    }
    let mut b: usize = e;
    while b > 0 && path.get_char(b - 1) != '/'
        invariant
            0 <= b <= e,
            e <= n,
            n == path@.len(),
            forall|j: int| b <= j < e ==> path@[j] != '/',
        decreases b,
    {
        b = b - 1;
    }
    proof {
        assert forall|j: int| b - 1 < j < t.len() implies t[j] != '/' by {
            assert(t[j] == path@[j]);
        }
        if b > 0 {
            assert(t[b - 1] == path@[b - 1]);
        }
        lemma_last_index_of_at(t, '/', b - 1);
    }
    let r = String::from_str(path.substring_char(b, e));
    proof {
        assert(r@ =~= t.subrange(last_index_of(t, '/') + 1, t.len() as int));
    }
    Some(r)
}

/// The index just after the last dot of `name`, or `0` when `name` has no
/// dot or only a leading one; used to split stem and extension.
fn name_dot_split(name: &str) -> (d: usize)
    ensures
        d == 0 ==> last_index_of(name@, '.') <= 0,
        d > 0 ==> d < name@.len() + 1 && last_index_of(name@, '.') == d - 1 && d - 1 > 0,
{
    let n = name.unicode_len();
    let mut b: usize = n;
    while b > 0 && name.get_char(b - 1) != '.'
        invariant
            0 <= b <= n,
            n == name@.len(),
            forall|j: int| b <= j < n ==> name@[j] != '.',
        decreases b,
    {
        b = b - 1;
    }
    proof {
        lemma_last_index_of_at(name@, '.', b - 1);
    }
    if b <= 1 {
        0
    } else {
        b
    }
}

/// The stem of a path's final component, per `file_stem_spec`.
pub fn path_file_stem(path: &str) -> (r: Option<String>)
    ensures
        r.deep_view() == file_stem_spec(path@),
{
    match path_file_name(path) {
        None => None,
        Some(name) => {
            let d = name_dot_split(name.as_str());
            if d == 0 {
                Some(name)
            } else {
                let r = String::from_str(name.as_str().substring_char(0, d - 1));
                Some(r)
            }
        },
    }
}

/// The extension of a path's final component, per `extension_spec`.
pub fn path_extension(path: &str) -> (r: Option<String>)
    ensures
        r.deep_view() == extension_spec(path@),
{
    match path_file_name(path) {
        None => None,
        Some(name) => {
            let d = name_dot_split(name.as_str());
            if d == 0 {
                None
            } else {
                let nl = name.as_str().unicode_len();
                let r = String::from_str(name.as_str().substring_char(d, nl));
                Some(r)
            }
        },
    }
}

/// The concatenation of two strings.
pub fn concat2(a: &str, b: &str) -> (r: String)
    ensures
        r@ == a@ + b@,
{
    let mut r = String::from_str(a);
    r.append(b);
    r
}

/// `l` without one trailing carriage return, if it has one.
pub open spec fn strip_cr(l: Seq<char>) -> Seq<char> {
    if l.len() > 0 && l[l.len() - 1] == '\r' {
        l.drop_last()
    } else {
        l
    }
}

/// The index of the first line feed in `s`, or `s.len()` if there is none.
pub open spec fn first_nl(s: Seq<char>) -> int
    decreases s.len(),
{
    if s.len() == 0 {
        0
    } else if s[0] == '\n' {
        0
    } else {
        1 + first_nl(s.drop_first())
    }
}

proof fn lemma_first_nl_bounds(s: Seq<char>)
    ensures
        0 <= first_nl(s) <= s.len(),
    decreases s.len(),
{
    if s.len() > 0 && s[0] != '\n' {
        lemma_first_nl_bounds(s.drop_first());
    }
}

proof fn lemma_first_nl_at(s: Seq<char>, k: int)
    requires
        0 <= k <= s.len(),
        forall|j: int| 0 <= j < k ==> s[j] != '\n',
        k < s.len() ==> s[k] == '\n',
    ensures
        first_nl(s) == k,
    decreases k,
{
    if s.len() == 0 {
    } else if k == 0 {
    } else {
        let t = s.drop_first();
        assert forall|j: int| 0 <= j < k - 1 implies t[j] != '\n' by {
            assert(t[j] == s[j + 1]);
        }
        lemma_first_nl_at(t, k - 1);
    }
}

/// The lines of `s`, split as `str::lines` splits them: at each line feed,
/// with a carriage return just before the line feed dropped, and without an
/// empty final line after a trailing line feed.
pub open spec fn spec_lines(s: Seq<char>) -> Seq<Seq<char>>
    decreases s.len(),
    via spec_lines_decreases
{
    if s.len() == 0 {
        Seq::empty()
    } else {
        let i = first_nl(s);
        if i == s.len() {
            seq![s]
        } else {
            seq![strip_cr(s.subrange(0, i))] + spec_lines(s.subrange(i + 1, s.len() as int))
        }
    }
}

#[via_fn]
proof fn spec_lines_decreases(s: Seq<char>) {
    lemma_first_nl_bounds(s);
}

/// How `spec_lines` splits at the first line feed.
pub proof fn lemma_spec_lines_split(s: Seq<char>, k: int)
    requires
        0 <= k < s.len(),
        forall|j: int| 0 <= j < k ==> s[j] != '\n',
        s[k] == '\n',
    ensures
        spec_lines(s) == seq![strip_cr(s.subrange(0, k))] + spec_lines(
            s.subrange(k + 1, s.len() as int),
        ),
{
    lemma_first_nl_at(s, k);
}

/// A nonempty string without line feeds is one line.
pub proof fn lemma_spec_lines_whole(s: Seq<char>)
    requires
        forall|j: int| 0 <= j < s.len() ==> s[j] != '\n',
        s.len() > 0,
    ensures
        spec_lines(s) == seq![s],
{
    lemma_first_nl_at(s, s.len() as int);
}

/// Splits into lines as `str::lines` does.
pub fn split_lines(s: &str) -> (r: Vec<String>)
    ensures
        r.deep_view() == spec_lines(s@),
{
    let n = s.unicode_len();
    let mut res: Vec<String> = Vec::new();
    let mut start: usize = 0;
    let mut i: usize = 0;
    proof {
        assert(s@.subrange(0, n as int) =~= s@);
        assert(res.deep_view() =~= Seq::<Seq<char>>::empty());
        assert(res.deep_view() + spec_lines(s@) =~= spec_lines(s@));
    }
    while i < n
        invariant
            0 <= start <= i <= n,
            n == s@.len(),
            forall|j: int| start <= j < i ==> s@[j] != '\n',
            spec_lines(s@) == res.deep_view() + spec_lines(s@.subrange(start as int, n as int)),
        decreases n - i,
    {
        if s.get_char(i) == '\n' {
            let ghost rest = s@.subrange(start as int, n as int);
            let line = if i > start && s.get_char(i - 1) == '\r' {
                s.substring_char(start, i - 1)
            } else {
                s.substring_char(start, i)
            };
            proof {
                assert forall|j: int| 0 <= j < i - start implies rest[j] != '\n' by {
                    assert(rest[j] == s@[start + j]);
                }
                assert(rest[i - start] == '\n');
                lemma_spec_lines_split(rest, i - start);
                assert(rest.subrange(0, i - start) =~= s@.subrange(start as int, i as int));
                assert(rest.subrange(i - start + 1, rest.len() as int) =~= s@.subrange(
                    i + 1,
                    n as int,
                ));
                if i > start && s@[i - 1] == '\r' {
                    assert(s@.subrange(start as int, i as int).drop_last() =~= s@.subrange(
                        start as int,
                        i - 1,
                    ));
                    assert(line@ == strip_cr(s@.subrange(start as int, i as int)));
                } else {
                    assert(line@ == strip_cr(s@.subrange(start as int, i as int)));
                }
            }
            let line_string = String::from_str(line);
            res.push(line_string);
            proof {
                assert(res.deep_view() =~= res.deep_view().drop_last().push(line@));
                assert(spec_lines(s@) =~= res.deep_view() + spec_lines(
                    s@.subrange(i + 1, n as int),
                ));
            }
            start = i + 1;
        }
        i = i + 1;
    }
    if start < n {
        let ghost rest = s@.subrange(start as int, n as int);
        let line = s.substring_char(start, n);
        proof {
            assert forall|j: int| 0 <= j < rest.len() implies rest[j] != '\n' by {
                assert(rest[j] == s@[start + j]);
            }
            lemma_spec_lines_whole(rest);
        }
        let line_string = String::from_str(line);
        res.push(line_string);
        proof {
            assert(res.deep_view() =~= res.deep_view().drop_last().push(line@));
            assert(spec_lines(s@) =~= res.deep_view());
        }
    } else {
        proof {
            assert(s@.subrange(start as int, n as int).len() == 0);
            assert(spec_lines(s@) =~= res.deep_view());
        }
    }
    res
}

/// `s` with every copy of the suffix `suf` removed from its end, as
/// `str::trim_end_matches` removes a string pattern.
pub open spec fn trim_end_matches_spec(s: Seq<char>, suf: Seq<char>) -> Seq<char>
    decreases s.len(),
{
    if suf.len() > 0 && suf.is_suffix_of(s) {
        trim_end_matches_spec(s.subrange(0, s.len() - suf.len()), suf)
    } else {
        s
    }
}

/// Removes every copy of `suf` from the end of `s`.
pub fn trim_end_matches_str(s: &str, suf: &str) -> (r: String)
    ensures
        r@ == trim_end_matches_spec(s@, suf@),
{
    let n = s.unicode_len();
    let m = suf.unicode_len();
    proof {
        assert(s@.subrange(0, n as int) =~= s@);
    }
    let mut end: usize = n;
    loop
        invariant
            0 <= end <= n,
            n == s@.len(),
            m == suf@.len(),
            trim_end_matches_spec(s@, suf@) == trim_end_matches_spec(
                s@.subrange(0, end as int),
                suf@,
            ),
        ensures
            0 <= end <= n,
            trim_end_matches_spec(s@, suf@) == s@.subrange(0, end as int),
        decreases end,
    {
        let ghost t = s@.subrange(0, end as int);
        if m == 0 || end < m {
            proof {
                assert(!(suf@.len() > 0 && suf@.is_suffix_of(t)));
                assert(trim_end_matches_spec(t, suf@) == t);
            }
            break;
        }
        let mut k: usize = 0;
        let mut matches_suffix = true;
        while k < m && matches_suffix
            invariant
                0 <= k <= m,
                m <= end <= n,
                n == s@.len(),
                m == suf@.len(),
                t == s@.subrange(0, end as int),
                matches_suffix ==> (forall|j: int| 0 <= j < k ==> s@[end - m + j] == suf@[j]),
                !matches_suffix ==> (exists|j: int| 0 <= j < m && s@[end - m + j] != suf@[j]),
            decreases m - k + (if matches_suffix { 1int } else { 0int }),
        {
            if s.get_char(end - m + k) != suf.get_char(k) {
                matches_suffix = false;
            } else {
                k = k + 1;
            }
        }
        if matches_suffix {
            proof {
                let w = t.subrange(t.len() - m, t.len() as int);
                assert forall|j: int| 0 <= j < m implies w[j] == suf@[j] by {
                    assert(w[j] == s@[end - m + j]);
                }
                assert(w =~= suf@);
                assert(suf@.is_suffix_of(t));
                assert(t.subrange(0, t.len() - m) =~= s@.subrange(0, (end - m) as int));
            }
            end = end - m;
        } else {
            proof {
                let w = t.subrange(t.len() - m, t.len() as int);
                let j = choose|j: int| 0 <= j < m && s@[end - m + j] != suf@[j];
                assert(w[j] == s@[end - m + j]);
                assert(w != suf@);
                assert(!suf@.is_suffix_of(t));
                assert(trim_end_matches_spec(t, suf@) == t);
            }
            break;
        }
    }
    String::from_str(s.substring_char(0, end))
}

/// The concatenation of three strings.
pub fn concat3(a: &str, b: &str, c: &str) -> (r: String)
    ensures
        r@ == a@ + b@ + c@,
{
    let mut r = String::from_str(a);
    r.append(b);
    r.append(c);
    r
}

} // verus!
