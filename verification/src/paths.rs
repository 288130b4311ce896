//! Path strings as character sequences: splitting off the last component,
//! taking the containing directory, and replacing characters that are unsafe
//! in file names.
//!
//! Paths are treated purely as text: the component after the last `/` or `\`
//! separator is the file name, and everything before it is the containing
//! directory. A trailing separator therefore means an empty file name.

use vstd::prelude::*;
use vstd::string::StrSliceExecFns;

use crate::strutil::push_char;
use crate::strutil::seqs_eq_nocase;
use crate::strutil::str_eq_ignore_ascii_case;

verus! {

/// `c` separates path components.
pub open spec fn is_sep(c: char) -> bool {
    c == '/' || c == '\\'
}

/// Index of the last separator in `p`, or -1 if `p` has none.
pub open spec fn last_sep_index(p: Seq<char>) -> int
    decreases p.len(),
{
    if p.len() == 0 {
        -1
    } else if is_sep(p.last()) {
        p.len() - 1
    } else {
        last_sep_index(p.drop_last())
    }
}

/// The text before the last separator: the containing directory. A path
/// without a separator has an empty parent; a separator in first position
/// (a root such as `/name`) keeps that separator as the parent.
pub open spec fn parent_of(p: Seq<char>) -> Seq<char> {
    let i = last_sep_index(p);
    if i < 0 {
        Seq::empty()
    } else if i == 0 {
        p.subrange(0, 1)
    } else {
        p.subrange(0, i)
    }
}

/// The text after the last separator: the file name.
pub open spec fn base_name_of(p: Seq<char>) -> Seq<char> {
    p.subrange(last_sep_index(p) + 1, p.len() as int)
}

pub proof fn lemma_last_sep_index_bounds(p: Seq<char>)
    ensures
        -1 <= last_sep_index(p) < p.len(),
        last_sep_index(p) >= 0 ==> is_sep(p[last_sep_index(p)]),
        forall|j: int| last_sep_index(p) < j < p.len() ==> !is_sep(p[j]),
    decreases p.len(),
{
    if p.len() == 0 {
    } else if is_sep(p.last())  {
    } else {
        lemma_last_sep_index_bounds(p.drop_last());
        assert(forall|j: int| 0 <= j < p.len() - 1 ==> p.drop_last()[j] == p[j]);
    }
}

proof fn lemma_last_sep_index_at(p: Seq<char>, i: int)
    requires
        0 <= i < p.len(),
        is_sep(p[i]),
        forall|j: int| i < j < p.len() ==> !is_sep(p[j]),
    ensures
        last_sep_index(p) == i,
    decreases p.len(),
{
    if i == p.len() - 1 {
    } else {
        assert(!is_sep(p.last()));
        assert(forall|j: int| 0 <= j < p.len() - 1 ==> p.drop_last()[j] == p[j]);
        lemma_last_sep_index_at(p.drop_last(), i);
    }
}

proof fn lemma_last_sep_index_none(p: Seq<char>)
    requires
        forall|j: int| 0 <= j < p.len() ==> !is_sep(p[j]),
    ensures
        last_sep_index(p) == -1,
    decreases p.len(),
{
    if p.len() > 0 {
        assert(forall|j: int| 0 <= j < p.len() - 1 ==> p.drop_last()[j] == p[j]);
        lemma_last_sep_index_none(p.drop_last());
    }
}

/// Does `c` separate path components?
pub fn is_sep_char(c: char) -> (r: bool)
    ensures
        r == is_sep(c),
{
    c == '/' || c == '\\'
}

/// Position of the last separator in `p`, if any.
fn find_last_sep(p: &str) -> (r: Option<usize>)
    ensures
        match r {
            Some(i) => i as int == last_sep_index(p@),
            None => last_sep_index(p@) == -1,
        },
{
    let len = p.unicode_len();
    let mut i: usize = len;
    while i > 0
        invariant
            len == p@.len(),
            i <= len,
            forall|j: int| i <= j < len ==> !is_sep(p@[j]),
        decreases i,
    {
        i = i - 1;
        if is_sep_char(p.get_char(i)) {
            proof {
                lemma_last_sep_index_at(p@, i as int);
            }
            return Some(i);
        }
    }
    proof {
        lemma_last_sep_index_none(p@);
    }
    None
}

/// The containing directory of `p`, as text before the last separator.
pub fn parent_dir(p: &str) -> (r: String)
    ensures
        r@ == parent_of(p@),
{
    proof {
        lemma_last_sep_index_bounds(p@);
    }
    match find_last_sep(p) {
        None => String::new(),
        Some(i) => {
            if i == 0 {
                p.substring_char(0, 1).to_owned()
            } else {
                p.substring_char(0, i).to_owned()
            }
        },
    }
}

/// The file name of `p`: the text after the last separator.
pub fn base_name(p: &str) -> (r: String)
    ensures
        r@ == base_name_of(p@),
{
    proof {
        lemma_last_sep_index_bounds(p@);
    }
    match find_last_sep(p) {
        None => {
            proof {
                assert(base_name_of(p@) =~= p@);
            }
            p.to_owned()
        },
        Some(i) => {
            let len = p.unicode_len();
            assert(i < len);
            p.substring_char(i + 1, len).to_owned()
        },
    }
}

/// `c` may not appear in a file or directory name.
pub open spec fn fs_unsafe_char(c: char) -> bool {
    c == '<' || c == '>' || c == ':' || c == '"' || c == '/' || c == '\\' || c == '|' || c == '?'
        || c == '*'
}

/// `s` with every filesystem-unsafe character replaced by an underscore.
pub open spec fn sanitized(s: Seq<char>) -> Seq<char> {
    s.map_values(|c: char| if fs_unsafe_char(c) { '_' } else { c })
}

/// May `c` appear in a file or directory name?
pub fn is_fs_unsafe_char(c: char) -> (r: bool)
    ensures
        r == fs_unsafe_char(c),
{
    c == '<' || c == '>' || c == ':' || c == '"' || c == '/' || c == '\\' || c == '|' || c == '?'
        || c == '*'
}

/// Replaces every filesystem-unsafe character of `s` by an underscore.
pub fn sanitize_component(s: &str) -> (r: String)
    ensures
        r@ == sanitized(s@),
{
    let len = s.unicode_len();
    let mut out = String::new();
    let mut i: usize = 0;
    while i < len
        invariant
            len == s@.len(),
            i <= len,
            out@ == sanitized(s@).subrange(0, i as int),
        decreases len - i,
    {
        let c = s.get_char(i);
        if is_fs_unsafe_char(c) {
            push_char(&mut out, '_');
        } else {
            push_char(&mut out, c);
        }
        proof {
            assert(sanitized(s@).subrange(0, i + 1) =~= sanitized(s@).subrange(0, i as int).push(
                sanitized(s@)[i as int],
            ));
        }
        i = i + 1;
    }
    proof {
        assert(sanitized(s@).subrange(0, len as int) =~= sanitized(s@));
    }
    out
}

/// `name` names the runtime interpreter binary, up to ASCII case.
pub open spec fn names_runtime_binary(name: Seq<char>) -> bool {
    seqs_eq_nocase(name, "node"@) || seqs_eq_nocase(name, "node.exe"@)
}

/// `p` with a trailing runtime-binary file name removed: a path whose last
/// component names the interpreter itself is resolved to its containing
/// directory; any other path is returned unchanged.
pub open spec fn stripped_executable(p: Seq<char>) -> Seq<char> {
    if names_runtime_binary(base_name_of(p)) {
        parent_of(p)
    } else {
        p
    }
}

/// Resolves a path that points at the runtime binary to the directory that
/// holds it; leaves every other path unchanged.
pub fn strip_executable_name(path_str: String) -> (r: String)
    ensures
        r@ == stripped_executable(path_str@),
{
    let bn = base_name(path_str.as_str());
    if str_eq_ignore_ascii_case(bn.as_str(), "node") || str_eq_ignore_ascii_case(
        bn.as_str(),
        "node.exe",
    ) {
        parent_dir(path_str.as_str())
    } else {
        path_str
    }
}

} // verus!
