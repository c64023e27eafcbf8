//! Slash-separated paths as text: directory prefix, file name, stem and
//! extension, and the cleaning of titles that become path components.
//!
//! A path is split at its last `/`. What follows is the file name. The file
//! name is split at its last `.`, unless that dot is its first character: the
//! part before is the stem, the part from the dot on is the extension, dot
//! included. A name without such a dot has an empty extension. The three
//! parts, put together again, give the path.

use vstd::prelude::*;
use crate::text::{chars_of, string_of, slice_of};

verus! {

/// The position of the last occurrence of `c` in `s`, or -1 where there is none.
pub open spec fn last_index_of(s: Seq<char>, c: char) -> int
    decreases s.len(),
{
    if s.len() == 0 {
        -1
    } else if s.last() == c {
        s.len() - 1
    } else {
        last_index_of(s.drop_last(), c)
    }
}

/// `last_index_of` names an occurrence of `c`, and no occurrence follows it.
pub proof fn lemma_last_index_of(s: Seq<char>, c: char)
    ensures
        -1 <= last_index_of(s, c) < s.len(),
        last_index_of(s, c) >= 0 ==> s[last_index_of(s, c)] == c,
        forall|j: int| last_index_of(s, c) < j < s.len() ==> s[j] != c,
    decreases s.len(),
{
    if s.len() > 0 && s.last() != c {
        lemma_last_index_of(s.drop_last(), c);
        assert forall|j: int| last_index_of(s, c) < j < s.len() implies s[j] != c by {
            if j < s.len() - 1 {
                assert(s.drop_last()[j] == s[j]);
            }
        }
    }
}

/// Where the file name of `path` begins: just after its last `/`.
pub open spec fn name_start(path: Seq<char>) -> int {
    last_index_of(path, '/') + 1
}

/// Where the extension of `path` begins; the length of `path` where it has none.
pub open spec fn ext_start(path: Seq<char>) -> int {
    let d = last_index_of(path, '.');
    if d > name_start(path) {
        d
    } else {
        path.len() as int
    }
}

/// The path up to and including its last `/`.
pub open spec fn dir_prefix(path: Seq<char>) -> Seq<char> {
    path.take(name_start(path))
}

/// The path after its last `/`.
pub open spec fn file_name(path: Seq<char>) -> Seq<char> {
    path.skip(name_start(path))
}

/// The file name without its extension.
pub open spec fn stem(path: Seq<char>) -> Seq<char> {
    path.subrange(name_start(path), ext_start(path))
}

/// The extension of the file name, leading dot included; empty where there is none.
pub open spec fn extension(path: Seq<char>) -> Seq<char> {
    path.skip(ext_start(path))
}

/// The directory that holds `path`: what stands before the last `/`, the root
/// `/` itself where the path lies directly under it, empty where `path` has no `/`.
pub open spec fn parent_dir(path: Seq<char>) -> Seq<char> {
    if name_start(path) <= 1 {
        path.take(name_start(path))
    } else {
        path.take(name_start(path) - 1)
    }
}

/// Where the last two components of `path` begin.
pub open spec fn tail_start(path: Seq<char>) -> int {
    if name_start(path) == 0 {
        0
    } else {
        name_start(path.take(name_start(path) - 1))
    }
}

/// The last two components of `path`: its file name and the directory that
/// holds it. The whole path where it has fewer than two `/`.
pub open spec fn last_two_components(path: Seq<char>) -> Seq<char> {
    path.skip(tail_start(path))
}

/// The bounds of the parts of a path.
pub proof fn lemma_path_parts(path: Seq<char>)
    ensures
        0 <= name_start(path) <= ext_start(path) <= path.len(),
        0 <= tail_start(path) <= name_start(path),
        path == dir_prefix(path) + stem(path) + extension(path),
        path == dir_prefix(path) + file_name(path),
        file_name(path) == stem(path) + extension(path),
        forall|j: int| name_start(path) <= j < path.len() ==> path[j] != '/',
        name_start(path) > 0 ==> path[name_start(path) - 1] == '/',
        ext_start(path) < path.len() ==> path[ext_start(path)] == '.',
{
    lemma_last_index_of(path, '/');
    lemma_last_index_of(path, '.');
    if name_start(path) > 0 {
        lemma_last_index_of(path.take(name_start(path) - 1), '/');
    }
    assert(path =~= dir_prefix(path) + stem(path) + extension(path));
    assert(path =~= dir_prefix(path) + file_name(path));
    assert(file_name(path) =~= stem(path) + extension(path));
}

/// A character that may not stand in a file name.
pub open spec fn is_reserved(c: char) -> bool {
    c == '/' || c == '\\' || c == ':' || c == '*' || c == '?' || c == '"' || c == '<' || c == '>'
        || c == '|'
}

/// `name` with every reserved character replaced by `-`.
pub open spec fn sanitized(name: Seq<char>) -> Seq<char> {
    name.map_values(|c: char| if is_reserved(c) { '-' } else { c })
}

/// Whether the file name of `path` begins with a dot.
pub open spec fn is_hidden(path: Seq<char>) -> bool {
    file_name(path).len() > 0 && file_name(path)[0] == '.'
}

/// The position of the last `c` among the first `upto` characters of `s`.
fn rfind(s: &Vec<char>, c: char, upto: usize) -> (r: Option<usize>)
    requires
        upto <= s.len(),
    ensures
        match r {
            Some(k) => k as int == last_index_of(s@.take(upto as int), c),
            None => last_index_of(s@.take(upto as int), c) == -1,
        },
{
    let mut i: usize = upto;
    while i > 0
        invariant
            i <= upto <= s.len(),
            last_index_of(s@.take(upto as int), c) == last_index_of(s@.take(i as int), c),
        decreases i,
    {
        if s[i - 1] == c {
            return Some(i - 1);
        }
        assert(s@.take(i as int).drop_last() =~= s@.take(i - 1));
        i -= 1;
    }
    None
}

/// Where the file name begins in `path`.
pub fn name_start_of(path: &Vec<char>) -> (r: usize)
    ensures
        r as int == name_start(path@),
        r <= path.len(),
{
    proof {
        lemma_last_index_of(path@, '/');
        assert(path@.take(path@.len() as int) =~= path@);
    }
    match rfind(path, '/', path.len()) {
        Some(k) => k + 1,
        None => 0,
    }
}

/// Where the extension begins in `path`.
pub fn ext_start_of(path: &Vec<char>) -> (r: usize)
    ensures
        r as int == ext_start(path@),
        name_start(path@) <= r <= path.len(),
{
    proof {
        lemma_last_index_of(path@, '.');
        lemma_last_index_of(path@, '/');
        assert(path@.take(path@.len() as int) =~= path@);
    }
    let n = name_start_of(path);
    match rfind(path, '.', path.len()) {
        Some(d) => if d > n {
            d
        } else {
            path.len()
        },
        None => path.len(),
    }
}

/// Where the last two components begin in `path`.
pub fn tail_start_of(path: &Vec<char>) -> (r: usize)
    ensures
        r as int == tail_start(path@),
        r <= path.len(),
{
    let n = name_start_of(path);
    if n == 0 {
        0
    } else {
        proof {
            lemma_last_index_of(path@.take(n - 1), '/');
        }
        match rfind(path, '/', n - 1) {
            Some(k) => k + 1,
            None => 0,
        }
    }
}

/// Replaces the characters that may not stand in a file name
/// (`/ \ : * ? " < > |`) by `-`.
pub fn sanitize_filename(name: &str) -> (out: String)
    ensures
        out@ == sanitized(name@),
{
    let src = chars_of(name);
    let mut out: Vec<char> = Vec::new();
    let mut i: usize = 0;
    while i < src.len()
        invariant
            i <= src.len(),
            src@ == name@,
            out@ == sanitized(name@).take(i as int),
        decreases src.len() - i,
    {
        let c = src[i];
        let r = if c == '/' || c == '\\' || c == ':' || c == '*' || c == '?' || c == '"' || c
            == '<' || c == '>' || c == '|' {
            '-'
        } else {
            c
        };
        out.push(r);
        assert(sanitized(name@).take(i as int).push(r) =~= sanitized(name@).take(i + 1));
        i += 1;
    }
    assert(sanitized(name@).take(src@.len() as int) =~= sanitized(name@));
    string_of(&out)
}

/// The file name of `path`.
pub fn file_name_of(path: &str) -> (out: String)
    ensures
        out@ == file_name(path@),
{
    let p = chars_of(path);
    let n = name_start_of(&p);
    string_of(&slice_of(&p, n, p.len()))
}

/// The stem of the file name of `path`.
pub fn stem_of(path: &str) -> (out: String)
    ensures
        out@ == stem(path@),
{
    let p = chars_of(path);
    let n = name_start_of(&p);
    let e = ext_start_of(&p);
    string_of(&slice_of(&p, n, e))
}

/// The extension of `path`, dot included; empty where it has none.
pub fn extension_of(path: &str) -> (out: String)
    ensures
        out@ == extension(path@),
{
    let p = chars_of(path);
    let e = ext_start_of(&p);
    string_of(&slice_of(&p, e, p.len()))
}

/// The path up to and including its last `/`.
pub fn dir_prefix_of(path: &str) -> (out: String)
    ensures
        out@ == dir_prefix(path@),
{
    let p = chars_of(path);
    let n = name_start_of(&p);
    string_of(&slice_of(&p, 0, n))
}

/// The directory that holds `path`.
pub fn parent_dir_of(path: &str) -> (out: String)
    ensures
        out@ == parent_dir(path@),
{
    let p = chars_of(path);
    let n = name_start_of(&p);
    if n <= 1 {
        string_of(&slice_of(&p, 0, n))
    } else {
        string_of(&slice_of(&p, 0, n - 1))
    }
}

/// The last two components of `path`.
pub fn last_two_components_of(path: &str) -> (out: String)
    ensures
        out@ == last_two_components(path@),
{
    let p = chars_of(path);
    let t = tail_start_of(&p);
    string_of(&slice_of(&p, t, p.len()))
}

/// Whether the file name of `path` begins with a dot.
pub fn is_hidden_path(path: &str) -> (r: bool)
    ensures
        r == is_hidden(path@),
{
    let p = chars_of(path);
    let n = name_start_of(&p);
    n < p.len() && p[n] == '.'
}

} // verus!
