//! File extensions of URL paths, and the extension filter.
//!
//! The extension of a path is what follows the last `.` of its final segment,
//! the segment being what follows the last `/`. Matching against the filter is
//! exact and case-sensitive; an empty filter accepts every path.

use vstd::prelude::*;
use crate::text::{last_position, lemma_last_position, to_chars};

verus! {

/// What follows the last `/` of `path`; the whole of `path` where it holds no
/// `/`.
pub open spec fn final_segment(path: Seq<char>) -> Seq<char> {
    path.skip(last_position(path, '/') + 1)
}

/// What follows the last `.` of the final segment of `path`; `None` where that
/// segment holds no `.`.
pub open spec fn extension_of(path: Seq<char>) -> Option<Seq<char>> {
    let segment = final_segment(path);
    let dot = last_position(segment, '.');
    if dot < 0 {
        None
    } else {
        Some(segment.skip(dot + 1))
    }
}

/// Whether a path passes the filter: every path passes the empty filter; a
/// non-empty one is passed by the paths whose extension is one of its members.
pub open spec fn passes_filter(path: Seq<char>, extensions: Seq<Seq<char>>) -> bool {
    extensions.len() == 0 || match extension_of(path) {
        Some(extension) => extensions.contains(extension),
        None => false,
    }
}

/// The final segment holds no `/`, and is the tail of the path.
pub proof fn lemma_final_segment(path: Seq<char>)
    ensures
        !final_segment(path).contains('/'),
        final_segment(path).len() <= path.len(),
        final_segment(path) == path.skip(path.len() - final_segment(path).len()),
{
    lemma_last_position(path, '/');
    let start = last_position(path, '/') + 1;
    let segment = final_segment(path);
    if segment.contains('/') {
        let k = choose|k: int| 0 <= k < segment.len() && segment[k] == '/';
        assert(path[start + k] == '/');
    }
}

/// An extension never holds a `.` or a `/`.
pub proof fn lemma_extension_is_plain(path: Seq<char>)
    requires
        extension_of(path) is Some,
    ensures
        !extension_of(path).unwrap().contains('.'),
        !extension_of(path).unwrap().contains('/'),
{
    lemma_final_segment(path);
    let segment = final_segment(path);
    lemma_last_position(segment, '.');
    let start = last_position(segment, '.') + 1;
    let extension = extension_of(path).unwrap();
    if extension.contains('.') {
        let k = choose|k: int| 0 <= k < extension.len() && extension[k] == '.';
        assert(segment[start + k] == '.');
    }
    if extension.contains('/') {
        let k = choose|k: int| 0 <= k < extension.len() && extension[k] == '/';
        assert(segment[start + k] == '/');
    }
}

/// A path whose final segment holds no `.` has no extension, and passes no
/// filter but the empty one.
pub proof fn lemma_no_dot_never_matches(path: Seq<char>, extensions: Seq<Seq<char>>)
    requires
        !final_segment(path).contains('.'),
        extensions.len() > 0,
    ensures
        extension_of(path) is None,
        !passes_filter(path, extensions),
{
    lemma_last_position(final_segment(path), '.');
}

/// Matching is exact: under a non-empty filter a path passes just when the
/// text after the last `.` of its final segment equals a member of the filter,
/// character for character.
pub proof fn lemma_filter_is_exact(path: Seq<char>, extensions: Seq<Seq<char>>)
    requires
        extensions.len() > 0,
    ensures
        passes_filter(path, extensions) <==> exists|i: int, dot: int|
            0 <= i < extensions.len() && 0 <= dot < final_segment(path).len()
                && final_segment(path)[dot] == '.'
                && #[trigger] extensions[i] == #[trigger] final_segment(path).skip(dot + 1)
                && !extensions[i].contains('.'),
{
    let segment = final_segment(path);
    lemma_last_position(segment, '.');
    let last = last_position(segment, '.');
    if passes_filter(path, extensions) {
        let extension = extension_of(path).unwrap();
        lemma_extension_is_plain(path);
        let i = choose|i: int| 0 <= i < extensions.len() && extensions[i] == extension;
        assert(extensions[i] == segment.skip(last + 1));
    }
    if exists|i: int, dot: int|
        0 <= i < extensions.len() && 0 <= dot < segment.len() && segment[dot] == '.'
            && #[trigger] extensions[i] == #[trigger] segment.skip(dot + 1)
            && !extensions[i].contains('.') {
        let (i, dot) = choose|i: int, dot: int|
            0 <= i < extensions.len() && 0 <= dot < segment.len() && segment[dot] == '.'
                && #[trigger] extensions[i] == #[trigger] segment.skip(dot + 1)
                && !extensions[i].contains('.');
        if dot < last {
            assert(segment.skip(dot + 1)[last - dot - 1] == '.');
        }
        assert(dot == last);
    }
}

/// The extension of a URL path.
pub fn path_extension(path: &str) -> (extension: Option<String>)
    ensures
        extension is Some <==> extension_of(path@) is Some,
        extension matches Some(e) ==> Some(e@) == extension_of(path@),
{
    let chars = to_chars(path);
    let n: usize = chars.len();
    let mut end: usize = n;
    while end > 0 && chars[end - 1] != '/' && chars[end - 1] != '.'
        invariant
            end <= n,
            n == chars@.len(),
            forall|j: int| end <= j < n ==> chars@[j] != '/' && chars@[j] != '.',
        decreases end,
    {
        end = end - 1;
    }
    proof {
        let s = path@;
        lemma_last_position(s, '/');
        let slash = last_position(s, '/');
        let segment = final_segment(s);
        lemma_last_position(segment, '.');
        if end > 0 && chars@[end - 1] == '.' {
            assert(slash < end - 1);
            assert(segment[end - 1 - (slash + 1)] == '.');
            assert forall|j: int| end - 1 - (slash + 1) < j < segment.len() implies segment[j]
                != '.' by {
                assert(segment[j] == s[j + slash + 1]);
            }
            assert(last_position(segment, '.') == end - 1 - (slash + 1));
            assert(segment.skip(end - 1 - (slash + 1) + 1) =~= s.subrange(end as int, n as int));
        } else {
            if end > 0 {
                assert(s[end - 1] == '/');
                assert(slash == end - 1);
            } else {
                assert(slash == -1);
            }
            assert forall|j: int| 0 <= j < segment.len() implies segment[j] != '.' by {
                assert(segment[j] == s[j + slash + 1]);
            }
        }
    }
    if end > 0 && chars[end - 1] == '.' {
        Some(path.substring_char(end, n).to_owned())
    } else {
        None
    }
}

/// Whether `candidate` equals a member of `extensions`.
pub fn is_listed(candidate: &String, extensions: &Vec<String>) -> (listed: bool)
    ensures
        listed == extensions.deep_view().contains(candidate@),
{
    let mut i: usize = 0;
    while i < extensions.len()
        invariant
            i <= extensions.len(),
            forall|j: int| 0 <= j < i ==> extensions.deep_view()[j] != candidate@,
        decreases extensions.len() - i,
    {
        assert(extensions.deep_view()[i as int] == extensions@[i as int]@);
        if *candidate == extensions[i] {
            return true;
        }
        i = i + 1;
    }
    false
}

/// Whether a URL path passes the extension filter.
pub fn has_allowed_extension(path: &str, extensions: &Vec<String>) -> (allowed: bool)
    ensures
        allowed == passes_filter(path@, extensions.deep_view()),
{
    if extensions.len() == 0 {
        return true;
    }
    match path_extension(path) {
        Some(extension) => is_listed(&extension, extensions),
        None => false,
    }
}

} // verus!
