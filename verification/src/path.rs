//! Paths as byte strings, handled lexically.
//!
//! A path is a run of components divided by separators. The operations here
//! look at the bytes only and never at a file system. They are meant for
//! normal paths, which hold no empty component and end in no separator; on
//! other paths they still give the result that the definitions below state.

use vstd::prelude::*;
use crate::bytes::{append, copy_bytes, slice, starts_with};

verus! {

/// The byte that divides the components of a path (`/`).
pub const SEPARATOR: u8 = 47;

/// The byte that starts an extension (`.`).
pub const DOT: u8 = 46;

/// The index of the last occurrence of `b` in `s`, or -1 where there is none.
pub open spec fn last_index_of(s: Seq<u8>, b: u8) -> int
    decreases s.len(),
{
    if s.len() == 0 {
        -1
    } else if s.last() == b {
        s.len() - 1
    } else {
        last_index_of(s.drop_last(), b)
    }
}

/// What `last_index_of` finds is an occurrence, and none follows it.
pub proof fn lemma_last_index_of(s: Seq<u8>, b: u8)
    ensures
        -1 <= last_index_of(s, b) < s.len(),
        last_index_of(s, b) >= 0 ==> s[last_index_of(s, b)] == b,
        forall|j: int| last_index_of(s, b) < j < s.len() ==> s[j] != b,
    decreases s.len(),
{
    if s.len() > 0 && s.last() != b {
        let front = s.drop_last();
        lemma_last_index_of(front, b);
        assert forall|j: int| last_index_of(s, b) < j < s.len() implies s[j] != b by {
            if j < front.len() {
                assert(front[j] == s[j]);
            }
        }
    }
}

/// An occurrence that none follows is the one that `last_index_of` finds.
pub proof fn lemma_last_index_of_is(s: Seq<u8>, b: u8, i: int)
    requires
        -1 <= i < s.len(),
        i >= 0 ==> s[i] == b,
        forall|j: int| i < j < s.len() ==> s[j] != b,
    ensures
        last_index_of(s, b) == i,
{
    lemma_last_index_of(s, b);
}

/// Finds the last occurrence of `b` in `s`.
pub fn find_last(s: &[u8], b: u8) -> (r: Option<usize>)
    ensures
        match r {
            Some(i) => i < s.len() && last_index_of(s@, b) == i,
            None => last_index_of(s@, b) == -1,
        },
{
    let mut i: usize = s.len();
    while i > 0
        invariant
            i <= s.len(),
            forall|j: int| i <= j < s.len() ==> s@[j] != b,
        decreases i,
    {
        i -= 1;
        if s[i] == b {
            proof {
                lemma_last_index_of_is(s@, b, i as int);
            }
            return Some(i);
        }
    }
    proof {
        lemma_last_index_of_is(s@, b, -1);
    }
    None
}

/// Whether the path starts at the root.
pub open spec fn is_absolute(p: Seq<u8>) -> bool {
    p.len() > 0 && p[0] == SEPARATOR
}

/// Whether the path is normal: no component is empty, and no separator ends
/// it unless it is the root itself.
pub open spec fn is_normal(p: Seq<u8>) -> bool {
    &&& forall|i: int| 0 <= i < p.len() - 1 ==> !(p[i] == SEPARATOR && #[trigger] p[i + 1] == SEPARATOR)
    &&& (p.len() > 1 ==> p.last() != SEPARATOR)
}

/// Whether the path does not start at the root.
pub fn is_relative(p: &[u8]) -> (r: bool)
    ensures
        r == !is_absolute(p@),
{
    p.len() == 0 || p[0] != SEPARATOR
}

/// `rel` seen from `base`: an absolute `rel` stands for itself, any other
/// follows `base` after a separator, which is added unless `base` is empty or
/// ends in one.
pub open spec fn spec_join(base: Seq<u8>, rel: Seq<u8>) -> Seq<u8> {
    if is_absolute(rel) {
        rel
    } else if base.len() == 0 || base.last() == SEPARATOR {
        base + rel
    } else {
        base + seq![SEPARATOR] + rel
    }
}

/// Joins `rel` onto `base`.
pub fn join(base: &[u8], rel: &[u8]) -> (r: Vec<u8>)
    ensures
        r@ == spec_join(base@, rel@),
{
    if !is_relative(rel) {
        copy_bytes(rel)
    } else {
        let mut r = copy_bytes(base);
        if base.len() > 0 && base[base.len() - 1] != SEPARATOR {
            r.push(SEPARATOR);
            assert(r@ =~= base@ + seq![SEPARATOR]);
        }
        append(&mut r, rel);
        r
    }
}

/// The path without its last component: nothing for the empty path and for
/// the root, the empty path for a single relative component, the root for a
/// component directly under it.
pub open spec fn spec_parent(p: Seq<u8>) -> Option<Seq<u8>> {
    let i = last_index_of(p, SEPARATOR);
    if p.len() == 0 {
        None
    } else if i < 0 {
        Some(Seq::empty())
    } else if i == 0 {
        if p.len() == 1 {
            None
        } else {
            Some(p.subrange(0, 1))
        }
    } else {
        Some(p.subrange(0, i))
    }
}

/// A parent is a proper prefix of its path.
pub proof fn lemma_parent_shorter(p: Seq<u8>)
    ensures
        spec_parent(p) matches Some(up) ==> up.len() < p.len() && up.is_prefix_of(p),
{
    lemma_last_index_of(p, SEPARATOR);
}

/// The path without its last component.
pub fn parent(p: &[u8]) -> (r: Option<Vec<u8>>)
    ensures
        match r {
            Some(up) => spec_parent(p@) == Some(up@),
            None => spec_parent(p@) is None,
        },
{
    if p.len() == 0 {
        return None;
    }
    match find_last(p, SEPARATOR) {
        None => Some(Vec::new()),
        Some(i) => {
            if i == 0 {
                if p.len() == 1 {
                    None
                } else {
                    Some(slice(p, 0, 1))
                }
            } else {
                Some(slice(p, 0, i))
            }
        },
    }
}

/// What is left of `p` below `base`, where `base` is `p` itself or ends at a
/// boundary between two of its components; nothing where it does not.
pub open spec fn spec_strip_prefix(p: Seq<u8>, base: Seq<u8>) -> Option<Seq<u8>> {
    if !base.is_prefix_of(p) {
        None
    } else if base.len() == 0 {
        Some(p)
    } else if base.len() == p.len() {
        Some(Seq::empty())
    } else if base.last() == SEPARATOR {
        Some(p.subrange(base.len() as int, p.len() as int))
    } else if p[base.len() as int] == SEPARATOR {
        Some(p.subrange(base.len() as int + 1, p.len() as int))
    } else {
        None
    }
}

/// Strips `base` from the front of `p`.
pub fn strip_prefix(p: &[u8], base: &[u8]) -> (r: Option<Vec<u8>>)
    ensures
        match r {
            Some(rest) => spec_strip_prefix(p@, base@) == Some(rest@),
            None => spec_strip_prefix(p@, base@) is None,
        },
{
    if !starts_with(p, base) {
        None
    } else if base.len() == 0 {
        Some(copy_bytes(p))
    } else if base.len() == p.len() {
        Some(Vec::new())
    } else if base[base.len() - 1] == SEPARATOR {
        Some(slice(p, base.len(), p.len()))
    } else if p[base.len()] == SEPARATOR {
        Some(slice(p, base.len() + 1, p.len()))
    } else {
        None
    }
}

/// Where the last component of `p` begins.
pub open spec fn name_start(p: Seq<u8>) -> int {
    last_index_of(p, SEPARATOR) + 1
}

/// The last component of `p`, unless it is empty, `.` or `..`.
pub open spec fn spec_file_name(p: Seq<u8>) -> Option<Seq<u8>> {
    let name = p.subrange(name_start(p), p.len() as int);
    if name.len() == 0 || name == seq![DOT] || name == seq![DOT, DOT] {
        None
    } else {
        Some(name)
    }
}

/// The index in `p` of the dot that starts the extension: the last dot of the
/// file name, unless the name begins with it.
pub open spec fn extension_dot(p: Seq<u8>) -> Option<int> {
    match spec_file_name(p) {
        None => None,
        Some(name) => {
            let d = last_index_of(name, DOT);
            if d <= 0 {
                None
            } else {
                Some(name_start(p) + d)
            }
        },
    }
}

/// The extension of `p`: what follows the dot that starts it.
pub open spec fn spec_extension(p: Seq<u8>) -> Option<Seq<u8>> {
    match extension_dot(p) {
        Some(d) => Some(p.subrange(d + 1, p.len() as int)),
        None => None,
    }
}

/// `p` with its extension replaced by `ext`, or given `ext` where it has
/// none. An empty `ext` only removes. A path without a file name stays as it
/// is.
pub open spec fn with_extension(p: Seq<u8>, ext: Seq<u8>) -> Seq<u8> {
    if spec_file_name(p) is None {
        p
    } else {
        let stem = match extension_dot(p) {
            Some(d) => p.subrange(0, d),
            None => p,
        };
        if ext.len() == 0 {
            stem
        } else {
            stem + seq![DOT] + ext
        }
    }
}

/// The start of the file name of `p`, where it has one.
fn locate_name(p: &[u8]) -> (r: Option<usize>)
    ensures
        match r {
            Some(start) => spec_file_name(p@) is Some && start == name_start(p@) && start < p.len(),
            None => spec_file_name(p@) is None,
        },
{
    let start: usize = match find_last(p, SEPARATOR) {
        Some(i) => i + 1,
        None => 0,
    };
    proof {
        lemma_last_index_of(p@, SEPARATOR);
    }
    let len: usize = p.len() - start;
    let ghost name = p@.subrange(start as int, p@.len() as int);
    if len == 0 {
        None
    } else if len == 1 && p[start] == DOT {
        assert(name =~= seq![DOT]);
        None
    } else if len == 2 && p[start] == DOT && p[start + 1] == DOT {
        assert(name =~= seq![DOT, DOT]);
        None
    } else {
        assert(name != seq![DOT]) by {
            if name == seq![DOT] {
                assert(name.len() == 1 && name[0] == DOT);
            }
        }
        assert(name != seq![DOT, DOT]) by {
            if name == seq![DOT, DOT] {
                assert(name.len() == 2 && name[0] == DOT && name[1] == DOT);
            }
        }
        Some(start)
    }
}

/// The index of the dot that starts the extension of `p`, where it has one.
fn locate_extension(p: &[u8]) -> (r: Option<usize>)
    ensures
        match r {
            Some(d) => d < p.len() && extension_dot(p@) == Some(d as int),
            None => extension_dot(p@) is None,
        },
{
    match locate_name(p) {
        None => None,
        Some(start) => {
            let name = slice(p, start, p.len());
            proof {
                lemma_last_index_of(name@, DOT);
            }
            match find_last(name.as_slice(), DOT) {
                None => None,
                Some(d) => {
                    if d == 0 {
                        None
                    } else {
                        Some(start + d)
                    }
                },
            }
        },
    }
}

/// The file name of `p`.
pub fn file_name(p: &[u8]) -> (r: Option<Vec<u8>>)
    ensures
        match r {
            Some(name) => spec_file_name(p@) == Some(name@),
            None => spec_file_name(p@) is None,
        },
{
    match locate_name(p) {
        None => None,
        Some(start) => Some(slice(p, start, p.len())),
    }
}

/// The extension of `p`.
pub fn extension(p: &[u8]) -> (r: Option<Vec<u8>>)
    ensures
        match r {
            Some(ext) => spec_extension(p@) == Some(ext@),
            None => spec_extension(p@) is None,
        },
{
    match locate_extension(p) {
        None => None,
        Some(d) => Some(slice(p, d + 1, p.len())),
    }
}

/// Replaces the extension of `p` by `ext`. Says whether `p` has a file name,
/// without which it is left as it was.
pub fn set_extension(p: &mut Vec<u8>, ext: &[u8]) -> (changed: bool)
    ensures
        final(p)@ == with_extension(old(p)@, ext@),
        changed == (spec_file_name(old(p)@) is Some),
{
    if locate_name(p.as_slice()).is_none() {
        return false;
    }
    match locate_extension(p.as_slice()) {
        Some(d) => {
            p.truncate(d);
        },
        None => {},
    }
    if ext.len() > 0 {
        p.push(DOT);
        append(p, ext);
    }
    true
}

} // verus!
