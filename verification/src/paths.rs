//! Path-shaped strings: direction classification of a destination, base
//! filenames of source items, and joining an item's basename under a
//! directory destination.

use vstd::prelude::*;

verus! {

/// Which way a batch moves: a destination without a scheme prefix (or with
/// the explicit `file://` prefix) names a local path, anything else a remote
/// one.
#[derive(Clone, Copy, Debug, PartialEq, Eq, Structural)]
pub enum Direction {
    LocalPath,
    RemotePath,
}

/// A `scheme://` separator starts at index `i` of `s`.
pub open spec fn sep_at(s: Seq<char>, i: int) -> bool {
    &&& 0 <= i
    &&& i + 3 <= s.len()
    &&& s[i] == ':'
    &&& s[i + 1] == '/'
    &&& s[i + 2] == '/'
}

/// `s` carries some `scheme://` prefix.
pub open spec fn has_scheme(s: Seq<char>) -> bool {
    exists|i: int| sep_at(s, i)
}

/// `s` starts with the literal prefix `file://`. The four leading characters
/// rule out any earlier separator, so this is also "the first scheme is
/// `file`".
pub open spec fn file_scheme(s: Seq<char>) -> bool {
    &&& sep_at(s, 4)
    &&& s[0] == 'f'
    &&& s[1] == 'i'
    &&& s[2] == 'l'
    &&& s[3] == 'e'
}

/// The destination is local: no scheme at all, or the explicit `file` scheme.
pub open spec fn dest_is_local(s: Seq<char>) -> bool {
    !has_scheme(s) || file_scheme(s)
}

/// Direction a destination string dictates, as a spec-level value.
pub open spec fn direction_of(s: Seq<char>) -> Direction {
    if dest_is_local(s) {
        Direction::LocalPath
    } else {
        Direction::RemotePath
    }
}

/// Classify a destination string into a transfer direction. This happens once
/// per batch, before any worker starts.
pub fn classify(dest: &str) -> (d: Direction)
    ensures
        d == direction_of(dest@),
{
    let n = dest.unicode_len();
    let mut i: usize = 0;
    let mut found: Option<usize> = None;
    while i < n
        invariant
            n == dest@.len(),
            i <= n,
            match found {
                Some(j) => j < i && sep_at(dest@, j as int) && forall|k: int|
                    0 <= k < j ==> !sep_at(dest@, k),
                None => forall|k: int| 0 <= k < i ==> !sep_at(dest@, k),
            },
        decreases n - i,
    {
        if found.is_none() && n - i >= 3 {
            if dest.get_char(i) == ':' && dest.get_char(i + 1) == '/' && dest.get_char(i + 2)
                == '/' {
                found = Some(i);
            }
        }
        i += 1;
    }
    match found {
        None => {
            assert(forall|k: int| !sep_at(dest@, k));
            Direction::LocalPath
        },
        Some(j) => {
            if j == 4 && dest.get_char(0) == 'f' && dest.get_char(1) == 'i' && dest.get_char(2)
                == 'l' && dest.get_char(3) == 'e' {
                Direction::LocalPath
            } else {
                assert(!file_scheme(dest@));
                Direction::RemotePath
            }
        },
    }
}

/// The base filename of a path: everything after the last `/`, or the whole
/// string when it has no `/`.
pub open spec fn basename_of(s: Seq<char>) -> Seq<char>
    decreases s.len(),
{
    if s.len() == 0 {
        s
    } else if s.last() == '/' {
        Seq::empty()
    } else {
        basename_of(s.drop_last()).push(s.last())
    }
}

/// A suffix of `s` that starts right after the last `/` (or at the start when
/// there is none) is exactly the basename.
proof fn lemma_basename_is_suffix(s: Seq<char>, i: int)
    requires
        0 <= i <= s.len(),
        forall|j: int| i <= j < s.len() ==> s[j] != '/',
        i == 0 || s[i - 1] == '/',
    ensures
        basename_of(s) == s.subrange(i, s.len() as int),
    decreases s.len(),
{
    if i == s.len() {
        if s.len() == 0 {
            assert(basename_of(s) =~= s.subrange(i, s.len() as int));
        } else {
            assert(s.last() == '/');
            assert(basename_of(s) =~= s.subrange(i, s.len() as int));
        }
    } else {
        assert(s.last() != '/');
        let t = s.drop_last();
        lemma_basename_is_suffix(t, i);
        assert(basename_of(s) == basename_of(t).push(s.last()));
        assert(basename_of(t) == t.subrange(i, t.len() as int));
        assert(t.subrange(i, t.len() as int).push(s.last()) =~= s.subrange(i, s.len() as int));
    }
}

/// Extract the base filename of a source item.
pub fn basename(item: &str) -> (r: String)
    ensures
        r@ == basename_of(item@),
{
    let n = item.unicode_len();
    let mut i: usize = n;
    while i > 0 && item.get_char(i - 1) != '/'
        invariant
            n == item@.len(),
            i <= n,
            forall|j: int| i <= j < n ==> item@[j] != '/',
        decreases i,
    {
        i -= 1;
    }
    proof {
        lemma_basename_is_suffix(item@, i as int);
    }
    item.substring_char(i, n).to_owned()
}

/// `name` placed directly under the directory `dir`.
pub open spec fn joined(dir: Seq<char>, name: Seq<char>) -> Seq<char> {
    dir + seq!['/'] + name
}

/// Build `dir/name`.
pub fn join_under(dir: &str, name: &str) -> (r: String)
    ensures
        r@ == joined(dir@, name@),
{
    let mut r = dir.to_owned();
    r.append("/");
    r.append(name);
    proof {
        reveal_strlit("/");
        assert("/"@ =~= seq!['/']);
        assert(r@ =~= joined(dir@, name@));
    }
    r
}

/// Distinct names never collide under one directory: two items resolved into
/// the same directory share a target only when their basenames are equal.
pub proof fn lemma_join_under_injective(dir: Seq<char>, a: Seq<char>, b: Seq<char>)
    ensures
        joined(dir, a) == joined(dir, b) ==> a == b,
{
    if joined(dir, a) == joined(dir, b) {
        assert(a =~= joined(dir, a).subrange(dir.len() as int + 1, joined(dir, a).len() as int));
        assert(b =~= joined(dir, b).subrange(dir.len() as int + 1, joined(dir, b).len() as int));
    }
}

} // verus!
