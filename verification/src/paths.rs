//! Path strings as the engines see them: joining with `/`, extracting a file
//! name's extension, taking a path's parent, and the names of the reserved
//! artifacts the organizer keeps inside a target directory.

use vstd::prelude::*;
use crate::text::{contains_char, spec_contains_char, str_eq};

verus! {

/// Join two path pieces with a single `/`.
pub open spec fn spec_join(a: Seq<char>, b: Seq<char>) -> Seq<char> {
    a + seq!['/'] + b
}

/// Join two path pieces with a single `/`.
pub fn join(a: &str, b: &str) -> (r: String)
    ensures
        r@ == spec_join(a@, b@),
{
    proof {
        reveal_strlit("/");
        assert("/"@ =~= seq!['/']);
    }
    let mut r = a.to_owned();
    r.append("/");
    r.append(b);
    proof {
        assert(r@ =~= spec_join(a@, b@));
    }
    r
}

/// Joining distinct names under one directory gives distinct paths.
pub proof fn lemma_join_injective(dir: Seq<char>, a: Seq<char>, b: Seq<char>)
    requires
        a != b,
    ensures
        spec_join(dir, a) != spec_join(dir, b),
{
    if spec_join(dir, a) == spec_join(dir, b) {
        assert(spec_join(dir, a).len() == dir.len() + 1 + a.len());
        assert(spec_join(dir, b).len() == dir.len() + 1 + b.len());
        assert(a.len() == b.len());
        assert forall|i: int| 0 <= i < a.len() implies a[i] == b[i] by {
            assert(spec_join(dir, a)[dir.len() + 1 + i] == a[i]);
            assert(spec_join(dir, b)[dir.len() + 1 + i] == b[i]);
        }
        assert(a =~= b);
    }
}

/// The last occurrence of a character is at exactly one position.
proof fn lemma_last_at_unique(s: Seq<char>, c: char, i: int, j: int)
    requires
        spec_is_last_at(s, c, i),
        spec_is_last_at(s, c, j),
    ensures
        i == j,
{
    if i < j {
        assert(s[j] != c);
    }
    if j < i {
        assert(s[i] != c);
    }
}

/// In `p/name`, where the name is a bare file name, the last `/` is the one
/// the join added.
proof fn lemma_join_last_at(p: Seq<char>, name: Seq<char>)
    requires
        !spec_contains_char(name, '/'),
    ensures
        spec_is_last_at(spec_join(p, name), '/', p.len() as int),
{
    let t = spec_join(p, name);
    assert(t[p.len() as int] == '/');
    assert forall|j: int| p.len() < j < t.len() implies t[j] != '/' by {
        assert(t[j] == name[j - p.len() - 1]);
        assert(!spec_contains_char(name, '/'));
    }
}

/// The parent of `p/name` is `p` itself whenever the name is a bare file
/// name.
pub proof fn lemma_parent_of_join(p: Seq<char>, name: Seq<char>)
    requires
        !spec_contains_char(name, '/'),
    ensures
        spec_parent_of(spec_join(p, name)) == p,
{
    let t = spec_join(p, name);
    lemma_join_last_at(p, name);
    let i = choose|i: int| spec_is_last_at(t, '/', i);
    lemma_last_at_unique(t, '/', i, p.len() as int);
    assert(t.subrange(0, p.len() as int) =~= p);
}

/// A joined path determines its pieces: when both names are bare file
/// names, equal joins can only come from equal folders and equal names.
pub proof fn lemma_join_name_determines(
    p1: Seq<char>,
    n1: Seq<char>,
    p2: Seq<char>,
    n2: Seq<char>,
)
    requires
        !spec_contains_char(n1, '/'),
        !spec_contains_char(n2, '/'),
        spec_join(p1, n1) == spec_join(p2, n2),
    ensures
        p1 == p2,
        n1 == n2,
{
    lemma_parent_of_join(p1, n1);
    lemma_parent_of_join(p2, n2);
    let t = spec_join(p1, n1);
    assert(t.len() == p1.len() + 1 + n1.len());
    assert(t.len() == p2.len() + 1 + n2.len());
    assert(n1.len() == n2.len());
    assert forall|k: int| 0 <= k < n1.len() implies n1[k] == n2[k] by {
        assert(t[p1.len() + 1 + k] == n1[k]);
        assert(spec_join(p2, n2)[p2.len() + 1 + k] == n2[k]);
    }
    assert(n1 =~= n2);
}

/// Position `i` holds the last occurrence of `c` in `s`.
pub open spec fn spec_is_last_at(s: Seq<char>, c: char, i: int) -> bool {
    &&& 0 <= i < s.len()
    &&& s[i] == c
    &&& forall|j: int| i < j < s.len() ==> s[j] != c
}

/// Index of the last occurrence of `c` in `s`, if any.
pub fn find_last(s: &str, c: char) -> (r: Option<usize>)
    ensures
        match r {
            Some(k) => spec_is_last_at(s@, c, k as int),
            None => !spec_contains_char(s@, c),
        },
{
    let len = s.unicode_len();
    let mut i: usize = len;
    while i > 0
        invariant
            len == s@.len(),
            i <= len,
            forall|j: int| i <= j < len ==> s@[j] != c,
        decreases i,
    {
        i -= 1;
        if s.get_char(i) == c {
            return Some(i);
        }
    }
    None
}

/// A file name's extension: what follows the last `.`, unless that dot is the
/// leading character (a dotfile has no extension) or there is no dot at all.
/// The extension is returned as written, not normalized.
pub open spec fn spec_extension_of(name: Seq<char>) -> Option<Seq<char>> {
    if exists|i: int| 1 <= i && spec_is_last_at(name, '.', i) {
        let i = choose|i: int| 1 <= i && spec_is_last_at(name, '.', i);
        Some(name.subrange(i + 1, name.len() as int))
    } else {
        None
    }
}

/// Extract a file name's extension, if it has one.
pub fn extension_of(name: &str) -> (r: Option<String>)
    ensures
        match r {
            Some(e) => spec_extension_of(name@) == Some(e@),
            None => spec_extension_of(name@) is None,
        },
{
    let len = name.unicode_len();
    match find_last(name, '.') {
        Some(k) => {
            if k >= 1 {
                let ext = name.substring_char(k + 1, len);
                proof {
                    let i = choose|i: int| 1 <= i && spec_is_last_at(name@, '.', i);
                    assert(spec_is_last_at(name@, '.', k as int));
                    if i < k {
                        assert(name@[k as int] != '.');
                    }
                    if i > k {
                        assert(name@[i] != '.');
                    }
                    assert(i == k);
                }
                Some(ext.to_owned())
            } else {
                proof {
                    if exists|i: int| 1 <= i && spec_is_last_at(name@, '.', i) {
                        let i = choose|i: int| 1 <= i && spec_is_last_at(name@, '.', i);
                        assert(name@[i] != '.');
                    }
                }
                None
            }
        },
        None => {
            proof {
                if exists|i: int| 1 <= i && spec_is_last_at(name@, '.', i) {
                    let i = choose|i: int| 1 <= i && spec_is_last_at(name@, '.', i);
                    assert(spec_contains_char(name@, '.'));
                }
            }
            None
        },
    }
}

/// The part of a path before its last `/`; empty when the path has no `/`.
pub open spec fn spec_parent_of(path: Seq<char>) -> Seq<char> {
    if exists|i: int| spec_is_last_at(path, '/', i) {
        let i = choose|i: int| spec_is_last_at(path, '/', i);
        path.subrange(0, i)
    } else {
        Seq::empty()
    }
}

/// The parent of a path: everything before the last `/`, or the empty string
/// for a bare name.
pub fn parent_of(path: &str) -> (r: String)
    ensures
        r@ == spec_parent_of(path@),
{
    match find_last(path, '/') {
        Some(k) => {
            let parent = path.substring_char(0, k);
            proof {
                let i = choose|i: int| spec_is_last_at(path@, '/', i);
                assert(spec_is_last_at(path@, '/', k as int));
                if i < k {
                    assert(path@[k as int] != '/');
                }
                if i > k {
                    assert(path@[i] != '/');
                }
                assert(i == k);
            }
            parent.to_owned()
        },
        None => {
            proof {
                if exists|i: int| spec_is_last_at(path@, '/', i) {
                    let i = choose|i: int| spec_is_last_at(path@, '/', i);
                    assert(spec_contains_char(path@, '/'));
                }
            }
            String::new()
        },
    }
}

/// Name of the move journal kept inside an organized directory.
pub open spec fn spec_journal_name() -> Seq<char> {
    ".neatify_log"@
}

/// Name of the move journal kept inside an organized directory.
pub fn journal_file_name() -> (r: String)
    ensures
        r@ == spec_journal_name(),
{
    ".neatify_log".to_owned()
}

/// Name of the backup folder an earlier design left behind; still treated as
/// reserved so it is never organized away.
pub open spec fn spec_backup_name() -> Seq<char> {
    ".organizer_backup"@
}

/// A directory entry the organizer itself owns and must never move.
pub open spec fn spec_is_reserved(name: Seq<char>) -> bool {
    name == spec_journal_name() || name == spec_backup_name()
}

/// Is this entry one of the organizer's own reserved artifacts?
pub fn is_reserved(name: &str) -> (r: bool)
    ensures
        r == spec_is_reserved(name@),
{
    str_eq(name, ".neatify_log") || str_eq(name, ".organizer_backup")
}

/// A path the journal's line format can carry: free of the `|` field
/// separator and of line breaks.
pub open spec fn spec_path_ok(s: Seq<char>) -> bool {
    !spec_contains_char(s, '|') && !spec_contains_char(s, '\n')
}

/// A character occurs in a concatenation exactly when it occurs in one of
/// the parts.
pub proof fn lemma_contains_concat(x: Seq<char>, y: Seq<char>, c: char)
    ensures
        spec_contains_char(x + y, c) == (spec_contains_char(x, c) || spec_contains_char(y, c)),
{
    if spec_contains_char(x, c) {
        let i = choose|i: int| 0 <= i < x.len() && x[i] == c;
        assert((x + y)[i] == c);
    }
    if spec_contains_char(y, c) {
        let i = choose|i: int| 0 <= i < y.len() && y[i] == c;
        assert((x + y)[x.len() + i] == c);
    }
    if spec_contains_char(x + y, c) {
        let i = choose|i: int| 0 <= i < (x + y).len() && (x + y)[i] == c;
        if i < x.len() {
            assert(x[i] == c);
        } else {
            assert(y[i - x.len()] == c);
        }
    }
}

/// Joining two clean pieces gives a clean path.
pub proof fn lemma_join_clean(a: Seq<char>, b: Seq<char>)
    requires
        spec_path_ok(a),
        spec_path_ok(b),
    ensures
        spec_path_ok(spec_join(a, b)),
{
    let sep = seq!['/'];
    assert(!spec_contains_char(sep, '|'));
    assert(!spec_contains_char(sep, '\n'));
    lemma_contains_concat(a, sep, '|');
    lemma_contains_concat(a + sep, b, '|');
    lemma_contains_concat(a, sep, '\n');
    lemma_contains_concat(a + sep, b, '\n');
}

/// Check that a path can be carried by the journal's line format.
pub fn path_ok(s: &str) -> (r: bool)
    ensures
        r == spec_path_ok(s@),
{
    !contains_char(s, '|') && !contains_char(s, '\n')
}

} // verus!
