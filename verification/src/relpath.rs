//! Path relativization for display.
//!
//! Given a canonical absolute note path and the current working directory,
//! render the path relative to that directory: `./<rest>` when the path lies
//! under it, otherwise `../..<...>/<rest>` through the nearest common
//! ancestor — except that a path directly under the file-system root is
//! shown unchanged.  Paths are plain character sequences here; the caller
//! supplies the working directory.

use vstd::prelude::*;
use vstd::string::{StrSliceExecFns, StringExecFns};

verus! {

/// The directory part of a path: everything before the last separator.
/// The root's parent, and the parent of a separator-free sequence, is the
/// empty sequence, which `dir_prefix` treats as the root.
pub open spec fn spec_parent(s: Seq<char>) -> Seq<char>
    decreases s.len(),
{
    if s.len() == 0 {
        Seq::empty()
    } else if s.last() == '/' {
        s.drop_last()
    } else {
        spec_parent(s.drop_last())
    }
}

/// A parent is strictly shorter than what it is the parent of.
pub proof fn lemma_parent_len(s: Seq<char>)
    requires
        s.len() > 0,
    ensures
        spec_parent(s).len() < s.len(),
    decreases s.len(),
{
    if s.last() != '/' {
        if s.len() > 1 {
            lemma_parent_len(s.drop_last());
        } else {
            assert(s.drop_last().len() == 0);
            assert(spec_parent(s.drop_last()).len() == 0);
        }
    }
}

/// Whether the path `p` lies strictly under the directory `d`.  The empty
/// sequence and `/` both denote the root, under which every absolute path
/// lies.
pub open spec fn dir_prefix(d: Seq<char>, p: Seq<char>) -> bool {
    if d.len() == 0 {
        p.len() >= 1 && p[0] == '/'
    } else if d.len() == 1 && d[0] == '/' {
        p.len() > 1 && p[0] == '/'
    } else {
        p.len() > d.len() && p.take(d.len() as int) == d && p[d.len() as int] == '/'
    }
}

/// The remainder of `p` once the directory `d` and its separator are
/// stripped off the front.
pub open spec fn rel_part(p: Seq<char>, d: Seq<char>) -> Seq<char> {
    if d.len() == 0 || (d.len() == 1 && d[0] == '/') {
        p.skip(1)
    } else {
        p.skip(d.len() as int + 1)
    }
}

/// Walking up from `anc` until it holds `p`, accumulating one `../` per
/// step, then appending the remainder of `p`.
pub open spec fn spec_climb(p: Seq<char>, anc: Seq<char>, prefix: Seq<char>) -> Seq<char>
    decreases anc.len(),
    via climb_decreases
{
    if anc.len() == 0 || dir_prefix(anc, p) {
        prefix + rel_part(p, anc)
    } else {
        spec_climb(p, spec_parent(anc), prefix + "../"@)
    }
}

#[via_fn]
proof fn climb_decreases(p: Seq<char>, anc: Seq<char>, prefix: Seq<char>) {
    if anc.len() > 0 {
        lemma_parent_len(anc);
    }
}

/// Whether `p` names a file directly under the file-system root.
pub open spec fn in_root(p: Seq<char>) -> bool {
    p.len() > 1 && p[0] == '/' && (forall|k: int| 1 <= k < p.len() ==> p[k] != '/')
}

/// What the relativization of path `p` against working directory `d`
/// displays.  A path that is not absolute cannot be relativized and is
/// shown unchanged.
pub open spec fn spec_rel_display(p: Seq<char>, d: Seq<char>) -> Seq<char> {
    if p.len() == 0 || p[0] != '/' {
        p
    } else if dir_prefix(d, p) {
        "./"@ + rel_part(p, d)
    } else if in_root(p) {
        p
    } else {
        spec_climb(p, spec_parent(d), "../"@)
    }
}

/// Strips the directory `d` (with its trailing separator) off the front of
/// `p`, if `p` lies under `d`.
fn strip_dir_prefix(p: &str, d: &str) -> (r: Option<String>)
    ensures
        match r {
            Some(s) => dir_prefix(d@, p@) && s@ == rel_part(p@, d@),
            None => !dir_prefix(d@, p@),
        },
{
    let plen = p.unicode_len();
    let dlen = d.unicode_len();
    if dlen == 0 || (dlen == 1 && d.get_char(0) == '/') {
        if plen > dlen && p.get_char(0) == '/' {
            let rest = p.substring_char(1, plen);
            proof {
                assert(rest@ =~= p@.skip(1));
                assert(rest@ == rel_part(p@, d@));
                assert(dir_prefix(d@, p@));
            }
            Some(String::from_str(rest))
        } else {
            None
        }
    } else {
        if plen <= dlen {
            return None;
        }
        let head = p.substring_char(0, dlen);
        if !crate::order::str_eq(head, d) {
            proof {
                assert(head@ =~= p@.take(dlen as int));
            }
            return None;
        }
        if p.get_char(dlen) != '/' {
            return None;
        }
        let rest = p.substring_char(dlen + 1, plen);
        proof {
            assert(head@ =~= p@.take(dlen as int));
            assert(rest@ =~= p@.skip(dlen as int + 1));
            assert(rest@ == rel_part(p@, d@));
            assert(dir_prefix(d@, p@));
        }
        Some(String::from_str(rest))
    }
}

/// The parent directory of `s`, as `spec_parent` describes it.
fn parent_of(s: &str) -> (r: String)
    ensures
        r@ == spec_parent(s@),
{
    let mut i = s.unicode_len();
    proof {
        assert(s@.take(i as int) =~= s@);
    }
    loop
        invariant
            i <= s@.len(),
            spec_parent(s@.take(i as int)) == spec_parent(s@),
        decreases i,
    {
        if i == 0 {
            return String::new();
        }
        let c = s.get_char(i - 1);
        proof {
            assert(s@.take(i as int).last() == s@[i - 1]);
            assert(s@.take(i as int).drop_last() =~= s@.take(i - 1));
        }
        if c == '/' {
            let par = s.substring_char(0, i - 1);
            proof {
                assert(par@ =~= s@.take(i - 1));
            }
            return String::from_str(par);
        }
        i = i - 1;
    }
}

/// Whether the path names a file directly under the file-system root.
pub fn is_in_root(p: &str) -> (r: bool)
    ensures
        r == in_root(p@),
{
    let plen = p.unicode_len();
    if plen <= 1 {
        return false;
    }
    if p.get_char(0) != '/' {
        return false;
    }
    let mut i: usize = 1;
    while i < plen
        invariant
            1 <= i <= plen,
            forall|k: int| 1 <= k < i ==> p@[k] != '/',
        decreases plen - i,
    {
        if p.get_char(i) == '/' {
            return false;
        }
        i = i + 1;
    }
    true
}

/// Converts an absolute path pointing to a file to a relative path based
/// on the given working directory, unless the path points to a file in
/// the root, which is returned unchanged.
pub fn abs_to_rel(path: &str, cwd: &str) -> (r: String)
    ensures
        r@ == spec_rel_display(path@, cwd@),
{
    let plen = path.unicode_len();
    if plen == 0 || path.get_char(0) != '/' {
        return String::from_str(path);
    }
    if let Some(rel) = strip_dir_prefix(path, cwd) {
        let mut s = String::from_str("./");
        s.append(rel.as_str());
        return s;
    }
    if is_in_root(path) {
        return String::from_str(path);
    }
    let mut prefix = String::from_str("../");
    let mut anc = parent_of(cwd);
    loop
        invariant
            spec_climb(path@, anc@, prefix@) == spec_climb(path@, spec_parent(cwd@), "../"@),
            !dir_prefix(cwd@, path@),
            !in_root(path@),
            path@.len() >= 1 && path@[0] == '/',
        decreases anc@.len(),
    {
        let stripped = strip_dir_prefix(path, anc.as_str());
        if let Some(rel) = stripped {
            let mut s = prefix;
            s.append(rel.as_str());
            return s;
        }
        proof {
            // The empty ancestor stands for the root, which holds every
            // absolute path, so the search has not run out.
            assert(anc@.len() > 0);
            lemma_parent_len(anc@);
        }
        prefix.append("../");
        let next = parent_of(anc.as_str());
        anc = next;
    }
}

} // verus!
