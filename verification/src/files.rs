//! The resolver: an ordered, priority-based, traversal-safe search across
//! multiple filesystem roots.
//!
//! A query is a relative path string. A query whose textual form contains the
//! substring `../` anywhere is rejected outright, before any root is
//! consulted. Otherwise the roots are tried in list order and the first root
//! whose joined candidate path names a regular file wins.
//!
//! The resolver itself performs no I/O: whether each candidate names a
//! regular file is handed in as one boolean per root, gathered by the caller
//! at the moment of resolution.

use vstd::prelude::*;
use vstd::string::StrSliceExecFns;
use vstd::string::StringExecFns;

verus! {

/// The parent-traversal marker `../` occurs in `s` starting at index `i`.
pub open spec fn dotdot_slash_at(s: Seq<char>, i: int) -> bool {
    &&& 0 <= i
    &&& i + 3 <= s.len()
    &&& s[i] == '.'
    &&& s[i + 1] == '.'
    &&& s[i + 2] == '/'
}

/// The query's textual form contains the substring `../` somewhere.
///
/// This is a purely syntactic guard: it does not normalize path segments, and
/// deliberately misses a trailing `..` without a following separator.
pub open spec fn has_traversal(s: Seq<char>) -> bool {
    exists|i: int| dotdot_slash_at(s, i)
}

/// A root joined with a relative query: the root, a `/` separator, the query.
pub open spec fn join_seq(root: Seq<char>, req: Seq<char>) -> Seq<char> {
    root + seq!['/'] + req
}

/// The index of the first root whose candidate is a regular file, if any.
pub open spec fn first_file(is_file: Seq<bool>) -> Option<int>
    decreases is_file.len(),
{
    if is_file.len() <= 0 {
        None
    } else if is_file[0] {
        Some(0int)
    } else {
        match first_file(is_file.drop_first()) {
            None => None,
            Some(i) => Some(i + 1),
        }
    }
}

/// What resolving `req` against `roots` yields, given that `is_file[i]` says
/// whether the candidate joined from `roots[i]` and `req` names a regular
/// file: "no match" when the query holds `../` or no root has a regular file
/// at the candidate path, and otherwise the lowest matching root's index with
/// its candidate path.
pub open spec fn resolution(
    req: Seq<char>,
    roots: Seq<Seq<char>>,
    is_file: Seq<bool>,
) -> Option<(int, Seq<char>)> {
    if has_traversal(req) {
        None
    } else {
        match first_file(is_file) {
            None => None,
            Some(i) => Some((i, join_seq(roots[i], req))),
        }
    }
}

/// The exec-level result `r` agrees with `resolution` on these inputs.
pub open spec fn resolves_to(
    req: Seq<char>,
    roots: Seq<Seq<char>>,
    is_file: Seq<bool>,
    r: Option<(usize, String)>,
) -> bool {
    match r {
        Some((i, p)) => resolution(req, roots, is_file) == Some((i as int, p@)),
        None => resolution(req, roots, is_file) is None,
    }
}

proof fn lemma_first_file_at(is_file: Seq<bool>, i: int)
    requires
        0 <= i < is_file.len(),
        is_file[i],
        forall|j: int| 0 <= j < i ==> !is_file[j],
    ensures
        first_file(is_file) == Some(i),
    decreases is_file.len(),
{
    if i > 0 {
        let tail = is_file.drop_first();
        assert forall|j: int| 0 <= j < i - 1 implies !tail[j] by {
            assert(tail[j] == is_file[j + 1]);
        }
        assert(tail[i - 1] == is_file[i]);
        lemma_first_file_at(tail, i - 1);
    }
}

proof fn lemma_first_file_none(is_file: Seq<bool>)
    requires
        forall|j: int| 0 <= j < is_file.len() ==> !is_file[j],
    ensures
        first_file(is_file) is None,
    decreases is_file.len(),
{
    if is_file.len() > 0 {
        let tail = is_file.drop_first();
        assert forall|j: int| 0 <= j < tail.len() implies !tail[j] by {
            assert(tail[j] == is_file[j + 1]);
        }
        lemma_first_file_none(tail);
    }
}

/// A query containing the literal substring `../` never resolves, whatever
/// the roots hold.
pub proof fn lemma_traversal_rejected(req: Seq<char>, roots: Seq<Seq<char>>, is_file: Seq<bool>)
    requires
        has_traversal(req),
    ensures
        resolution(req, roots, is_file) is None,
{
}

/// The lowest-index root holding a regular file at the candidate path always
/// wins: later roots are never the answer once an earlier one matches.
pub proof fn lemma_first_root_wins(
    req: Seq<char>,
    roots: Seq<Seq<char>>,
    is_file: Seq<bool>,
    i: int,
)
    requires
        !has_traversal(req),
        0 <= i < is_file.len(),
        is_file[i],
        forall|j: int| 0 <= j < i ==> !is_file[j],
    ensures
        resolution(req, roots, is_file) == Some((i, join_seq(roots[i], req))),
{
    lemma_first_file_at(is_file, i);
}

/// A query whose candidate is a regular file in no root (only directories,
/// missing paths, or unreadable entries everywhere) never resolves.
pub proof fn lemma_no_file_no_match(req: Seq<char>, roots: Seq<Seq<char>>, is_file: Seq<bool>)
    requires
        forall|j: int| 0 <= j < is_file.len() ==> !is_file[j],
    ensures
        resolution(req, roots, is_file) is None,
{
    lemma_first_file_none(is_file);
}

/// Resolution is a function of the query, the root list and the filesystem
/// facts alone: resolving the same query twice against an unchanged root list
/// and unchanged filesystem yields identical results.
pub proof fn lemma_resolution_deterministic(
    req: Seq<char>,
    roots: Seq<Seq<char>>,
    is_file: Seq<bool>,
    r1: Option<(usize, String)>,
    r2: Option<(usize, String)>,
)
    requires
        resolves_to(req, roots, is_file, r1),
        resolves_to(req, roots, is_file, r2),
    ensures
        match (r1, r2) {
            (Some((i1, p1)), Some((i2, p2))) => i1 == i2 && p1@ == p2@,
            (None, None) => true,
            _ => false,
        },
{
}

/// Whether `s` contains the substring `../`.
pub fn contains_dotdot_slash(s: &str) -> (b: bool)
    ensures
        b == has_traversal(s@),
{
    let n = s.unicode_len();
    if n < 3 {
        return false;
    }
    let mut k: usize = 0;
    while k < n - 2
        invariant
            n == s@.len(),
            3 <= n,
            0 <= k <= n - 2,
            forall|i: int| 0 <= i < k ==> !dotdot_slash_at(s@, i),
        decreases n - k,
    {
        if s.get_char(k) == '.' && s.get_char(k + 1) == '.' && s.get_char(k + 2) == '/' {
            assert(dotdot_slash_at(s@, k as int));
            return true;
        }
        k += 1;
    }
    assert forall|i: int| !dotdot_slash_at(s@, i) by {
        if 0 <= i && i + 3 <= s@.len() {
            assert(i < k);
        }
    }
    false
}

/// Join a root directory with a relative query by a `/` separator.
pub fn join_path(root: &str, req: &str) -> (r: String)
    ensures
        r@ == join_seq(root@, req@),
{
    let mut r = String::from_str(root);
    r.append("/");
    r.append(req);
    proof {
        reveal_strlit("/");
        assert(r@ =~= join_seq(root@, req@));
    }
    r
}

/// Try one root: reject a query containing `../`, otherwise succeed with the
/// joined candidate path exactly when the candidate names a regular file.
///
/// `is_file` is the filesystem's answer for the candidate `join_seq(root@,
/// req@)` at the moment of resolution; a candidate that is missing, is a
/// directory, or whose metadata cannot be read all count as `false`.
pub fn fetch_one(req: &str, root: &str, is_file: bool) -> (r: Option<String>)
    ensures
        match r {
            Some(p) => !has_traversal(req@) && is_file && p@ == join_seq(root@, req@),
            None => has_traversal(req@) || !is_file,
        },
{
    if contains_dotdot_slash(req) {
        return None;
    }
    if !is_file {
        return None;
    }
    Some(join_path(root, req))
}

/// Resolve a query against an ordered list of roots: the first root whose
/// candidate names a regular file wins, and a query containing `../` never
/// matches. Returns the winning root's index and the candidate path, or
/// `None` when no root matches.
///
/// `is_file[i]` is the filesystem's answer for the candidate joined from
/// `roots[i]` and `req` at the moment of resolution.
pub fn fetch(req: &str, roots: &Vec<String>, is_file: &Vec<bool>) -> (r: Option<(usize, String)>)
    requires
        roots@.len() == is_file@.len(),
    ensures
        resolves_to(req@, roots.deep_view(), is_file@, r),
{
    let mut k: usize = 0;
    while k < roots.len()
        invariant
            roots@.len() == is_file@.len(),
            0 <= k <= roots@.len(),
            has_traversal(req@) || forall|j: int| 0 <= j < k ==> !is_file@[j],
        decreases roots@.len() - k,
    {
        let res = fetch_one(req, roots[k].as_str(), is_file[k]);
        if let Some(p) = res {
            proof {
                lemma_first_file_at(is_file@, k as int);
                assert(roots.deep_view()[k as int] == roots@[k as int]@);
            }
            return Some((k, p));
        }
        k += 1;
    }
    proof {
        if !has_traversal(req@) {
            lemma_first_file_none(is_file@);
        }
    }
    None
}

} // verus!
