//! Host-side paths: where a sandbox lives and where a path given from inside
//! it lies on the host.

use vstd::prelude::*;
use vstd::string::*;

verus! {

/// True when `path` begins with the separator.
pub open spec fn is_absolute(path: Seq<char>) -> bool {
    path.len() > 0 && path[0] == '/'
}

/// `path` without its leading separators.
pub open spec fn stripped(path: Seq<char>) -> Seq<char>
    decreases path.len(),
{
    if is_absolute(path) {
        stripped(path.drop_first())
    } else {
        path
    }
}

/// `rel` adjoined to `base`. An absolute `rel` stands for itself; otherwise
/// `rel` follows `base`, with one separator between them unless `base` is
/// empty or already ends in one.
pub open spec fn joined(base: Seq<char>, rel: Seq<char>) -> Seq<char> {
    if is_absolute(rel) {
        rel
    } else if base.len() == 0 || base.last() == '/' {
        base + rel
    } else {
        base + seq!['/'] + rel
    }
}

/// The host path of `path` as seen from inside the sandbox at `root`: the
/// leading separators go, and what is left is adjoined to `root`.
pub open spec fn host_path_of(root: Seq<char>, path: Seq<char>) -> Seq<char> {
    joined(root, stripped(path))
}

/// The root directory of the session named `session_id`.
pub open spec fn session_root_of(session_id: Seq<char>) -> Seq<char> {
    "/tmp/sandbox-"@ + session_id
}

/// What is left after stripping is a tail of the path that does not begin
/// with a separator, and only separators were dropped.
pub proof fn lemma_stripped(path: Seq<char>)
    ensures
        !is_absolute(stripped(path)),
        stripped(path).len() <= path.len(),
        stripped(path) == path.skip(path.len() - stripped(path).len()),
        forall|i: int| 0 <= i < path.len() - stripped(path).len() ==> path[i] == '/',
    decreases path.len(),
{
    if is_absolute(path) {
        let rest = path.drop_first();
        lemma_stripped(rest);
        let k = rest.len() - stripped(rest).len();
        assert(rest.skip(k) =~= path.skip(k + 1));
        assert forall|i: int| 0 <= i < path.len() - stripped(path).len() implies path[i]
            == '/' by {
            if i > 0 {
                assert(rest[i - 1] == path[i]);
            }
        }
    } else {
        assert(path.skip(0) =~= path);
    }
}

/// A relative path adjoined to a base lies under the base.
pub proof fn lemma_joined_under_base(base: Seq<char>, rel: Seq<char>)
    requires
        !is_absolute(rel),
    ensures
        base.is_prefix_of(joined(base, rel)),
{
    if base.len() == 0 || base.last() == '/' {
        assert((base + rel).subrange(0, base.len() as int) =~= base);
    } else {
        assert((base + seq!['/'] + rel).subrange(0, base.len() as int) =~= base);
    }
}

/// However many separators lead a path, it names the same place under a
/// root, and that place lies under the root: the host path begins with it.
pub proof fn lemma_host_path_under_root(root: Seq<char>, path: Seq<char>)
    ensures
        host_path_of(root, seq!['/'] + path) == host_path_of(root, path),
        root.is_prefix_of(host_path_of(root, path)),
{
    let lead = seq!['/'] + path;
    assert(lead.drop_first() =~= path);
    lemma_stripped(path);
    lemma_joined_under_base(root, stripped(path));
}

/// Strips the leading separators of `path`.
pub fn strip_leading_separators(path: &str) -> (rest: String)
    ensures
        rest@ == stripped(path@),
{
    let n = path.unicode_len();
    let mut k: usize = 0;
    assert(path@.skip(0) =~= path@);
    while k < n && path.get_char(k) == '/'
        invariant
            k <= n,
            n == path@.len(),
            stripped(path@) == stripped(path@.skip(k as int)),
        decreases n - k,
    {
        proof {
            let tail = path@.skip(k as int);
            assert(is_absolute(tail));
            assert(tail.drop_first() =~= path@.skip(k as int + 1));
        }
        k += 1;
    }
    proof {
        assert(path@.subrange(k as int, n as int) =~= path@.skip(k as int));
    }
    String::from_str(path.substring_char(k, n))
}

/// Adjoins `rel` to `base`.
pub fn join(base: &str, rel: &str) -> (path: String)
    ensures
        path@ == joined(base@, rel@),
{
    let rel_len = rel.unicode_len();
    if rel_len > 0 && rel.get_char(0) == '/' {
        return String::from_str(rel);
    }
    let base_len = base.unicode_len();
    let mut path = String::from_str(base);
    if base_len > 0 && base.get_char(base_len - 1) != '/' {
        proof {
            reveal_strlit("/");
            assert("/"@ =~= seq!['/']);
        }
        path.append("/");
    }
    path.append(rel);
    path
}

/// The host path of `path` as seen from inside the sandbox at `root`.
///
/// Only leading separators are removed: a path with `..` in it can name a
/// place outside the root.
pub fn host_path(root: &str, path: &str) -> (full: String)
    ensures
        full@ == host_path_of(root@, path@),
{
    let rel = strip_leading_separators(path);
    join(root, rel.as_str())
}

/// The root directory of the session named `session_id`.
pub fn session_root(session_id: &str) -> (root: String)
    ensures
        root@ == session_root_of(session_id@),
{
    let mut root = String::from_str("/tmp/sandbox-");
    root.append(session_id);
    root
}

/// The root directory that every one-shot run uses.
pub fn oneshot_root() -> (root: String)
    ensures
        root@ == session_root_of("oneshot"@),
{
    session_root("oneshot")
}

} // verus!
