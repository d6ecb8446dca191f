//! Resolving a request: from an anchor and a path expression to the target.
//!
//! A request names a path relative to an anchor, the location of the
//! invoking source unit. The target is the anchor's parent directory joined
//! with the expression, both handled as raw path bytes. A trailing `..`
//! component is taken to mean the anchor's own directory's parent, and a
//! target that ends in `.` names the anchor's own location, which is not a
//! directory and is rejected. Whether the target exists, and what it is, only
//! the filesystem can say: [`check_root`] turns that probe into a verdict.

use vstd::prelude::*;

use crate::error::BuildError;

verus! {

use vstd::slice::slice_to_vec;

/// The index of the last path separator in `p`, or -1 if there is none.
pub open spec fn last_slash(p: Seq<u8>) -> int
    decreases p.len(),
{
    if p.len() == 0 {
        -1
    } else if p.last() == 47 {
        p.len() - 1
    } else {
        last_slash(p.drop_last())
    }
}

/// The parent of a path: everything before its last component. The empty
/// path and the root have none; a bare name's parent is the empty path; a
/// path directly under the root keeps the root.
pub open spec fn parent_path(p: Seq<u8>) -> Option<Seq<u8>> {
    if p.len() == 0 || p == seq![47u8] {
        None
    } else {
        let i = last_slash(p);
        if i == -1 {
            Some(Seq::empty())
        } else if i == 0 {
            Some(seq![47u8])
        } else {
            Some(p.take(i))
        }
    }
}

/// `base` joined with `rel`: an absolute `rel` replaces `base`; otherwise
/// they are joined with exactly one separator between them.
pub open spec fn join_paths(base: Seq<u8>, rel: Seq<u8>) -> Seq<u8> {
    if rel.len() > 0 && rel[0] == 47 {
        rel
    } else if base.len() == 0 {
        rel
    } else if base.last() == 47 {
        base + rel
    } else {
        base + seq![47u8] + rel
    }
}

/// The path's last component is `..`.
pub open spec fn ends_with_dotdot(p: Seq<u8>) -> bool {
    p == seq![46u8, 46u8] || (p.len() >= 3 && p[p.len() - 1] == 46 && p[p.len() - 2] == 46 && p[
        p.len() - 3] == 47)
}

/// The anchor's parent joined with the expression.
pub open spec fn joined_target(anchor: Seq<u8>, rel: Seq<u8>) -> Seq<u8>
    recommends
        parent_path(anchor) is Some,
{
    join_paths(parent_path(anchor)->0, rel)
}

/// The resolved target: the join, with a trailing `..` component replaced by
/// the parent it names.
pub open spec fn resolved_target(anchor: Seq<u8>, rel: Seq<u8>) -> Seq<u8>
    recommends
        parent_path(anchor) is Some,
{
    let t = joined_target(anchor, rel);
    if ends_with_dotdot(t) {
        parent_path(t)->0
    } else {
        t
    }
}

/// The resolved target names the anchor's own location: it ends in `.`.
pub open spec fn target_rejected(anchor: Seq<u8>, rel: Seq<u8>) -> bool
    recommends
        parent_path(anchor) is Some,
{
    let t = resolved_target(anchor, rel);
    t.len() > 0 && t.last() == 46
}

/// Computes the parent of a path, as `parent_path` describes it.
pub fn parent_of(p: &[u8]) -> (r: Option<Vec<u8>>)
    ensures
        r is Some <==> parent_path(p@) is Some,
        r is Some ==> r->0@ == parent_path(p@)->0,
{
    let n = p.len();
    if n == 0 {
        return None;
    }
    if n == 1 && p[0] == 47 {
        proof {
            assert(p@ =~= seq![47u8]);
        }
        return None;
    }
    proof {
        assert(p@ != seq![47u8]) by {
            if p@ == seq![47u8] {
                assert(p@[0] == 47 && p@.len() == 1);
            }
        }
        assert(p@.take(n as int) =~= p@);
    }
    let mut idx: usize = n;
    while idx > 0 && p[idx - 1] != 47
        invariant
            0 <= idx <= n,
            n == p@.len(),
            last_slash(p@) == last_slash(p@.take(idx as int)),
        decreases idx,
    {
        proof {
            assert(p@.take(idx as int).last() == p@[idx - 1]);
            assert(p@.take(idx as int).drop_last() =~= p@.take(idx - 1));
        }
        idx = idx - 1;
    }
    if idx == 0 {
        proof {
            assert(p@.take(0) =~= Seq::<u8>::empty());
            assert(last_slash(p@) == -1);
        }
        Some(Vec::new())
    } else if idx == 1 {
        proof {
            assert(p@.take(1).last() == p@[0]);
            assert(last_slash(p@) == 0);
        }
        let mut out: Vec<u8> = Vec::new();
        out.push(47);
        proof {
            assert(out@ =~= seq![47u8]);
        }
        Some(out)
    } else {
        proof {
            assert(p@.take(idx as int).last() == p@[idx - 1]);
            assert(last_slash(p@) == idx - 1);
        }
        let out = slice_to_vec(vstd::slice::slice_subrange(p, 0, idx - 1));
        Some(out)
    }
}

/// Joins `base` and `rel` as `join_paths` describes it.
fn join_bytes(base: &[u8], rel: &[u8]) -> (r: Vec<u8>)
    ensures
        r@ == join_paths(base@, rel@),
{
    if rel.len() > 0 && rel[0] == 47 {
        slice_to_vec(rel)
    } else if base.len() == 0 {
        slice_to_vec(rel)
    } else {
        let mut out = slice_to_vec(base);
        if base[base.len() - 1] != 47 {
            out.push(47);
        }
        let mut tail = slice_to_vec(rel);
        out.append(&mut tail);
        proof {
            if base@.last() == 47 {
                assert(out@ =~= base@ + rel@);
            } else {
                assert(out@ =~= base@ + seq![47u8] + rel@);
            }
        }
        out
    }
}

/// The path's last component is `..`, as `ends_with_dotdot` describes it.
fn ends_dotdot(p: &[u8]) -> (r: bool)
    ensures
        r == ends_with_dotdot(p@),
{
    let n = p.len();
    if n == 2 && p[0] == 46 && p[1] == 46 {
        proof {
            assert(p@ =~= seq![46u8, 46u8]);
        }
        true
    } else if n >= 3 && p[n - 1] == 46 && p[n - 2] == 46 && p[n - 3] == 47 {
        true
    } else {
        proof {
            if p@ == seq![46u8, 46u8] {
                assert(p@.len() == 2 && p@[0] == 46 && p@[1] == 46);
            }
        }
        false
    }
}

/// Resolves a request: the anchor's parent joined with the expression, a
/// trailing `..` component replaced by the parent it names, and a target
/// that names the anchor's own location rejected.
///
/// Succeeds exactly when the anchor has a parent and the target is not
/// rejected; the errors carry the anchor, or the rejected target, as given.
pub fn resolve_target(anchor: &[u8], rel: &[u8]) -> (r: Result<Vec<u8>, BuildError>)
    ensures
        r is Ok <==> parent_path(anchor@) is Some && !target_rejected(anchor@, rel@),
        r is Ok ==> r->Ok_0@ == resolved_target(anchor@, rel@),
        parent_path(anchor@) is None ==> (r->Err_0 matches BuildError::NoParent {
            anchor: a,
        } && a@ == anchor@),
        parent_path(anchor@) is Some && target_rejected(anchor@, rel@) ==> (
        r->Err_0 matches BuildError::InvalidTarget { path } && path@ == resolved_target(
            anchor@,
            rel@,
        )),
{
    let par = match parent_of(anchor) {
        None => {
            return Err(BuildError::NoParent { anchor: slice_to_vec(anchor) });
        },
        Some(v) => v,
    };
    let joined = join_bytes(par.as_slice(), rel);
    let target = if ends_dotdot(joined.as_slice()) {
        proof {
            let j = joined@;
            assert(parent_path(j) is Some) by {
                assert(j.len() >= 2);
                if j == seq![47u8] {
                    assert(j.len() == 1);
                }
                assert(j != seq![47u8]);
            }
        }
        match parent_of(joined.as_slice()) {
            Some(v) => v,
            None => vstd::pervasive::unreached(),
        }
    } else {
        joined
    };
    if target.len() > 0 && target[target.len() - 1] == 46 {
        Err(BuildError::InvalidTarget { path: target })
    } else {
        Ok(target)
    }
}

/// Resolves a sibling file of the anchor: the anchor's parent joined with
/// the expression, with no further adjustment. This is how a single file is
/// located before its bytes are read or embedded.
pub fn resolve_sibling(anchor: &[u8], rel: &[u8]) -> (r: Result<Vec<u8>, BuildError>)
    ensures
        r is Ok <==> parent_path(anchor@) is Some,
        r is Ok ==> r->Ok_0@ == joined_target(anchor@, rel@),
        r is Err ==> (r->Err_0 matches BuildError::NoParent { anchor: a } && a@ == anchor@),
{
    match parent_of(anchor) {
        None => Err(BuildError::NoParent { anchor: slice_to_vec(anchor) }),
        Some(par) => Ok(join_bytes(par.as_slice(), rel)),
    }
}

/// What a filesystem probe of the resolved target found.
pub enum RootKind {
    /// The target does not exist.
    Missing,
    /// The target exists but is not a directory.
    NonDirectory,
    /// The target is a directory.
    Directory,
}

/// Decides whether a probed target may be walked as the root of a tree: only
/// a directory may; a missing target and a non-directory are fatal, and the
/// error carries the path as given.
pub fn check_root(kind: &RootKind, path: &[u8]) -> (r: Result<(), BuildError>)
    ensures
        r is Ok <==> kind is Directory,
        kind is Missing ==> (r->Err_0 matches BuildError::RootNotFound { path: p } && p@
            == path@),
        kind is NonDirectory ==> (r->Err_0 matches BuildError::NotADirectory { path: p } && p@
            == path@),
{
    match kind {
        RootKind::Directory => Ok(()),
        RootKind::Missing => Err(BuildError::RootNotFound { path: slice_to_vec(path) }),
        RootKind::NonDirectory => Err(BuildError::NotADirectory { path: slice_to_vec(path) }),
    }
}

} // verus!
