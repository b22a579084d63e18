//! What paths are made of, and what lies below what.
use crate::deploy_task::nth_place;
use crate::evolution_command::seen_from;
use crate::nfs_stub::is_below;
use crate::path_laws::parent_drops_the_last_part;
use crate::paths::{counted, is_absolute, joined, parent, path_parts, same_path};
use crate::skill_deploy::safe_member;
use crate::text::{decimal, join_with, split_on};
use crate::worktree_removal::{directly_in, link_resolved};
use vstd::prelude::*;

verus! {

/// A piece between slashes is a part of the path: it is not empty, and no dot save at the
/// front of a relative path.
pub open spec fn is_part(p: Seq<char>, i: int) -> bool {
    let piece = split_on(p, seq!['/'])[i];
    piece.len() > 0 && (piece != seq!['.'] || (i == 0 && !is_absolute(p)))
}

/// The parts of a path are the pieces between its slashes that count, all of them and in
/// their order.
pub proof fn every_part_counts(p: Seq<char>)
    ensures
        path_parts(p) == Seq::new(split_on(p, seq!['/']).len(), |i: int| i).filter(
            |i: int| is_part(p, i),
        ).map_values(|i: int| split_on(p, seq!['/'])[i]),
{
    parts_so_far(p, split_on(p, seq!['/']).len());
}

proof fn parts_so_far(p: Seq<char>, n: nat)
    requires
        n <= split_on(p, seq!['/']).len(),
    ensures
        counted(split_on(p, seq!['/']), is_absolute(p), n as int) == Seq::new(
            n,
            |i: int| i,
        ).filter(|i: int| is_part(p, i)).map_values(|i: int| split_on(p, seq!['/'])[i]),
    decreases n,
{
    reveal(Seq::filter);
    let pieces = split_on(p, seq!['/']);
    let all = Seq::new(n, |i: int| i);
    let q = |i: int| is_part(p, i);
    let f = |i: int| split_on(p, seq!['/'])[i];
    if n == 0 {
        assert(all.filter(q).map_values(f) =~= Seq::empty());
    } else {
        parts_so_far(p, (n - 1) as nat);
        let fewer = Seq::new((n - 1) as nat, |i: int| i);
        assert(all.drop_last() =~= fewer);
        assert(all.last() == n - 1);
        if q(n - 1) {
            assert(all.filter(q).map_values(f) =~= fewer.filter(q).map_values(f).push(
                pieces[n - 1],
            ));
        }
    }
}

/// A path lies below another where its parts go on from those of the other.
pub proof fn paths_below_go_on(parent: Seq<char>, child: Seq<char>, rest: Seq<Seq<char>>)
    requires
        is_absolute(parent) == is_absolute(child),
    ensures
        path_parts(child) == path_parts(parent) + rest ==> is_below(parent, child) && seen_from(
            parent,
            child,
        ) == join_with(rest, "/"@),
        is_below(parent, child) ==> path_parts(child) == path_parts(parent) + path_parts(
            child,
        ).skip(path_parts(parent).len() as int),
{
    let p = path_parts(parent);
    let c = path_parts(child);
    if c == p + rest {
        assert(c.take(p.len() as int) =~= p);
        assert(c.skip(p.len() as int) =~= rest);
    }
    if is_below(parent, child) {
        assert(c =~= p + c.skip(p.len() as int));
    }
}

/// What does not lie below is seen as it is, and nothing relative lies below anything
/// absolute.
pub proof fn others_are_seen_whole(root: Seq<char>, path: Seq<char>)
    ensures
        !is_below(root, path) ==> seen_from(root, path) == path,
        is_absolute(root) != is_absolute(path) ==> !is_below(root, path),
{
}

/// A relative path is put behind the base with one slash between, and an absolute one stands
/// by itself.
pub proof fn joining_puts_one_slash(base: Seq<char>, rel: Seq<char>)
    ensures
        is_absolute(rel) ==> joined(base, rel) == rel,
        base.len() == 0 ==> joined(base, rel) == rel,
        !is_absolute(rel) && base.len() > 0 && base.last() != '/' ==> joined(base, rel) == base
            + "/"@ + rel,
        !is_absolute(rel) && base.len() > 0 ==> joined(base.push('/'), rel) == base + "/"@ + rel,
{
    reveal_strlit("/");
    assert("/"@ =~= seq!['/']);
    assert(base.push('/') =~= base + "/"@);
}

/// A path lies directly in a directory where it has just one part more.
pub proof fn lying_in_is_one_part_more(path: Seq<char>, dir: Seq<char>)
    ensures
        directly_in(path, dir) <==> is_absolute(path) == is_absolute(dir) && path_parts(path).len()
            > 0 && path_parts(path).drop_last() == path_parts(dir),
{
    if path_parts(path).len() > 0 {
        parent_drops_the_last_part(path);
    }
}

/// Two texts name the same path where both or neither begin at the root and they have the
/// same parts.
pub proof fn same_paths_have_the_same_parts(a: Seq<char>, b: Seq<char>)
    ensures
        same_path(a, b) <==> (a.len() > 0 && a[0] == '/') == (b.len() > 0 && b[0] == '/')
            && path_parts(a) == path_parts(b),
{
}

/// A link is followed from the directory that it lies in, or from the root where it lies in
/// none.
pub proof fn links_are_followed_from_their_place(link: Seq<char>, target: Seq<char>)
    ensures
        is_absolute(target) ==> link_resolved(link, target) == target,
        path_parts(link).len() == 0 ==> link_resolved(link, target) == joined("/"@, target),
        path_parts(link).len() > 0 ==> exists|p: Seq<char>|
            path_parts(p) == path_parts(link).drop_last() && is_absolute(p) == is_absolute(link)
                && link_resolved(link, target) == #[trigger] joined(p, target),
{
    if path_parts(link).len() > 0 {
        parent_drops_the_last_part(link);
        assert(link_resolved(link, target) == joined(parent(link)->0, target));
    }
}

/// A member of a skill is safe where it is a relative path without a part that is a dot or
/// two.
pub proof fn safe_members_lead_nowhere_else(relative: Seq<char>)
    ensures
        safe_member(relative) <==> relative.len() > 0 && relative[0] != '/' && forall|i: int|
            0 <= i < path_parts(relative).len() ==> (#[trigger] path_parts(relative)[i]) != "."@
                && path_parts(relative)[i] != ".."@,
{
}

/// The first place that is tried is the place itself, and each further one has a tilde and its
/// number behind it.
pub proof fn further_places_are_numbered(base: Seq<char>, n: int)
    ensures
        nth_place(base, 0) == base,
        n > 0 ==> nth_place(base, n) == base + "~"@ + decimal(n as nat),
{
}

} // verus!
