//! What holds of paths that are put together and taken apart.
use crate::paths::{counted, is_absolute, joined, parent, path_parts};
use crate::skill_deploy::{safe_member, valid_name};
use crate::text::{
    decimal, find, find_from, find_from_is_first, join_with, occurs_at, split_on,
};
use crate::timestamp::{day_number, every_moment_has_a_stamp, is_date, padded, stamp, stamp_of};
use vstd::prelude::*;

verus! {

/// `path` lies in the directory `root`, or is it: its parts are those of `root` and then
/// others, of which none leads out again.
pub open spec fn lies_inside(path: Seq<char>, root: Seq<char>) -> bool {
    let r = path_parts(root);
    let p = path_parts(path);
    &&& is_absolute(path) == is_absolute(root)
    &&& r.len() <= p.len()
    &&& p.take(r.len() as int) == r
    &&& forall|i: int| r.len() <= i < p.len() ==> (#[trigger] p[i]) != ".."@
}

// ------------------------------------------------------------------ put together

proof fn find_slash_in_sum(a: Seq<char>, b: Seq<char>, from: int)
    requires
        0 <= from <= a.len(),
    ensures
        match find_from(a, seq!['/'], from) {
            Some(i) => find_from(a + seq!['/'] + b, seq!['/'], from) == Some(i),
            None => find_from(a + seq!['/'] + b, seq!['/'], from) == Some(a.len() as int),
        },
    decreases a.len() - from,
{
    let s = a + seq!['/'] + b;
    let p = seq!['/'];
    if from < a.len() {
        assert(s.subrange(from, from + 1)[0] == a[from]);
        assert(a.subrange(from, from + 1)[0] == a[from]);
        if a[from] == '/' {
            assert(s.subrange(from, from + 1) =~= p);
            assert(a.subrange(from, from + 1) =~= p);
        } else {
            assert(s.subrange(from, from + 1) != p);
            assert(a.subrange(from, from + 1) != p);
            find_slash_in_sum(a, b, from + 1);
        }
    } else {
        assert(s.subrange(from, from + 1) =~= p);
    }
}

/// What stands on the two sides of a slash splits on its own.
proof fn split_of_sum(a: Seq<char>, b: Seq<char>)
    ensures
        split_on(a + seq!['/'] + b, seq!['/']) == split_on(a, seq!['/']) + split_on(b, seq!['/']),
    decreases a.len(),
{
    let s = a + seq!['/'] + b;
    let p = seq!['/'];
    find_slash_in_sum(a, b, 0);
    find_from_is_first(a, p, 0);
    match find(a, p) {
        Some(i) => {
            let rest = a.skip(i + 1);
            split_of_sum(rest, b);
            assert(s.take(i) =~= a.take(i));
            assert(s.skip(i + 1) =~= rest + p + b);
            assert(seq![a.take(i)] + (split_on(rest, p) + split_on(b, p)) =~= (seq![a.take(i)]
                + split_on(rest, p)) + split_on(b, p));
        },
        None => {
            assert(s.take(a.len() as int) =~= a);
            assert(s.skip(a.len() as int + 1) =~= b);
        },
    }
}

proof fn counted_of_sum(a: Seq<Seq<char>>, b: Seq<Seq<char>>, rooted: bool, n: int)
    requires
        0 <= n <= b.len(),
        a.len() > 0,
        b.len() > 0 ==> b[0] != seq!['.'],
    ensures
        counted(a + b, rooted, a.len() + n) == counted(a, rooted, a.len() as int) + counted(
            b,
            false,
            n,
        ),
    decreases n,
{
    let all = a + b;
    if n == 0 {
        counted_of_front(a, b, rooted, a.len() as int);
        assert(counted(a, rooted, a.len() as int) + Seq::<Seq<char>>::empty() =~= counted(
            a,
            rooted,
            a.len() as int,
        ));
    } else {
        counted_of_sum(a, b, rooted, n - 1);
        assert(all[a.len() + n - 1] == b[n - 1]);
        let x = counted(a, rooted, a.len() as int);
        let y = counted(b, false, n - 1);
        assert((x + y).push(b[n - 1]) =~= x + y.push(b[n - 1]));
    }
}

proof fn counted_of_front(a: Seq<Seq<char>>, b: Seq<Seq<char>>, rooted: bool, n: int)
    requires
        0 <= n <= a.len(),
    ensures
        counted(a + b, rooted, n) == counted(a, rooted, n),
    decreases n,
{
    if n > 0 {
        counted_of_front(a, b, rooted, n - 1);
        assert((a + b)[n - 1] == a[n - 1]);
    }
}

/// A safe member stays inside the directory it is copied to: the parts of its path are
/// those of the directory and then its own, and none of these leads out again.
pub proof fn members_stay_inside(dir: Seq<char>, relative: Seq<char>)
    requires
        safe_member(relative),
    ensures
        is_absolute(joined(dir, relative)) == is_absolute(dir),
        path_parts(joined(dir, relative)) == path_parts(dir) + path_parts(relative),
        forall|i: int|
            0 <= i < path_parts(relative).len() ==> (#[trigger] path_parts(relative)[i]) != ".."@,
{
    let p = seq!['/'];
    let none = Seq::<char>::empty();
    let r = split_on(relative, p);
    if r.len() > 0 && r[0] == seq!['.'] {
        counted_keeps_first(r, r.len() as int);
        reveal_strlit(".");
        assert("."@ =~= seq!['.']);
        assert(path_parts(relative)[0] == "."@);
        assert(false);
    }
    assert(split_on(none, p) =~= seq![none]);
    assert(counted(seq![none], false, 0) =~= Seq::empty());
    assert(counted(seq![none], false, 1) =~= Seq::empty());
    if dir.len() == 0 {
        assert(dir =~= none);
        assert(path_parts(dir) + path_parts(relative) =~= path_parts(relative));
    } else {
        let front = if dir.last() == '/' {
            dir.drop_last()
        } else {
            dir
        };
        let d = split_on(front, p);
        split_is_not_empty(front);
        split_of_sum(front, relative);
        assert(joined(dir, relative) =~= front + p + relative);
        counted_of_sum(d, r, is_absolute(dir), r.len() as int);
        if dir.last() == '/' {
            split_of_sum(front, none);
            assert(dir =~= front + p + none);
            counted_of_sum(d, seq![none], is_absolute(dir), 1);
            assert(path_parts(dir) =~= counted(d, is_absolute(dir), d.len() as int));
        }
    }
}

proof fn split_is_not_empty(s: Seq<char>)
    ensures
        split_on(s, seq!['/']).len() > 0,
{
}

proof fn counted_keeps_first(pieces: Seq<Seq<char>>, n: int)
    requires
        1 <= n <= pieces.len(),
        pieces[0] == seq!['.'],
    ensures
        counted(pieces, false, n).len() > 0,
        counted(pieces, false, n)[0] == seq!['.'],
    decreases n,
{
    if n > 1 {
        counted_keeps_first(pieces, n - 1);
    } else {
        assert(counted(pieces, false, 0) =~= Seq::empty());
    }
}

// ------------------------------------------------------------- names of entries

/// No slash is in `s`.
pub open spec fn no_slash(s: Seq<char>) -> bool {
    forall|i: int| 0 <= i < s.len() ==> (#[trigger] s[i]) != '/'
}

proof fn whole_without_slash(s: Seq<char>)
    requires
        no_slash(s),
    ensures
        split_on(s, seq!['/']) == seq![s],
{
    let p = seq!['/'];
    find_from_is_first(s, p, 0);
    if let Some(i) = find(s, p) {
        assert(s.subrange(i, i + 1)[0] == s[i]);
        assert(p[0] == '/');
        assert(false);
    }
}

/// `name` can be the name of an entry in a directory.
pub open spec fn is_entry(name: Seq<char>) -> bool {
    no_slash(name) && name.len() > 0 && name[0] != '.'
}

/// The name of an entry is one safe part.
pub proof fn entry_is_safe(name: Seq<char>)
    requires
        is_entry(name),
    ensures
        safe_member(name),
        path_parts(name) == seq![name],
{
    whole_without_slash(name);
    reveal_strlit(".");
    reveal_strlit("..");
    assert(counted(seq![name], false, 0) =~= Seq::empty());
    assert(seq!['.'][0] == '.');
    assert(path_parts(name) =~= seq![name]);
}

/// A safe member of a directory inside `root` lies inside `root` itself.
pub proof fn member_lies_inside(dir: Seq<char>, relative: Seq<char>, root: Seq<char>)
    requires
        lies_inside(dir, root),
        safe_member(relative),
    ensures
        lies_inside(joined(dir, relative), root),
{
    members_stay_inside(dir, relative);
    let r = path_parts(root);
    let d = path_parts(dir);
    let m = path_parts(relative);
    let p = path_parts(joined(dir, relative));
    assert(p == d + m);
    assert(p.take(r.len() as int) =~= d.take(r.len() as int));
    assert forall|i: int| r.len() <= i < p.len() implies (#[trigger] p[i]) != ".."@ by {
        if i < d.len() {
            assert(p[i] == d[i]);
        } else {
            assert(p[i] == m[i - d.len()]);
        }
    }
}

/// What lies in a directory inside `root` lies inside `root` itself.
pub proof fn entry_lies_inside(dir: Seq<char>, name: Seq<char>, root: Seq<char>)
    requires
        lies_inside(dir, root),
        is_entry(name),
    ensures
        lies_inside(joined(dir, name), root),
{
    entry_is_safe(name);
    member_lies_inside(dir, name, root);
}

/// A directory lies inside itself.
pub proof fn root_lies_inside(root: Seq<char>)
    ensures
        lies_inside(root, root),
{
    let r = path_parts(root);
    assert(r.take(r.len() as int) =~= r);
}

/// A number has no slash.
pub proof fn decimal_has_no_slash(n: nat)
    ensures
        no_slash(decimal(n)),
        decimal(n).len() > 0,
        decimal(n)[0] != '.',
    decreases n,
{
    if n >= 10 {
        decimal_has_no_slash(n / 10);
    }
}

proof fn padded_has_no_slash(n: int, width: int)
    ensures
        no_slash(padded(n, width)),
        padded(n, width).len() > 0,
        padded(n, width)[0] != '.',
{
    decimal_has_no_slash(n as nat);
}

/// A stamp can be the name of an entry, or begin it.
pub proof fn stamp_is_entry(seconds: int)
    requires
        seconds >= 0,
    ensures
        is_entry(stamp_of(seconds)),
{
    every_moment_has_a_stamp(seconds);
    let text = stamp_of(seconds);
    let (y, m, d) = choose|y: int, m: int, d: int| #[trigger]
        is_date(y, m, d) && day_number(y, m, d) == seconds / 86_400 && text
            == stamp(y, m, d, seconds % 86_400);
    let s = seconds % 86_400;
    padded_has_no_slash(y, 4);
    padded_has_no_slash(m, 2);
    padded_has_no_slash(d, 2);
    padded_has_no_slash(s / 3600, 2);
    padded_has_no_slash((s % 3600) / 60, 2);
    padded_has_no_slash(s % 60, 2);
    reveal_strlit("-");
}

/// The name of a skill can be the name of an entry.
pub proof fn valid_name_is_entry(name: Seq<char>)
    requires
        valid_name(name),
    ensures
        is_entry(name),
{
}

// ------------------------------------------------------------------ taken apart

/// The parts of a path: none is empty or holds a slash, and only in front of a relative
/// path there can be a dot.
pub open spec fn are_parts(parts: Seq<Seq<char>>, rooted: bool) -> bool {
    forall|i: int|
        0 <= i < parts.len() ==> (#[trigger] parts[i]).len() > 0 && no_slash(parts[i]) && (parts[i]
            == seq!['.'] ==> !rooted && i == 0)
}

proof fn pieces_have_no_slash(s: Seq<char>)
    ensures
        forall|i: int|
            0 <= i < split_on(s, seq!['/']).len() ==> no_slash(
                #[trigger] split_on(s, seq!['/'])[i],
            ),
    decreases s.len(),
{
    let p = seq!['/'];
    let all = split_on(s, p);
    find_from_is_first(s, p, 0);
    match find(s, p) {
        Some(i) => {
            let rest = s.skip(i + 1);
            pieces_have_no_slash(rest);
            assert forall|k: int| 0 <= k < s.take(i).len() implies (#[trigger] s.take(i)[k])
                != '/' by {
                if s[k] == '/' {
                    assert(s.subrange(k, k + 1) =~= p);
                    assert(occurs_at(s, p, k));
                }
            }
            assert forall|k: int| 0 <= k < all.len() implies no_slash(#[trigger] all[k]) by {
                if k == 0 {
                    assert(all[0] == s.take(i));
                } else {
                    assert(all[k] == split_on(rest, p)[k - 1]);
                }
            }
        },
        None => {
            assert forall|k: int| 0 <= k < s.len() implies (#[trigger] s[k]) != '/' by {
                if s[k] == '/' {
                    assert(s.subrange(k, k + 1) =~= p);
                    assert(occurs_at(s, p, k));
                }
            }
            assert(all == seq![s]);
        },
    }
}

proof fn counted_are_parts(pieces: Seq<Seq<char>>, rooted: bool, n: int)
    requires
        0 <= n <= pieces.len(),
        forall|i: int| 0 <= i < pieces.len() ==> no_slash(#[trigger] pieces[i]),
    ensures
        are_parts(counted(pieces, rooted, n), rooted),
        counted(pieces, rooted, n).len() <= n,
    decreases n,
{
    if n > 0 {
        counted_are_parts(pieces, rooted, n - 1);
    }
}

/// The parts of a path are parts.
proof fn path_has_parts(p: Seq<char>)
    ensures
        are_parts(path_parts(p), is_absolute(p)),
{
    pieces_have_no_slash(p);
    let pieces = split_on(p, seq!['/']);
    counted_are_parts(pieces, is_absolute(p), pieces.len() as int);
}

proof fn joined_parts_split(parts: Seq<Seq<char>>)
    requires
        parts.len() > 0,
        forall|i: int| 0 <= i < parts.len() ==> no_slash(#[trigger] parts[i]),
    ensures
        split_on(join_with(parts, seq!['/']), seq!['/']) == parts,
    decreases parts.len(),
{
    let p = seq!['/'];
    whole_without_slash(parts.last());
    if parts.len() == 1 {
        assert(parts =~= seq![parts[0]]);
    } else {
        let front = parts.drop_last();
        assert forall|i: int| 0 <= i < front.len() implies no_slash(#[trigger] front[i]) by {
            assert(front[i] == parts[i]);
        }
        joined_parts_split(front);
        split_of_sum(join_with(front, p), parts.last());
        assert(front + seq![parts.last()] =~= parts);
    }
}

proof fn parts_are_counted(parts: Seq<Seq<char>>, rooted: bool, n: int)
    requires
        0 <= n <= parts.len(),
        are_parts(parts, rooted),
    ensures
        counted(parts, rooted, n) == parts.take(n),
    decreases n,
{
    if n > 0 {
        parts_are_counted(parts, rooted, n - 1);
        assert(parts.take(n) =~= parts.take(n - 1).push(parts[n - 1]));
    } else {
        assert(parts.take(0) =~= Seq::empty());
    }
}

/// A relative path that is put together from parts has these parts.
proof fn relative_parts(parts: Seq<Seq<char>>)
    requires
        are_parts(parts, false),
    ensures
        path_parts(join_with(parts, seq!['/'])) == parts,
        !is_absolute(join_with(parts, seq!['/'])),
{
    let s = join_with(parts, seq!['/']);
    let none = Seq::<char>::empty();
    if parts.len() == 0 {
        whole_without_slash(none);
        assert(s =~= none);
        assert(counted(seq![none], false, 0) =~= parts);
    } else {
        joined_parts_split(parts);
        if is_absolute(s) {
            split_of_sum(none, s.skip(1));
            whole_without_slash(none);
            assert(s =~= none + seq!['/'] + s.skip(1));
            assert(parts[0] == none);
        }
        parts_are_counted(parts, false, parts.len() as int);
        assert(parts.take(parts.len() as int) =~= parts);
    }
}

/// An absolute path that is put together from parts has these parts.
proof fn absolute_parts(parts: Seq<Seq<char>>)
    requires
        are_parts(parts, true),
    ensures
        path_parts(seq!['/'] + join_with(parts, seq!['/'])) == parts,
{
    let p = seq!['/'];
    let none = Seq::<char>::empty();
    let rest = join_with(parts, p);
    let s = p + rest;
    whole_without_slash(none);
    split_of_sum(none, rest);
    assert(s =~= none + p + rest);
    let r = split_on(rest, p);
    split_is_not_empty(rest);
    assert(counted(seq![none], true, 0) =~= Seq::empty());
    assert(counted(seq![none], true, 1) =~= Seq::empty());
    if parts.len() == 0 {
        assert(rest =~= none);
        assert(r == seq![none]);
        assert(counted(seq![none], false, 0) =~= parts);
    } else {
        joined_parts_split(parts);
        parts_are_counted(parts, false, parts.len() as int);
        assert(parts.take(parts.len() as int) =~= parts);
    }
    counted_of_sum(seq![none], r, true, r.len() as int);
    assert(Seq::<Seq<char>>::empty() + parts =~= parts);
}

/// The parent of a path has the parts of the path but the last.
pub proof fn parent_drops_the_last_part(p: Seq<char>)
    requires
        path_parts(p).len() > 0,
    ensures
        parent(p) matches Some(q) && is_absolute(q) == is_absolute(p) && path_parts(q)
            == path_parts(p).drop_last(),
{
    path_has_parts(p);
    let front = path_parts(p).drop_last();
    assert forall|i: int| 0 <= i < front.len() implies (#[trigger] front[i]) == path_parts(p)[i] by {}
    if is_absolute(p) {
        absolute_parts(front);
    } else {
        relative_parts(front);
    }
}

/// The parent of what lies inside `root`, and is not `root` itself, lies inside `root`.
pub proof fn parent_lies_inside(p: Seq<char>, root: Seq<char>)
    requires
        lies_inside(p, root),
        path_parts(p).len() > path_parts(root).len(),
    ensures
        parent(p) matches Some(q) && lies_inside(q, root),
{
    parent_drops_the_last_part(p);
    let r = path_parts(root);
    let all = path_parts(p);
    let q = path_parts(parent(p)->0);
    assert(q.take(r.len() as int) =~= all.take(r.len() as int));
    assert forall|i: int| r.len() <= i < q.len() implies (#[trigger] q[i]) != ".."@ by {
        assert(q[i] == all[i]);
    }
}

} // verus!
