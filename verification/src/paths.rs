//! Paths as texts with `/` between their parts.
use crate::text::{
    append_chars, chars_of, join_texts, join_with, same_chars, same_text, split_chars, split_on,
    string_of, views,
};
use vstd::prelude::*;
use vstd::string::StringExecFns;

verus! {

/// The path starts at the root.
pub open spec fn is_absolute(p: Seq<char>) -> bool {
    p.len() > 0 && p[0] == '/'
}

/// The pieces of a path that count as parts: those that are not empty and not a
/// dot, save for a dot at the front of a relative path.
pub open spec fn counted(pieces: Seq<Seq<char>>, rooted: bool, n: int) -> Seq<Seq<char>>
    decreases n,
{
    if n <= 0 {
        Seq::empty()
    } else {
        let before = counted(pieces, rooted, n - 1);
        let piece = pieces[n - 1];
        if piece.len() == 0 || (piece == seq!['.'] && (rooted || n > 1)) {
            before
        } else {
            before.push(piece)
        }
    }
}

/// The parts of a path.
pub open spec fn path_parts(p: Seq<char>) -> Seq<Seq<char>> {
    let pieces = split_on(p, seq!['/']);
    counted(pieces, is_absolute(p), pieces.len() as int)
}

/// Two texts that name the same path.
pub open spec fn same_path(a: Seq<char>, b: Seq<char>) -> bool {
    is_absolute(a) == is_absolute(b) && path_parts(a) == path_parts(b)
}

/// `rel` as seen from `base`.
pub open spec fn joined(base: Seq<char>, rel: Seq<char>) -> Seq<char> {
    if is_absolute(rel) || base.len() == 0 {
        rel
    } else if base.last() == '/' {
        base + rel
    } else {
        base + seq!['/'] + rel
    }
}

/// The path without its last part: nothing for the root and for the empty path.
pub open spec fn parent(p: Seq<char>) -> Option<Seq<char>> {
    let parts = path_parts(p);
    if parts.len() == 0 {
        None
    } else {
        let rest = join_with(parts.drop_last(), seq!['/']);
        Some(
            if is_absolute(p) {
                seq!['/'] + rest
            } else {
                rest
            },
        )
    }
}

/// The parts of a path.
pub fn parts_of(p: &str) -> (r: Vec<String>)
    ensures
        views(r@) == path_parts(p@),
{
    let v: Vec<char> = chars_of(p);
    let sep: Vec<char> = vec!['/'];
    let dot: Vec<char> = vec!['.'];
    let ghost texts = |v: Vec<char>| v@;
    assert(sep@ =~= seq!['/']);
    assert(dot@ =~= seq!['.']);
    let rooted: bool = v.len() > 0 && v[0] == '/';
    let pieces: Vec<Vec<char>> = split_chars(&v, &sep);
    let ghost all = split_on(p@, seq!['/']);
    assert(pieces@.map_values(texts) == all);
    let mut r: Vec<String> = Vec::new();
    let mut i: usize = 0;
    assert(views(r@) =~= Seq::<Seq<char>>::empty());
    while i < pieces.len()
        invariant
            i <= pieces.len(),
            texts == (|v: Vec<char>| v@),
            pieces@.map_values(texts) == all,
            dot@ == seq!['.'],
            rooted == is_absolute(p@),
            views(r@) == counted(all, rooted, i as int),
        decreases pieces.len() - i,
    {
        assert(all[i as int] == pieces@[i as int]@);
        let piece: &Vec<char> = &pieces[i];
        let skip: bool = piece.len() == 0 || (same_chars(piece, &dot) && (rooted || i > 0));
        if !skip {
            let s: String = string_of(piece);
            let ghost before = r@;
            r.push(s);
            assert(views(r@) =~= views(before).push(s@));
        }
        i += 1;
    }
    assert(all.len() == pieces@.len());
    r
}

/// Whether the path starts at the root.
pub fn is_absolute_path(p: &str) -> (r: bool)
    ensures
        r == is_absolute(p@),
{
    let v: Vec<char> = chars_of(p);
    v.len() > 0 && v[0] == '/'
}

/// Whether two lists of texts are the same.
pub fn same_texts(a: &Vec<String>, b: &Vec<String>) -> (r: bool)
    ensures
        r == (views(a@) == views(b@)),
{
    if a.len() != b.len() {
        assert(views(a@).len() != views(b@).len());
        return false;
    }
    let mut i: usize = 0;
    while i < a.len()
        invariant
            i <= a.len(),
            a.len() == b.len(),
            forall|k: int| 0 <= k < i ==> #[trigger] views(a@)[k] == views(b@)[k],
        decreases a.len() - i,
    {
        if !same_text(a[i].as_str(), b[i].as_str()) {
            assert(views(a@)[i as int] != views(b@)[i as int]);
            return false;
        }
        i += 1;
    }
    assert(views(a@) =~= views(b@));
    true
}

/// Whether two texts name the same path.
pub fn same_path_as(a: &str, b: &str) -> (r: bool)
    ensures
        r == same_path(a@, b@),
{
    is_absolute_path(a) == is_absolute_path(b) && same_texts(&parts_of(a), &parts_of(b))
}

/// `rel` as seen from `base`.
pub fn join_path(base: &str, rel: &str) -> (r: String)
    ensures
        r@ == joined(base@, rel@),
{
    let b: Vec<char> = chars_of(base);
    let mut out: String = String::new();
    if !is_absolute_path(rel) && b.len() > 0 {
        append_chars(&mut out, &b);
        if b[b.len() - 1] != '/' {
            out.push('/');
        }
    }
    out.append(rel);
    assert(out@ =~= joined(base@, rel@));
    out
}

/// The path without its last part.
pub fn parent_of(p: &str) -> (r: Option<String>)
    ensures
        match r {
            Some(s) => parent(p@) == Some(s@),
            None => parent(p@) is None,
        },
{
    let mut parts: Vec<String> = parts_of(p);
    let ghost all = parts@;
    if parts.len() == 0 {
        return None;
    }
    let last: Option<String> = parts.pop();
    assert(views(parts@) =~= views(all).drop_last());
    let rest: String = join_texts(&parts, "/");
    proof {
        reveal_strlit("/");
        assert("/"@ =~= seq!['/']);
    }
    if is_absolute_path(p) {
        let mut out: String = String::new();
        out.push('/');
        out.append(rest.as_str());
        assert(out@ =~= seq!['/'] + rest@);
        Some(out)
    } else {
        Some(rest)
    }
}

} // verus!
