//! What the `/model` command finds and shows, told of the catalog itself.
use crate::model_command::{
    action_of, byte_len, effort_from, effort_list, effort_model, effort_name, effort_rows,
    group_label, group_row, group_rows, has_current, labels, last_white, member_names, member_rows,
    model_rows, order_letter, phase_label, phase_title, resolved, resolved_from, row, single_rows,
    spaced, suggestions, target_label, trailing_token, unknown_effort, ActionModel, InfoModel,
    ItemModel, ReasoningEffort,
};
use crate::text::{
    ascii_lower, decimal, is_white, join_with, starts_with, trim, trimmed_end_len,
    trimmed_end_len_bound,
};
use vstd::prelude::*;

verus! {

// ------------------------------------------------------------------------ the names

/// The model goes by this name or id, in whatever case.
pub open spec fn is_called(m: InfoModel, name: Seq<char>) -> bool {
    ascii_lower(m.name) == ascii_lower(name) || ascii_lower(m.id) == ascii_lower(name)
}

/// A name stands for the first model that goes by it, and for none only where none does.
pub proof fn names_stand_for_the_first(av: Seq<InfoModel>, name: Seq<char>)
    ensures
        match resolved(av, name) {
            Some(i) => 0 <= i < av.len() && is_called(av[i], name) && forall|j: int|
                0 <= j < i ==> !is_called(#[trigger] av[j], name),
            None => forall|j: int| 0 <= j < av.len() ==> !is_called(#[trigger] av[j], name),
        },
{
    resolved_from_here(av, name, 0);
}

proof fn resolved_from_here(av: Seq<InfoModel>, name: Seq<char>, i: int)
    requires
        0 <= i <= av.len(),
    ensures
        match resolved_from(av, name, i) {
            Some(k) => i <= k < av.len() && is_called(av[k], name) && forall|j: int|
                i <= j < k ==> !is_called(#[trigger] av[j], name),
            None => forall|j: int| i <= j < av.len() ==> !is_called(#[trigger] av[j], name),
        },
    decreases av.len() - i,
{
    if i < av.len() {
        resolved_from_here(av, name, i + 1);
    }
}

/// Whitespace and nothing else, and some of it.
pub open spec fn is_gap(s: Seq<char>) -> bool {
    s.len() > 0 && forall|i: int| 0 <= i < s.len() ==> is_white(#[trigger] s[i])
}

/// A word: not empty, and without whitespace.
pub open spec fn is_word(s: Seq<char>) -> bool {
    s.len() > 0 && forall|i: int| 0 <= i < s.len() ==> !is_white(#[trigger] s[i])
}

/// Something, with no whitespace at its end.
pub open spec fn ends_in_word(s: Seq<char>) -> bool {
    s.len() > 0 && !is_white(s.last())
}

proof fn last_white_is_last(s: Seq<char>)
    ensures
        match last_white(s) {
            Some(i) => 0 <= i < s.len() && is_white(s[i]) && forall|j: int|
                i < j < s.len() ==> !is_white(#[trigger] s[j]),
            None => forall|j: int| 0 <= j < s.len() ==> !is_white(#[trigger] s[j]),
        },
    decreases s.len(),
{
    if s.len() > 0 && !is_white(s.last()) {
        let rest = s.drop_last();
        last_white_is_last(rest);
        assert forall|j: int| 0 <= j < s.len() - 1 implies s[j] == rest[j] by {}
    }
}

/// The last word is split off where a gap and something more stand before it.
pub proof fn last_word_is_split_off(p: Seq<char>, gap: Seq<char>, word: Seq<char>)
    requires
        ends_in_word(p),
        is_gap(gap),
        is_word(word),
    ensures
        trailing_token(p + gap + word) == Some((p, word)),
{
    let s = p + gap + word;
    last_white_is_last(s);
    let at = p.len() + gap.len() - 1;
    assert(s[at] == gap[gap.len() - 1]);
    assert forall|j: int| at < j < s.len() implies !is_white(#[trigger] s[j]) by {
        assert(s[j] == word[j - at - 1]);
    }
    let i = last_white(s)->0;
    assert(i == at);
    assert(s.skip(i + 1) =~= word);
    let front = s.take(i);
    assert(front =~= p + gap.drop_last());
    trimmed_end_len_bound(front);
    let n = trimmed_end_len(front) as int;
    assert(front[p.len() - 1] == p.last());
    if n > p.len() {
        assert(front[n - 1] == gap[n - 1 - p.len()]);
    }
    assert(n == p.len());
    assert(front.take(n) =~= p);
}

/// What is split off is the last word, with a gap and something more before it.
pub proof fn split_off_is_the_last_word(s: Seq<char>)
    ensures
        trailing_token(s) matches Some((p, word)) ==> ends_in_word(p) && is_word(word) && exists|
            gap: Seq<char>,
        | #[trigger] is_gap(gap) && s == p + gap + word,
{
    if let Some((p, word)) = trailing_token(s) {
        last_white_is_last(s);
        let i = last_white(s)->0;
        let front = s.take(i);
        trimmed_end_len_bound(front);
        let n = trimmed_end_len(front) as int;
        let gap = s.subrange(n, i + 1);
        assert(p =~= s.take(n));
        assert forall|j: int| 0 <= j < gap.len() implies is_white(#[trigger] gap[j]) by {
            if n + j < i {
                assert(gap[j] == front[n + j]);
            }
        }
        assert forall|j: int| 0 <= j < word.len() implies !is_white(#[trigger] word[j]) by {
            assert(word[j] == s[i + 1 + j]);
        }
        assert(is_gap(gap));
        assert(s =~= p + gap + word);
    }
}

/// The query names a model that can be told how hard to think, and goes on behind the name.
pub open spec fn asks_effort(m: InfoModel, query: Seq<char>) -> bool {
    &&& m.supports_effort
    &&& query.len() > m.name.len()
    &&& ascii_lower(query.take(m.name.len() as int)) == ascii_lower(m.name)
    &&& is_white(query[m.name.len() as int])
}

/// An effort is asked of the model with the longest name that fits, the first of those.
pub proof fn longest_name_is_asked(av: Seq<InfoModel>, query: Seq<char>)
    ensures
        match effort_model(av, query, av.len() as int) {
            Some(i) => {
                &&& 0 <= i < av.len()
                &&& asks_effort(av[i], query)
                &&& forall|j: int|
                    0 <= j < av.len() && asks_effort(#[trigger] av[j], query) ==> byte_len(
                        av[j].name,
                    ) <= byte_len(av[i].name) && (j < i ==> byte_len(av[j].name) < byte_len(
                        av[i].name,
                    ))
            },
            None => forall|j: int| 0 <= j < av.len() ==> !asks_effort(#[trigger] av[j], query),
        },
{
    longest_so_far(av, query, av.len() as int);
}

proof fn longest_so_far(av: Seq<InfoModel>, query: Seq<char>, n: int)
    requires
        0 <= n <= av.len(),
    ensures
        match effort_model(av, query, n) {
            Some(i) => {
                &&& 0 <= i < n
                &&& asks_effort(av[i], query)
                &&& forall|j: int|
                    0 <= j < n && asks_effort(#[trigger] av[j], query) ==> byte_len(av[j].name)
                        <= byte_len(av[i].name) && (j < i ==> byte_len(av[j].name) < byte_len(
                        av[i].name,
                    ))
            },
            None => forall|j: int| 0 <= j < n ==> !asks_effort(#[trigger] av[j], query),
        },
    decreases n,
{
    if n > 0 {
        longest_so_far(av, query, n - 1);
    }
}

/// The query is the label, or the label and a space and more, in whatever case.
pub open spec fn asks_group(label: Seq<char>, query: Seq<char>) -> bool {
    ascii_lower(query) == ascii_lower(label) || starts_with(
        ascii_lower(query),
        ascii_lower(label) + seq![' '],
    )
}

/// A group is asked for by the longest of the labels that fit.
pub proof fn longest_label_is_asked(av: Seq<InfoModel>, query: Seq<char>)
    ensures
        match target_label(av, query, av.len() as int) {
            Some(l) => {
                &&& asks_group(l, query)
                &&& exists|i: int| 0 <= i < av.len() && group_label(#[trigger] av[i]) == Some(l)
                &&& forall|j: int|
                    0 <= j < av.len() && group_label(#[trigger] av[j]) is Some && asks_group(
                        group_label(av[j])->0,
                        query,
                    ) ==> byte_len(group_label(av[j])->0) <= byte_len(l)
            },
            None => forall|j: int|
                0 <= j < av.len() && group_label(#[trigger] av[j]) is Some ==> !asks_group(
                    group_label(av[j])->0,
                    query,
                ),
        },
{
    labels_so_far(av, query, av.len() as int);
}

proof fn labels_so_far(av: Seq<InfoModel>, query: Seq<char>, n: int)
    requires
        0 <= n <= av.len(),
    ensures
        match target_label(av, query, n) {
            Some(l) => {
                &&& asks_group(l, query)
                &&& exists|i: int| 0 <= i < n && group_label(#[trigger] av[i]) == Some(l)
                &&& forall|j: int|
                    0 <= j < n && group_label(#[trigger] av[j]) is Some && asks_group(
                        group_label(av[j])->0,
                        query,
                    ) ==> byte_len(group_label(av[j])->0) <= byte_len(l)
            },
            None => forall|j: int|
                0 <= j < n && group_label(#[trigger] av[j]) is Some ==> !asks_group(
                    group_label(av[j])->0,
                    query,
                ),
        },
    decreases n,
{
    if n > 0 {
        labels_so_far(av, query, n - 1);
        let before = target_label(av, query, n - 1);
        let here = group_label(av[n - 1]);
        if let Some(l) = target_label(av, query, n) {
            if before == Some(l) {
                let i = choose|i: int| 0 <= i < n - 1 && group_label(#[trigger] av[i]) == Some(l);
                assert(group_label(av[i]) == Some(l));
            } else {
                assert(group_label(av[n - 1]) == Some(l));
            }
        }
    }
}

// ------------------------------------------------------------------------- the rows

/// The row of a model.
pub open spec fn model_entry(m: InfoModel, current: Option<Seq<char>>) -> ItemModel {
    ItemModel {
        display: m.name + if current == Some(m.id) {
            " (current)"@
        } else {
            ""@
        },
        match_text: m.name,
        insert_text: m.name + if m.supports_effort {
            " "@
        } else {
            ""@
        },
        description: if m.description is Some {
            m.description->0
        } else {
            ""@
        },
    }
}

/// A row shows the name, what is in use, and what is typed on.
pub proof fn rows_show_models(m: InfoModel, current: Option<Seq<char>>)
    ensures
        row(m, current) == model_entry(m, current),
{
    reveal_strlit("");
    let none = ""@;
    assert(none =~= Seq::empty());
    assert(m.name + none =~= m.name);
}

/// Every model without a group has a row of its own, in the order of the catalog.
pub proof fn models_without_group_have_rows(av: Seq<InfoModel>, current: Option<Seq<char>>)
    ensures
        single_rows(av, current, av.len() as int) == av.filter(
            |m: InfoModel| group_label(m) is None,
        ).map_values(|m: InfoModel| model_entry(m, current)),
{
    singles_so_far(av, current, av.len() as int);
    assert(av.take(av.len() as int) =~= av);
}

proof fn singles_so_far(av: Seq<InfoModel>, current: Option<Seq<char>>, n: int)
    requires
        0 <= n <= av.len(),
    ensures
        single_rows(av, current, n) == av.take(n).filter(
            |m: InfoModel| group_label(m) is None,
        ).map_values(|m: InfoModel| model_entry(m, current)),
    decreases n,
{
    reveal(Seq::filter);
    let alone = |m: InfoModel| group_label(m) is None;
    let f = |m: InfoModel| model_entry(m, current);
    if n == 0 {
        assert(av.take(0).filter(alone).map_values(f) =~= Seq::empty());
    } else {
        singles_so_far(av, current, n - 1);
        let m = av[n - 1];
        rows_show_models(m, current);
        assert(av.take(n).drop_last() =~= av.take(n - 1));
        assert(av.take(n).last() == m);
        if alone(m) {
            assert(av.take(n).filter(alone).map_values(f) =~= av.take(n - 1).filter(
                alone,
            ).map_values(f).push(f(m)));
        }
    }
}

/// The labels are those of the models, each once, in the order in which they first come.
pub proof fn every_label_is_listed_once(av: Seq<InfoModel>, l: Seq<char>, n: int)
    requires
        0 <= n <= av.len(),
    ensures
        labels(av, n).contains(l) <==> exists|i: int|
            0 <= i < n && group_label(#[trigger] av[i]) == Some(l),
        labels(av, n).no_duplicates(),
        labels(av, n).is_prefix_of(labels(av, av.len() as int)),
    decreases av.len() - n,
{
    label_members(av, l, n);
    if n < av.len() {
        every_label_is_listed_once(av, l, n + 1);
        assert(labels(av, n).is_prefix_of(labels(av, n + 1)));
        let all = labels(av, av.len() as int);
        let some = labels(av, n + 1);
        assert forall|k: int| 0 <= k < labels(av, n).len() implies labels(av, n)[k] == all[k] by {
            assert(some[k] == all[k]);
        }
    }
}

proof fn label_members(av: Seq<InfoModel>, l: Seq<char>, n: int)
    requires
        0 <= n <= av.len(),
    ensures
        labels(av, n).contains(l) <==> exists|i: int|
            0 <= i < n && group_label(#[trigger] av[i]) == Some(l),
        labels(av, n).no_duplicates(),
    decreases n,
{
    if n > 0 {
        label_members(av, l, n - 1);
        let before = labels(av, n - 1);
        let all = labels(av, n);
        if let Some(x) = group_label(av[n - 1]) {
            if !before.contains(x) {
                assert(all == before.push(x));
                assert(all[before.len() as int] == x);
                if before.contains(l) {
                    assert(all[before.index_of(l)] == l);
                }
                if all.contains(l) && l != x {
                    assert(before[all.index_of(l)] == l);
                }
            }
        }
        if all.contains(l) {
            if before.contains(l) {
                let i = choose|i: int| 0 <= i < n - 1 && group_label(#[trigger] av[i]) == Some(l);
                assert(group_label(av[i]) == Some(l));
            } else {
                assert(group_label(av[n - 1]) == Some(l));
            }
        }
    }
}

/// The members of a group are the models with its label, in the order of the catalog; the
/// group is in use where one of them is.
pub proof fn groups_hold_their_models(
    av: Seq<InfoModel>,
    current: Option<Seq<char>>,
    label: Seq<char>,
)
    ensures
        member_names(av, label, av.len() as int) == av.filter(
            |m: InfoModel| group_label(m) == Some(label),
        ).map_values(|m: InfoModel| m.name),
        has_current(av, current, label, av.len() as int) <==> exists|i: int|
            0 <= i < av.len() && group_label(#[trigger] av[i]) == Some(label) && current == Some(
                av[i].id,
            ),
{
    members_so_far(av, current, label, av.len() as int);
    assert(av.take(av.len() as int) =~= av);
}

proof fn members_so_far(
    av: Seq<InfoModel>,
    current: Option<Seq<char>>,
    label: Seq<char>,
    n: int,
)
    requires
        0 <= n <= av.len(),
    ensures
        member_names(av, label, n) == av.take(n).filter(
            |m: InfoModel| group_label(m) == Some(label),
        ).map_values(|m: InfoModel| m.name),
        has_current(av, current, label, n) <==> exists|i: int|
            0 <= i < n && group_label(#[trigger] av[i]) == Some(label) && current == Some(av[i].id),
    decreases n,
{
    reveal(Seq::filter);
    let inside = |m: InfoModel| group_label(m) == Some(label);
    let f = |m: InfoModel| m.name;
    if n == 0 {
        assert(av.take(0).filter(inside).map_values(f) =~= Seq::empty());
    } else {
        members_so_far(av, current, label, n - 1);
        let m = av[n - 1];
        assert(av.take(n).drop_last() =~= av.take(n - 1));
        assert(av.take(n).last() == m);
        if inside(m) {
            assert(av.take(n).filter(inside).map_values(f) =~= av.take(n - 1).filter(
                inside,
            ).map_values(f).push(f(m)));
        }
        if has_current(av, current, label, n - 1) {
            let i = choose|i: int|
                0 <= i < n - 1 && group_label(#[trigger] av[i]) == Some(label) && current == Some(
                    av[i].id,
                );
            assert(group_label(av[i]) == Some(label));
        } else if has_current(av, current, label, n) {
            assert(group_label(av[n - 1]) == Some(label));
        }
    }
}

proof fn spaced_is_joined(head: Seq<char>, names: Seq<Seq<char>>, n: int)
    requires
        0 <= n <= names.len(),
    ensures
        spaced(head, names, n) == head + names.take(n).map_values(
            |t: Seq<char>| seq![' '] + t,
        ).flatten(),
    decreases n,
{
    let f = |t: Seq<char>| seq![' '] + t;
    let parts = names.take(n).map_values(f);
    if n == 0 {
        assert(parts =~= Seq::empty());
        assert(head + parts.flatten() =~= head);
    } else {
        spaced_is_joined(head, names, n - 1);
        let fewer = names.take(n - 1).map_values(f);
        let t = names[n - 1];
        assert(parts =~= fewer.push(f(t)));
        fewer.lemma_flatten_push(f(t));
        assert(spaced(head, names, n) =~= head + parts.flatten());
    }
}

/// The row of a group.
pub open spec fn group_entry(label: Seq<char>, names: Seq<Seq<char>>, in_use: bool) -> ItemModel {
    ItemModel {
        display: label + " ▸ "@ + (if names.len() == 1 {
            "1 model"@
        } else {
            decimal(names.len()) + " models"@
        }) + if in_use {
            " (current)"@
        } else {
            ""@
        },
        match_text: label + " group"@ + names.map_values(
            |t: Seq<char>| seq![' '] + t,
        ).flatten(),
        insert_text: label + " "@,
        description: "Source group - Enter to expand"@,
    }
}

/// The row of a group shows its label and how many models it holds, and is found by the name
/// of each.
pub proof fn group_rows_show_groups(label: Seq<char>, names: Seq<Seq<char>>, in_use: bool)
    ensures
        group_row(label, names, in_use) == group_entry(label, names, in_use),
{
    reveal_strlit("");
    spaced_is_joined(label + " group"@, names, names.len() as int);
    assert(names.take(names.len() as int) =~= names);
    let a = group_row(label, names, in_use);
    let b = group_entry(label, names, in_use);
    assert(a.display =~= b.display);
    assert(a.match_text =~= b.match_text);
}

/// Behind the models without a group comes one row for each group.
pub proof fn every_group_has_a_row(av: Seq<InfoModel>, current: Option<Seq<char>>)
    ensures
        model_rows(av, current) == single_rows(av, current, av.len() as int) + labels(
            av,
            av.len() as int,
        ).map_values(
            |l: Seq<char>|
                group_entry(
                    l,
                    member_names(av, l, av.len() as int),
                    has_current(av, current, l, av.len() as int),
                ),
        ),
{
    let all = labels(av, av.len() as int);
    groups_so_far(av, current, all.len() as int);
    assert(all.take(all.len() as int) =~= all);
}

proof fn groups_so_far(av: Seq<InfoModel>, current: Option<Seq<char>>, n: int)
    requires
        0 <= n <= labels(av, av.len() as int).len(),
    ensures
        group_rows(av, current, n) == labels(av, av.len() as int).take(n).map_values(
            |l: Seq<char>|
                group_entry(
                    l,
                    member_names(av, l, av.len() as int),
                    has_current(av, current, l, av.len() as int),
                ),
        ),
    decreases n,
{
    let all = labels(av, av.len() as int);
    let f = |l: Seq<char>|
        group_entry(
            l,
            member_names(av, l, av.len() as int),
            has_current(av, current, l, av.len() as int),
        );
    if n > 0 {
        groups_so_far(av, current, n - 1);
        let l = all[n - 1];
        group_rows_show_groups(
            l,
            member_names(av, l, av.len() as int),
            has_current(av, current, l, av.len() as int),
        );
        assert(all.take(n).map_values(f) =~= all.take(n - 1).map_values(f).push(f(l)));
    } else {
        assert(all.take(0).map_values(f) =~= Seq::empty());
    }
}

/// The letter by which the row with this number is kept in its place.
pub open spec fn letter_at(k: int) -> char {
    "abcdefghijklmnopqrstuvwxyz"@[if k < 25 {
        k
    } else {
        25
    }]
}

/// The letters follow the alphabet and stay at its end.
pub proof fn letters_follow_the_alphabet(k: nat)
    ensures
        order_letter(k) == letter_at(k as int),
{
    reveal_strlit("abcdefghijklmnopqrstuvwxyz");
    assert(97u8 as char == 'a');
    let i: int = if k < 25 {
        k as int
    } else {
        25
    };
    assert(forall|c: u8| 97 <= c <= 122 ==> (#[trigger] (c as char)) as int == c as int);
}

/// Whether the model belongs to the group, in whatever case the label is written.
pub open spec fn belongs_to(m: InfoModel, label: Seq<char>) -> bool {
    group_label(m) is Some && ascii_lower(group_label(m)->0) == ascii_lower(label)
}

/// The row of a member of a group.
pub open spec fn member_entry(
    m: InfoModel,
    current: Option<Seq<char>>,
    label: Seq<char>,
    k: int,
) -> ItemModel {
    ItemModel {
        match_text: seq![letter_at(k)] + " "@ + label + " "@ + m.name,
        ..model_entry(m, current)
    }
}

/// A group shows each of its models, in the order of the catalog.
pub proof fn every_member_has_a_row(
    av: Seq<InfoModel>,
    current: Option<Seq<char>>,
    label: Seq<char>,
)
    ensures
        ({
            let inside = av.filter(|m: InfoModel| belongs_to(m, label));
            member_rows(av, current, label, av.len() as int) == Seq::new(
                inside.len(),
                |k: int| member_entry(inside[k], current, label, k),
            )
        }),
{
    member_rows_so_far(av, current, label, av.len() as int);
    assert(av.take(av.len() as int) =~= av);
}

proof fn member_rows_so_far(
    av: Seq<InfoModel>,
    current: Option<Seq<char>>,
    label: Seq<char>,
    n: int,
)
    requires
        0 <= n <= av.len(),
    ensures
        ({
            let inside = av.take(n).filter(|m: InfoModel| belongs_to(m, label));
            member_rows(av, current, label, n) == Seq::new(
                inside.len(),
                |k: int| member_entry(inside[k], current, label, k),
            )
        }),
    decreases n,
{
    reveal(Seq::filter);
    let p = |m: InfoModel| belongs_to(m, label);
    let inside = av.take(n).filter(p);
    if n > 0 {
        member_rows_so_far(av, current, label, n - 1);
        let m = av[n - 1];
        let fewer = av.take(n - 1).filter(p);
        assert(av.take(n).drop_last() =~= av.take(n - 1));
        assert(av.take(n).last() == m);
        rows_show_models(m, current);
        letters_follow_the_alphabet(fewer.len());
        let rows = member_rows(av, current, label, n);
        let all = Seq::new(inside.len(), |k: int| member_entry(inside[k], current, label, k));
        if p(m) {
            assert(inside == fewer.push(m));
            let before = member_rows(av, current, label, n - 1);
            assert(before.len() == fewer.len());
            assert(rows == before.push(member_entry(m, current, label, fewer.len() as int)));
            assert forall|k: int| 0 <= k < rows.len() implies rows[k] == all[k] by {
                if k < before.len() {
                    assert(inside[k] == fewer[k]);
                }
            }
        }
        assert(rows =~= all);
    } else {
        assert(member_rows(av, current, label, 0) =~= Seq::new(
            inside.len(),
            |k: int| member_entry(inside[k], current, label, k),
        ));
    }
}

/// The row of an effort.
pub open spec fn effort_entry(
    m: InfoModel,
    in_use: bool,
    effort: Option<ReasoningEffort>,
    k: int,
) -> ItemModel {
    let name = effort_name(m.efforts[k]);
    ItemModel {
        display: name + if in_use && effort == Some(m.efforts[k]) {
            " (current)"@
        } else {
            ""@
        },
        match_text: seq![letter_at(k)] + " "@ + m.name + " "@ + name,
        insert_text: m.name + " "@ + name,
        description: ""@,
    }
}

/// A model shows each of its efforts, in its order.
pub proof fn every_effort_has_a_row(m: InfoModel, in_use: bool, effort: Option<ReasoningEffort>)
    ensures
        effort_rows(m, in_use, effort, m.efforts.len() as int) == Seq::new(
            m.efforts.len(),
            |k: int| effort_entry(m, in_use, effort, k),
        ),
{
    efforts_so_far(m, in_use, effort, m.efforts.len());
}

proof fn efforts_so_far(m: InfoModel, in_use: bool, effort: Option<ReasoningEffort>, n: nat)
    requires
        n <= m.efforts.len(),
    ensures
        effort_rows(m, in_use, effort, n as int) == Seq::new(
            n,
            |k: int| effort_entry(m, in_use, effort, k),
        ),
    decreases n,
{
    reveal_strlit("");
    let all = Seq::new(n, |k: int| effort_entry(m, in_use, effort, k));
    let rows = effort_rows(m, in_use, effort, n as int);
    if n > 0 {
        efforts_so_far(m, in_use, effort, (n - 1) as nat);
        letters_follow_the_alphabet((n - 1) as nat);
        let none = ""@;
        assert(none =~= Seq::empty());
        let name = effort_name(m.efforts[n - 1]);
        assert(name + none =~= name);
        assert(rows[n - 1] == effort_entry(m, in_use, effort, n - 1));
    }
    assert(rows =~= all);
}

// ---------------------------------------------------------------------- the actions

/// An effort is found by its name in whatever case, where the model offers it.
pub proof fn efforts_are_found_by_name(efforts: Seq<ReasoningEffort>, token: Seq<char>)
    ensures
        match effort_from(efforts, token, 0) {
            Some(e) => efforts.contains(e) && ascii_lower(effort_name(e)) == ascii_lower(token),
            None => forall|i: int|
                0 <= i < efforts.len() ==> ascii_lower(effort_name(#[trigger] efforts[i]))
                    != ascii_lower(token),
        },
{
    efforts_from_here(efforts, token, 0);
}

proof fn efforts_from_here(efforts: Seq<ReasoningEffort>, token: Seq<char>, k: int)
    requires
        0 <= k <= efforts.len(),
    ensures
        match effort_from(efforts, token, k) {
            Some(e) => efforts.contains(e) && ascii_lower(effort_name(e)) == ascii_lower(token),
            None => forall|i: int|
                k <= i < efforts.len() ==> ascii_lower(effort_name(#[trigger] efforts[i]))
                    != ascii_lower(token),
        },
    decreases efforts.len() - k,
{
    if k < efforts.len() {
        efforts_from_here(efforts, token, k + 1);
    }
}

/// An effort that the model does not offer is answered with those that it does.
pub proof fn offered_efforts_are_named(efforts: Seq<ReasoningEffort>, token: Seq<char>)
    ensures
        unknown_effort(efforts, token) == "unknown effort level '"@ + token + "'; use one of: "@
            + join_with(efforts.map_values(|e: ReasoningEffort| effort_name(e)), ", "@),
{
    effort_list_is_joined(
        "unknown effort level '"@ + token + "'; use one of: "@,
        efforts,
        efforts.len() as int,
    );
    assert(efforts.take(efforts.len() as int) =~= efforts);
}

proof fn effort_list_is_joined(head: Seq<char>, efforts: Seq<ReasoningEffort>, n: int)
    requires
        0 <= n <= efforts.len(),
    ensures
        effort_list(head, efforts, n) == head + join_with(
            efforts.take(n).map_values(|e: ReasoningEffort| effort_name(e)),
            ", "@,
        ),
    decreases n,
{
    let f = |e: ReasoningEffort| effort_name(e);
    let names = efforts.take(n).map_values(f);
    if n <= 0 {
        assert(names =~= Seq::empty());
        assert(head + join_with(names, ", "@) =~= head);
    } else {
        effort_list_is_joined(head, efforts, n - 1);
        let fewer = efforts.take(n - 1).map_values(f);
        assert(names =~= fewer.push(f(efforts[n - 1])));
        crate::text_laws::joining_at_the_end(fewer, f(efforts[n - 1]), ", "@);
        assert(effort_list(head, efforts, n) =~= head + join_with(names, ", "@));
    }
}

/// A name with an effort behind it switches to the model, where the whole is no name.
pub proof fn effort_behind_a_name_switches(
    av: Seq<InfoModel>,
    p: Seq<char>,
    gap: Seq<char>,
    word: Seq<char>,
    i: int,
)
    requires
        ends_in_word(p),
        is_gap(gap),
        is_word(word),
        trim(p + gap + word) == p + gap + word,
        resolved(av, p + gap + word) is None,
        resolved(av, p) == Some(i),
        av[i].supports_effort,
    ensures
        action_of(av, p + gap + word) == match effort_from(av[i].efforts, word, 0) {
            Some(effort) => ActionModel::Switch { model_id: av[i].id, effort },
            None => ActionModel::Error(unknown_effort(av[i].efforts, word)),
        },
{
    last_word_is_split_off(p, gap, word);
}

/// What is neither a name nor a name with an effort is refused: as a group where it asks for
/// one, else as unknown.
pub proof fn unknown_models_are_refused(av: Seq<InfoModel>, args: Seq<char>)
    requires
        resolved(av, trim(args)) is None,
        trailing_token(trim(args)) matches Some((p, w)) ==> resolved(av, p) is None
            || !av[resolved(av, p)->0].supports_effort,
    ensures
        action_of(av, args) == ActionModel::Error(
            if trim(args).len() == 0 {
                "Usage: /model <name> [effort]"@
            } else if phase_label(av, trim(args)) is Some {
                "'"@ + trim(args)
                    + "' is a model source group - expand it in the picker and pick a model"@
            } else {
                "Unknown model: "@ + trim(args)
            },
        ),
{
}

/// Suggested are the efforts of the model that is named, else the models of the group that is
/// named, else everything.
pub proof fn suggestions_follow_the_query(
    av: Seq<InfoModel>,
    current: Option<Seq<char>>,
    effort: Option<ReasoningEffort>,
    query: Seq<char>,
)
    ensures
        ({
            let m = effort_model(av, query, av.len() as int);
            let l = target_label(av, trim(query), av.len() as int);
            let rows = member_rows(av, current, l->0, av.len() as int);
            let in_group = trim(query).len() > 0 && l is Some;
            &&& m is Some ==> suggestions(av, current, effort, query) == effort_rows(
                av[m->0],
                current == Some(av[m->0].id),
                effort,
                av[m->0].efforts.len() as int,
            ) && phase_title(av, query) == "Pick reasoning effort"@
            &&& m is None && in_group ==> suggestions(av, current, effort, query) == (
            if rows.len() > 0 {
                rows
            } else {
                model_rows(av, current)
            }) && phase_title(av, query) == "Pick "@ + l->0 + " model"@
            &&& m is None && !in_group ==> suggestions(av, current, effort, query) == model_rows(
                av,
                current,
            ) && phase_title(av, query) == "Pick model"@
        }),
{
}

/// A model stands under its group by the name without the whitespace around it, and under
/// none where nothing is left of that.
pub proof fn groups_are_trimmed(m: InfoModel, l: Seq<char>)
    ensures
        group_label(m) == Some(l) <==> m.group is Some && trim(m.group->0) == l && l.len() > 0,
        group_label(m) is None <==> m.group is None || trim(m.group->0).len() == 0,
{
}

} // verus!
