//! The `/model` command: which model is meant, and what is offered while it is typed.
use crate::text::{
    ascii_lower, ascii_lower_chars, chars_of, decimal, decimal_usize, is_white, is_white_char,
    same_chars, same_ignoring_ascii_case, same_text, same_text_ignoring_ascii_case, starts_with,
    starts_with_chars, string_of, text_of, trim, trim_chars, trim_end, trim_end_chars, trim_text,
    views,
};
use vstd::prelude::*;
use vstd::slice::slice_subrange;
use vstd::string::StringExecFns;

verus! {

// ---------------------------------------------------------------- index of labels

/// A map of the `indexmap` crate, which keeps its entries in the order in which they came.
#[verifier::external_type_specification]
#[verifier::external_body]
#[verifier::reject_recursive_types(K)]
#[verifier::reject_recursive_types(V)]
#[verifier::reject_recursive_types(S)]
pub struct ExIndexMap<K, V, S>(indexmap::IndexMap<K, V, S>);

/// The entries of an index of labels, in the order in which they came.
pub uninterp spec fn index_entries(m: indexmap::IndexMap<String, usize>) -> Seq<(Seq<char>, usize)>;

/// The key stands in the entries.
pub open spec fn has_key(entries: Seq<(Seq<char>, usize)>, key: Seq<char>) -> bool {
    exists|i: int| 0 <= i < entries.len() && (#[trigger] entries[i]).0 == key
}

/// `IndexMap::new`: no entries.
#[verifier::external_body]
fn new_index() -> (m: indexmap::IndexMap<String, usize>)
    ensures
        index_entries(m) == Seq::<(Seq<char>, usize)>::empty(),
{
    indexmap::IndexMap::new()
}

/// `IndexMap::get`: the value that stands under the key, nothing where none does.
#[verifier::external_body]
fn index_get(m: &indexmap::IndexMap<String, usize>, key: &str) -> (r: Option<usize>)
    ensures
        r is Some <==> has_key(index_entries(*m), key@),
        forall|i: int|
            0 <= i < index_entries(*m).len() && (#[trigger] index_entries(*m)[i]).0 == key@ ==> r
                == Some(index_entries(*m)[i].1),
{
    m.get(key).copied()
}

/// `IndexMap::insert`: a key that was not there comes last.
#[verifier::external_body]
fn index_insert(m: &mut indexmap::IndexMap<String, usize>, key: String, value: usize)
    requires
        !has_key(index_entries(*old(m)), key@),
    ensures
        index_entries(*final(m)) == index_entries(*old(m)).push((key@, value)),
{
    m.insert(key, value);
}

/// `IndexMap::get_index`: the key of the entry at a place.
#[verifier::external_body]
fn index_key(m: &indexmap::IndexMap<String, usize>, at: usize) -> (r: Option<String>)
    ensures
        r is Some <==> at < index_entries(*m).len(),
        r matches Some(k) ==> k@ == index_entries(*m)[at as int].0,
{
    m.get_index(at).map(|entry| entry.0.clone())
}

// --------------------------------------------------------------------- models

/// How hard a model thinks.
#[derive(Debug, Clone, Copy, PartialEq, Eq, Structural)]
pub enum ReasoningEffort {
    Low,
    Medium,
    High,
    Xhigh,
}

/// The name of an effort.
pub open spec fn effort_name(e: ReasoningEffort) -> Seq<char> {
    match e {
        ReasoningEffort::Low => "low"@,
        ReasoningEffort::Medium => "medium"@,
        ReasoningEffort::High => "high"@,
        ReasoningEffort::Xhigh => "xhigh"@,
    }
}

impl ReasoningEffort {
    /// The name of the effort.
    pub fn id(&self) -> (r: &'static str)
        ensures
            r@ == effort_name(*self),
    {
        match self {
            ReasoningEffort::Low => "low",
            ReasoningEffort::Medium => "medium",
            ReasoningEffort::High => "high",
            ReasoningEffort::Xhigh => "xhigh",
        }
    }
}

/// The efforts that a model offers where it names none of its own, the hardest first.
pub fn default_efforts() -> (r: Vec<ReasoningEffort>)
    ensures
        r@ == seq![
            ReasoningEffort::Xhigh,
            ReasoningEffort::High,
            ReasoningEffort::Medium,
            ReasoningEffort::Low,
        ],
{
    let r = vec![
        ReasoningEffort::Xhigh,
        ReasoningEffort::High,
        ReasoningEffort::Medium,
        ReasoningEffort::Low,
    ];
    assert(r@ =~= seq![
        ReasoningEffort::Xhigh,
        ReasoningEffort::High,
        ReasoningEffort::Medium,
        ReasoningEffort::Low,
    ]);
    r
}

/// What is known of a model.
#[derive(Debug)]
pub struct ModelInfo {
    pub id: String,
    /// The name under which it is shown.
    pub name: String,
    pub description: Option<String>,
    /// The source that the model is grouped under, as it is configured.
    pub group: Option<String>,
    /// The model can be told how hard to think.
    pub supports_effort: bool,
    /// The efforts it offers, the hardest first.
    pub efforts: Vec<ReasoningEffort>,
}

/// [`ModelInfo`] by its texts.
pub struct InfoModel {
    pub id: Seq<char>,
    pub name: Seq<char>,
    pub description: Option<Seq<char>>,
    pub group: Option<Seq<char>>,
    pub supports_effort: bool,
    pub efforts: Seq<ReasoningEffort>,
}

impl View for ModelInfo {
    type V = InfoModel;

    open spec fn view(&self) -> InfoModel {
        InfoModel {
            id: self.id@,
            name: self.name@,
            description: text_of(self.description),
            group: text_of(self.group),
            supports_effort: self.supports_effort,
            efforts: self.efforts@,
        }
    }
}

/// The texts of a list of models.
pub open spec fn info_models(v: Seq<ModelInfo>) -> Seq<InfoModel> {
    v.map_values(|m: ModelInfo| m@)
}

/// The models there are, and which one is in use.
#[derive(Debug)]
pub struct ModelState {
    /// The models in the order of the catalog.
    pub available: Vec<ModelInfo>,
    /// The id of the model in use.
    pub current: Option<String>,
    /// How hard it thinks.
    pub reasoning_effort: Option<ReasoningEffort>,
}

impl ModelState {
    /// The catalog.
    pub open spec fn catalog(self) -> Seq<InfoModel> {
        info_models(self.available@)
    }
}

/// A row that is offered while arguments are typed.
#[derive(Debug, Clone, PartialEq, Eq)]
pub struct ArgItem {
    pub display: String,
    pub match_text: String,
    pub insert_text: String,
    pub description: String,
}

/// [`ArgItem`] by its texts.
pub struct ItemModel {
    pub display: Seq<char>,
    pub match_text: Seq<char>,
    pub insert_text: Seq<char>,
    pub description: Seq<char>,
}

impl View for ArgItem {
    type V = ItemModel;

    open spec fn view(&self) -> ItemModel {
        ItemModel {
            display: self.display@,
            match_text: self.match_text@,
            insert_text: self.insert_text@,
            description: self.description@,
        }
    }
}

/// The texts of a list of rows.
pub open spec fn item_models(v: Seq<ArgItem>) -> Seq<ItemModel> {
    v.map_values(|i: ArgItem| i@)
}

/// The model whose name or id is `name`, whatever the case of its letters: the first in the
/// catalog from the `i`th on.
pub open spec fn resolved_from(av: Seq<InfoModel>, name: Seq<char>, i: int) -> Option<int>
    decreases av.len() - i,
{
    if i < 0 || i >= av.len() {
        None
    } else if same_ignoring_ascii_case(av[i].name, name) || same_ignoring_ascii_case(
        av[i].id,
        name,
    ) {
        Some(i)
    } else {
        resolved_from(av, name, i + 1)
    }
}

/// The model whose name or id is `name`, whatever the case of its letters.
pub open spec fn resolved(av: Seq<InfoModel>, name: Seq<char>) -> Option<int> {
    resolved_from(av, name, 0)
}

/// The model whose name or id is `name`, whatever the case of its letters.
pub fn resolve_model(models: &ModelState, name: &str) -> (r: Option<usize>)
    ensures
        match r {
            Some(i) => i < models.available@.len() && resolved(models.catalog(), name@) == Some(
                i as int,
            ),
            None => resolved(models.catalog(), name@) is None,
        },
{
    let ghost av = models.catalog();
    let mut i: usize = 0;
    while i < models.available.len()
        invariant
            i <= models.available.len(),
            av == models.catalog(),
            resolved(av, name@) == resolved_from(av, name@, i as int),
        decreases models.available.len() - i,
    {
        assert(av[i as int] == models.available@[i as int]@);
        if same_text_ignoring_ascii_case(models.available[i].name.as_str(), name)
            || same_text_ignoring_ascii_case(models.available[i].id.as_str(), name) {
            return Some(i);
        }
        i += 1;
    }
    None
}

// ------------------------------------------------------------------- splitting

/// The last whitespace in `s`.
pub open spec fn last_white(s: Seq<char>) -> Option<int>
    decreases s.len(),
{
    if s.len() == 0 {
        None
    } else if is_white(s.last()) {
        Some(s.len() - 1)
    } else {
        last_white(s.drop_last())
    }
}

/// `args` without its last word, and that word: nothing where there is only one.
pub open spec fn trailing_token(args: Seq<char>) -> Option<(Seq<char>, Seq<char>)> {
    match last_white(args) {
        Some(i) => {
            let prefix = trim_end(args.take(i));
            let last = args.skip(i + 1);
            if prefix.len() == 0 || last.len() == 0 {
                None
            } else {
                Some((prefix, last))
            }
        },
        None => None,
    }
}

/// `args` without its last word, and that word.
pub fn split_trailing_token(args: &str) -> (r: Option<(String, String)>)
    ensures
        match r {
            Some((p, t)) => trailing_token(args@) == Some((p@, t@)),
            None => trailing_token(args@) is None,
        },
{
    let v: Vec<char> = chars_of(args);
    let mut n: usize = v.len();
    assert(v@.take(n as int) =~= v@);
    while n > 0 && !is_white_char(v[n - 1])
        invariant
            n <= v.len(),
            v@ == args@,
            last_white(v@) == last_white(v@.take(n as int)),
        decreases n,
    {
        assert(v@.take(n as int).drop_last() =~= v@.take(n as int - 1));
        n -= 1;
    }
    if n == 0 {
        return None;
    }
    let at: usize = n - 1;
    assert(v@.take(n as int).last() == v@[at as int]);
    assert(v@.subrange(0, at as int) =~= v@.take(at as int));
    assert(v@.subrange(at + 1, v@.len() as int) =~= v@.skip(at + 1));
    let prefix: &[char] = trim_end_chars(slice_subrange(&v, 0, at));
    let last: &[char] = slice_subrange(&v, at + 1, v.len());
    if prefix.len() == 0 || last.len() == 0 {
        return None;
    }
    Some((string_of(prefix), string_of(last)))
}

// ----------------------------------------------------------------- effort phase

/// `query` is `name`, whatever the case of its letters, and then whitespace.
pub open spec fn names_and_more(query: Seq<char>, name: Seq<char>) -> bool {
    query.len() > name.len() && same_ignoring_ascii_case(query.take(name.len() as int), name)
        && is_white(query[name.len() as int])
}

/// How many bytes a text has.
pub open spec fn byte_len(s: Seq<char>) -> nat {
    vstd::utf8::encode_utf8(s).len()
}

/// Among the first `n` models that can be told how hard to think, the one with the longest
/// name that `query` names and goes on behind.
pub open spec fn effort_model(av: Seq<InfoModel>, query: Seq<char>, n: int) -> Option<int>
    decreases n,
{
    if n <= 0 || n > av.len() {
        None
    } else {
        let before = effort_model(av, query, n - 1);
        let m = av[n - 1];
        if m.supports_effort && names_and_more(query, m.name) && (before is None || byte_len(m.name)
            > byte_len(av[before->0].name)) {
            Some(n - 1)
        } else {
            before
        }
    }
}

fn is_named(query: &[char], name: &str) -> (r: bool)
    ensures
        r == names_and_more(query@, name@),
{
    let v: Vec<char> = chars_of(name);
    if query.len() <= v.len() {
        return false;
    }
    let head: &[char] = slice_subrange(query, 0, v.len());
    assert(head@ =~= query@.take(v@.len() as int));
    let a: Vec<char> = ascii_lower_chars(head);
    let b: Vec<char> = ascii_lower_chars(&v);
    same_chars(&a, &b) && is_white_char(query[v.len()])
}

/// The model that `args_query` names and goes on behind, where it can be told how hard to
/// think; the longest name wins.
pub fn detect_effort_phase(models: &ModelState, args_query: &str) -> (r: Option<usize>)
    ensures
        match r {
            Some(i) => i < models.available@.len() && effort_model(
                models.catalog(),
                args_query@,
                models.available@.len() as int,
            ) == Some(i as int),
            None => effort_model(
                models.catalog(),
                args_query@,
                models.available@.len() as int,
            ) is None,
        },
{
    let ghost av = models.catalog();
    let query: Vec<char> = chars_of(args_query);
    let mut best: Option<usize> = None;
    let mut i: usize = 0;
    while i < models.available.len()
        invariant
            i <= models.available.len(),
            av == models.catalog(),
            query@ == args_query@,
            match best {
                Some(b) => b < i && effort_model(av, args_query@, i as int) == Some(b as int),
                None => effort_model(av, args_query@, i as int) is None,
            },
        decreases models.available.len() - i,
    {
        assert(av[i as int] == models.available@[i as int]@);
        let m: &ModelInfo = &models.available[i];
        if m.supports_effort && is_named(&query, m.name.as_str()) {
            let longer: bool = match best {
                Some(b) => {
                    assert(av[b as int] == models.available@[b as int]@);
                    m.name.as_str().as_bytes().len() > models.available[b].name.as_str().as_bytes().len()
                },
                None => true,
            };
            if longer {
                best = Some(i);
            }
        }
        i += 1;
    }
    best
}

// ------------------------------------------------------------------------ groups

/// The source that a model is grouped under: its configured group, unless that is blank.
pub open spec fn group_label(m: InfoModel) -> Option<Seq<char>> {
    match m.group {
        Some(g) => if trim(g).len() == 0 {
            None
        } else {
            Some(trim(g))
        },
        None => None,
    }
}

/// The source that a model is grouped under.
pub fn group_of(info: &ModelInfo) -> (r: Option<String>)
    ensures
        text_of(r) == group_label(info@),
{
    match &info.group {
        Some(g) => {
            let t: String = trim_text(g.as_str());
            if t.as_str().is_empty() {
                None
            } else {
                Some(t)
            }
        },
        None => None,
    }
}

/// `query` is the label, or the label and a space and more, whatever the case.
pub open spec fn targets(query: Seq<char>, label: Seq<char>) -> bool {
    let lower = ascii_lower(query);
    let l = ascii_lower(label);
    lower == l || starts_with(lower, l + seq![' '])
}

/// Among the labels of the first `n` models, the longest that `query` targets.
pub open spec fn target_label(av: Seq<InfoModel>, query: Seq<char>, n: int) -> Option<Seq<char>>
    decreases n,
{
    if n <= 0 || n > av.len() {
        None
    } else {
        let before = target_label(av, query, n - 1);
        match group_label(av[n - 1]) {
            Some(l) => if targets(query, l) && (before is None || byte_len(l) > byte_len(
                before->0,
            )) {
                Some(l)
            } else {
                before
            },
            None => before,
        }
    }
}

/// The group that the arguments target.
pub open spec fn phase_label(av: Seq<InfoModel>, args: Seq<char>) -> Option<Seq<char>> {
    if trim(args).len() == 0 {
        None
    } else {
        target_label(av, trim(args), av.len() as int)
    }
}

fn is_target(query: &[char], label: &str) -> (r: bool)
    ensures
        r == targets(query@, label@),
{
    let lower: Vec<char> = ascii_lower_chars(query);
    let mut l: Vec<char> = ascii_lower_chars(&chars_of(label));
    if same_chars(&lower, &l) {
        return true;
    }
    let ghost before = l@;
    l.push(' ');
    assert(l@ =~= before + seq![' ']);
    starts_with_chars(&lower, &l)
}

/// The group that the arguments target: the longest label that they are, or that they
/// start with.
pub fn group_phase_label(models: &ModelState, args_query: &str) -> (r: Option<String>)
    ensures
        text_of(r) == phase_label(models.catalog(), args_query@),
{
    let ghost av = models.catalog();
    let v: Vec<char> = chars_of(args_query);
    let trimmed: &[char] = trim_chars(&v);
    if trimmed.len() == 0 {
        return None;
    }
    let ghost q = trim(args_query@);
    let mut best: Option<String> = None;
    let mut i: usize = 0;
    while i < models.available.len()
        invariant
            i <= models.available.len(),
            av == models.catalog(),
            trimmed@ == q,
            text_of(best) == target_label(av, q, i as int),
        decreases models.available.len() - i,
    {
        assert(av[i as int] == models.available@[i as int]@);
        if let Some(label) = group_of(&models.available[i]) {
            if is_target(trimmed, label.as_str()) {
                let longer: bool = match &best {
                    Some(b) => label.as_str().as_bytes().len() > b.as_str().as_bytes().len(),
                    None => true,
                };
                if longer {
                    best = Some(label);
                }
            }
        }
        i += 1;
    }
    assert(av.len() == models.available@.len());
    best
}

/// Whether the arguments target a group.
pub fn is_group_phase(models: &ModelState, args_query: &str) -> (r: bool)
    ensures
        r == (phase_label(models.catalog(), args_query@) is Some),
{
    group_phase_label(models, args_query).is_some()
}

// -------------------------------------------------------------------------- rows

/// The row for a model. A model that can be told how hard to think gets a space behind
/// its name, which asks for more.
pub open spec fn row(m: InfoModel, current: Option<Seq<char>>) -> ItemModel {
    ItemModel {
        display: if current == Some(m.id) {
            m.name + " (current)"@
        } else {
            m.name
        },
        match_text: m.name,
        insert_text: if m.supports_effort {
            m.name + " "@
        } else {
            m.name
        },
        description: match m.description {
            Some(d) => d,
            None => Seq::empty(),
        },
    }
}

fn is_current(models: &ModelState, id: &str) -> (r: bool)
    ensures
        r == (text_of(models.current) == Some(id@)),
{
    match &models.current {
        Some(c) => same_text(c.as_str(), id),
        None => false,
    }
}

/// The row for a model.
pub fn model_row(models: &ModelState, info: &ModelInfo) -> (r: ArgItem)
    ensures
        r@ == row(info@, text_of(models.current)),
{
    let mut display: String = info.name.clone();
    if is_current(models, info.id.as_str()) {
        display.append(" (current)");
    }
    let mut insert_text: String = info.name.clone();
    if info.supports_effort {
        insert_text.append(" ");
    }
    let r = ArgItem {
        display,
        match_text: info.name.clone(),
        insert_text,
        description: match &info.description {
            Some(d) => d.clone(),
            None => String::new(),
        },
    };
    assert(r@.description =~= row(info@, text_of(models.current)).description);
    r
}

/// The rows of the first `n` models that belong to no group.
pub open spec fn single_rows(av: Seq<InfoModel>, current: Option<Seq<char>>, n: int) -> Seq<ItemModel>
    decreases n,
{
    if n <= 0 || n > av.len() {
        Seq::empty()
    } else {
        let before = single_rows(av, current, n - 1);
        if group_label(av[n - 1]) is None {
            before.push(row(av[n - 1], current))
        } else {
            before
        }
    }
}

/// The labels of the first `n` models, each once, in the order in which they first come.
pub open spec fn labels(av: Seq<InfoModel>, n: int) -> Seq<Seq<char>>
    decreases n,
{
    if n <= 0 || n > av.len() {
        Seq::empty()
    } else {
        let before = labels(av, n - 1);
        match group_label(av[n - 1]) {
            Some(l) => if before.contains(l) {
                before
            } else {
                before.push(l)
            },
            None => before,
        }
    }
}

/// The names of those of the first `n` models that have the label.
pub open spec fn member_names(av: Seq<InfoModel>, label: Seq<char>, n: int) -> Seq<Seq<char>>
    decreases n,
{
    if n <= 0 || n > av.len() {
        Seq::empty()
    } else {
        let before = member_names(av, label, n - 1);
        if group_label(av[n - 1]) == Some(label) {
            before.push(av[n - 1].name)
        } else {
            before
        }
    }
}

/// One of the first `n` models that have the label is in use.
pub open spec fn has_current(
    av: Seq<InfoModel>,
    current: Option<Seq<char>>,
    label: Seq<char>,
    n: int,
) -> bool
    decreases n,
{
    n > 0 && n <= av.len() && (has_current(av, current, label, n - 1) || (group_label(av[n - 1])
        == Some(label) && current == Some(av[n - 1].id)))
}

/// `head` and the first `n` names, each behind a space.
pub open spec fn spaced(head: Seq<char>, names: Seq<Seq<char>>, n: int) -> Seq<char>
    decreases n,
{
    if n <= 0 || n > names.len() {
        head
    } else {
        spaced(head, names, n - 1).push(' ') + names[n - 1]
    }
}

/// The row for a group: it shows how many models there are, is found by the name of any of
/// them, and asks for more.
pub open spec fn group_row(label: Seq<char>, names: Seq<Seq<char>>, in_use: bool) -> ItemModel {
    let counted = if names.len() == 1 {
        label + " ▸ "@ + "1 model"@
    } else {
        label + " ▸ "@ + decimal(names.len()) + " models"@
    };
    ItemModel {
        display: if in_use {
            counted + " (current)"@
        } else {
            counted
        },
        match_text: spaced(label + " group"@, names, names.len() as int),
        insert_text: label + " "@,
        description: "Source group - Enter to expand"@,
    }
}

/// The rows of the first `n` groups.
pub open spec fn group_rows(av: Seq<InfoModel>, current: Option<Seq<char>>, n: int) -> Seq<ItemModel>
    decreases n,
{
    let all = labels(av, av.len() as int);
    if n <= 0 || n > all.len() {
        Seq::empty()
    } else {
        group_rows(av, current, n - 1).push(
            group_row(
                all[n - 1],
                member_names(av, all[n - 1], av.len() as int),
                has_current(av, current, all[n - 1], av.len() as int),
            ),
        )
    }
}

/// One row for each model without a group in the order of the catalog, and then one row for
/// each group in the order in which they first come.
pub open spec fn model_rows(av: Seq<InfoModel>, current: Option<Seq<char>>) -> Seq<ItemModel> {
    single_rows(av, current, av.len() as int) + group_rows(
        av,
        current,
        labels(av, av.len() as int).len() as int,
    )
}

/// A group while it is collected.
struct Group {
    names: Vec<String>,
    in_use: bool,
}

fn row_of_group(label: &str, names: &Vec<String>, in_use: bool) -> (r: ArgItem)
    ensures
        r@ == group_row(label@, views(names@), in_use),
{
    let mut match_text: String = label.to_owned();
    match_text.append(" group");
    let ghost head = match_text@;
    let mut i: usize = 0;
    while i < names.len()
        invariant
            i <= names.len(),
            match_text@ == spaced(head, views(names@), i as int),
        decreases names.len() - i,
    {
        assert(views(names@)[i as int] == names@[i as int]@);
        match_text.push(' ');
        match_text.append(names[i].as_str());
        i += 1;
    }
    assert(views(names@).len() == names@.len());
    let mut display: String = label.to_owned();
    display.append(" ▸ ");
    if names.len() == 1 {
        display.append("1 model");
    } else {
        display.append(decimal_usize(names.len()).as_str());
        display.append(" models");
    }
    if in_use {
        display.append(" (current)");
    }
    let mut insert_text: String = label.to_owned();
    insert_text.append(" ");
    ArgItem {
        display,
        match_text,
        insert_text,
        description: "Source group - Enter to expand".to_owned(),
    }
}

spec fn groups_hold(
    av: Seq<InfoModel>,
    current: Option<Seq<char>>,
    entries: Seq<(Seq<char>, usize)>,
    groups: Seq<Group>,
    n: int,
) -> bool {
    let ls = labels(av, n);
    &&& entries.len() == ls.len()
    &&& groups.len() == ls.len()
    &&& forall|k: int| 0 <= k < ls.len() ==> (#[trigger] entries[k]) == (ls[k], k as usize)
    &&& forall|k: int|
        0 <= k < ls.len() ==> views((#[trigger] groups[k]).names@) == member_names(av, ls[k], n)
    &&& forall|k: int|
        0 <= k < ls.len() ==> (#[trigger] groups[k]).in_use == has_current(av, current, ls[k], n)
}

proof fn labels_are_distinct(av: Seq<InfoModel>, n: int)
    requires
        0 <= n <= av.len(),
    ensures
        forall|i: int, j: int|
            0 <= i < j < labels(av, n).len() ==> #[trigger] labels(av, n)[i] != #[trigger] labels(
                av,
                n,
            )[j],
        labels(av, n).len() <= n,
    decreases n,
{
    if n > 0 {
        labels_are_distinct(av, n - 1);
        let before = labels(av, n - 1);
        let all = labels(av, n);
        assert forall|i: int, j: int| 0 <= i < j < all.len() implies #[trigger] all[i]
            != #[trigger] all[j] by {
            assert(all[i] == before[i]);
            if j < before.len() {
                assert(all[j] == before[j]);
            } else {
                assert(before.contains(before[i]));
            }
        }
    }
}

/// No model before the first with a label has that label.
proof fn new_label_has_no_members(
    av: Seq<InfoModel>,
    current: Option<Seq<char>>,
    label: Seq<char>,
    n: int,
)
    requires
        0 <= n <= av.len(),
        !labels(av, n).contains(label),
    ensures
        member_names(av, label, n) == Seq::<Seq<char>>::empty(),
        !has_current(av, current, label, n),
    decreases n,
{
    if n > 0 {
        let before = labels(av, n - 1);
        let all = labels(av, n);
        if before.contains(label) {
            let k = choose|k: int| 0 <= k < before.len() && before[k] == label;
            assert(all[k] == label);
        }
        if group_label(av[n - 1]) == Some(label) {
            assert(all[all.len() - 1] == label || before.contains(label));
        }
        new_label_has_no_members(av, current, label, n - 1);
    }
}

/// One row for each model without a group, and then one row for each group.
pub fn build_model_items(models: &ModelState) -> (r: Vec<ArgItem>)
    ensures
        item_models(r@) == model_rows(models.catalog(), text_of(models.current)),
{
    let ghost av = models.catalog();
    let ghost current = text_of(models.current);
    let mut items: Vec<ArgItem> = Vec::new();
    let mut index: indexmap::IndexMap<String, usize> = new_index();
    let mut groups: Vec<Group> = Vec::new();
    let mut i: usize = 0;
    assert(item_models(items@) =~= Seq::empty());
    assert(av.len() == models.available@.len());
    while i < models.available.len()
        invariant
            i <= models.available.len(),
            av == models.catalog(),
            av.len() == models.available@.len(),
            current == text_of(models.current),
            item_models(items@) == single_rows(av, current, i as int),
            groups_hold(av, current, index_entries(index), groups@, i as int),
        decreases models.available.len() - i,
    {
        assert(av[i as int] == models.available@[i as int]@);
        let info: &ModelInfo = &models.available[i];
        let ghost ls = labels(av, i as int);
        proof {
            labels_are_distinct(av, i as int);
            labels_are_distinct(av, i as int + 1);
        }
        match group_of(info) {
            Some(label) => {
                let in_use: bool = is_current(models, info.id.as_str());
                let ghost entries = index_entries(index);
                match index_get(&index, label.as_str()) {
                    Some(k) => {
                        let ghost at = choose|x: int| 0 <= x < entries.len() && (#[trigger] entries[x]).0 == label@;
                        assert(entries[at] == (ls[at], at as usize));
                        assert(k == at);
                        assert(ls.contains(label@));
                        let ghost was = groups@;
                        let mut g: Group = groups.remove(k);
                        let ghost names = g.names@;
                        g.names.push(info.name.clone());
                        assert(views(g.names@) =~= views(names).push(info.name@));
                        g.in_use = g.in_use || in_use;
                        groups.insert(k, g);
                        proof {
                            let now = groups@;
                            assert forall|x: int| 0 <= x < ls.len() implies views(
                                (#[trigger] now[x]).names@,
                            ) == member_names(av, ls[x], i + 1) && now[x].in_use == has_current(
                                av,
                                current,
                                ls[x],
                                i + 1,
                            ) by {
                                if x != k {
                                    assert(now[x] == was[x]);
                                    assert(ls[x] != ls[k as int]);
                                }
                            }
                        }
                    },
                    None => {
                        proof {
                            if ls.contains(label@) {
                                let x = choose|x: int| 0 <= x < ls.len() && ls[x] == label@;
                                assert(entries[x] == (ls[x], x as usize));
                            }
                            new_label_has_no_members(av, current, label@, i as int);
                        }
                        let mut names: Vec<String> = Vec::new();
                        names.push(info.name.clone());
                        let ghost was = groups@;
                        let ghost l = label@;
                        let g = Group { names, in_use };
                        index_insert(&mut index, label, groups.len());
                        groups.push(g);
                        proof {
                            let now = groups@;
                            let all = labels(av, i + 1);
                            assert(all == ls.push(l));
                            assert(views(names@) =~= Seq::<Seq<char>>::empty().push(info.name@));
                            assert forall|x: int| 0 <= x < all.len() implies views(
                                (#[trigger] now[x]).names@,
                            ) == member_names(av, all[x], i + 1) && now[x].in_use == has_current(
                                av,
                                current,
                                all[x],
                                i + 1,
                            ) by {
                                if x < ls.len() {
                                    assert(now[x] == was[x]);
                                    assert(all[x] == ls[x]);
                                    assert(ls[x] != l);
                                }
                            }
                            assert forall|x: int| 0 <= x < all.len() implies (#[trigger] index_entries(
                                index,
                            )[x]) == (all[x], x as usize) by {
                                if x < ls.len() {
                                    assert(entries[x] == (ls[x], x as usize));
                                }
                            }
                        }
                    },
                }
            },
            None => {
                let ghost before = items@;
                items.push(model_row(models, info));
                assert(item_models(items@) =~= item_models(before).push(row(av[i as int], current)));
            },
        }
        i += 1;
    }
    let ghost singles = item_models(items@);
    let ghost all = labels(av, av.len() as int);
    let mut k: usize = 0;
    assert(singles + group_rows(av, current, 0) =~= singles);
    while k < groups.len()
        invariant
            k <= groups.len(),
            av == models.catalog(),
            current == text_of(models.current),
            all == labels(av, av.len() as int),
            groups_hold(av, current, index_entries(index), groups@, av.len() as int),
            item_models(items@) == singles + group_rows(av, current, k as int),
        decreases groups.len() - k,
    {
        assert(index_entries(index)[k as int] == (all[k as int], k));
        assert(views(groups@[k as int].names@) == member_names(av, all[k as int], av.len() as int));
        if let Some(label) = index_key(&index, k) {
            let ghost before = items@;
            let item: ArgItem = row_of_group(label.as_str(), &groups[k].names, groups[k].in_use);
            let ghost model = item@;
            items.push(item);
            assert(item_models(items@) =~= item_models(before).push(model));
            assert(singles + group_rows(av, current, k as int + 1) =~= (singles + group_rows(
                av,
                current,
                k as int,
            )).push(model));
        }
        k += 1;
    }
    items
}

/// The rows of those of the first `n` models that belong to the group, each found by a
/// letter that keeps their order, the label and its name.
pub open spec fn member_rows(
    av: Seq<InfoModel>,
    current: Option<Seq<char>>,
    label: Seq<char>,
    n: int,
) -> Seq<ItemModel>
    decreases n,
{
    if n <= 0 || n > av.len() {
        Seq::empty()
    } else {
        let before = member_rows(av, current, label, n - 1);
        match group_label(av[n - 1]) {
            Some(l) => if same_ignoring_ascii_case(l, label) {
                let r = row(av[n - 1], current);
                before.push(
                    ItemModel {
                        match_text: seq![order_letter(before.len())] + " "@ + label + " "@
                            + r.match_text,
                        ..r
                    },
                )
            } else {
                before
            },
            None => before,
        }
    }
}

/// The letter that keeps the `n`th row in its place; from the 26th on it is always the last.
pub open spec fn order_letter(n: nat) -> char {
    (97 + if n < 25 {
        n as int
    } else {
        25
    }) as u8 as char
}

fn letter(n: usize) -> (c: char)
    ensures
        c == order_letter(n as nat),
{
    let k: u8 = if n < 25 {
        n as u8
    } else {
        25
    };
    (97u8 + k) as char
}

/// The rows of the models of a group.
pub fn group_member_items(models: &ModelState, label: &str) -> (r: Vec<ArgItem>)
    ensures
        item_models(r@) == member_rows(
            models.catalog(),
            text_of(models.current),
            label@,
            models.available@.len() as int,
        ),
{
    let ghost av = models.catalog();
    let ghost current = text_of(models.current);
    let mut items: Vec<ArgItem> = Vec::new();
    let mut i: usize = 0;
    assert(item_models(items@) =~= Seq::empty());
    while i < models.available.len()
        invariant
            i <= models.available.len(),
            av == models.catalog(),
            current == text_of(models.current),
            item_models(items@) == member_rows(av, current, label@, i as int),
        decreases models.available.len() - i,
    {
        assert(av[i as int] == models.available@[i as int]@);
        let info: &ModelInfo = &models.available[i];
        if let Some(g) = group_of(info) {
            if same_text_ignoring_ascii_case(g.as_str(), label) {
                let mut item: ArgItem = model_row(models, info);
                assert(item_models(items@).len() == items@.len());
                let mut text: String = String::new();
                text.push(letter(items.len()));
                text.append(" ");
                text.append(label);
                text.append(" ");
                text.append(item.match_text.as_str());
                assert(text@ =~= seq![order_letter(items@.len())] + " "@ + label@ + " "@
                    + item.match_text@);
                item.match_text = text;
                let ghost before = items@;
                let ghost model = item@;
                items.push(item);
                assert(item_models(items@) =~= item_models(before).push(model));
            }
        }
        i += 1;
    }
    items
}

/// The rows for the first `n` efforts of a model.
pub open spec fn effort_rows(
    m: InfoModel,
    in_use: bool,
    effort: Option<ReasoningEffort>,
    n: int,
) -> Seq<ItemModel>
    decreases n,
{
    if n <= 0 || n > m.efforts.len() {
        Seq::empty()
    } else {
        let e = m.efforts[n - 1];
        effort_rows(m, in_use, effort, n - 1).push(
            ItemModel {
                display: if in_use && effort == Some(e) {
                    effort_name(e) + " (current)"@
                } else {
                    effort_name(e)
                },
                match_text: seq![order_letter((n - 1) as nat)] + " "@ + m.name + " "@ + effort_name(
                    e,
                ),
                insert_text: m.name + " "@ + effort_name(e),
                description: Seq::empty(),
            },
        )
    }
}

/// One row for each effort that a model offers; taking one completes both words.
pub fn build_effort_items(models: &ModelState, at: usize) -> (r: Vec<ArgItem>)
    requires
        at < models.available@.len(),
    ensures
        item_models(r@) == effort_rows(
            models.catalog()[at as int],
            text_of(models.current) == Some(models.catalog()[at as int].id),
            models.reasoning_effort,
            models.catalog()[at as int].efforts.len() as int,
        ),
{
    let info: &ModelInfo = &models.available[at];
    let ghost m = models.catalog()[at as int];
    assert(m == info@);
    let in_use: bool = is_current(models, info.id.as_str());
    let mut items: Vec<ArgItem> = Vec::new();
    let mut i: usize = 0;
    assert(item_models(items@) =~= Seq::empty());
    while i < info.efforts.len()
        invariant
            i <= info.efforts.len(),
            m == info@,
            item_models(items@) == effort_rows(m, in_use, models.reasoning_effort, i as int),
        decreases info.efforts.len() - i,
    {
        let e: ReasoningEffort = info.efforts[i];
        let marked: bool = in_use && match models.reasoning_effort {
            Some(x) => x == e,
            None => false,
        };
        let mut display: String = e.id().to_owned();
        if marked {
            display.append(" (current)");
        }
        let mut insert_text: String = info.name.clone();
        insert_text.append(" ");
        insert_text.append(e.id());
        let mut match_text: String = String::new();
        match_text.push(letter(i));
        match_text.append(" ");
        match_text.append(info.name.as_str());
        match_text.append(" ");
        match_text.append(e.id());
        let description: String = String::new();
        assert(description@ =~= Seq::empty());
        assert(match_text@ =~= seq![order_letter(i as nat)] + " "@ + m.name + " "@ + effort_name(e));
        let item = ArgItem { display, match_text, insert_text, description };
        let ghost before = items@;
        items.push(item);
        assert(item_models(items@) =~= item_models(before).push(item@));
        i += 1;
    }
    items
}

// ----------------------------------------------------------------------- command

/// The `/model` command.
#[derive(Debug, Clone, Copy)]
pub struct ModelCommand;

/// What the command does.
#[derive(Debug)]
pub enum ModelAction {
    Error(String),
    /// The model is used from now on.
    SetDefault { model_id: String },
    /// The model is used in this session, and told how hard to think.
    Switch { model_id: String, effort: ReasoningEffort },
}

/// [`ModelAction`] by its texts.
pub enum ActionModel {
    Error(Seq<char>),
    SetDefault { model_id: Seq<char> },
    Switch { model_id: Seq<char>, effort: ReasoningEffort },
}

impl View for ModelAction {
    type V = ActionModel;

    open spec fn view(&self) -> ActionModel {
        match self {
            ModelAction::Error(s) => ActionModel::Error(s@),
            ModelAction::SetDefault { model_id } => ActionModel::SetDefault { model_id: model_id@ },
            ModelAction::Switch { model_id, effort } => ActionModel::Switch {
                model_id: model_id@,
                effort: *effort,
            },
        }
    }
}

/// The effort that a word names, among the offered ones from the `i`th on.
pub open spec fn effort_from(efforts: Seq<ReasoningEffort>, token: Seq<char>, i: int) -> Option<
    ReasoningEffort,
>
    decreases efforts.len() - i,
{
    if i < 0 || i >= efforts.len() {
        None
    } else if same_ignoring_ascii_case(effort_name(efforts[i]), token) {
        Some(efforts[i])
    } else {
        effort_from(efforts, token, i + 1)
    }
}

/// `head` and the names of the first `n` efforts with commas between.
pub open spec fn effort_list(head: Seq<char>, efforts: Seq<ReasoningEffort>, n: int) -> Seq<char>
    decreases n,
{
    if n <= 0 || n > efforts.len() {
        head
    } else if n == 1 {
        head + effort_name(efforts[0])
    } else {
        effort_list(head, efforts, n - 1) + ", "@ + effort_name(efforts[n - 1])
    }
}

/// What is said of an effort that a model does not offer.
pub open spec fn unknown_effort(efforts: Seq<ReasoningEffort>, token: Seq<char>) -> Seq<char> {
    effort_list(
        "unknown effort level '"@ + token + "'; use one of: "@,
        efforts,
        efforts.len() as int,
    )
}

/// The effort that a word names among those that a model offers; else what is said of it.
pub fn resolve_effort(efforts: &Vec<ReasoningEffort>, token: &str) -> (r: Result<
    ReasoningEffort,
    String,
>)
    ensures
        match r {
            Ok(e) => effort_from(efforts@, token@, 0) == Some(e),
            Err(s) => effort_from(efforts@, token@, 0) is None && s@ == unknown_effort(
                efforts@,
                token@,
            ),
        },
{
    let mut i: usize = 0;
    while i < efforts.len()
        invariant
            i <= efforts.len(),
            effort_from(efforts@, token@, 0) == effort_from(efforts@, token@, i as int),
        decreases efforts.len() - i,
    {
        if same_text_ignoring_ascii_case(efforts[i].id(), token) {
            return Ok(efforts[i]);
        }
        i += 1;
    }
    let mut s: String = "unknown effort level '".to_owned();
    s.append(token);
    s.append("'; use one of: ");
    let ghost head = s@;
    let mut k: usize = 0;
    while k < efforts.len()
        invariant
            k <= efforts.len(),
            s@ == effort_list(head, efforts@, k as int),
        decreases efforts.len() - k,
    {
        if k > 0 {
            s.append(", ");
        }
        s.append(efforts[k].id());
        k += 1;
    }
    Err(s)
}

/// What the arguments come to. A model that is named in full comes before a shorter one
/// with an effort behind it.
pub open spec fn action_of(av: Seq<InfoModel>, args: Seq<char>) -> ActionModel {
    let t = trim(args);
    if t.len() == 0 {
        ActionModel::Error("Usage: /model <name> [effort]"@)
    } else {
        match resolved(av, t) {
            Some(i) => ActionModel::SetDefault { model_id: av[i].id },
            None => match with_effort(av, t) {
                Some(a) => a,
                None => if phase_label(av, t) is Some {
                    ActionModel::Error(
                        "'"@ + t
                            + "' is a model source group - expand it in the picker and pick a model"@,
                    )
                } else {
                    ActionModel::Error("Unknown model: "@ + t)
                },
            },
        }
    }
}

/// What the arguments come to as a model with an effort behind it: nothing where they are
/// none.
pub open spec fn with_effort(av: Seq<InfoModel>, t: Seq<char>) -> Option<ActionModel> {
    match trailing_token(t) {
        Some((prefix, token)) => match resolved(av, prefix) {
            Some(i) => if av[i].supports_effort {
                Some(
                    match effort_from(av[i].efforts, token, 0) {
                        Some(effort) => ActionModel::Switch { model_id: av[i].id, effort },
                        None => ActionModel::Error(unknown_effort(av[i].efforts, token)),
                    },
                )
            } else {
                None
            },
            None => None,
        },
        None => None,
    }
}

impl ModelCommand {
    /// The name of the command.
    pub fn name(&self) -> (r: &'static str)
        ensures
            r@ == "model"@,
    {
        "model"
    }

    /// Its other names.
    pub fn aliases(&self) -> (r: Vec<&'static str>)
        ensures
            r@.len() == 1,
            r@[0]@ == "m"@,
    {
        vec!["m"]
    }

    /// What the command is for.
    pub fn description(&self) -> (r: &'static str)
        ensures
            r@ == "Switch the active model"@,
    {
        "Switch the active model"
    }

    /// How the command is used.
    pub fn usage(&self) -> (r: &'static str)
        ensures
            r@ == "/model <name> [effort]"@,
    {
        "/model <name> [effort]"
    }

    /// It is about the session at hand.
    pub fn session_scoped(&self) -> (r: bool)
        ensures
            r,
    {
        true
    }

    /// It can be given before there is a session: the next one then has the model.
    pub fn offered_when_session_less(&self) -> (r: bool)
        ensures
            r,
    {
        true
    }

    /// It takes arguments.
    pub fn takes_args(&self) -> (r: bool)
        ensures
            r,
    {
        true
    }

    /// It needs arguments.
    pub fn args_required(&self) -> (r: bool)
        ensures
            r,
    {
        true
    }

    /// What stands where its arguments go.
    pub fn arg_placeholder(&self) -> (r: Option<&'static str>)
        ensures
            r is Some && r->0@ == "<model> [effort]"@,
    {
        Some("<model> [effort]")
    }

    /// What is offered while the arguments are typed: the efforts of a model that is named
    /// and can be told how hard to think, else the models of a group that is targeted, else
    /// all models. Nothing where there are no models.
    pub fn suggest_args(&self, models: &ModelState, args_query: &str) -> (r: Option<Vec<ArgItem>>)
        ensures
            r is Some <==> models.available@.len() > 0,
            r matches Some(items) ==> item_models(items@) == suggestions(
                models.catalog(),
                text_of(models.current),
                models.reasoning_effort,
                args_query@,
            ),
    {
        assert(models.catalog().len() == models.available@.len());
        if models.available.len() == 0 {
            return None;
        }
        if let Some(i) = detect_effort_phase(models, args_query) {
            return Some(build_effort_items(models, i));
        }
        if let Some(items) = detect_group_phase_items(models, args_query) {
            return Some(items);
        }
        Some(build_model_items(models))
    }

    /// What the command does with the arguments.
    pub fn run(&self, models: &ModelState, args: &str) -> (r: ModelAction)
        ensures
            r@ == action_of(models.catalog(), args@),
    {
        let ghost av = models.catalog();
        let trimmed: String = trim_text(args);
        if trimmed.as_str().is_empty() {
            return ModelAction::Error("Usage: /model <name> [effort]".to_owned());
        }
        if let Some(i) = resolve_model(models, trimmed.as_str()) {
            assert(av[i as int] == models.available@[i as int]@);
            return ModelAction::SetDefault { model_id: models.available[i].id.clone() };
        }
        if let Some((prefix, token)) = split_trailing_token(trimmed.as_str()) {
            if let Some(i) = resolve_model(models, prefix.as_str()) {
                assert(av[i as int] == models.available@[i as int]@);
                if models.available[i].supports_effort {
                    return match resolve_effort(&models.available[i].efforts, token.as_str()) {
                        Ok(effort) => ModelAction::Switch {
                            model_id: models.available[i].id.clone(),
                            effort,
                        },
                        Err(e) => ModelAction::Error(e),
                    };
                }
            }
        }
        if is_group_phase(models, trimmed.as_str()) {
            let mut s: String = "'".to_owned();
            s.append(trimmed.as_str());
            s.append("' is a model source group - expand it in the picker and pick a model");
            return ModelAction::Error(s);
        }
        let mut s: String = "Unknown model: ".to_owned();
        s.append(trimmed.as_str());
        ModelAction::Error(s)
    }
}

/// What is offered for a query.
pub open spec fn suggestions(
    av: Seq<InfoModel>,
    current: Option<Seq<char>>,
    effort: Option<ReasoningEffort>,
    query: Seq<char>,
) -> Seq<ItemModel> {
    match effort_model(av, query, av.len() as int) {
        Some(i) => effort_rows(
            av[i],
            current == Some(av[i].id),
            effort,
            av[i].efforts.len() as int,
        ),
        None => match group_items(av, current, query) {
            Some(items) => items,
            None => model_rows(av, current),
        },
    }
}

/// The rows of the group that is targeted, nothing where none is or it has no rows.
pub open spec fn group_items(av: Seq<InfoModel>, current: Option<Seq<char>>, query: Seq<char>) -> Option<
    Seq<ItemModel>,
> {
    match phase_label(av, query) {
        Some(label) => {
            let rows = member_rows(av, current, label, av.len() as int);
            if rows.len() == 0 {
                None
            } else {
                Some(rows)
            }
        },
        None => None,
    }
}

/// The rows of the group that is targeted.
pub fn detect_group_phase_items(models: &ModelState, args_query: &str) -> (r: Option<Vec<ArgItem>>)
    ensures
        match r {
            Some(items) => group_items(
                models.catalog(),
                text_of(models.current),
                args_query@,
            ) == Some(item_models(items@)),
            None => group_items(models.catalog(), text_of(models.current), args_query@) is None,
        },
{
    assert(models.catalog().len() == models.available@.len());
    match group_phase_label(models, args_query) {
        Some(label) => {
            let items: Vec<ArgItem> = group_member_items(models, label.as_str());
            assert(item_models(items@).len() == items@.len());
            if items.len() == 0 {
                None
            } else {
                Some(items)
            }
        },
        None => None,
    }
}

/// What is picked at this point.
pub open spec fn phase_title(av: Seq<InfoModel>, query: Seq<char>) -> Seq<char> {
    if effort_model(av, query, av.len() as int) is Some {
        "Pick reasoning effort"@
    } else {
        match phase_label(av, query) {
            Some(label) => "Pick "@ + label + " model"@,
            None => "Pick model"@,
        }
    }
}

/// What is picked at this point.
pub fn picker_phase_title(models: &ModelState, args_query: &str) -> (r: String)
    ensures
        r@ == phase_title(models.catalog(), args_query@),
{
    assert(models.catalog().len() == models.available@.len());
    if detect_effort_phase(models, args_query).is_some() {
        return "Pick reasoning effort".to_owned();
    }
    match group_phase_label(models, args_query) {
        Some(label) => {
            let mut s: String = "Pick ".to_owned();
            s.append(label.as_str());
            s.append(" model");
            s
        },
        None => "Pick model".to_owned(),
    }
}

// -------------------------------------------------------------------------- laws

/// The case of letters never matters for which model is meant.
pub proof fn case_does_not_matter(av: Seq<InfoModel>, a: Seq<char>, b: Seq<char>)
    requires
        same_ignoring_ascii_case(a, b),
    ensures
        resolved(av, a) == resolved(av, b),
{
    case_does_not_matter_from(av, a, b, 0);
}

proof fn case_does_not_matter_from(av: Seq<InfoModel>, a: Seq<char>, b: Seq<char>, i: int)
    requires
        same_ignoring_ascii_case(a, b),
    ensures
        resolved_from(av, a, i) == resolved_from(av, b, i),
    decreases av.len() - i,
{
    if 0 <= i < av.len() {
        case_does_not_matter_from(av, a, b, i + 1);
    }
}

/// Arguments that name a model in full always mean that model, even where they can also be
/// read as a shorter name with an effort behind it.
pub proof fn full_names_win(av: Seq<InfoModel>, args: Seq<char>)
    requires
        trim(args).len() > 0,
        resolved(av, trim(args)) is Some,
    ensures
        action_of(av, args) == (ActionModel::SetDefault {
            model_id: av[resolved(av, trim(args))->0].id,
        }),
{
}

/// No model is lost in the list: each has a row of its own, or its name is among those by
/// which the row of its group is found.
pub proof fn no_model_is_lost(av: Seq<InfoModel>, current: Option<Seq<char>>, i: int, n: int)
    requires
        0 <= i < n <= av.len(),
    ensures
        match group_label(av[i]) {
            None => single_rows(av, current, n).contains(row(av[i], current)),
            Some(l) => labels(av, n).contains(l) && member_names(av, l, n).contains(av[i].name),
        },
    decreases n,
{
    if i == n - 1 {
        match group_label(av[i]) {
            None => {
                let all = single_rows(av, current, n);
                assert(all[all.len() - 1] == row(av[i], current));
            },
            Some(l) => {
                let all = labels(av, n);
                if !labels(av, n - 1).contains(l) {
                    assert(all[all.len() - 1] == l);
                }
                let names = member_names(av, l, n);
                assert(names[names.len() - 1] == av[i].name);
            },
        }
    } else {
        no_model_is_lost(av, current, i, n - 1);
        match group_label(av[i]) {
            None => {
                let before = single_rows(av, current, n - 1);
                let k = choose|k: int| 0 <= k < before.len() && before[k] == row(av[i], current);
                assert(single_rows(av, current, n)[k] == row(av[i], current));
            },
            Some(l) => {
                let before = labels(av, n - 1);
                let k = choose|k: int| 0 <= k < before.len() && before[k] == l;
                assert(labels(av, n)[k] == l);
                let names = member_names(av, l, n - 1);
                let j = choose|j: int| 0 <= j < names.len() && names[j] == av[i].name;
                assert(member_names(av, l, n)[j] == av[i].name);
            },
        }
    }
}

} // verus!
