//! Which skills are deployed, and which backups belong to which of them.
//!
//! A backup is a directory named after the moment it was made and the skill it was
//! made of. What follows the name tells its kind: nothing for a plain backup,
//! `-pre-rollback` for what a rollback put aside, `~` and a number for a second backup
//! of the same moment. Older second backups have `-` and a number there instead, which
//! may just as well be the end of another skill's name: these count only where no skill
//! of that longer name is known.
use crate::skill_deploy::{is_name_char, valid_name};
use crate::text::{
    chars_of, contains, is_digit, same_text, string_of, strip_prefix, strip_prefix_text, views,
};
use crate::text_order::{insert_text, with_text};
use crate::timestamp::is_stamp_of;
use crate::timestamp_laws::{last_four_digit_second, stamp_shape, stamps_have_shape};
use vstd::prelude::*;
use vstd::slice::slice_subrange;
use vstd::string::StringExecFns;

verus! {

/// An entry of the directory of skills.
#[derive(Debug)]
pub struct SkillEntry {
    pub dir_name: String,
    pub is_dir: bool,
    /// There is a `SKILL.md` in it.
    pub has_skill_md: bool,
}

/// [`SkillEntry`] by its text.
pub struct SkillEntryModel {
    pub dir_name: Seq<char>,
    pub is_dir: bool,
    pub has_skill_md: bool,
}

impl View for SkillEntry {
    type V = SkillEntryModel;

    open spec fn view(&self) -> SkillEntryModel {
        SkillEntryModel {
            dir_name: self.dir_name@,
            is_dir: self.is_dir,
            has_skill_md: self.has_skill_md,
        }
    }
}

/// The texts of a list of entries.
pub open spec fn entry_models(v: Seq<SkillEntry>) -> Seq<SkillEntryModel> {
    v.map_values(|e: SkillEntry| e@)
}

/// The name of the skill that an entry holds.
pub open spec fn skill_of(e: SkillEntryModel) -> Option<Seq<char>> {
    if e.is_dir && e.has_skill_md {
        strip_prefix(e.dir_name, "user-"@)
    } else {
        None
    }
}

/// The names of the deployed skills, in order.
pub open spec fn deployed_names(entries: Seq<SkillEntryModel>) -> Seq<Seq<char>>
    decreases entries.len(),
{
    if entries.len() == 0 {
        Seq::empty()
    } else {
        let before = deployed_names(entries.drop_last());
        match skill_of(entries.last()) {
            Some(name) => with_text(before, name),
            None => before,
        }
    }
}

/// The names of the deployed skills, in order.
pub fn deployed_skills(entries: &Vec<SkillEntry>) -> (r: Vec<String>)
    ensures
        views(r@) == deployed_names(entry_models(entries@)),
{
    let mut r: Vec<String> = Vec::new();
    let ghost all = entry_models(entries@);
    let mut i: usize = 0;
    assert(all.take(0) =~= Seq::empty());
    assert(views(r@) =~= Seq::empty());
    while i < entries.len()
        invariant
            i <= entries.len(),
            all == entry_models(entries@),
            views(r@) == deployed_names(all.take(i as int)),
        decreases entries.len() - i,
    {
        proof {
            assert(all.take(i as int + 1).drop_last() =~= all.take(i as int));
            assert(all.take(i as int + 1).last() == entries@[i as int]@);
        }
        if entries[i].is_dir && entries[i].has_skill_md {
            if let Some(name) = strip_prefix_text(entries[i].dir_name.as_str(), "user-") {
                insert_text(&mut r, name);
            }
        }
        i += 1;
    }
    assert(all.take(i as int) =~= all);
    r
}

/// What is on disk of skills and their backups.
#[derive(Debug)]
pub struct Inventory {
    /// The entries of the directory of skills.
    pub skills: Vec<SkillEntry>,
    /// The names in the directory of disabled skills.
    pub disabled: Vec<String>,
    /// The names of the directories among the backups.
    pub backups: Vec<String>,
}

/// [`Inventory`] by its texts.
pub struct InventoryModel {
    pub skills: Seq<SkillEntryModel>,
    pub disabled: Seq<Seq<char>>,
    pub backups: Seq<Seq<char>>,
}

impl View for Inventory {
    type V = InventoryModel;

    open spec fn view(&self) -> InventoryModel {
        InventoryModel {
            skills: entry_models(self.skills@),
            disabled: views(self.disabled@),
            backups: views(self.backups@),
        }
    }
}

/// A skill of this name is deployed or disabled.
pub open spec fn is_known(inv: InventoryModel, name: Seq<char>) -> bool {
    deployed_names(inv.skills).contains(name) || inv.disabled.contains(name)
}

/// Only digits, at least one.
pub open spec fn is_number(s: Seq<char>) -> bool {
    s.len() > 0 && forall|i: int| 0 <= i < s.len() ==> is_digit(#[trigger] s[i])
}

/// The directory name starts with a stamp and a dash, and something follows.
pub open spec fn is_stamped(dir: Seq<char>) -> bool {
    dir.len() >= 17 && dir[15] == '-' && stamp_shape(dir.take(15))
}

/// What may follow the name of the skill in the name of its backup.
pub open spec fn owned_tail(inv: InventoryModel, name: Seq<char>, tail: Seq<char>) -> bool {
    ||| tail.len() == 0
    ||| tail == "-pre-rollback"@
    ||| tail.len() > 1 && tail[0] == '~' && is_number(tail.skip(1))
    ||| tail.len() > 1 && tail[0] == '-' && is_number(tail.skip(1)) && !is_known(inv, name + tail)
}

/// The directory is a backup of the skill `name`.
pub open spec fn is_backup_of(inv: InventoryModel, dir: Seq<char>, name: Seq<char>) -> bool {
    is_stamped(dir) && match strip_prefix(dir.skip(16), name) {
        Some(tail) => owned_tail(inv, name, tail),
        None => false,
    }
}

/// The backups of the skill `name` among the first `n`, in order.
pub open spec fn backups_of(inv: InventoryModel, name: Seq<char>, n: int) -> Seq<Seq<char>>
    decreases n,
{
    if n <= 0 || n > inv.backups.len() {
        Seq::empty()
    } else {
        let before = backups_of(inv, name, n - 1);
        if is_backup_of(inv, inv.backups[n - 1], name) {
            with_text(before, inv.backups[n - 1])
        } else {
            before
        }
    }
}

/// The backups of the skill `name`, in order: the newest comes last.
pub open spec fn all_backups_of(inv: InventoryModel, name: Seq<char>) -> Seq<Seq<char>> {
    backups_of(inv, name, inv.backups.len() as int)
}

/// Whether `list` holds `t`.
pub fn list_contains(list: &Vec<String>, t: &str) -> (r: bool)
    ensures
        r == views(list@).contains(t@),
{
    let mut i: usize = 0;
    while i < list.len()
        invariant
            i <= list.len(),
            forall|k: int| 0 <= k < i ==> (#[trigger] views(list@)[k]) != t@,
        decreases list.len() - i,
    {
        if same_text(list[i].as_str(), t) {
            assert(views(list@)[i as int] == t@);
            return true;
        }
        i += 1;
    }
    false
}

/// Whether `s` is made of digits only, at least one, from `from` on.
fn number_from(s: &[char], from: usize) -> (r: bool)
    requires
        from <= s.len(),
    ensures
        r == is_number(s@.skip(from as int)),
{
    if from == s.len() {
        return false;
    }
    let mut i: usize = from;
    while i < s.len()
        invariant
            from <= i <= s.len(),
            forall|k: int| 0 <= k < i - from ==> is_digit(#[trigger] s@.skip(from as int)[k]),
        decreases s.len() - i,
    {
        if !('0' <= s[i] && s[i] <= '9') {
            assert(!is_digit(s@.skip(from as int)[i - from]));
            return false;
        }
        i += 1;
    }
    true
}

/// Whether the directory name starts with a stamp and a dash, and something follows.
fn stamped(d: &[char]) -> (r: bool)
    ensures
        r == is_stamped(d@),
{
    if d.len() < 17 || d[8] != '-' || d[15] != '-' {
        return false;
    }
    let mut i: usize = 0;
    while i < 15
        invariant
            i <= 15,
            d.len() >= 17,
            d@[8] == '-',
            forall|k: int| 0 <= k < i && k != 8 ==> is_digit(#[trigger] d@.take(15)[k]),
        decreases 15 - i,
    {
        if i != 8 && !('0' <= d[i] && d[i] <= '9') {
            assert(!is_digit(d@.take(15)[i as int]));
            return false;
        }
        i += 1;
    }
    true
}

/// Whether what follows the name of the skill in the name of a directory makes it one
/// of its backups; `siblings` are the names of the deployed skills.
fn tail_is_owned(inv: &Inventory, siblings: &Vec<String>, name: &str, tail: &str) -> (r: bool)
    requires
        views(siblings@) == deployed_names(inv@.skills),
    ensures
        r == owned_tail(inv@, name@, tail@),
{
    let t: Vec<char> = chars_of(tail);
    if t.len() == 0 || same_text(tail, "-pre-rollback") {
        return true;
    }
    proof {
        reveal_strlit("-pre-rollback");
    }
    if t.len() > 1 && t[0] == '~' && number_from(&t, 1) {
        return true;
    }
    if t.len() > 1 && t[0] == '-' && number_from(&t, 1) {
        let mut longer: String = name.to_owned();
        longer.append(tail);
        return !list_contains(siblings, longer.as_str()) && !list_contains(
            &inv.disabled,
            longer.as_str(),
        );
    }
    false
}

/// The backups of the skill `name`, in order: the newest comes last.
pub fn backups_for(inv: &Inventory, name: &str) -> (r: Vec<String>)
    ensures
        views(r@) == all_backups_of(inv@, name@),
{
    let siblings: Vec<String> = deployed_skills(&inv.skills);
    let mut r: Vec<String> = Vec::new();
    let mut i: usize = 0;
    assert(views(r@) =~= Seq::empty());
    while i < inv.backups.len()
        invariant
            i <= inv.backups.len(),
            views(siblings@) == deployed_names(inv@.skills),
            views(r@) == backups_of(inv@, name@, i as int),
        decreases inv.backups.len() - i,
    {
        let d: Vec<char> = chars_of(inv.backups[i].as_str());
        assert(inv@.backups[i as int] == d@);
        if stamped(&d) {
            assert(d@.subrange(16, d@.len() as int) =~= d@.skip(16));
            let behind: String = string_of(slice_subrange(&d, 16, d.len()));
            if let Some(tail) = strip_prefix_text(behind.as_str(), name) {
                if tail_is_owned(inv, &siblings, name, tail.as_str()) {
                    insert_text(&mut r, inv.backups[i].clone());
                }
            }
        }
        i += 1;
    }
    r
}

// ------------------------------------------------------------------------ laws

/// The name of a backup that was made of the skill `name` at the moment that `stamp`
/// stands for, with `tail` behind it.
pub open spec fn backup_name(stamp: Seq<char>, name: Seq<char>, tail: Seq<char>) -> Seq<char> {
    stamp + "-"@ + name + tail
}

proof fn backup_name_parts(stamp: Seq<char>, name: Seq<char>, tail: Seq<char>)
    requires
        stamp_shape(stamp),
        name.len() > 0,
    ensures
        is_stamped(backup_name(stamp, name, tail)),
        backup_name(stamp, name, tail).skip(16) == name + tail,
{
    reveal_strlit("-");
    let d = backup_name(stamp, name, tail);
    assert(d.take(15) =~= stamp);
    assert(d.skip(16) =~= name + tail);
}

/// Every backup of a skill is found as one: a plain one, one that a rollback put aside,
/// and a further one of the same moment.
pub proof fn own_backups_are_found(
    inv: InventoryModel,
    stamp: Seq<char>,
    name: Seq<char>,
    tail: Seq<char>,
)
    requires
        stamp_shape(stamp),
        valid_name(name),
        tail.len() == 0 || tail == "-pre-rollback"@ || (tail.len() > 1 && tail[0] == '~'
            && is_number(tail.skip(1))),
    ensures
        is_backup_of(inv, backup_name(stamp, name, tail), name),
{
    backup_name_parts(stamp, name, tail);
    let rest = name + tail;
    assert(rest.subrange(0, name.len() as int) =~= name);
    assert(rest.skip(name.len() as int) =~= tail);
}

/// A plain backup of a known skill is never taken for a backup of another one, save
/// where the known skill is named as what a rollback of the other puts aside.
pub proof fn backups_of_siblings_are_left_alone(
    inv: InventoryModel,
    stamp: Seq<char>,
    sibling: Seq<char>,
    name: Seq<char>,
)
    requires
        stamp_shape(stamp),
        valid_name(sibling),
        valid_name(name),
        is_known(inv, sibling),
        sibling != name,
        sibling != name + "-pre-rollback"@,
    ensures
        !is_backup_of(inv, backup_name(stamp, sibling, Seq::empty()), name),
{
    let none = Seq::<char>::empty();
    backup_name_parts(stamp, sibling, none);
    assert(sibling + none =~= sibling);
    if let Some(tail) = strip_prefix(sibling, name) {
        assert(sibling =~= name + tail);
        if tail.len() == 0 {
            assert(sibling =~= name);
        } else {
            assert(tail[0] == sibling[name.len() as int]);
        }
    }
}

/// A further backup of a moment belongs to the skill it was made of and to no other: the
/// tilde in its name is part of no skill name.
pub proof fn numbered_backups_belong_to_one(
    inv: InventoryModel,
    stamp: Seq<char>,
    sibling: Seq<char>,
    number: Seq<char>,
    name: Seq<char>,
)
    requires
        stamp_shape(stamp),
        valid_name(sibling),
        valid_name(name),
        is_number(number),
        sibling != name,
    ensures
        !is_backup_of(inv, backup_name(stamp, sibling, seq!['~'] + number), name),
{
    let end = seq!['~'] + number;
    backup_name_parts(stamp, sibling, end);
    let whole = sibling + end;
    if let Some(tail) = strip_prefix(whole, name) {
        assert(whole.subrange(0, name.len() as int) == name);
        let at = sibling.len() as int;
        if name.len() > sibling.len() {
            assert(name[at] == whole[at]);
            assert(whole[at] == '~');
            assert(is_name_char(name[at]) || name[at] == '-');
        } else if name.len() == sibling.len() {
            assert(name =~= sibling);
        } else {
            let k = at - name.len();
            assert(tail[k] == '~');
            assert(tail[0] == sibling[name.len() as int]);
            reveal_strlit("-pre-rollback");
            assert(tail.last() == number.last());
            assert(is_digit(number[number.len() - 1]));
            assert("-pre-rollback"@[12] == 'k');
            if tail.len() > 1 && is_number(tail.skip(1)) {
                assert(tail.skip(1)[k - 1] == '~');
            }
        }
    }
}

/// What a rollback puts aside is found as a backup again, so that a rollback can be
/// taken back: for every moment up to the end of the year 9999.
pub proof fn rollback_site_is_a_backup(inv: InventoryModel, seconds: int, stamp: Seq<char>, name: Seq<char>)
    requires
        0 <= seconds <= last_four_digit_second(),
        is_stamp_of(stamp, seconds),
        valid_name(name),
    ensures
        is_backup_of(inv, backup_name(stamp, name, "-pre-rollback"@), name),
{
    stamps_have_shape(stamp, seconds);
    own_backups_are_found(inv, stamp, name, "-pre-rollback"@);
}

} // verus!
