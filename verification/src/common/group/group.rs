//! The record of one group.
//!
//! Members and owners come as references, the distinguished names of users
//! and groups. A reference counts as a user where the key of its first
//! component is `uid`, and as a group otherwise; it is known by what follows
//! the last `=` of that component. The groups above a group are read off its
//! own distinguished name: they are the values of its components with the
//! key `cn`.

use vstd::prelude::*;
use crate::common::entry::{all_values, copy_text, first_value, last_attribute, Entry, EntryView};
use crate::text::{
    chars_of, find_char_from, find_last_char, insert_text, last_position, lemma_position_from,
    position, position_from, remove_text, sub_chars, text_of, text_set, texts,
};

verus! {

/// One group of the directory. Each list stands for a set and holds no
/// text twice.
#[derive(Debug)]
pub struct Group {
    pub dn: String,
    pub cn: String,
    pub parents: Vec<String>,
    pub user_members: Vec<String>,
    pub group_members: Vec<String>,
    pub owner_user: Vec<String>,
    pub owner_group: Vec<String>,
}

pub struct GroupView {
    pub dn: Seq<char>,
    pub cn: Seq<char>,
    pub parents: Set<Seq<char>>,
    pub user_members: Set<Seq<char>>,
    pub group_members: Set<Seq<char>>,
    pub owner_user: Set<Seq<char>>,
    pub owner_group: Set<Seq<char>>,
}

impl View for Group {
    type V = GroupView;

    open spec fn view(&self) -> GroupView {
        GroupView {
            dn: self.dn@,
            cn: self.cn@,
            parents: text_set(self.parents@),
            user_members: text_set(self.user_members@),
            group_members: text_set(self.group_members@),
            owner_user: text_set(self.owner_user@),
            owner_group: text_set(self.owner_group@),
        }
    }
}

/// The first component of a distinguished name: what stands before its
/// first comma.
pub open spec fn first_component(reference: Seq<char>) -> Seq<char> {
    reference.take(position(reference, ','))
}

/// The key of a component: what stands before its first `=`. A component
/// without `=` has no key.
pub open spec fn component_key(component: Seq<char>) -> Option<Seq<char>> {
    if position(component, '=') < component.len() {
        Some(component.take(position(component, '=')))
    } else {
        None
    }
}

/// The value of a component: what follows its first `=`.
pub open spec fn component_value(component: Seq<char>) -> Seq<char> {
    component.skip(position(component, '=') + 1)
}

/// Whether a reference is one to a user: the key of its first component is
/// `uid`. Every other reference is one to a group.
pub open spec fn names_user(reference: Seq<char>) -> bool {
    component_key(first_component(reference)) == Some("uid"@)
}

/// The identifier that a reference gives: what follows the last `=` of its
/// first component, or all of the component where it has no `=`.
pub open spec fn short_id(reference: Seq<char>) -> Seq<char> {
    let component = first_component(reference);
    component.skip(last_position(component, '=') + 1)
}

/// The identifiers of the users (`users` set) or of the groups (`users`
/// unset) among the first `upto` references.
pub open spec fn referenced_upto(refs: Seq<Seq<char>>, users: bool, upto: int) -> Set<Seq<char>>
    decreases upto,
{
    if upto <= 0 || upto > refs.len() {
        Set::empty()
    } else if names_user(refs[upto - 1]) == users {
        referenced_upto(refs, users, upto - 1).insert(short_id(refs[upto - 1]))
    } else {
        referenced_upto(refs, users, upto - 1)
    }
}

/// The identifiers of the users, or of the groups, among the references.
pub open spec fn referenced(refs: Seq<Seq<char>>, users: bool) -> Set<Seq<char>> {
    referenced_upto(refs, users, refs.len() as int)
}

/// The group that one component of a distinguished name gives: the value
/// of a component whose key is `cn`, where the value is not empty. This is
/// what follows `cn=` in a component that begins with it.
pub open spec fn named_group(component: Seq<char>) -> Option<Seq<char>> {
    if component_key(component) == Some("cn"@) && component_value(component).len() > 0 {
        Some(component_value(component))
    } else {
        None
    }
}

/// The groups that the components of `dn` from position `from` on give,
/// the components being what the commas part.
pub open spec fn groups_named_from(dn: Seq<char>, from: int) -> Set<Seq<char>>
    decreases dn.len() - from,
{
    if from < 0 || from > dn.len() {
        Set::empty()
    } else {
        let end = position_from(dn, ',', from);
        proof {
            lemma_position_from(dn, ',', from);
        }
        let rest = if end < dn.len() {
            groups_named_from(dn, end + 1)
        } else {
            Set::empty()
        };
        match named_group(dn.subrange(from, end)) {
            Some(group) => rest.insert(group),
            None => rest,
        }
    }
}

/// The groups above the group `cn` whose distinguished name is `dn`: every
/// group that a component of `dn` gives, but `cn` itself.
pub open spec fn parents_of(dn: Seq<char>, cn: Seq<char>) -> Set<Seq<char>> {
    groups_named_from(dn, 0).remove(cn)
}

/// The group that an entry describes.
pub open spec fn parsed_group(entry: EntryView) -> GroupView {
    let cn = first_value(entry.attrs, "cn"@);
    GroupView {
        dn: entry.dn,
        cn: cn,
        parents: parents_of(entry.dn, cn),
        user_members: referenced(all_values(entry.attrs, "member"@), true),
        group_members: referenced(all_values(entry.attrs, "member"@), false),
        owner_user: referenced(all_values(entry.attrs, "owner"@), true),
        owner_group: referenced(all_values(entry.attrs, "owner"@), false),
    }
}

/// The key of a component, where it has one, and where its value begins.
pub fn read_key(component: &Vec<char>) -> (read: Option<(String, usize)>)
    ensures
        match read {
            Some((key, start)) => component_key(component@) == Some(key@) && start == position(
                component@,
                '=',
            ) + 1 && start <= component@.len(),
            None => component_key(component@) is None,
        },
{
    let at = find_char_from(component, '=', 0);
    if at >= component.len() {
        return None;
    }
    let key = text_of(component, 0, at);
    assert(key@ =~= component@.take(at as int));
    Some((key, at + 1))
}

/// Whether a reference is one to a user, and the identifier that it gives.
pub fn read_reference(reference: &str) -> (read: (bool, String))
    ensures
        read.0 == names_user(reference@),
        read.1@ == short_id(reference@),
{
    let chars = chars_of(reference);
    let comma = find_char_from(&chars, ',', 0);
    let component = sub_chars(&chars, 0, comma);
    assert(component@ =~= first_component(reference@));
    let user = match read_key(&component) {
        Some((key, _)) => key.as_str().eq("uid"),
        None => false,
    };
    let start: usize = match find_last_char(&component, '=') {
        Some(at) => at + 1,
        None => 0,
    };
    let id = text_of(&component, start, component.len());
    assert(id@ =~= short_id(reference@));
    (user, id)
}

/// Parts references into the identifiers of the users and those of the
/// groups among them.
pub fn partition_references(refs: &Vec<String>) -> (parts: (Vec<String>, Vec<String>))
    ensures
        text_set(parts.0@) == referenced(texts(refs@), true),
        text_set(parts.1@) == referenced(texts(refs@), false),
        texts(parts.0@).no_duplicates(),
        texts(parts.1@).no_duplicates(),
{
    let mut users: Vec<String> = Vec::new();
    let mut groups: Vec<String> = Vec::new();
    assert(text_set(users@) =~= Set::empty());
    assert(text_set(groups@) =~= Set::empty());
    let mut i: usize = 0;
    while i < refs.len()
        invariant
            i <= refs@.len(),
            texts(users@).no_duplicates(),
            texts(groups@).no_duplicates(),
            text_set(users@) == referenced_upto(texts(refs@), true, i as int),
            text_set(groups@) == referenced_upto(texts(refs@), false, i as int),
        decreases refs@.len() - i,
    {
        assert(texts(refs@)[i as int] == refs@[i as int]@);
        let (user, id) = read_reference(refs[i].as_str());
        if user {
            insert_text(&mut users, id);
        } else {
            insert_text(&mut groups, id);
        }
        i += 1;
    }
    (users, groups)
}

/// The group that one component of a distinguished name gives.
pub fn group_in_component(component: &Vec<char>) -> (group: Option<String>)
    ensures
        match group {
            Some(g) => named_group(component@) == Some(g@),
            None => named_group(component@) is None,
        },
{
    match read_key(component) {
        Some((key, start)) => {
            if key.as_str().eq("cn") && start < component.len() {
                let group = text_of(component, start, component.len());
                assert(group@ =~= component_value(component@));
                Some(group)
            } else {
                None
            }
        },
        None => None,
    }
}

/// Every group that a component of `dn` gives.
pub fn groups_named(dn: &str) -> (groups: Vec<String>)
    ensures
        text_set(groups@) == groups_named_from(dn@, 0),
        texts(groups@).no_duplicates(),
{
    let chars = chars_of(dn);
    let mut groups: Vec<String> = Vec::new();
    assert(text_set(groups@) =~= Set::empty());
    let mut from: usize = 0;
    let mut more: bool = true;
    while more
        invariant
            chars@ == dn@,
            from <= chars@.len(),
            texts(groups@).no_duplicates(),
            more ==> text_set(groups@).union(groups_named_from(dn@, from as int))
                == groups_named_from(dn@, 0),
            !more ==> text_set(groups@) == groups_named_from(dn@, 0),
        decreases chars@.len() - from + if more { 1int } else { 0int },
    {
        let ghost before = text_set(groups@);
        let end = find_char_from(&chars, ',', from);
        let component = sub_chars(&chars, from, end);
        match group_in_component(&component) {
            Some(group) => insert_text(&mut groups, group),
            None => {},
        }
        if end < chars.len() {
            assert(text_set(groups@).union(groups_named_from(dn@, end + 1)) =~= before.union(
                groups_named_from(dn@, from as int),
            ));
            from = end + 1;
        } else {
            assert(text_set(groups@) =~= before.union(groups_named_from(dn@, from as int)));
            more = false;
        }
    }
    groups
}

impl Group {
    /// Whether no list of the group holds a text twice.
    pub open spec fn wf(&self) -> bool {
        &&& texts(self.parents@).no_duplicates()
        &&& texts(self.user_members@).no_duplicates()
        &&& texts(self.group_members@).no_duplicates()
        &&& texts(self.owner_user@).no_duplicates()
        &&& texts(self.owner_group@).no_duplicates()
    }

    /// Reads a group from a directory entry.
    pub fn new(entry: Entry) -> (group: Group)
        ensures
            group@ == parsed_group(entry@),
            group.wf(),
            !group@.parents.contains(group@.cn),
    {
        Group::from_entry(&entry)
    }

    /// Reads a group from a directory entry that stays with the caller.
    pub fn from_entry(entry: &Entry) -> (group: Group)
        ensures
            group@ == parsed_group(entry@),
            group.wf(),
            !group@.parents.contains(group@.cn),
    {
        let dn = copy_text(&entry.dn);
        let cn = match last_attribute(&entry.attrs, "cn", true) {
            Some(at) => {
                assert(texts(entry.attrs@[at as int].values@)[0] == entry.attrs@[at as int].values@[0]@);
                copy_text(&entry.attrs[at].values[0])
            },
            None => String::new(),
        };
        let none: Vec<String> = Vec::new();
        assert(texts(none@) =~= Seq::empty());
        let (user_members, group_members) = match last_attribute(&entry.attrs, "member", false) {
            Some(at) => partition_references(&entry.attrs[at].values),
            None => partition_references(&none),
        };
        let (owner_user, owner_group) = match last_attribute(&entry.attrs, "owner", false) {
            Some(at) => partition_references(&entry.attrs[at].values),
            None => partition_references(&none),
        };
        let mut parents = groups_named(entry.dn.as_str());
        remove_text(&mut parents, cn.as_str());
        Group { dn, cn, user_members, group_members, owner_user, owner_group, parents }
    }
}

impl crate::common::store::Keyed for Group {
    open spec fn key_of(record: GroupView) -> Seq<char> {
        record.cn
    }

    open spec fn sound(&self) -> bool {
        self.wf()
    }

    fn key(&self) -> (key: &String) {
        &self.cn
    }

    fn duplicate(&self) -> (copy: Self) {
        self.clone()
    }
}

impl Clone for Group {
    fn clone(&self) -> (copy: Self)
        ensures
            copy@ == self@,
            self.wf() ==> copy.wf(),
    {
        Group {
            dn: self.dn.clone(),
            cn: self.cn.clone(),
            parents: crate::common::entry::copy_texts(&self.parents),
            user_members: crate::common::entry::copy_texts(&self.user_members),
            group_members: crate::common::entry::copy_texts(&self.group_members),
            owner_user: crate::common::entry::copy_texts(&self.owner_user),
            owner_group: crate::common::entry::copy_texts(&self.owner_group),
        }
    }
}

} // verus!
