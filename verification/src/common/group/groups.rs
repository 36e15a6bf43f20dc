//! The cache of groups and the operations that keep it in step with the
//! directory. It works as the cache of users does: replies come in one
//! piece, and an operation of several exchanges is a flow.

use vstd::prelude::*;
use vstd::string::StringExecFns;
use crate::common::directory::{
    entries, mods, DirectoryError, Mod, ModView, Reply, ReplyView, Request, RequestView, Search,
    SearchView, Step, StepView,
};
use crate::common::entry::{all_values, copy_text, last_attribute, Entry, EntryView};
use crate::common::group::group::{parsed_group, Group, GroupView};
use crate::common::store::{lists, records, views, Store};
use crate::text::{insert_text, texts};

verus! {

/// The groups that a search found, in its order.
pub open spec fn parsed_groups(found: Seq<EntryView>) -> Seq<GroupView> {
    Seq::new(found.len(), |i: int| parsed_group(found[i]))
}

/// The cache after a full refresh: the groups that the search found, each
/// under its cn, and nothing of what was there before.
pub open spec fn refreshed_all(found: Seq<EntryView>) -> Map<Seq<char>, GroupView> {
    records::<Group>(parsed_groups(found))
}

/// The cache after the refresh of one group: without `id` where the search
/// found nothing, and else with the first group found, whole, under its cn.
pub open spec fn refreshed_one(
    cache: Map<Seq<char>, GroupView>,
    id: Seq<char>,
    found: Seq<EntryView>,
) -> Map<Seq<char>, GroupView> {
    if found.len() == 0 {
        cache.remove(id)
    } else {
        cache.insert(parsed_group(found[0]).cn, parsed_group(found[0]))
    }
}

/// The filter that admits every group.
pub open spec fn all_groups_filter() -> Seq<char> {
    "(objectClass=groupOfNames)"@
}

/// The filter that admits the group `id`.
pub open spec fn group_filter(id: Seq<char>) -> Seq<char> {
    "(&(objectClass=groupOfNames)(cn="@ + id + "))"@
}

/// The search for every group below `base`.
pub open spec fn all_groups_search(base: Seq<char>) -> RequestView {
    RequestView::Search(SearchView { base: base, filter: all_groups_filter(), attrs: seq!["*"@] })
}

/// The search for the group `id` below `base`.
pub open spec fn group_search(base: Seq<char>, id: Seq<char>) -> RequestView {
    RequestView::Search(SearchView { base: base, filter: group_filter(id), attrs: seq!["*"@] })
}

/// The search for the owners of the group `id` below `base`.
pub open spec fn owners_search(base: Seq<char>, id: Seq<char>) -> RequestView {
    RequestView::Search(
        SearchView { base: base, filter: group_filter(id), attrs: seq!["owner"@] },
    )
}

/// The first `upto` texts of `all`, each once, in the order in which they
/// first occur.
pub open spec fn merged_upto(all: Seq<Seq<char>>, upto: int) -> Seq<Seq<char>>
    decreases upto,
{
    if upto <= 0 || upto > all.len() {
        Seq::empty()
    } else if merged_upto(all, upto - 1).contains(all[upto - 1]) {
        merged_upto(all, upto - 1)
    } else {
        merged_upto(all, upto - 1).push(all[upto - 1])
    }
}

/// The owners of a group after an addition: those asked for and those that
/// the group has, each once.
pub open spec fn merged_owners(requested: Seq<Seq<char>>, current: Seq<Seq<char>>) -> Seq<
    Seq<char>,
> {
    merged_upto(requested + current, (requested + current).len() as int)
}

/// The merged texts are the texts of the list, each once.
pub proof fn lemma_merged(all: Seq<Seq<char>>, upto: int)
    requires
        0 <= upto <= all.len(),
    ensures
        merged_upto(all, upto).no_duplicates(),
        merged_upto(all, upto).to_set() == all.take(upto).to_set(),
    decreases upto,
{
    if upto > 0 {
        lemma_merged(all, upto - 1);
        let prev = merged_upto(all, upto - 1);
        let now = merged_upto(all, upto);
        let x = all[upto - 1];
        let front = all.take(upto - 1);
        let whole = all.take(upto);
        assert forall|a: Seq<char>| now.contains(a) <==> whole.contains(a) by {
            if now.contains(a) {
                let j = choose|j: int| 0 <= j < now.len() && now[j] == a;
                if j < prev.len() {
                    assert(prev[j] == a);
                    assert(prev.to_set().contains(a));
                    assert(front.contains(a));
                    let k = choose|k: int| 0 <= k < front.len() && front[k] == a;
                    assert(whole[k] == a);
                } else {
                    assert(whole[upto - 1] == a);
                }
            }
            if whole.contains(a) {
                let k = choose|k: int| 0 <= k < whole.len() && whole[k] == a;
                if k < upto - 1 {
                    assert(front[k] == a);
                    assert(front.to_set().contains(a));
                    assert(prev.contains(a));
                    let j = choose|j: int| 0 <= j < prev.len() && prev[j] == a;
                    assert(now[j] == a);
                } else {
                    if prev.contains(x) {
                        let j = choose|j: int| 0 <= j < prev.len() && prev[j] == x;
                        assert(now[j] == a);
                    } else {
                        assert(now[prev.len() as int] == x);
                    }
                }
            }
        }
        assert(now.to_set() =~= all.take(upto).to_set());
    } else {
        assert(merged_upto(all, upto).to_set() =~= all.take(upto).to_set());
    }
}

/// Where an operation on the groups stands between two exchanges.
pub enum GroupFlow {
    /// An addition of owners waits for the owners that the group has.
    Owners { group: String, owner: Vec<String> },
    /// An addition of owners waits for the outcome of its change.
    Changing { group: String },
    /// An operation waits for the group as the directory has it now, and
    /// ends saying that it changed something.
    Reconcile { group: String },
    /// The operation has ended.
    Finished,
}

pub enum GroupFlowView {
    Owners { group: Seq<char>, owner: Seq<Seq<char>> },
    Changing { group: Seq<char> },
    Reconcile { group: Seq<char> },
    Finished,
}

impl View for GroupFlow {
    type V = GroupFlowView;

    open spec fn view(&self) -> GroupFlowView {
        match self {
            GroupFlow::Owners { group, owner } => GroupFlowView::Owners {
                group: group@,
                owner: texts(owner@),
            },
            GroupFlow::Changing { group } => GroupFlowView::Changing { group: group@ },
            GroupFlow::Reconcile { group } => GroupFlowView::Reconcile { group: group@ },
            GroupFlow::Finished => GroupFlowView::Finished,
        }
    }
}

/// The state of an operation after a reply.
pub struct GroupTurn {
    pub cache: Map<Seq<char>, GroupView>,
    pub flow: GroupFlowView,
    pub step: StepView,
}

/// The operation ends with a failure and leaves the cache as it is.
pub open spec fn fails(cache: Map<Seq<char>, GroupView>, error: DirectoryError) -> GroupTurn {
    GroupTurn { cache: cache, flow: GroupFlowView::Finished, step: StepView::Finish(Err(error)) }
}

/// The operation ends and says whether it changed anything.
pub open spec fn ends(cache: Map<Seq<char>, GroupView>, outcome: bool) -> GroupTurn {
    GroupTurn { cache: cache, flow: GroupFlowView::Finished, step: StepView::Finish(Ok(outcome)) }
}

/// Whether an addition brings the group an owner that it does not have:
/// the owners asked for and the owners that the group has are more, taken
/// together, than the owners that the group has.
pub open spec fn adds_an_owner(requested: Seq<Seq<char>>, current: Seq<Seq<char>>) -> bool {
    merged_owners(requested, current).len() != merged_owners(Seq::empty(), current).len()
}

/// What an addition of owners does once it knows the owners that the group
/// has: it ends without a change where the group is not there or every
/// owner asked for is one already, and else puts the merged owners in place
/// of the old.
pub open spec fn after_owners(
    cache: Map<Seq<char>, GroupView>,
    found: Seq<EntryView>,
    group: Seq<char>,
    owner: Seq<Seq<char>>,
) -> GroupTurn {
    if found.len() == 0 {
        ends(cache, false)
    } else {
        let current = all_values(found[0].attrs, "owner"@);
        let merged = merged_owners(owner, current);
        if !adds_an_owner(owner, current) {
            ends(cache, false)
        } else {
            GroupTurn {
                cache: cache,
                flow: GroupFlowView::Changing { group: group },
                step: StepView::Call(
                    RequestView::Modify(found[0].dn, seq![ModView::Replace("owner"@, merged)]),
                ),
            }
        }
    }
}

/// The turn that an operation takes on a reply. A failed exchange ends the
/// operation with that failure, and a reply of a kind that the operation
/// does not wait for ends it with a protocol failure; the cache then stays
/// as it is.
pub open spec fn next_turn(
    cache: Map<Seq<char>, GroupView>,
    base: Seq<char>,
    flow: GroupFlowView,
    reply: ReplyView,
) -> GroupTurn {
    match reply {
        ReplyView::Failed(error) => fails(cache, error),
        ReplyView::Entries(found) => match flow {
            GroupFlowView::Owners { group, owner } => after_owners(cache, found, group, owner),
            GroupFlowView::Reconcile { group } => ends(refreshed_one(cache, group, found), true),
            _ => fails(cache, DirectoryError::Protocol),
        },
        ReplyView::Done => match flow {
            GroupFlowView::Changing { group } => GroupTurn {
                cache: cache,
                flow: GroupFlowView::Reconcile { group: group },
                step: StepView::Call(group_search(base, group)),
            },
            _ => fails(cache, DirectoryError::Protocol),
        },
        ReplyView::Refused => match flow {
            GroupFlowView::Changing { group } => ends(cache, false),
            _ => fails(cache, DirectoryError::Protocol),
        },
    }
}

/// The cache of groups, with what it takes to reach the directory.
pub struct Groups {
    groups: Store<Group>,
    ldap_url: String,
    ldap_user: String,
    ldap_password: String,
    groups_base_dn: String,
    base_dn: String,
}

impl View for Groups {
    type V = Map<Seq<char>, GroupView>;

    closed spec fn view(&self) -> Map<Seq<char>, GroupView> {
        self.groups.map()
    }
}

impl Groups {
    /// The groups in the order in which the cache keeps them.
    pub closed spec fn listing(&self) -> Seq<GroupView> {
        self.groups.listing()
    }

    /// The distinguished name below which searches run.
    pub closed spec fn base(&self) -> Seq<char> {
        self.base_dn@
    }

    /// The distinguished name below which the groups stand.
    pub closed spec fn groups_base(&self) -> Seq<char> {
        self.groups_base_dn@
    }

    /// Where the directory is reached.
    pub closed spec fn url(&self) -> Seq<char> {
        self.ldap_url@
    }

    /// The name that the library binds with.
    pub closed spec fn bind_user(&self) -> Seq<char> {
        self.ldap_user@
    }

    /// The password that the library binds with.
    pub closed spec fn bind_password(&self) -> Seq<char> {
        self.ldap_password@
    }

    /// Whether two caches reach the same directory in the same way.
    pub open spec fn same_settings(&self, other: &Groups) -> bool {
        &&& self.base() == other.base()
        &&& self.groups_base() == other.groups_base()
        &&& self.url() == other.url()
        &&& self.bind_user() == other.bind_user()
        &&& self.bind_password() == other.bind_password()
    }

    /// An empty cache.
    pub fn new(
        ldap_url: String,
        ldap_user: String,
        ldap_password: String,
        groups_base_dn: String,
        base_dn: String,
    ) -> (cache: Self)
        ensures
            cache@ == Map::<Seq<char>, GroupView>::empty(),
            cache.url() == ldap_url@,
            cache.bind_user() == ldap_user@,
            cache.bind_password() == ldap_password@,
            cache.groups_base() == groups_base_dn@,
            cache.base() == base_dn@,
    {
        Groups { groups: Store::new(), ldap_url, ldap_user, ldap_password, groups_base_dn, base_dn }
    }

    /// Where the directory is reached.
    pub fn ldap_url(&self) -> (url: &String)
        ensures
            url@ == self.url(),
    {
        &self.ldap_url
    }

    /// The name that the library binds with.
    pub fn ldap_user(&self) -> (name: &String)
        ensures
            name@ == self.bind_user(),
    {
        &self.ldap_user
    }

    /// The password that the library binds with.
    pub fn ldap_password(&self) -> (password: &String)
        ensures
            password@ == self.bind_password(),
    {
        &self.ldap_password
    }

    /// The filter that admits the group `id`.
    fn filter_for(id: &str) -> (filter: String)
        ensures
            filter@ == group_filter(id@),
    {
        let mut filter = "(&(objectClass=groupOfNames)(cn=".to_owned();
        filter.append(id);
        filter.append("))");
        filter
    }

    /// The search that `update` takes the reply of.
    pub fn update_request(&self) -> (request: Request)
        ensures
            request@ == all_groups_search(self.base()),
    {
        let attrs: Vec<String> = vec!["*".to_owned()];
        assert(texts(attrs@) =~= seq!["*"@]);
        Request::Search(
            Search {
                base: copy_text(&self.base_dn),
                filter: "(objectClass=groupOfNames)".to_owned(),
                attrs,
            },
        )
    }

    /// The search that `update_group` takes the reply of.
    pub fn update_group_request(&self, id: &str) -> (request: Request)
        ensures
            request@ == group_search(self.base(), id@),
    {
        let attrs: Vec<String> = vec!["*".to_owned()];
        assert(texts(attrs@) =~= seq!["*"@]);
        Request::Search(
            Search { base: copy_text(&self.base_dn), filter: Groups::filter_for(id), attrs },
        )
    }

    /// Puts the first group that a search for `id` found into the cache, or
    /// takes `id` out where it found none.
    fn refresh_one(&mut self, id: &str, found: &Vec<Entry>)
        ensures
            final(self)@ == refreshed_one(old(self)@, id@, entries(found@)),
            final(self).same_settings(old(self)),
    {
        if found.len() == 0 {
            self.groups.remove(id);
        } else {
            assert(entries(found@)[0] == found@[0]@);
            let group = Group::from_entry(&found[0]);
            self.groups.put(group);
        }
    }

    /// Takes the reply to the search for the group `id` into the cache: the
    /// group is replaced whole by what the directory has, or leaves the
    /// cache where the directory has none. A reply that is no search result
    /// fails and leaves the cache as it is.
    pub fn update_group(&mut self, id: &str, reply: Reply) -> (done: Result<(), DirectoryError>)
        ensures
            final(self).same_settings(old(self)),
            match reply@ {
                ReplyView::Entries(found) => done is Ok && final(self)@ == refreshed_one(
                    old(self)@,
                    id@,
                    found,
                ),
                ReplyView::Failed(error) => done == Err::<(), DirectoryError>(error)
                    && final(self)@ == old(self)@,
                _ => done == Err::<(), DirectoryError>(DirectoryError::Protocol) && final(self)@
                    == old(self)@,
            },
    {
        match reply {
            Reply::Entries(found) => {
                self.refresh_one(id, &found);
                Ok(())
            },
            Reply::Failed(error) => Err(error),
            _ => Err(DirectoryError::Protocol),
        }
    }

    /// Takes the reply to the search for every group into the cache: what
    /// was there goes, and the groups found come in, all at once. A reply
    /// that is no search result fails and leaves the cache as it is.
    pub fn update(&mut self, reply: Reply) -> (done: Result<(), DirectoryError>)
        ensures
            final(self).same_settings(old(self)),
            match reply@ {
                ReplyView::Entries(found) => done is Ok && final(self)@ == refreshed_all(found),
                ReplyView::Failed(error) => done == Err::<(), DirectoryError>(error)
                    && final(self)@ == old(self)@,
                _ => done == Err::<(), DirectoryError>(DirectoryError::Protocol) && final(self)@
                    == old(self)@,
            },
    {
        match reply {
            Reply::Entries(found) => {
                let mut fresh: Store<Group> = Store::new();
                let ghost parsed = parsed_groups(entries(found@));
                let mut i: usize = 0;
                while i < found.len()
                    invariant
                        i <= found@.len(),
                        parsed == parsed_groups(entries(found@)),
                        fresh.map() == records::<Group>(parsed.take(i as int)),
                    decreases found@.len() - i,
                {
                    assert(entries(found@)[i as int] == found@[i as int]@);
                    let group = Group::from_entry(&found[i]);
                    fresh.put(group);
                    assert(parsed.take(i + 1).drop_last() =~= parsed.take(i as int));
                    i += 1;
                }
                assert(parsed.take(found@.len() as int) =~= parsed);
                self.groups = fresh;
                Ok(())
            },
            Reply::Failed(error) => Err(error),
            _ => Err(DirectoryError::Protocol),
        }
    }

    /// A copy of the group `id`, where the cache has one.
    pub fn group(&self, id: &str) -> (found: Option<Group>)
        ensures
            match found {
                Some(group) => self@.contains_key(id@) && group@ == self@[id@] && group.wf()
                    && group@.cn == id@,
                None => !self@.contains_key(id@),
            },
    {
        self.groups.get(id)
    }

    /// Copies of all groups of the cache, each once.
    pub fn to_vec(&self) -> (all: Vec<Group>)
        ensures
            views(all@) == self.listing(),
            lists::<Group>(self.listing(), self@),
            forall|i: int| 0 <= i < all@.len() ==> (#[trigger] all@[i]).wf(),
    {
        self.groups.values()
    }

    /// Begins the addition of owners to a group. The flow first asks for the
    /// owners that the group has in the directory.
    pub fn add_group_owner(&self, group: &str, owner: Vec<String>) -> (begun: (GroupFlow, Request))
        ensures
            begun.0@ == (GroupFlowView::Owners { group: group@, owner: texts(owner@) }),
            begun.1@ == owners_search(self.base(), group@),
    {
        let attrs: Vec<String> = vec!["owner".to_owned()];
        assert(texts(attrs@) =~= seq!["owner"@]);
        let request = Request::Search(
            Search { base: copy_text(&self.base_dn), filter: Groups::filter_for(group), attrs },
        );
        (GroupFlow::Owners { group: group.to_owned(), owner }, request)
    }

    /// The owners asked for and the owners that the group has, each once.
    pub fn merge_owners(requested: &Vec<String>, current: &Vec<String>) -> (merged: Vec<String>)
        ensures
            texts(merged@) == merged_owners(texts(requested@), texts(current@)),
            texts(merged@).no_duplicates(),
            texts(merged@).to_set() == texts(requested@).to_set().union(texts(current@).to_set()),
    {
        let ghost all = texts(requested@) + texts(current@);
        let mut merged: Vec<String> = Vec::new();
        assert(texts(merged@) =~= Seq::<Seq<char>>::empty());
        let mut i: usize = 0;
        while i < requested.len()
            invariant
                i <= requested@.len(),
                all == texts(requested@) + texts(current@),
                texts(merged@) == merged_upto(all, i as int),
                texts(merged@).no_duplicates(),
            decreases requested@.len() - i,
        {
            assert(all[i as int] == requested@[i as int]@);
            insert_text(&mut merged, copy_text(&requested[i]));
            i += 1;
        }
        let mut k: usize = 0;
        while k < current.len()
            invariant
                k <= current@.len(),
                all == texts(requested@) + texts(current@),
                texts(merged@) == merged_upto(all, requested@.len() + k),
                texts(merged@).no_duplicates(),
            decreases current@.len() - k,
        {
            assert(all[requested@.len() + k] == current@[k as int]@);
            insert_text(&mut merged, copy_text(&current[k]));
            k += 1;
        }
        proof {
            lemma_merged(all, all.len() as int);
            assert(all.take(all.len() as int) =~= all);
            assert(all.to_set() =~= texts(requested@).to_set().union(texts(current@).to_set())) by {
                assert forall|a: Seq<char>| all.contains(a) <==> (texts(requested@).contains(a)
                    || texts(current@).contains(a)) by {
                    if all.contains(a) {
                        let j = choose|j: int| 0 <= j < all.len() && all[j] == a;
                        if j < requested@.len() {
                            assert(texts(requested@)[j] == a);
                        } else {
                            assert(texts(current@)[j - requested@.len()] == a);
                        }
                    }
                    if texts(requested@).contains(a) {
                        let j = choose|j: int|
                            0 <= j < texts(requested@).len() && texts(requested@)[j] == a;
                        assert(all[j] == a);
                    }
                    if texts(current@).contains(a) {
                        let j = choose|j: int|
                            0 <= j < texts(current@).len() && texts(current@)[j] == a;
                        assert(all[requested@.len() + j] == a);
                    }
                }
            }
        }
        merged
    }

    /// Ends an operation with `outcome`.
    fn finish(outcome: bool) -> (turn: (GroupFlow, Step))
        ensures
            turn.0@ == GroupFlowView::Finished,
            turn.1@ == StepView::Finish(Ok(outcome)),
    {
        (GroupFlow::Finished, Step::Finish(Ok(outcome)))
    }

    /// Ends an operation with a failure.
    fn fail(error: DirectoryError) -> (turn: (GroupFlow, Step))
        ensures
            turn.0@ == GroupFlowView::Finished,
            turn.1@ == StepView::Finish(Err(error)),
    {
        (GroupFlow::Finished, Step::Finish(Err(error)))
    }

    /// What an addition of owners does once it knows the owners that the
    /// group has.
    fn change_owners(&self, found: &Vec<Entry>, group: String, owner: Vec<String>) -> (turn: (
        GroupFlow,
        Step,
    ))
        ensures
            turn.0@ == after_owners(self@, entries(found@), group@, texts(owner@)).flow,
            turn.1@ == after_owners(self@, entries(found@), group@, texts(owner@)).step,
    {
        if found.len() == 0 {
            return Groups::finish(false);
        }
        let entry = &found[0];
        assert(entries(found@)[0] == entry@);
        let none: Vec<String> = Vec::new();
        assert(texts(none@) =~= Seq::<Seq<char>>::empty());
        let current: &Vec<String> = match last_attribute(&entry.attrs, "owner", false) {
            Some(at) => &entry.attrs[at].values,
            None => &none,
        };
        let merged = Groups::merge_owners(&owner, current);
        let had = Groups::merge_owners(&none, current);
        if merged.len() == had.len() {
            return Groups::finish(false);
        }
        let change = Mod::Replace("owner".to_owned(), merged);
        let changes: Vec<Mod> = vec![change];
        assert(mods(changes@) =~= seq![
            ModView::Replace("owner"@, merged_owners(texts(owner@), texts(current@))),
        ]);
        (GroupFlow::Changing { group }, Step::Call(Request::Modify(copy_text(&entry.dn), changes)))
    }

    /// Advances an operation with the reply to the request that it handed
    /// out last. The cache changes only by the refresh of the one group that
    /// the operation is about, and only in one piece.
    pub fn advance(&mut self, flow: GroupFlow, reply: Reply) -> (turn: (GroupFlow, Step))
        ensures
            final(self).same_settings(old(self)),
            final(self)@ == next_turn(old(self)@, old(self).base(), flow@, reply@).cache,
            turn.0@ == next_turn(old(self)@, old(self).base(), flow@, reply@).flow,
            turn.1@ == next_turn(old(self)@, old(self).base(), flow@, reply@).step,
    {
        match reply {
            Reply::Failed(error) => Groups::fail(error),
            Reply::Entries(found) => match flow {
                GroupFlow::Owners { group, owner } => self.change_owners(&found, group, owner),
                GroupFlow::Reconcile { group } => {
                    self.refresh_one(group.as_str(), &found);
                    Groups::finish(true)
                },
                _ => Groups::fail(DirectoryError::Protocol),
            },
            Reply::Done => match flow {
                GroupFlow::Changing { group } => {
                    let request = self.update_group_request(group.as_str());
                    (GroupFlow::Reconcile { group }, Step::Call(request))
                },
                _ => Groups::fail(DirectoryError::Protocol),
            },
            Reply::Refused => match flow {
                GroupFlow::Changing { group } => Groups::finish(false),
                _ => Groups::fail(DirectoryError::Protocol),
            },
        }
    }
}

/// A refresh of one group changes the cache in one piece. Afterwards every
/// key holds what it held before, whole, or the group that the directory
/// sent, whole; and a key other than the one asked for and the one that
/// came back is as it was.
pub proof fn lemma_refresh_is_whole(
    cache: Map<Seq<char>, GroupView>,
    id: Seq<char>,
    found: Seq<EntryView>,
    key: Seq<char>,
)
    ensures
        refreshed_one(cache, id, found).contains_key(key) ==> (cache.contains_key(key)
            && refreshed_one(cache, id, found)[key] == cache[key]) || (found.len() > 0
            && refreshed_one(cache, id, found)[key] == parsed_group(found[0])),
        key != id && (found.len() > 0 ==> key != parsed_group(found[0]).cn) ==> refreshed_one(
            cache,
            id,
            found,
        ).contains_key(key) == cache.contains_key(key),
        found.len() == 0 ==> !refreshed_one(cache, id, found).contains_key(id),
        found.len() > 0 ==> refreshed_one(cache, id, found).contains_key(
            parsed_group(found[0]).cn,
        ),
{
}

/// Of two refreshes of one group, the later decides.
pub proof fn lemma_later_refresh_decides(
    cache: Map<Seq<char>, GroupView>,
    id: Seq<char>,
    earlier: Seq<EntryView>,
    later: Seq<EntryView>,
)
    requires
        earlier.len() > 0 ==> parsed_group(earlier[0]).cn == id,
        later.len() > 0 ==> parsed_group(later[0]).cn == id,
    ensures
        refreshed_one(refreshed_one(cache, id, earlier), id, later) == refreshed_one(
            cache,
            id,
            later,
        ),
{
    assert(refreshed_one(refreshed_one(cache, id, earlier), id, later) =~= refreshed_one(
        cache,
        id,
        later,
    ));
}

/// The owners of a group after an addition are those asked for and those
/// that the group had, each once.
pub proof fn lemma_merged_owners(requested: Seq<Seq<char>>, current: Seq<Seq<char>>)
    ensures
        merged_owners(requested, current).no_duplicates(),
        merged_owners(requested, current).to_set() == (requested + current).to_set(),
        merged_owners(requested, current).len() == (requested + current).to_set().len(),
{
    lemma_merged(requested + current, (requested + current).len() as int);
    assert((requested + current).take((requested + current).len() as int) =~= requested
        + current);
    merged_owners(requested, current).unique_seq_to_set();
}

/// An addition brings the group an owner exactly where one of the owners
/// asked for is none of the owners that the group has, however often the
/// directory lists an owner. So an addition of owners that the group has
/// already sends nothing, and every other addition sends the merged owners,
/// among them all that the group had.
pub proof fn lemma_adds_an_owner(requested: Seq<Seq<char>>, current: Seq<Seq<char>>)
    ensures
        adds_an_owner(requested, current) <==> exists|i: int|
            0 <= i < requested.len() && !current.contains(#[trigger] requested[i]),
        forall|i: int|
            0 <= i < current.len() ==> merged_owners(requested, current).contains(
                #[trigger] current[i],
            ),
        forall|i: int|
            0 <= i < requested.len() ==> merged_owners(requested, current).contains(
                #[trigger] requested[i],
            ),
{
    broadcast use vstd::seq_lib::seq_to_set_is_finite;

    let none = Seq::<Seq<char>>::empty();
    let all = requested + current;
    lemma_merged_owners(requested, current);
    lemma_merged_owners(none, current);
    assert(none + current =~= current);
    let merged = merged_owners(requested, current);
    assert forall|i: int| 0 <= i < current.len() implies merged.contains(
        #[trigger] current[i],
    ) by {
        assert(all[requested.len() + i] == current[i]);
        assert(all.to_set().contains(current[i]));
        assert(merged.to_set().contains(current[i]));
    }
    assert forall|i: int| 0 <= i < requested.len() implies merged.contains(
        #[trigger] requested[i],
    ) by {
        assert(all[i] == requested[i]);
        assert(all.to_set().contains(requested[i]));
        assert(merged.to_set().contains(requested[i]));
    }
    assert(current.to_set().subset_of(all.to_set())) by {
        assert forall|a: Seq<char>| current.to_set().contains(a) implies all.to_set().contains(
            a,
        ) by {
            let j = choose|j: int| 0 <= j < current.len() && current[j] == a;
            assert(all[requested.len() + j] == a);
        }
    }
    if exists|i: int| 0 <= i < requested.len() && !current.contains(#[trigger] requested[i]) {
        let i = choose|i: int| 0 <= i < requested.len() && !current.contains(
            #[trigger] requested[i],
        );
        assert(all[i] == requested[i]);
        assert(all.to_set().contains(requested[i]));
        if all.to_set().len() == current.to_set().len() {
            vstd::set_lib::lemma_subset_equality(current.to_set(), all.to_set());
            assert(current.to_set().contains(requested[i]));
        }
    } else {
        assert(all.to_set() =~= current.to_set()) by {
            assert forall|a: Seq<char>| all.to_set().contains(a) implies current.to_set().contains(
                a,
            ) by {
                let j = choose|j: int| 0 <= j < all.len() && all[j] == a;
                if j < requested.len() {
                    assert(requested[j] == a);
                    assert(current.contains(requested[j]));
                } else {
                    assert(current[j - requested.len()] == a);
                }
            }
        }
    }
}

} // verus!
