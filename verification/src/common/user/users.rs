//! The cache of users and the operations that keep it in step with the
//! directory.
//!
//! The cache never talks to the directory itself. A refresh takes the reply
//! to a search and puts it into the cache in one piece; an operation that
//! needs several exchanges is a flow that hands out one request at a time
//! and is advanced with each reply.

use vstd::prelude::*;
use vstd::string::StringExecFns;
use crate::common::directory::{
    binary_mods, entries, mods, BinaryMod, BinaryModView, DirectoryError, Reply, ReplyView,
    Request, RequestView, Search, SearchView, Step, StepView,
};
use crate::common::entry::{copy_bytes, copy_text, Entry, EntryView};
use crate::common::store::{lists, records, views, Store};
use crate::common::user::modify_user::{
    binary_changes, bytes_option, text_changes, ModifyUser, ModifyUserView,
};
use crate::common::user::user::{add_attributes, parsed_user, User, UserView};
use crate::text::texts;

verus! {

/// The users that a search found, in its order.
pub open spec fn parsed_users(found: Seq<EntryView>) -> Seq<UserView> {
    Seq::new(found.len(), |i: int| parsed_user(found[i]))
}

/// The cache after a full refresh: the users that the search found, each
/// under its uid, and nothing of what was there before.
pub open spec fn refreshed_all(found: Seq<EntryView>) -> Map<Seq<char>, UserView> {
    records::<User>(parsed_users(found))
}

/// The cache after the refresh of one user: without `id` where the search
/// found nothing, and else with the first user found, whole, under its uid.
pub open spec fn refreshed_one(
    cache: Map<Seq<char>, UserView>,
    id: Seq<char>,
    found: Seq<EntryView>,
) -> Map<Seq<char>, UserView> {
    if found.len() == 0 {
        cache.remove(id)
    } else {
        cache.insert(parsed_user(found[0]).uid, parsed_user(found[0]))
    }
}

/// Whether a user is recorded as a member of the group `cn`.
pub open spec fn is_member_of(user: UserView, cn: Seq<char>) -> bool {
    match user.member {
        Some(groups) => groups.contains(cn),
        None => false,
    }
}

/// The members of the group `cn` among the first `upto` users of a listing.
pub open spec fn members_upto(listing: Seq<UserView>, cn: Seq<char>, upto: int) -> Seq<UserView>
    decreases upto,
{
    if upto <= 0 || upto > listing.len() {
        Seq::empty()
    } else if is_member_of(listing[upto - 1], cn) {
        members_upto(listing, cn, upto - 1).push(listing[upto - 1])
    } else {
        members_upto(listing, cn, upto - 1)
    }
}

/// The filter that admits every user.
pub open spec fn all_users_filter() -> Seq<char> {
    "(objectClass=inetOrgPerson)"@
}

/// The filter that admits the user `id`.
pub open spec fn user_filter(id: Seq<char>) -> Seq<char> {
    "(&(objectClass=inetOrgPerson)(uid="@ + id + "))"@
}

/// The attributes that a search for users asks for.
pub open spec fn user_attrs() -> Seq<Seq<char>> {
    seq!["*"@, "memberOf"@]
}

/// The search for every user below `base`.
pub open spec fn all_users_search(base: Seq<char>) -> RequestView {
    RequestView::Search(SearchView { base: base, filter: all_users_filter(), attrs: user_attrs() })
}

/// The search for the user `id` below `base`.
pub open spec fn user_search(base: Seq<char>, id: Seq<char>) -> RequestView {
    RequestView::Search(SearchView { base: base, filter: user_filter(id), attrs: user_attrs() })
}

/// The distinguished name of the user `id` below `users_base`.
pub open spec fn user_dn(users_base: Seq<char>, id: Seq<char>) -> Seq<char> {
    "uid="@ + id + ","@ + users_base
}

/// Where an operation on the users stands between two exchanges.
pub enum UserFlow {
    /// A change waits for the user as the directory has it.
    Baseline { id: String, modification: ModifyUser, creating: bool },
    /// A change waits for the outcome of its text changes.
    Text { id: String, binary: Vec<BinaryMod>, creating: bool },
    /// A change waits for the outcome of its binary changes.
    Binary { id: String, creating: bool },
    /// An operation waits for the user as the directory has it now, and
    /// ends with `outcome`.
    Reconcile { id: String, outcome: bool },
    /// A deletion waits for its outcome.
    Deleting { id: String },
    /// An addition waits for its outcome.
    Adding { id: String, picture: Option<Vec<u8>> },
    /// An addition waits for the user as the directory has it.
    Added { id: String, picture: Option<Vec<u8>> },
    /// The operation has ended.
    Finished,
}

pub enum UserFlowView {
    Baseline { id: Seq<char>, modification: ModifyUserView, creating: bool },
    Text { id: Seq<char>, binary: Seq<BinaryModView>, creating: bool },
    Binary { id: Seq<char>, creating: bool },
    Reconcile { id: Seq<char>, outcome: bool },
    Deleting { id: Seq<char> },
    Adding { id: Seq<char>, picture: Option<Seq<u8>> },
    Added { id: Seq<char>, picture: Option<Seq<u8>> },
    Finished,
}

impl View for UserFlow {
    type V = UserFlowView;

    open spec fn view(&self) -> UserFlowView {
        match self {
            UserFlow::Baseline { id, modification, creating } => UserFlowView::Baseline {
                id: id@,
                modification: modification@,
                creating: *creating,
            },
            UserFlow::Text { id, binary, creating } => UserFlowView::Text {
                id: id@,
                binary: binary_mods(binary@),
                creating: *creating,
            },
            UserFlow::Binary { id, creating } => UserFlowView::Binary {
                id: id@,
                creating: *creating,
            },
            UserFlow::Reconcile { id, outcome } => UserFlowView::Reconcile {
                id: id@,
                outcome: *outcome,
            },
            UserFlow::Deleting { id } => UserFlowView::Deleting { id: id@ },
            UserFlow::Adding { id, picture } => UserFlowView::Adding {
                id: id@,
                picture: bytes_option(*picture),
            },
            UserFlow::Added { id, picture } => UserFlowView::Added {
                id: id@,
                picture: bytes_option(*picture),
            },
            UserFlow::Finished => UserFlowView::Finished,
        }
    }
}

/// The state of an operation after a reply: the cache, where the operation
/// stands, and what it does next.
pub struct Turn {
    pub cache: Map<Seq<char>, UserView>,
    pub flow: UserFlowView,
    pub step: StepView,
}

/// The operation ends with a failure and leaves the cache as it is.
pub open spec fn fails(cache: Map<Seq<char>, UserView>, error: DirectoryError) -> Turn {
    Turn { cache: cache, flow: UserFlowView::Finished, step: StepView::Finish(Err(error)) }
}

/// The operation ends and says whether it changed anything.
pub open spec fn ends(cache: Map<Seq<char>, UserView>, outcome: bool) -> Turn {
    Turn { cache: cache, flow: UserFlowView::Finished, step: StepView::Finish(Ok(outcome)) }
}

/// The operation asks for the user as the directory has it now, to end
/// with `outcome` once the cache holds it.
pub open spec fn reconciles(
    cache: Map<Seq<char>, UserView>,
    base: Seq<char>,
    id: Seq<char>,
    outcome: bool,
) -> Turn {
    Turn {
        cache: cache,
        flow: UserFlowView::Reconcile { id: id, outcome: outcome },
        step: StepView::Call(user_search(base, id)),
    }
}

/// A change begins: it asks for the user as the directory has it.
pub open spec fn begins_change(
    cache: Map<Seq<char>, UserView>,
    base: Seq<char>,
    id: Seq<char>,
    modification: ModifyUserView,
    creating: bool,
) -> Turn {
    Turn {
        cache: cache,
        flow: UserFlowView::Baseline { id: id, modification: modification, creating: creating },
        step: StepView::Call(user_search(base, id)),
    }
}

/// What a change does once the cache holds the user as the directory has
/// it: it ends without an exchange where the user is gone or nothing would
/// change, sends the text changes where there are any, and else the binary
/// ones.
pub open spec fn after_baseline(
    cache: Map<Seq<char>, UserView>,
    users_base: Seq<char>,
    id: Seq<char>,
    modification: ModifyUserView,
    creating: bool,
) -> Turn {
    if !cache.contains_key(id) {
        ends(cache, creating)
    } else {
        let text = text_changes(modification, cache[id]);
        let binary = binary_changes(modification);
        if text.len() == 0 && binary.len() == 0 {
            ends(cache, creating)
        } else if text.len() > 0 {
            Turn {
                cache: cache,
                flow: UserFlowView::Text { id: id, binary: binary, creating: creating },
                step: StepView::Call(RequestView::Modify(user_dn(users_base, id), text)),
            }
        } else {
            Turn {
                cache: cache,
                flow: UserFlowView::Binary { id: id, creating: creating },
                step: StepView::Call(RequestView::ModifyBinary(user_dn(users_base, id), binary)),
            }
        }
    }
}

/// The turn that an operation takes on a reply.
///
/// A failed exchange ends the operation with that failure. A reply of a
/// kind that the operation does not wait for ends it with a protocol
/// failure. In both cases the cache stays as it is.
pub open spec fn next_turn(
    cache: Map<Seq<char>, UserView>,
    base: Seq<char>,
    users_base: Seq<char>,
    flow: UserFlowView,
    reply: ReplyView,
) -> Turn {
    match reply {
        ReplyView::Failed(error) => fails(cache, error),
        ReplyView::Entries(found) => match flow {
            UserFlowView::Baseline { id, modification, creating } => after_baseline(
                refreshed_one(cache, id, found),
                users_base,
                id,
                modification,
                creating,
            ),
            UserFlowView::Reconcile { id, outcome } => ends(
                refreshed_one(cache, id, found),
                outcome,
            ),
            UserFlowView::Added { id, picture } => match picture {
                Some(bytes) => begins_change(
                    refreshed_one(cache, id, found),
                    base,
                    id,
                    ModifyUserView { picture: Some(bytes), ..ModifyUserView::empty() },
                    true,
                ),
                None => ends(refreshed_one(cache, id, found), true),
            },
            _ => fails(cache, DirectoryError::Protocol),
        },
        ReplyView::Done => match flow {
            UserFlowView::Text { id, binary, creating } => if binary.len() > 0 {
                Turn {
                    cache: cache,
                    flow: UserFlowView::Binary { id: id, creating: creating },
                    step: StepView::Call(
                        RequestView::ModifyBinary(user_dn(users_base, id), binary),
                    ),
                }
            } else {
                reconciles(cache, base, id, true)
            },
            UserFlowView::Binary { id, creating } => reconciles(cache, base, id, true),
            UserFlowView::Deleting { id } => reconciles(cache, base, id, true),
            UserFlowView::Adding { id, picture } => Turn {
                cache: cache,
                flow: UserFlowView::Added { id: id, picture: picture },
                step: StepView::Call(user_search(base, id)),
            },
            _ => fails(cache, DirectoryError::Protocol),
        },
        ReplyView::Refused => match flow {
            UserFlowView::Text { id, binary, creating } => reconciles(cache, base, id, creating),
            UserFlowView::Binary { id, creating } => reconciles(cache, base, id, creating),
            UserFlowView::Deleting { id } => reconciles(cache, base, id, false),
            UserFlowView::Adding { id, picture } => ends(cache, false),
            _ => fails(cache, DirectoryError::Protocol),
        },
    }
}

/// The cache of users, with what it takes to reach the directory.
pub struct Users {
    users: Store<User>,
    ldap_url: String,
    ldap_user: String,
    ldap_password: String,
    users_base_dn: String,
    base_dn: String,
}

impl View for Users {
    type V = Map<Seq<char>, UserView>;

    closed spec fn view(&self) -> Map<Seq<char>, UserView> {
        self.users.map()
    }
}

impl Users {
    /// The users in the order in which the cache keeps them.
    pub closed spec fn listing(&self) -> Seq<UserView> {
        self.users.listing()
    }

    /// The distinguished name below which searches run.
    pub closed spec fn base(&self) -> Seq<char> {
        self.base_dn@
    }

    /// The distinguished name below which the users stand.
    pub closed spec fn users_base(&self) -> Seq<char> {
        self.users_base_dn@
    }

    /// Where the directory is reached.
    pub closed spec fn url(&self) -> Seq<char> {
        self.ldap_url@
    }

    /// The name that the library binds with.
    pub closed spec fn bind_user(&self) -> Seq<char> {
        self.ldap_user@
    }

    /// The password that the library binds with.
    pub closed spec fn bind_password(&self) -> Seq<char> {
        self.ldap_password@
    }

    /// Whether two caches reach the same directory in the same way.
    pub open spec fn same_settings(&self, other: &Users) -> bool {
        &&& self.base() == other.base()
        &&& self.users_base() == other.users_base()
        &&& self.url() == other.url()
        &&& self.bind_user() == other.bind_user()
        &&& self.bind_password() == other.bind_password()
    }

    /// An empty cache.
    pub fn new(
        ldap_url: String,
        ldap_user: String,
        ldap_password: String,
        users_base_dn: String,
        base_dn: String,
    ) -> (cache: Self)
        ensures
            cache@ == Map::<Seq<char>, UserView>::empty(),
            cache.url() == ldap_url@,
            cache.bind_user() == ldap_user@,
            cache.bind_password() == ldap_password@,
            cache.users_base() == users_base_dn@,
            cache.base() == base_dn@,
    {
        Users { users: Store::new(), ldap_url, ldap_user, ldap_password, users_base_dn, base_dn }
    }

    /// Where the directory is reached.
    pub fn ldap_url(&self) -> (url: &String)
        ensures
            url@ == self.url(),
    {
        &self.ldap_url
    }

    /// The name that the library binds with.
    pub fn ldap_user(&self) -> (name: &String)
        ensures
            name@ == self.bind_user(),
    {
        &self.ldap_user
    }

    /// The password that the library binds with.
    pub fn ldap_password(&self) -> (password: &String)
        ensures
            password@ == self.bind_password(),
    {
        &self.ldap_password
    }

    /// The search that `update` takes the reply of.
    pub fn update_request(&self) -> (request: Request)
        ensures
            request@ == all_users_search(self.base()),
    {
        let attrs: Vec<String> = vec!["*".to_owned(), "memberOf".to_owned()];
        assert(texts(attrs@) =~= user_attrs());
        Request::Search(
            Search {
                base: copy_text(&self.base_dn),
                filter: "(objectClass=inetOrgPerson)".to_owned(),
                attrs,
            },
        )
    }

    /// The search that `update_user` takes the reply of.
    pub fn update_user_request(&self, id: &str) -> (request: Request)
        ensures
            request@ == user_search(self.base(), id@),
    {
        let attrs: Vec<String> = vec!["*".to_owned(), "memberOf".to_owned()];
        assert(texts(attrs@) =~= user_attrs());
        let mut filter = "(&(objectClass=inetOrgPerson)(uid=".to_owned();
        filter.append(id);
        filter.append("))");
        Request::Search(Search { base: copy_text(&self.base_dn), filter, attrs })
    }

    /// The distinguished name of the user `id`.
    pub fn dn_of(&self, id: &str) -> (dn: String)
        ensures
            dn@ == user_dn(self.users_base(), id@),
    {
        let mut dn = "uid=".to_owned();
        dn.append(id);
        dn.append(",");
        dn.append(self.users_base_dn.as_str());
        dn
    }

    /// Puts the first user that a search for `id` found into the cache, or
    /// takes `id` out where it found none.
    fn refresh_one(&mut self, id: &str, found: &Vec<Entry>)
        ensures
            final(self)@ == refreshed_one(old(self)@, id@, entries(found@)),
            final(self).same_settings(old(self)),
    {
        if found.len() == 0 {
            self.users.remove(id);
        } else {
            assert(entries(found@)[0] == found@[0]@);
            let user = User::from_entry(&found[0]);
            self.users.put(user);
        }
    }

    /// Takes the reply to the search for the user `id` into the cache: the
    /// user is replaced whole by what the directory has, or leaves the cache
    /// where the directory has none. A reply that is no search result fails
    /// and leaves the cache as it is.
    pub fn update_user(&mut self, id: &str, reply: Reply) -> (done: Result<(), DirectoryError>)
        ensures
            final(self).same_settings(old(self)),
            match reply@ {
                ReplyView::Entries(found) => done is Ok && final(self)@ == refreshed_one(
                    old(self)@,
                    id@,
                    found,
                ),
                ReplyView::Failed(error) => done == Err::<(), DirectoryError>(error)
                    && final(self)@ == old(self)@,
                _ => done == Err::<(), DirectoryError>(DirectoryError::Protocol) && final(self)@
                    == old(self)@,
            },
    {
        match reply {
            Reply::Entries(found) => {
                self.refresh_one(id, &found);
                Ok(())
            },
            Reply::Failed(error) => Err(error),
            _ => Err(DirectoryError::Protocol),
        }
    }

    /// Takes the reply to the search for every user into the cache: what
    /// was there goes, and the users found come in, all at once. A reply
    /// that is no search result fails and leaves the cache as it is.
    pub fn update(&mut self, reply: Reply) -> (done: Result<(), DirectoryError>)
        ensures
            final(self).same_settings(old(self)),
            match reply@ {
                ReplyView::Entries(found) => done is Ok && final(self)@ == refreshed_all(found),
                ReplyView::Failed(error) => done == Err::<(), DirectoryError>(error)
                    && final(self)@ == old(self)@,
                _ => done == Err::<(), DirectoryError>(DirectoryError::Protocol) && final(self)@
                    == old(self)@,
            },
    {
        match reply {
            Reply::Entries(found) => {
                let mut fresh: Store<User> = Store::new();
                let ghost parsed = parsed_users(entries(found@));
                let mut i: usize = 0;
                while i < found.len()
                    invariant
                        i <= found@.len(),
                        parsed == parsed_users(entries(found@)),
                        fresh.map() == records::<User>(parsed.take(i as int)),
                    decreases found@.len() - i,
                {
                    assert(entries(found@)[i as int] == found@[i as int]@);
                    let user = User::from_entry(&found[i]);
                    fresh.put(user);
                    assert(parsed.take(i + 1).drop_last() =~= parsed.take(i as int));
                    i += 1;
                }
                assert(parsed.take(found@.len() as int) =~= parsed);
                self.users = fresh;
                Ok(())
            },
            Reply::Failed(error) => Err(error),
            _ => Err(DirectoryError::Protocol),
        }
    }

    /// A copy of the user `id`, where the cache has one.
    pub fn user(&self, id: &str) -> (found: Option<User>)
        ensures
            match found {
                Some(user) => self@.contains_key(id@) && user@ == self@[id@] && user@.uid == id@,
                None => !self@.contains_key(id@),
            },
    {
        self.users.get(id)
    }

    /// Copies of all users of the cache, each once.
    pub fn to_vec(&self) -> (all: Vec<User>)
        ensures
            views(all@) == self.listing(),
            lists::<User>(self.listing(), self@),
    {
        self.users.values()
    }

    /// Copies of the users that are recorded as members of the group `cn`,
    /// in the order of the listing.
    pub fn member_of(&self, cn: &str) -> (members: Vec<User>)
        ensures
            views(members@) == members_upto(self.listing(), cn@, self.listing().len() as int),
            lists::<User>(self.listing(), self@),
    {
        let mut members: Vec<User> = Vec::new();
        assert(views(members@) =~= Seq::<UserView>::empty());
        let n = self.users.len();
        let mut i: usize = 0;
        while i < n
            invariant
                i <= n,
                n == self.listing().len(),
                self.listing() == self.users.listing(),
                views(members@) == members_upto(self.listing(), cn@, i as int),
            decreases n - i,
        {
            let user = self.users.at(i);
            let member = match &user.member {
                Some(groups) => crate::text::holds_text(groups, cn),
                None => false,
            };
            assert(member == is_member_of(user@, cn@));
            if member {
                let ghost before = views(members@);
                members.push(user.clone());
                assert(views(members@) =~= before.push(user@));
            }
            i += 1;
        }
        members
    }

    /// Begins a change of the user `id`. The flow first asks for the user as
    /// the directory has it, so that the change is held against what is
    /// there and not against what the cache remembers.
    pub fn modify_user(&self, id: &str, modification: ModifyUser) -> (begun: (UserFlow, Request))
        ensures
            begun.0@ == (UserFlowView::Baseline {
                id: id@,
                modification: modification@,
                creating: false,
            }),
            begun.1@ == user_search(self.base(), id@),
    {
        let request = self.update_user_request(id);
        (UserFlow::Baseline { id: id.to_owned(), modification, creating: false }, request)
    }

    /// Begins the deletion of the user `id`.
    pub fn delete_user(&self, id: &str) -> (begun: (UserFlow, Request))
        ensures
            begun.0@ == (UserFlowView::Deleting { id: id@ }),
            begun.1@ == RequestView::Delete(user_dn(self.users_base(), id@)),
    {
        (UserFlow::Deleting { id: id.to_owned() }, Request::Delete(self.dn_of(id)))
    }

    /// Begins the addition of a user. Where the cache already has a user
    /// with that uid the flow ends at once, without an exchange, and says
    /// that nothing was added.
    pub fn new_user(&self, user: User) -> (begun: (UserFlow, Step))
        ensures
            self@.contains_key(user@.uid) ==> begun.0@ == UserFlowView::Finished && begun.1@
                == StepView::Finish(Ok(false)),
            !self@.contains_key(user@.uid) ==> begun.0@ == (UserFlowView::Adding {
                id: user@.uid,
                picture: user@.picture,
            }) && begun.1@ == StepView::Call(
                RequestView::Add(user_dn(self.users_base(), user@.uid), add_attributes(user@)),
            ),
    {
        if self.users.contains(user.uid.as_str()) {
            return (UserFlow::Finished, Step::Finish(Ok(false)));
        }
        let dn = self.dn_of(user.uid.as_str());
        let attrs = user.to_ldif();
        (UserFlow::Adding { id: user.uid, picture: user.picture }, Step::Call(Request::Add(dn, attrs)))
    }

    /// Ends an operation with `outcome`.
    fn finish(outcome: bool) -> (turn: (UserFlow, Step))
        ensures
            turn.0@ == UserFlowView::Finished,
            turn.1@ == StepView::Finish(Ok(outcome)),
    {
        (UserFlow::Finished, Step::Finish(Ok(outcome)))
    }

    /// Ends an operation with a failure.
    fn fail(error: DirectoryError) -> (turn: (UserFlow, Step))
        ensures
            turn.0@ == UserFlowView::Finished,
            turn.1@ == StepView::Finish(Err(error)),
    {
        (UserFlow::Finished, Step::Finish(Err(error)))
    }

    /// Asks for the user as the directory has it now, to end with `outcome`.
    fn reconcile(&self, id: String, outcome: bool) -> (turn: (UserFlow, Step))
        ensures
            turn.0@ == (UserFlowView::Reconcile { id: id@, outcome: outcome }),
            turn.1@ == StepView::Call(user_search(self.base(), id@)),
    {
        let request = self.update_user_request(id.as_str());
        (UserFlow::Reconcile { id, outcome }, Step::Call(request))
    }

    /// What a change does once the cache holds the user as the directory has
    /// it.
    fn change(&self, id: String, modification: ModifyUser, creating: bool) -> (turn: (
        UserFlow,
        Step,
    ))
        ensures
            turn.0@ == after_baseline(self@, self.users_base(), id@, modification@, creating).flow,
            turn.1@ == after_baseline(self@, self.users_base(), id@, modification@, creating).step,
    {
        match self.users.get(id.as_str()) {
            None => Users::finish(creating),
            Some(user) => {
                let (text, binary) = modification.to_ldif(&user);
                if text.len() == 0 && binary.len() == 0 {
                    Users::finish(creating)
                } else if text.len() > 0 {
                    let dn = self.dn_of(id.as_str());
                    (UserFlow::Text { id, binary, creating }, Step::Call(Request::Modify(dn, text)))
                } else {
                    let dn = self.dn_of(id.as_str());
                    (
                        UserFlow::Binary { id, creating },
                        Step::Call(Request::ModifyBinary(dn, binary)),
                    )
                }
            },
        }
    }

    /// Advances an operation with the reply to the request that it handed
    /// out last. The cache changes only by the refresh of the one user that
    /// the operation is about, and only in one piece.
    pub fn advance(&mut self, flow: UserFlow, reply: Reply) -> (turn: (UserFlow, Step))
        ensures
            final(self).same_settings(old(self)),
            final(self)@ == next_turn(
                old(self)@,
                old(self).base(),
                old(self).users_base(),
                flow@,
                reply@,
            ).cache,
            turn.0@ == next_turn(
                old(self)@,
                old(self).base(),
                old(self).users_base(),
                flow@,
                reply@,
            ).flow,
            turn.1@ == next_turn(
                old(self)@,
                old(self).base(),
                old(self).users_base(),
                flow@,
                reply@,
            ).step,
    {
        match reply {
            Reply::Failed(error) => Users::fail(error),
            Reply::Entries(found) => match flow {
                UserFlow::Baseline { id, modification, creating } => {
                    self.refresh_one(id.as_str(), &found);
                    self.change(id, modification, creating)
                },
                UserFlow::Reconcile { id, outcome } => {
                    self.refresh_one(id.as_str(), &found);
                    Users::finish(outcome)
                },
                UserFlow::Added { id, picture } => {
                    self.refresh_one(id.as_str(), &found);
                    match picture {
                        Some(bytes) => {
                            let modification = ModifyUser::new().picture(bytes);
                            let request = self.update_user_request(id.as_str());
                            (
                                UserFlow::Baseline { id, modification, creating: true },
                                Step::Call(request),
                            )
                        },
                        None => Users::finish(true),
                    }
                },
                _ => Users::fail(DirectoryError::Protocol),
            },
            Reply::Done => match flow {
                UserFlow::Text { id, binary, creating } => {
                    if binary.len() > 0 {
                        let dn = self.dn_of(id.as_str());
                        (
                            UserFlow::Binary { id, creating },
                            Step::Call(Request::ModifyBinary(dn, binary)),
                        )
                    } else {
                        self.reconcile(id, true)
                    }
                },
                UserFlow::Binary { id, creating } => self.reconcile(id, true),
                UserFlow::Deleting { id } => self.reconcile(id, true),
                UserFlow::Adding { id, picture } => {
                    let request = self.update_user_request(id.as_str());
                    (UserFlow::Added { id, picture }, Step::Call(request))
                },
                _ => Users::fail(DirectoryError::Protocol),
            },
            Reply::Refused => match flow {
                UserFlow::Text { id, binary, creating } => self.reconcile(id, creating),
                UserFlow::Binary { id, creating } => self.reconcile(id, creating),
                UserFlow::Deleting { id } => self.reconcile(id, false),
                UserFlow::Adding { id, picture } => Users::finish(false),
                _ => Users::fail(DirectoryError::Protocol),
            },
        }
    }
}

/// A refresh of one user changes the cache in one piece. Afterwards every
/// key holds what it held before, whole, or the user that the directory
/// sent, whole; and a key other than the one asked for and the one that
/// came back is as it was.
pub proof fn lemma_refresh_is_whole(
    cache: Map<Seq<char>, UserView>,
    id: Seq<char>,
    found: Seq<EntryView>,
    key: Seq<char>,
)
    ensures
        refreshed_one(cache, id, found).contains_key(key) ==> (cache.contains_key(key)
            && refreshed_one(cache, id, found)[key] == cache[key]) || (found.len() > 0
            && refreshed_one(cache, id, found)[key] == parsed_user(found[0])),
        key != id && (found.len() > 0 ==> key != parsed_user(found[0]).uid) ==> refreshed_one(
            cache,
            id,
            found,
        ).contains_key(key) == cache.contains_key(key),
        found.len() == 0 ==> !refreshed_one(cache, id, found).contains_key(id),
        found.len() > 0 ==> refreshed_one(cache, id, found).contains_key(
            parsed_user(found[0]).uid,
        ),
{
}

/// Of two refreshes of one user, the later decides: where the directory
/// answers a search for a user with that user or with nothing, the cache
/// after both is the cache after the later alone, whatever the earlier
/// brought.
pub proof fn lemma_later_refresh_decides(
    cache: Map<Seq<char>, UserView>,
    id: Seq<char>,
    earlier: Seq<EntryView>,
    later: Seq<EntryView>,
)
    requires
        earlier.len() > 0 ==> parsed_user(earlier[0]).uid == id,
        later.len() > 0 ==> parsed_user(later[0]).uid == id,
    ensures
        refreshed_one(refreshed_one(cache, id, earlier), id, later) == refreshed_one(
            cache,
            id,
            later,
        ),
{
    assert(refreshed_one(refreshed_one(cache, id, earlier), id, later) =~= refreshed_one(
        cache,
        id,
        later,
    ));
}

/// A change that would change nothing ends without an exchange, and so does
/// one of a user that the directory no longer has.
pub proof fn lemma_idle_change_makes_no_call(
    cache: Map<Seq<char>, UserView>,
    users_base: Seq<char>,
    id: Seq<char>,
    modification: ModifyUserView,
)
    requires
        !cache.contains_key(id) || (text_changes(modification, cache[id]).len() == 0
            && binary_changes(modification).len() == 0),
    ensures
        after_baseline(cache, users_base, id, modification, false) == ends(cache, false),
{
}

} // verus!
