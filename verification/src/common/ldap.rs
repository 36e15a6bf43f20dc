//! The two caches of one directory.

use vstd::prelude::*;
use vstd::string::StringExecFns;
use crate::common::config::Config;
use crate::common::directory::{DirectoryError, Reply, ReplyView, Request, RequestView};
use crate::common::group::group::GroupView;
use crate::common::group::groups::{all_groups_search, Groups};
use crate::common::user::user::UserView;
use crate::common::user::users::{all_users_search, Users};

verus! {

/// The decimal digit for a number below ten.
pub open spec fn digit(d: nat) -> char {
    if d == 0 {
        '0'
    } else if d == 1 {
        '1'
    } else if d == 2 {
        '2'
    } else if d == 3 {
        '3'
    } else if d == 4 {
        '4'
    } else if d == 5 {
        '5'
    } else if d == 6 {
        '6'
    } else if d == 7 {
        '7'
    } else if d == 8 {
        '8'
    } else {
        '9'
    }
}

/// A number in decimal digits, without leading zeros.
pub open spec fn decimal(n: nat) -> Seq<char>
    decreases n,
{
    if n < 10 {
        seq![digit(n)]
    } else {
        decimal(n / 10).push(digit(n % 10))
    }
}

/// Where the directory of a host and a port is reached: the host, a colon,
/// and the port in decimal digits.
pub open spec fn directory_url(host: Seq<char>, port: u16) -> Seq<char> {
    host + seq![':'] + decimal(port as nat)
}

/// The decimal digit for a number below ten.
fn digit_of(d: u16) -> (c: char)
    requires
        d < 10,
    ensures
        c == digit(d as nat),
{
    if d == 0 {
        '0'
    } else if d == 1 {
        '1'
    } else if d == 2 {
        '2'
    } else if d == 3 {
        '3'
    } else if d == 4 {
        '4'
    } else if d == 5 {
        '5'
    } else if d == 6 {
        '6'
    } else if d == 7 {
        '7'
    } else if d == 8 {
        '8'
    } else {
        '9'
    }
}

/// Appends a port in decimal digits.
fn push_decimal(out: &mut String, n: u16)
    ensures
        final(out)@ == old(out)@ + decimal(n as nat),
    decreases n,
{
    if n >= 10 {
        push_decimal(out, n / 10);
    }
    out.push(digit_of(n % 10));
    assert(out@ =~= old(out)@ + decimal(n as nat));
}

/// Where the directory of a host and a port is reached.
pub fn url_of(host: &str, port: u16) -> (url: String)
    ensures
        url@ == directory_url(host@, port),
{
    let mut url = host.to_owned();
    url.push(':');
    push_decimal(&mut url, port);
    assert(url@ =~= directory_url(host@, port));
    url
}

/// Where a refresh of both caches stands.
#[derive(Clone, Copy, Debug, PartialEq, Eq, Structural)]
pub enum Refresh {
    /// The reply to the search for the groups is awaited.
    Groups,
    /// The groups are in; the reply to the search for the users is awaited.
    Users,
    /// The refresh has ended.
    Finished,
}

/// What a refresh of both caches does next.
pub enum Next {
    /// It asks something of the directory.
    Call(Request),
    /// It has ended, well or with the failure of one of its searches.
    Finish(Result<(), DirectoryError>),
}

pub enum NextView {
    Call(RequestView),
    Finish(Result<(), DirectoryError>),
}

impl View for Next {
    type V = NextView;

    open spec fn view(&self) -> NextView {
        match self {
            Next::Call(request) => NextView::Call(request@),
            Next::Finish(outcome) => NextView::Finish(*outcome),
        }
    }
}

/// The failure that a reply carries where it is no search result.
pub open spec fn failure_of(reply: ReplyView) -> DirectoryError {
    match reply {
        ReplyView::Failed(error) => error,
        _ => DirectoryError::Protocol,
    }
}

/// The view of a directory: its groups and its users.
pub struct Ldap {
    pub groups: Groups,
    pub users: Users,
}

impl Ldap {
    /// Two empty caches for the directory that the settings name. They are
    /// to be filled by a full refresh of each.
    pub fn new(config: Config) -> (ldap: Self)
        ensures
            ldap.users@ == Map::<Seq<char>, UserView>::empty(),
            ldap.groups@ == Map::<Seq<char>, GroupView>::empty(),
            ldap.users.url() == directory_url(config@.ldap_host, config@.ldap_port),
            ldap.groups.url() == directory_url(config@.ldap_host, config@.ldap_port),
            ldap.users.bind_user() == config@.ldap_user,
            ldap.groups.bind_user() == config@.ldap_user,
            ldap.users.bind_password() == config@.ldap_password,
            ldap.groups.bind_password() == config@.ldap_password,
            ldap.users.users_base() == config@.ldap_users_base_dn,
            ldap.groups.groups_base() == config@.ldap_groups_base_dn,
            ldap.users.base() == config@.ldap_base_dn,
            ldap.groups.base() == config@.ldap_base_dn,
    {
        let url = url_of(config.ldap_host.as_str(), config.ldap_port);
        let users = Users::new(
            url.clone(),
            config.ldap_user.clone(),
            config.ldap_password.clone(),
            config.ldap_users_base_dn.clone(),
            config.ldap_base_dn.clone(),
        );
        let groups = Groups::new(
            url,
            config.ldap_user.clone(),
            config.ldap_password.clone(),
            config.ldap_groups_base_dn.clone(),
            config.ldap_base_dn.clone(),
        );
        Ldap { users, groups }
    }

    /// Begins a refresh of both caches: the groups come first.
    pub fn update(&self) -> (begun: (Refresh, Request))
        ensures
            begun.0 == Refresh::Groups,
            begun.1@ == all_groups_search(self.groups.base()),
    {
        (Refresh::Groups, self.groups.update_request())
    }

    /// Advances a refresh of both caches with the reply to its last search.
    /// The groups found replace the cached groups, and then the users found
    /// the cached users. A search that fails ends the refresh with its
    /// failure: the cache that it was for stays as it is, the users are not
    /// asked for where the groups failed, and groups that are in stay in
    /// where the users fail.
    pub fn advance(&mut self, stage: Refresh, reply: Reply) -> (turn: (Refresh, Next))
        ensures
            final(self).users.same_settings(&old(self).users),
            final(self).groups.same_settings(&old(self).groups),
            match stage {
                Refresh::Groups => {
                    &&& final(self).users@ == old(self).users@
                    &&& match reply@ {
                        ReplyView::Entries(found) => {
                            &&& final(self).groups@
                                == crate::common::group::groups::refreshed_all(found)
                            &&& turn.0 == Refresh::Users
                            &&& turn.1@ == NextView::Call(all_users_search(old(self).users.base()))
                        },
                        _ => {
                            &&& final(self).groups@ == old(self).groups@
                            &&& turn.0 == Refresh::Finished
                            &&& turn.1@ == NextView::Finish(Err(failure_of(reply@)))
                        },
                    }
                },
                Refresh::Users => {
                    &&& final(self).groups@ == old(self).groups@
                    &&& turn.0 == Refresh::Finished
                    &&& match reply@ {
                        ReplyView::Entries(found) => {
                            &&& final(self).users@
                                == crate::common::user::users::refreshed_all(found)
                            &&& turn.1@ == NextView::Finish(Ok(()))
                        },
                        _ => {
                            &&& final(self).users@ == old(self).users@
                            &&& turn.1@ == NextView::Finish(Err(failure_of(reply@)))
                        },
                    }
                },
                Refresh::Finished => {
                    &&& final(self).users@ == old(self).users@
                    &&& final(self).groups@ == old(self).groups@
                    &&& turn.0 == Refresh::Finished
                    &&& turn.1@ == NextView::Finish(Err(DirectoryError::Protocol))
                },
            },
    {
        match stage {
            Refresh::Groups => match self.groups.update(reply) {
                Ok(()) => (Refresh::Users, Next::Call(self.users.update_request())),
                Err(error) => (Refresh::Finished, Next::Finish(Err(error))),
            },
            Refresh::Users => match self.users.update(reply) {
                Ok(()) => (Refresh::Finished, Next::Finish(Ok(()))),
                Err(error) => (Refresh::Finished, Next::Finish(Err(error))),
            },
            Refresh::Finished => (Refresh::Finished, Next::Finish(Err(DirectoryError::Protocol))),
        }
    }
}

} // verus!
