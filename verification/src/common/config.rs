//! The settings that the library is handed at construction.

use vstd::prelude::*;

verus! {

/// Where the directory is, how to bind to it, and how tokens are signed.
#[derive(Debug)]
pub struct Config {
    pub jwt_secret: String,
    pub jwt_expires_in: String,
    /// The lifetime of a token, in minutes.
    pub jwt_maxage: i32,
    pub ldap_user: String,
    pub ldap_password: String,
    pub ldap_host: String,
    pub ldap_port: u16,
    pub ldap_base_dn: String,
    pub ldap_users_base_dn: String,
    pub ldap_groups_base_dn: String,
}

pub struct ConfigView {
    pub jwt_secret: Seq<char>,
    pub jwt_expires_in: Seq<char>,
    pub jwt_maxage: i32,
    pub ldap_user: Seq<char>,
    pub ldap_password: Seq<char>,
    pub ldap_host: Seq<char>,
    pub ldap_port: u16,
    pub ldap_base_dn: Seq<char>,
    pub ldap_users_base_dn: Seq<char>,
    pub ldap_groups_base_dn: Seq<char>,
}

impl View for Config {
    type V = ConfigView;

    open spec fn view(&self) -> ConfigView {
        ConfigView {
            jwt_secret: self.jwt_secret@,
            jwt_expires_in: self.jwt_expires_in@,
            jwt_maxage: self.jwt_maxage,
            ldap_user: self.ldap_user@,
            ldap_password: self.ldap_password@,
            ldap_host: self.ldap_host@,
            ldap_port: self.ldap_port,
            ldap_base_dn: self.ldap_base_dn@,
            ldap_users_base_dn: self.ldap_users_base_dn@,
            ldap_groups_base_dn: self.ldap_groups_base_dn@,
        }
    }
}

impl Clone for Config {
    fn clone(&self) -> (copy: Self)
        ensures
            copy@ == self@,
    {
        Config {
            jwt_secret: self.jwt_secret.clone(),
            jwt_expires_in: self.jwt_expires_in.clone(),
            jwt_maxage: self.jwt_maxage,
            ldap_user: self.ldap_user.clone(),
            ldap_password: self.ldap_password.clone(),
            ldap_host: self.ldap_host.clone(),
            ldap_port: self.ldap_port,
            ldap_base_dn: self.ldap_base_dn.clone(),
            ldap_users_base_dn: self.ldap_users_base_dn.clone(),
            ldap_groups_base_dn: self.ldap_groups_base_dn.clone(),
        }
    }
}

} // verus!
