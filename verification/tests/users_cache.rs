use api_polyorbite::common::directory::{BinaryMod, DirectoryError, Mod, Reply, Request, Step};
use api_polyorbite::common::entry::{Attribute, BinaryAttribute, Entry};
use api_polyorbite::common::user::users::UserFlow;
use api_polyorbite::common::user::{ModifyUser, UserBuilder, Users};

fn cache() -> Users {
    Users::new(
        "ldap://h:389".to_string(),
        "cn=admin,dc=x".to_string(),
        "pw".to_string(),
        "ou=people,dc=x".to_string(),
        "dc=x".to_string(),
    )
}

fn entry(uid: &str, mail: &str, groups: &[&str]) -> Entry {
    let mut attrs = vec![Attribute { name: "uid".to_string(), values: vec![uid.to_string()] }];
    if !mail.is_empty() {
        attrs.push(Attribute { name: "mail".to_string(), values: vec![mail.to_string()] });
    }
    if !groups.is_empty() {
        attrs.push(Attribute {
            name: "memberOf".to_string(),
            values: groups.iter().map(|g| g.to_string()).collect(),
        });
    }
    Entry { dn: format!("uid={},ou=people,dc=x", uid), attrs, bin_attrs: vec![] }
}

fn filled() -> Users {
    let mut users = cache();
    let reply = Reply::Entries(vec![
        entry("a", "a@x", &["devs", "eng"]),
        entry("b", "b@x", &["eng"]),
        entry("c", "", &[]),
    ]);
    assert!(users.update(reply).is_ok());
    users
}

fn uids(users: &Users) -> Vec<String> {
    let mut all: Vec<String> = users.to_vec().into_iter().map(|u| u.uid).collect();
    all.sort();
    all
}

fn search_of(request: &Request) -> (String, String, Vec<String>) {
    match request {
        Request::Search(s) => (s.base.clone(), s.filter.clone(), s.attrs.clone()),
        _ => panic!("a search was expected"),
    }
}

fn call(step: Step) -> Request {
    match step {
        Step::Call(request) => request,
        Step::Finish(outcome) => panic!("a call was expected, not {:?}", outcome),
    }
}

fn finish(step: Step) -> Result<bool, DirectoryError> {
    match step {
        Step::Finish(outcome) => outcome,
        Step::Call(_) => panic!("the end was expected"),
    }
}

fn user_search(id: &str) -> (String, String, Vec<String>) {
    (
        "dc=x".to_string(),
        format!("(&(objectClass=inetOrgPerson)(uid={}))", id),
        vec!["*".to_string(), "memberOf".to_string()],
    )
}

#[test]
fn new_cache_is_empty() {
    let users = cache();
    assert!(users.to_vec().is_empty());
    assert!(users.user("a").is_none());
    assert!(users.member_of("devs").is_empty());
    assert_eq!(users.ldap_url(), "ldap://h:389");
    assert_eq!(users.ldap_user(), "cn=admin,dc=x");
    assert_eq!(users.ldap_password(), "pw");
}

#[test]
fn requests_name_the_filter_and_the_base() {
    let users = cache();
    assert_eq!(
        search_of(&users.update_request()),
        (
            "dc=x".to_string(),
            "(objectClass=inetOrgPerson)".to_string(),
            vec!["*".to_string(), "memberOf".to_string()]
        )
    );
    assert_eq!(search_of(&users.update_user_request("jdoe")), user_search("jdoe"));
    assert_eq!(users.dn_of("jdoe"), "uid=jdoe,ou=people,dc=x");
}

#[test]
fn full_refresh_replaces_the_cache() {
    let mut users = filled();
    assert_eq!(uids(&users), vec!["a", "b", "c"]);
    assert_eq!(users.user("a").unwrap().mail, "a@x");
    assert!(users.update(Reply::Entries(vec![entry("d", "d@x", &[])])).is_ok());
    assert_eq!(uids(&users), vec!["d"]);
    assert!(users.user("a").is_none());
    assert!(users.update(Reply::Entries(vec![])).is_ok());
    assert!(users.to_vec().is_empty());
}

#[test]
fn full_refresh_keeps_the_later_of_two_entries_with_one_uid() {
    let mut users = cache();
    let reply = Reply::Entries(vec![entry("a", "first@x", &[]), entry("a", "second@x", &[])]);
    assert!(users.update(reply).is_ok());
    assert_eq!(uids(&users), vec!["a"]);
    assert_eq!(users.user("a").unwrap().mail, "second@x");
}

#[test]
fn failed_refresh_leaves_the_cache() {
    let mut users = filled();
    assert_eq!(users.update(Reply::Failed(DirectoryError::Connection)), Err(DirectoryError::Connection));
    assert_eq!(users.update(Reply::Failed(DirectoryError::Protocol)), Err(DirectoryError::Protocol));
    assert_eq!(users.update(Reply::Done), Err(DirectoryError::Protocol));
    assert_eq!(users.update(Reply::Refused), Err(DirectoryError::Protocol));
    assert_eq!(users.update_user("a", Reply::Failed(DirectoryError::Connection)), Err(DirectoryError::Connection));
    assert_eq!(users.update_user("a", Reply::Done), Err(DirectoryError::Protocol));
    assert_eq!(uids(&users), vec!["a", "b", "c"]);
    assert_eq!(users.user("a").unwrap().mail, "a@x");
}

#[test]
fn refresh_of_one_user_puts_it_in_whole() {
    let mut users = filled();
    assert!(users.update_user("a", Reply::Entries(vec![entry("a", "new@x", &[])])).is_ok());
    let a = users.user("a").unwrap();
    assert_eq!(a.mail, "new@x");
    assert_eq!(a.member, None);
    assert_eq!(uids(&users), vec!["a", "b", "c"]);
    assert!(users.update_user("z", Reply::Entries(vec![entry("z", "z@x", &[])])).is_ok());
    assert_eq!(uids(&users), vec!["a", "b", "c", "z"]);
}

#[test]
fn refresh_of_one_user_takes_only_the_first_entry() {
    let mut users = filled();
    let reply = Reply::Entries(vec![entry("a", "one@x", &[]), entry("b", "two@x", &[])]);
    assert!(users.update_user("a", reply).is_ok());
    assert_eq!(users.user("a").unwrap().mail, "one@x");
    assert_eq!(users.user("b").unwrap().mail, "b@x");
}

#[test]
fn refresh_with_no_entry_takes_the_user_out() {
    let mut users = filled();
    assert!(users.update_user("b", Reply::Entries(vec![])).is_ok());
    assert!(users.user("b").is_none());
    assert_eq!(uids(&users), vec!["a", "c"]);
    assert!(users.update_user("nobody", Reply::Entries(vec![])).is_ok());
    assert_eq!(uids(&users), vec!["a", "c"]);
}

#[test]
fn later_of_two_refreshes_decides() {
    let mut one = filled();
    assert!(one.update_user("a", Reply::Entries(vec![entry("a", "first@x", &["g1"])])).is_ok());
    assert!(one.update_user("a", Reply::Entries(vec![entry("a", "second@x", &[])])).is_ok());
    let a = one.user("a").unwrap();
    assert_eq!(a.mail, "second@x");
    assert_eq!(a.member, None);

    let mut two = filled();
    assert!(two.update_user("a", Reply::Entries(vec![entry("a", "second@x", &[])])).is_ok());
    assert!(two.update_user("a", Reply::Entries(vec![entry("a", "first@x", &["g1"])])).is_ok());
    let a = two.user("a").unwrap();
    assert_eq!(a.mail, "first@x");
    assert_eq!(a.member, Some(vec!["g1".to_string()]));
}

#[test]
fn lookup_gives_a_copy() {
    let users = filled();
    let mut a = users.user("a").unwrap();
    a.mail = "changed".to_string();
    assert_eq!(users.user("a").unwrap().mail, "a@x");
    let mut all = users.to_vec();
    all[0].mail = "changed".to_string();
    assert!(users.to_vec().iter().all(|u| u.mail != "changed"));
}

#[test]
fn members_of_a_group_are_found_by_their_memberships() {
    let users = filled();
    let mut eng: Vec<String> = users.member_of("eng").into_iter().map(|u| u.uid).collect();
    eng.sort();
    assert_eq!(eng, vec!["a", "b"]);
    let devs: Vec<String> = users.member_of("devs").into_iter().map(|u| u.uid).collect();
    assert_eq!(devs, vec!["a"]);
    assert!(users.member_of("ops").is_empty());
    assert!(users.member_of("").is_empty());
    assert!(users.member_of("en").is_empty());
}

#[test]
fn change_runs_baseline_texts_binaries_refresh() {
    let mut users = filled();
    let request = ModifyUser::new().mail("new@x".to_string()).picture(vec![1, 2]);
    let (flow, first) = users.modify_user("a", request);
    assert_eq!(search_of(&first), user_search("a"));

    let (flow, step) = users.advance(flow, Reply::Entries(vec![entry("a", "dir@x", &[])]));
    assert_eq!(users.user("a").unwrap().mail, "dir@x");
    match call(step) {
        Request::Modify(dn, changes) => {
            assert_eq!(dn, "uid=a,ou=people,dc=x");
            assert_eq!(changes.len(), 1);
            match &changes[0] {
                Mod::Replace(name, values) => {
                    assert_eq!(name, "mail");
                    assert_eq!(values, &vec!["new@x".to_string()]);
                }
                _ => panic!("a replacement was expected"),
            }
        }
        _ => panic!("text changes were expected"),
    }

    let (flow, step) = users.advance(flow, Reply::Done);
    match call(step) {
        Request::ModifyBinary(dn, changes) => {
            assert_eq!(dn, "uid=a,ou=people,dc=x");
            assert_eq!(changes.len(), 1);
            match &changes[0] {
                BinaryMod::Replace(name, values) => {
                    assert_eq!(name, "jpegPhoto");
                    assert_eq!(values, &vec![vec![1u8, 2]]);
                }
                _ => panic!("a replacement was expected"),
            }
        }
        _ => panic!("binary changes were expected"),
    }

    let (flow, step) = users.advance(flow, Reply::Done);
    assert_eq!(search_of(&call(step)), user_search("a"));

    let mut after = entry("a", "new@x", &[]);
    after.bin_attrs.push(BinaryAttribute { name: "jpegPhoto".to_string(), values: vec![vec![1, 2]] });
    let (flow, step) = users.advance(flow, Reply::Entries(vec![after]));
    assert_eq!(finish(step), Ok(true));
    assert!(matches!(flow, UserFlow::Finished));
    let a = users.user("a").unwrap();
    assert_eq!(a.mail, "new@x");
    assert_eq!(a.picture, Some(vec![1, 2]));
}

#[test]
fn change_is_held_against_the_directory_not_the_cache() {
    let mut users = filled();
    // the cache says a@x, the directory has moved on to new@x already
    let (flow, _) = users.modify_user("a", ModifyUser::new().mail("new@x".to_string()));
    let (flow, step) = users.advance(flow, Reply::Entries(vec![entry("a", "new@x", &[])]));
    assert_eq!(finish(step), Ok(false));
    assert!(matches!(flow, UserFlow::Finished));
    assert_eq!(users.user("a").unwrap().mail, "new@x");
}

#[test]
fn change_of_a_user_that_is_gone_ends_without_a_call() {
    let mut users = filled();
    let (flow, _) = users.modify_user("a", ModifyUser::new().mail("new@x".to_string()));
    let (_, step) = users.advance(flow, Reply::Entries(vec![]));
    assert_eq!(finish(step), Ok(false));
    assert!(users.user("a").is_none());
}

#[test]
fn empty_change_ends_without_a_call() {
    let mut users = filled();
    let (flow, _) = users.modify_user("a", ModifyUser::new());
    let (_, step) = users.advance(flow, Reply::Entries(vec![entry("a", "a@x", &[])]));
    assert_eq!(finish(step), Ok(false));
}

#[test]
fn picture_alone_skips_the_text_changes() {
    let mut users = filled();
    let (flow, _) = users.modify_user("a", ModifyUser::new().picture(vec![5]));
    let (flow, step) = users.advance(flow, Reply::Entries(vec![entry("a", "a@x", &[])]));
    assert!(matches!(call(step), Request::ModifyBinary(_, _)));
    let (flow, step) = users.advance(flow, Reply::Done);
    assert_eq!(search_of(&call(step)), user_search("a"));
    let (_, step) = users.advance(flow, Reply::Entries(vec![entry("a", "a@x", &[])]));
    assert_eq!(finish(step), Ok(true));
}

#[test]
fn refused_change_still_refreshes_and_says_no() {
    let mut users = filled();
    let (flow, _) = users.modify_user("a", ModifyUser::new().mail("new@x".to_string()).picture(vec![5]));
    let (flow, _) = users.advance(flow, Reply::Entries(vec![entry("a", "a@x", &[])]));
    let (flow, step) = users.advance(flow, Reply::Refused);
    assert_eq!(search_of(&call(step)), user_search("a"));
    let (_, step) = users.advance(flow, Reply::Entries(vec![entry("a", "other@x", &[])]));
    assert_eq!(finish(step), Ok(false));
    assert_eq!(users.user("a").unwrap().mail, "other@x");
}

#[test]
fn refused_binary_change_still_refreshes_and_says_no() {
    let mut users = filled();
    let (flow, _) = users.modify_user("a", ModifyUser::new().picture(vec![5]));
    let (flow, _) = users.advance(flow, Reply::Entries(vec![entry("a", "a@x", &[])]));
    let (flow, step) = users.advance(flow, Reply::Refused);
    assert_eq!(search_of(&call(step)), user_search("a"));
    let (_, step) = users.advance(flow, Reply::Entries(vec![entry("a", "a@x", &[])]));
    assert_eq!(finish(step), Ok(false));
}

#[test]
fn failed_exchange_ends_the_flow_with_the_failure() {
    let mut users = filled();
    let (flow, _) = users.modify_user("a", ModifyUser::new().mail("new@x".to_string()));
    let (flow, step) = users.advance(flow, Reply::Failed(DirectoryError::Connection));
    assert_eq!(finish(step), Err(DirectoryError::Connection));
    assert!(matches!(flow, UserFlow::Finished));
    assert_eq!(users.user("a").unwrap().mail, "a@x");

    let (flow, _) = users.modify_user("a", ModifyUser::new().mail("new@x".to_string()));
    let (flow, _) = users.advance(flow, Reply::Entries(vec![entry("a", "a@x", &[])]));
    let (_, step) = users.advance(flow, Reply::Failed(DirectoryError::Protocol));
    assert_eq!(finish(step), Err(DirectoryError::Protocol));
}

#[test]
fn reply_of_the_wrong_kind_is_a_protocol_failure() {
    let mut users = filled();
    let (flow, _) = users.modify_user("a", ModifyUser::new().mail("new@x".to_string()));
    let (_, step) = users.advance(flow, Reply::Done);
    assert_eq!(finish(step), Err(DirectoryError::Protocol));
    let (flow, _) = users.delete_user("a");
    let (_, step) = users.advance(flow, Reply::Entries(vec![]));
    assert_eq!(finish(step), Err(DirectoryError::Protocol));
    let (_, step) = users.advance(UserFlow::Finished, Reply::Done);
    assert_eq!(finish(step), Err(DirectoryError::Protocol));
    let (_, step) = users.advance(UserFlow::Finished, Reply::Entries(vec![]));
    assert_eq!(finish(step), Err(DirectoryError::Protocol));
    let (_, step) = users.advance(UserFlow::Finished, Reply::Refused);
    assert_eq!(finish(step), Err(DirectoryError::Protocol));
    assert_eq!(uids(&users), vec!["a", "b", "c"]);
}

#[test]
fn deletion_refreshes_and_reports_the_outcome() {
    let mut users = filled();
    let (flow, first) = users.delete_user("b");
    match first {
        Request::Delete(dn) => assert_eq!(dn, "uid=b,ou=people,dc=x"),
        _ => panic!("a deletion was expected"),
    }
    let (flow, step) = users.advance(flow, Reply::Done);
    assert_eq!(search_of(&call(step)), user_search("b"));
    let (_, step) = users.advance(flow, Reply::Entries(vec![]));
    assert_eq!(finish(step), Ok(true));
    assert!(users.user("b").is_none());

    let (flow, _) = users.delete_user("a");
    let (flow, step) = users.advance(flow, Reply::Refused);
    assert_eq!(search_of(&call(step)), user_search("a"));
    let (_, step) = users.advance(flow, Reply::Entries(vec![entry("a", "a@x", &[])]));
    assert_eq!(finish(step), Ok(false));
    assert!(users.user("a").is_some());
}

fn new_user(uid: &str, picture: Option<Vec<u8>>) -> api_polyorbite::common::user::User {
    let mut b = UserBuilder::new()
        .uid(uid.to_string())
        .password("secret".to_string())
        .mail("n@x".to_string())
        .first_name("N".to_string())
        .last_name("U".to_string())
        .name("N U".to_string());
    if let Some(p) = picture {
        b = b.picture(p);
    }
    b.build().unwrap()
}

#[test]
fn addition_of_a_known_uid_ends_at_once() {
    let users = filled();
    let (flow, step) = users.new_user(new_user("a", None));
    assert_eq!(finish(step), Ok(false));
    assert!(matches!(flow, UserFlow::Finished));
}

#[test]
fn addition_adds_then_fetches() {
    let mut users = filled();
    let (flow, step) = users.new_user(new_user("n", None));
    match call(step) {
        Request::Add(dn, attrs) => {
            assert_eq!(dn, "uid=n,ou=people,dc=x");
            let names: Vec<&str> = attrs.iter().map(|a| a.name.as_str()).collect();
            assert_eq!(names, vec!["userPassword", "mail", "givenName", "sn", "cn", "uid", "objectClass"]);
            assert!(attrs.iter().all(|a| a.values.len() == 1));
            assert_eq!(attrs[5].values[0], "n");
            assert_eq!(attrs[6].values[0], "inetOrgPerson");
        }
        _ => panic!("an addition was expected"),
    }
    let (flow, step) = users.advance(flow, Reply::Done);
    assert_eq!(search_of(&call(step)), user_search("n"));
    let (flow, step) = users.advance(flow, Reply::Entries(vec![entry("n", "n@x", &[])]));
    assert_eq!(finish(step), Ok(true));
    assert!(matches!(flow, UserFlow::Finished));
    assert_eq!(users.user("n").unwrap().mail, "n@x");
}

#[test]
fn refused_addition_says_no_without_a_refresh() {
    let mut users = filled();
    let (flow, _) = users.new_user(new_user("n", None));
    let (flow, step) = users.advance(flow, Reply::Refused);
    assert_eq!(finish(step), Ok(false));
    assert!(matches!(flow, UserFlow::Finished));
    assert!(users.user("n").is_none());
}

#[test]
fn addition_with_a_picture_sets_it_in_a_second_change() {
    let mut users = filled();
    let (flow, _) = users.new_user(new_user("n", Some(vec![137, 80])));
    let (flow, step) = users.advance(flow, Reply::Done);
    assert_eq!(search_of(&call(step)), user_search("n"));
    // the entry is there; the change of the picture begins with its own baseline
    let (flow, step) = users.advance(flow, Reply::Entries(vec![entry("n", "n@x", &[])]));
    assert_eq!(search_of(&call(step)), user_search("n"));
    let (flow, step) = users.advance(flow, Reply::Entries(vec![entry("n", "n@x", &[])]));
    match call(step) {
        Request::ModifyBinary(dn, changes) => {
            assert_eq!(dn, "uid=n,ou=people,dc=x");
            assert_eq!(changes.len(), 1);
        }
        _ => panic!("binary changes were expected"),
    }
    let (flow, step) = users.advance(flow, Reply::Done);
    assert_eq!(search_of(&call(step)), user_search("n"));
    let (_, step) = users.advance(flow, Reply::Entries(vec![entry("n", "n@x", &[])]));
    assert_eq!(finish(step), Ok(true));
}

#[test]
fn addition_says_yes_though_its_picture_is_refused() {
    let mut users = filled();
    let (flow, _) = users.new_user(new_user("n", Some(vec![137, 80])));
    let (flow, _) = users.advance(flow, Reply::Done);
    let (flow, _) = users.advance(flow, Reply::Entries(vec![entry("n", "n@x", &[])]));
    let (flow, _) = users.advance(flow, Reply::Entries(vec![entry("n", "n@x", &[])]));
    let (flow, step) = users.advance(flow, Reply::Refused);
    assert_eq!(search_of(&call(step)), user_search("n"));
    let (_, step) = users.advance(flow, Reply::Entries(vec![entry("n", "n@x", &[])]));
    assert_eq!(finish(step), Ok(true));
}
