use api_polyorbite::common::entry::{Attribute, Entry};
use api_polyorbite::common::group::group::{
    group_in_component, groups_named, partition_references, read_key, read_reference,
};
use api_polyorbite::common::group::Group;
use std::collections::HashSet;

fn attr(name: &str, values: &[&str]) -> Attribute {
    Attribute { name: name.to_string(), values: values.iter().map(|v| v.to_string()).collect() }
}

fn set(values: &[String]) -> HashSet<String> {
    values.iter().cloned().collect()
}

fn names(values: &[&str]) -> HashSet<String> {
    values.iter().map(|v| v.to_string()).collect()
}

fn group(dn: &str, attrs: Vec<Attribute>) -> Group {
    Group::new(Entry { dn: dn.to_string(), attrs, bin_attrs: vec![] })
}

#[test]
fn parents_are_the_other_groups_of_the_dn() {
    let g = group("cn=devs,cn=eng,dc=example,dc=com", vec![attr("cn", &["devs"])]);
    assert_eq!(g.dn, "cn=devs,cn=eng,dc=example,dc=com");
    assert_eq!(g.cn, "devs");
    assert_eq!(g.parents, vec!["eng".to_string()]);
    assert!(!g.parents.contains(&"devs".to_string()));
}

#[test]
fn parents_never_hold_the_own_name() {
    for dn in [
        "cn=devs",
        "cn=devs,cn=devs,dc=x",
        "cn=a,cn=devs,cn=b,cn=devs",
        "ou=groups,dc=x",
        "",
    ] {
        let g = group(dn, vec![attr("cn", &["devs"])]);
        assert!(!g.parents.contains(&"devs".to_string()));
    }
}

#[test]
fn parents_hold_each_group_once() {
    let g = group("cn=a,cn=b,cn=c,cn=b,ou=groups,dc=x", vec![attr("cn", &["a"])]);
    assert_eq!(g.parents.len(), 2);
    assert_eq!(set(&g.parents), names(&["b", "c"]));
}

#[test]
fn group_without_name_keeps_every_group_of_the_dn() {
    let g = group("cn=a,cn=b,dc=x", vec![]);
    assert_eq!(g.cn, "");
    assert_eq!(set(&g.parents), names(&["a", "b"]));
}

#[test]
fn members_are_parted_into_users_and_groups() {
    let g = group(
        "cn=devs,ou=groups,dc=x",
        vec![
            attr("cn", &["devs"]),
            attr(
                "member",
                &[
                    "uid=jdoe,ou=people,dc=x",
                    "cn=interns,ou=groups,dc=x",
                    "uid=asmith,ou=people,dc=x",
                    "uid=jdoe,ou=people,dc=x",
                    "cn=ops,uid=odd,dc=x",
                ],
            ),
        ],
    );
    assert_eq!(set(&g.user_members), names(&["jdoe", "asmith"]));
    assert_eq!(g.user_members.len(), 2);
    assert_eq!(set(&g.group_members), names(&["interns", "ops"]));
    assert!(g.owner_user.is_empty());
    assert!(g.owner_group.is_empty());
}

#[test]
fn owners_are_parted_by_the_same_rule() {
    let g = group(
        "cn=devs,ou=groups,dc=x",
        vec![
            attr("cn", &["devs"]),
            attr("owner", &["uid=boss,cn=staff,dc=x", "cn=leads,ou=groups,dc=x"]),
        ],
    );
    assert_eq!(set(&g.owner_user), names(&["boss"]));
    assert_eq!(set(&g.owner_group), names(&["leads"]));
    assert!(g.user_members.is_empty());
    assert!(g.group_members.is_empty());
}

#[test]
fn first_value_of_cn_is_the_name() {
    let g = group("cn=devs,dc=x", vec![attr("cn", &["devs", "developers"])]);
    assert_eq!(g.cn, "devs");
}

#[test]
fn reference_is_read_from_its_first_component() {
    assert_eq!(read_reference("uid=jdoe,ou=people,dc=x"), (true, "jdoe".to_string()));
    assert_eq!(read_reference("cn=devs,ou=groups,dc=x"), (false, "devs".to_string()));
    assert_eq!(read_reference("cn=devs,uid=x"), (false, "devs".to_string()));
    assert_eq!(read_reference("uid=a=b,dc=x"), (true, "b".to_string()));
    assert_eq!(read_reference("uid=jdoe"), (true, "jdoe".to_string()));
    assert_eq!(read_reference("plain"), (false, "plain".to_string()));
    assert_eq!(read_reference(""), (false, String::new()));
    assert_eq!(read_reference(",uid=x"), (false, String::new()));
    assert_eq!(read_reference("uid="), (true, String::new()));
}

#[test]
fn reference_is_a_user_only_by_the_key_of_its_first_component() {
    assert_eq!(read_reference("cn=druid,dc=x"), (false, "druid".to_string()));
    assert_eq!(read_reference("cn=uid,dc=x"), (false, "uid".to_string()));
    assert_eq!(read_reference("cn=uid=x,dc=x"), (false, "x".to_string()));
    assert_eq!(read_reference("xuid=a,dc=x"), (false, "a".to_string()));
    assert_eq!(read_reference("uidx=a,dc=x"), (false, "a".to_string()));
    assert_eq!(read_reference(" uid=a,dc=x"), (false, "a".to_string()));
    assert_eq!(read_reference("UID=a,dc=x"), (false, "a".to_string()));
    assert_eq!(read_reference("uid"), (false, "uid".to_string()));
    assert_eq!(read_reference("ou=people,uid=a"), (false, "people".to_string()));
}

#[test]
fn key_is_what_stands_before_the_first_equals_sign() {
    let chars = |s: &str| s.chars().collect::<Vec<char>>();
    assert_eq!(read_key(&chars("uid=jdoe")), Some(("uid".to_string(), 4)));
    assert_eq!(read_key(&chars("cn=a=b")), Some(("cn".to_string(), 3)));
    assert_eq!(read_key(&chars("=x")), Some((String::new(), 1)));
    assert_eq!(read_key(&chars("cn=")), Some(("cn".to_string(), 3)));
    assert_eq!(read_key(&chars("plain")), None);
    assert_eq!(read_key(&chars("")), None);
}

#[test]
fn group_named_druids_is_a_group_member() {
    let g = group(
        "cn=devs,ou=groups,dc=example,dc=com",
        vec![
            attr("cn", &["devs"]),
            attr(
                "member",
                &["uid=bob,ou=people,dc=example,dc=com", "cn=druids,ou=groups,dc=example,dc=com"],
            ),
            attr("owner", &["cn=druids,ou=groups,dc=example,dc=com"]),
        ],
    );
    assert_eq!(g.user_members, vec!["bob".to_string()]);
    assert_eq!(g.group_members, vec!["druids".to_string()]);
    assert!(g.owner_user.is_empty());
    assert_eq!(g.owner_group, vec!["druids".to_string()]);
    assert!(g.parents.is_empty());
}

#[test]
fn only_components_with_the_key_cn_give_parents() {
    for dn in ["ou=cn=x", "ou=cn=x,dc=cn=y", "cn=devs, cn=eng", "ou=a+cn=b,dc=x", "xcn=a", "CN=a"] {
        let g = group(dn, vec![attr("cn", &["devs"])]);
        assert!(g.parents.is_empty(), "for {:?}", dn);
    }
    let g = group("cn=devs,ou=cn=x,cn=eng,uid=cn,dc=cn", vec![attr("cn", &["devs"])]);
    assert_eq!(g.parents, vec!["eng".to_string()]);
}

#[test]
fn partition_keeps_each_identifier_once() {
    let refs: Vec<String> =
        ["uid=a,dc=x", "uid=a,dc=y", "cn=g,dc=x", "cn=g", "uid=b"].iter().map(|s| s.to_string()).collect();
    let (users, groups) = partition_references(&refs);
    assert_eq!(users, vec!["a".to_string(), "b".to_string()]);
    assert_eq!(groups, vec!["g".to_string()]);
    let (users, groups) = partition_references(&vec![]);
    assert!(users.is_empty() && groups.is_empty());
}

#[test]
fn component_gives_its_value_where_its_key_is_cn() {
    let chars = |s: &str| s.chars().collect::<Vec<char>>();
    assert_eq!(group_in_component(&chars("cn=eng")), Some("eng".to_string()));
    assert_eq!(group_in_component(&chars("cn=a=b")), Some("a=b".to_string()));
    assert_eq!(group_in_component(&chars("cn=cn=z")), Some("cn=z".to_string()));
    assert_eq!(group_in_component(&chars("cn= ")), Some(" ".to_string()));
    assert_eq!(group_in_component(&chars(" cn=eng")), None);
    assert_eq!(group_in_component(&chars("ou=x+cn=y")), None);
    assert_eq!(group_in_component(&chars("ou=cn=x")), None);
    assert_eq!(group_in_component(&chars("xcn=a")), None);
    assert_eq!(group_in_component(&chars("cn=")), None);
    assert_eq!(group_in_component(&chars("dc=example")), None);
    assert_eq!(group_in_component(&chars("CN=eng")), None);
    assert_eq!(group_in_component(&chars("")), None);
    assert_eq!(group_in_component(&chars("cn")), None);
}

#[test]
fn groups_of_a_dn_agree_with_the_pattern_at_the_start_of_a_component() {
    let pattern = regex::Regex::new(r"^cn=([^,]+)").unwrap();
    for dn in [
        "cn=devs,cn=eng,dc=example,dc=com",
        "cn=devs",
        "",
        ",",
        ",,cn=a,,",
        "cn=,cn=b",
        "ou=cn=x,dc=y",
        "cn=a, cn=b ,cn=c",
        "xcn=a,cn=b=c,cn=",
        "cn=é,cn=ü,dc=x",
        "cn=a\ncn=b,cn=c",
        "cn=a+cn=b,cn=a",
        "cn",
        "cn=x,",
        ",cn=x",
    ] {
        let expected: HashSet<String> = dn
            .split(",")
            .map(|v| pattern.captures_iter(v).map(|c| c[1].to_string()).collect::<Vec<String>>())
            .flatten()
            .collect();
        let found = groups_named(dn);
        assert_eq!(set(&found), expected, "for {:?}", dn);
        assert_eq!(found.len(), expected.len(), "for {:?}", dn);
    }
}

#[test]
fn group_clone_keeps_every_field() {
    let g = group(
        "cn=devs,cn=eng,dc=x",
        vec![
            attr("cn", &["devs"]),
            attr("member", &["uid=a", "cn=b"]),
            attr("owner", &["uid=c", "cn=d"]),
        ],
    );
    let copy = g.clone();
    assert_eq!(copy.dn, g.dn);
    assert_eq!(copy.cn, g.cn);
    assert_eq!(copy.parents, g.parents);
    assert_eq!(copy.user_members, g.user_members);
    assert_eq!(copy.group_members, g.group_members);
    assert_eq!(copy.owner_user, g.owner_user);
    assert_eq!(copy.owner_group, g.owner_group);
}
