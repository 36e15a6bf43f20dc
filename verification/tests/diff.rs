use api_polyorbite::common::directory::{BinaryMod, Mod};
use api_polyorbite::common::entry::{Attribute, Entry};
use api_polyorbite::common::password::Password;
use api_polyorbite::common::user::{ModifyUser, User};

fn user(fields: &[(&str, &str)]) -> User {
    User::new(Entry {
        dn: String::new(),
        attrs: fields
            .iter()
            .map(|(n, v)| Attribute { name: n.to_string(), values: vec![v.to_string()] })
            .collect(),
        bin_attrs: vec![],
    })
}

fn flat(mods: Vec<Mod>) -> Vec<(&'static str, String, Vec<String>)> {
    mods.into_iter()
        .map(|m| match m {
            Mod::Add(n, v) => ("add", n, v),
            Mod::Delete(n, v) => ("delete", n, v),
            Mod::Replace(n, v) => ("replace", n, v),
        })
        .collect()
}

fn one(kind: &'static str, name: &str, values: &[&str]) -> (&'static str, String, Vec<String>) {
    (kind, name.to_string(), values.iter().map(|v| v.to_string()).collect())
}

#[test]
fn unset_field_set_to_text_is_added() {
    let base = user(&[("uid", "jdoe")]);
    let (text, binary) = ModifyUser::new().mail("j@x.org".to_string()).to_ldif(&base);
    assert_eq!(flat(text), vec![one("add", "mail", &["j@x.org"])]);
    assert!(binary.is_empty());
}

#[test]
fn every_compared_field_is_added_under_its_name() {
    let base = user(&[("uid", "jdoe")]);
    let cases: Vec<(ModifyUser, &str)> = vec![
        (ModifyUser::new().mail("v".to_string()), "mail"),
        (ModifyUser::new().first_name("v".to_string()), "givenName"),
        (ModifyUser::new().last_name("v".to_string()), "sn"),
        (ModifyUser::new().name("v".to_string()), "cn"),
        (ModifyUser::new().school("v".to_string()), "departmentNumber"),
        (ModifyUser::new().genie("v".to_string()), "roomNumber"),
        (ModifyUser::new().matricule("v".to_string()), "employeeNumber"),
        (ModifyUser::new().number("v".to_string()), "telephoneNumber"),
    ];
    for (request, name) in cases {
        let (text, binary) = request.to_ldif(&base);
        assert_eq!(flat(text), vec![one("add", name, &["v"])]);
        assert!(binary.is_empty());
    }
}

#[test]
fn set_field_emptied_is_deleted() {
    let base = user(&[("uid", "jdoe"), ("mail", "j@x.org")]);
    let (text, binary) = ModifyUser::new().mail(String::new()).to_ldif(&base);
    assert_eq!(flat(text), vec![one("delete", "mail", &[])]);
    assert!(binary.is_empty());
}

#[test]
fn same_value_changes_nothing() {
    let base = user(&[("uid", "jdoe"), ("mail", "j@x.org"), ("sn", "Doe")]);
    let (text, binary) =
        ModifyUser::new().mail("j@x.org".to_string()).last_name("Doe".to_string()).to_ldif(&base);
    assert!(text.is_empty());
    assert!(binary.is_empty());
}

#[test]
fn empty_on_empty_changes_nothing() {
    let base = user(&[("uid", "jdoe")]);
    let (text, _) = ModifyUser::new().mail(String::new()).to_ldif(&base);
    assert!(text.is_empty());
}

#[test]
fn different_value_is_replaced() {
    let base = user(&[("uid", "jdoe"), ("mail", "j@x.org")]);
    let (text, _) = ModifyUser::new().mail("john@x.org".to_string()).to_ldif(&base);
    assert_eq!(flat(text), vec![one("replace", "mail", &["john@x.org"])]);
}

#[test]
fn empty_request_changes_nothing() {
    let base = user(&[("uid", "jdoe"), ("mail", "j@x.org")]);
    let (text, binary) = ModifyUser::new().to_ldif(&base);
    assert!(text.is_empty());
    assert!(binary.is_empty());
}

#[test]
fn password_is_always_replaced_by_its_record() {
    let base = user(&[("uid", "jdoe")]);
    let (text, _) = ModifyUser::new().password("secret".to_string()).to_ldif(&base);
    let changes = flat(text);
    assert_eq!(changes.len(), 1);
    assert_eq!(changes[0].0, "replace");
    assert_eq!(changes[0].1, "userPassword");
    assert_eq!(changes[0].2.len(), 1);
    assert!(changes[0].2[0].starts_with("{SSHA}"));
    assert!(Password::verify("secret", &changes[0].2[0]));
}

#[test]
fn picture_goes_into_the_binary_list() {
    let base = user(&[("uid", "jdoe")]);
    let request = ModifyUser::new().picture(vec![1, 2, 3]);
    let (text, binary) = request.to_ldif(&base);
    assert!(text.is_empty());
    assert_eq!(binary.len(), 1);
    match &binary[0] {
        BinaryMod::Replace(name, values) => {
            assert_eq!(name, "jpegPhoto");
            assert_eq!(values, &vec![vec![1u8, 2, 3]]);
        }
        _ => panic!("the picture is replaced"),
    }
}

#[test]
fn changes_come_in_a_fixed_order() {
    let base = user(&[("uid", "jdoe"), ("mail", "old"), ("cn", "Old Name")]);
    let request = ModifyUser::new()
        .name("New Name".to_string())
        .number("555".to_string())
        .matricule("42".to_string())
        .genie("G".to_string())
        .school("S".to_string())
        .last_name("L".to_string())
        .first_name("F".to_string())
        .mail(String::new());
    let (text, _) = request.to_ldif(&base);
    assert_eq!(
        flat(text),
        vec![
            one("delete", "mail", &[]),
            one("add", "givenName", &["F"]),
            one("add", "sn", &["L"]),
            one("add", "departmentNumber", &["S"]),
            one("add", "roomNumber", &["G"]),
            one("add", "employeeNumber", &["42"]),
            one("add", "telephoneNumber", &["555"]),
            one("replace", "cn", &["New Name"]),
        ]
    );
}

#[test]
fn set_all_of_the_same_user_only_replaces_the_password() {
    let base = user(&[
        ("uid", "jdoe"),
        ("userPassword", "stored"),
        ("mail", "j@x.org"),
        ("cn", "John"),
    ]);
    let (text, binary) = ModifyUser::new().set_all(base.clone()).to_ldif(&base);
    assert_eq!(flat(text), vec![one("replace", "userPassword", &["stored"])]);
    assert!(binary.is_empty());
}

#[test]
fn set_all_of_another_user_brings_its_fields() {
    let base = user(&[("uid", "jdoe"), ("mail", "j@x.org"), ("cn", "John")]);
    let mut other = user(&[("uid", "other"), ("userPassword", "p"), ("sn", "Roe"), ("cn", "John")]);
    other.picture = Some(vec![7]);
    let (text, binary) = ModifyUser::new().set_all(other).to_ldif(&base);
    assert_eq!(
        flat(text),
        vec![
            one("replace", "userPassword", &["p"]),
            one("delete", "mail", &[]),
            one("add", "sn", &["Roe"]),
        ]
    );
    assert_eq!(binary.len(), 1);
}

#[test]
fn later_setting_of_a_field_counts() {
    let base = user(&[("uid", "jdoe")]);
    let (text, _) =
        ModifyUser::new().mail("a".to_string()).mail("b".to_string()).to_ldif(&base);
    assert_eq!(flat(text), vec![one("add", "mail", &["b"])]);
}
