use api_polyorbite::common::entry::{Attribute, BinaryAttribute, Entry};
use api_polyorbite::common::user::User;

fn attr(name: &str, values: &[&str]) -> Attribute {
    Attribute { name: name.to_string(), values: values.iter().map(|v| v.to_string()).collect() }
}

fn bin(name: &str, values: &[&[u8]]) -> BinaryAttribute {
    BinaryAttribute { name: name.to_string(), values: values.iter().map(|v| v.to_vec()).collect() }
}

fn full_entry() -> Entry {
    Entry {
        dn: "uid=jdoe,ou=people,dc=example,dc=com".to_string(),
        attrs: vec![
            attr("objectClass", &["inetOrgPerson", "top"]),
            attr("uid", &["jdoe"]),
            attr("userPassword", &["{SSHA}uJDd0BIdJ9Z7yDCZNWdgYeb33+cBAgME"]),
            attr("mail", &["jdoe@example.com", "john@example.com"]),
            attr("givenName", &["John"]),
            attr("sn", &["Doe"]),
            attr("cn", &["John Doe"]),
            attr("departmentNumber", &["POLY"]),
            attr("roomNumber", &["GIGL"]),
            attr("employeeNumber", &["1234567"]),
            attr("telephoneNumber", &["+1 514 555 0100"]),
            attr("memberOf", &["cn=devs,ou=groups,dc=example,dc=com", "cn=eng,ou=groups,dc=example,dc=com"]),
            attr("description", &["ignored"]),
        ],
        bin_attrs: vec![bin("jpegPhoto", &[&[0xff, 0xd8, 0xff], &[1, 2]])],
    }
}

#[test]
fn every_field_is_read_from_its_attribute() {
    let user = User::new(full_entry());
    assert_eq!(user.uid, "jdoe");
    assert_eq!(user.password, "{SSHA}uJDd0BIdJ9Z7yDCZNWdgYeb33+cBAgME");
    assert_eq!(user.mail, "jdoe@example.com");
    assert_eq!(user.first_name, "John");
    assert_eq!(user.last_name, "Doe");
    assert_eq!(user.name, "John Doe");
    assert_eq!(user.school, "POLY");
    assert_eq!(user.genie, "GIGL");
    assert_eq!(user.matricule, "1234567");
    assert_eq!(user.number, "+1 514 555 0100");
    assert_eq!(user.picture, Some(vec![0xff, 0xd8, 0xff]));
    assert_eq!(
        user.member,
        Some(vec![
            "cn=devs,ou=groups,dc=example,dc=com".to_string(),
            "cn=eng,ou=groups,dc=example,dc=com".to_string()
        ])
    );
}

#[test]
fn missing_attributes_leave_fields_empty() {
    let user = User::new(Entry {
        dn: "uid=x,dc=example".to_string(),
        attrs: vec![attr("uid", &["x"])],
        bin_attrs: vec![],
    });
    assert_eq!(user.uid, "x");
    assert_eq!(user.password, "");
    assert_eq!(user.mail, "");
    assert_eq!(user.first_name, "");
    assert_eq!(user.last_name, "");
    assert_eq!(user.name, "");
    assert_eq!(user.school, "");
    assert_eq!(user.genie, "");
    assert_eq!(user.matricule, "");
    assert_eq!(user.number, "");
    assert_eq!(user.picture, None);
    assert_eq!(user.member, None);
}

#[test]
fn empty_entry_gives_blank_user() {
    let user = User::new(Entry { dn: String::new(), attrs: vec![], bin_attrs: vec![] });
    assert_eq!(user.uid, "");
    assert_eq!(user.member, None);
    assert_eq!(user.picture, None);
}

#[test]
fn attribute_order_does_not_matter() {
    let mut entry = full_entry();
    entry.attrs.reverse();
    let user = User::new(entry);
    assert_eq!(user.uid, "jdoe");
    assert_eq!(user.mail, "jdoe@example.com");
    assert_eq!(user.name, "John Doe");
    assert_eq!(user.last_name, "Doe");
}

#[test]
fn binary_picture_wins_over_text_picture() {
    let user = User::new(Entry {
        dn: String::new(),
        attrs: vec![attr("jpegPhoto", &["text"])],
        bin_attrs: vec![bin("jpegPhoto", &[&[9, 8, 7]])],
    });
    assert_eq!(user.picture, Some(vec![9, 8, 7]));
}

#[test]
fn text_picture_is_taken_as_bytes() {
    let user = User::new(Entry {
        dn: String::new(),
        attrs: vec![attr("jpegPhoto", &["é!"])],
        bin_attrs: vec![bin("other", &[&[9, 8, 7]])],
    });
    assert_eq!(user.picture, Some("é!".as_bytes().to_vec()));
}

#[test]
fn attribute_without_value_is_passed_over() {
    let user = User::new(Entry {
        dn: String::new(),
        attrs: vec![attr("mail", &["a@b"]), attr("mail", &[]), attr("memberOf", &[])],
        bin_attrs: vec![bin("jpegPhoto", &[])],
    });
    assert_eq!(user.mail, "a@b");
    assert_eq!(user.member, Some(vec![]));
    assert_eq!(user.picture, None);
}

#[test]
fn later_attribute_of_a_name_counts() {
    let user = User::new(Entry {
        dn: String::new(),
        attrs: vec![attr("mail", &["first@x"]), attr("mail", &["second@x"])],
        bin_attrs: vec![],
    });
    assert_eq!(user.mail, "second@x");
}

#[test]
fn names_are_case_sensitive() {
    let user = User::new(Entry {
        dn: String::new(),
        attrs: vec![attr("UID", &["x"]), attr("Mail", &["m"])],
        bin_attrs: vec![],
    });
    assert_eq!(user.uid, "");
    assert_eq!(user.mail, "");
}

#[test]
fn from_entry_and_new_agree() {
    let entry = full_entry();
    let a = User::from_entry(&entry);
    let b = User::new(entry);
    assert_eq!(a.uid, b.uid);
    assert_eq!(a.mail, b.mail);
    assert_eq!(a.picture, b.picture);
    assert_eq!(a.member, b.member);
}

#[test]
fn clone_keeps_every_field() {
    let user = User::new(full_entry());
    let copy = user.clone();
    assert_eq!(copy.uid, user.uid);
    assert_eq!(copy.password, user.password);
    assert_eq!(copy.mail, user.mail);
    assert_eq!(copy.first_name, user.first_name);
    assert_eq!(copy.last_name, user.last_name);
    assert_eq!(copy.name, user.name);
    assert_eq!(copy.school, user.school);
    assert_eq!(copy.genie, user.genie);
    assert_eq!(copy.matricule, user.matricule);
    assert_eq!(copy.number, user.number);
    assert_eq!(copy.picture, user.picture);
    assert_eq!(copy.member, user.member);
}

#[test]
fn stored_password_is_checked() {
    let user = User::new(full_entry());
    assert!(user.verify_password("secret"));
    assert!(!user.verify_password("wrong"));
}

#[test]
fn add_request_holds_the_set_texts_and_the_object_class() {
    let user = User::new(full_entry());
    let ldif = user.to_ldif();
    let flat: Vec<(String, Vec<String>)> =
        ldif.into_iter().map(|a| (a.name, a.values)).collect();
    let expected: Vec<(String, Vec<String>)> = vec![
        ("userPassword", "{SSHA}uJDd0BIdJ9Z7yDCZNWdgYeb33+cBAgME"),
        ("mail", "jdoe@example.com"),
        ("givenName", "John"),
        ("sn", "Doe"),
        ("cn", "John Doe"),
        ("departmentNumber", "POLY"),
        ("roomNumber", "GIGL"),
        ("uid", "jdoe"),
        ("employeeNumber", "1234567"),
        ("telephoneNumber", "+1 514 555 0100"),
        ("objectClass", "inetOrgPerson"),
    ]
    .into_iter()
    .map(|(n, v)| (n.to_string(), vec![v.to_string()]))
    .collect();
    assert_eq!(flat, expected);
}

#[test]
fn add_request_leaves_empty_texts_out() {
    let user = User::new(Entry {
        dn: String::new(),
        attrs: vec![attr("uid", &["x"]), attr("sn", &["Y"])],
        bin_attrs: vec![bin("jpegPhoto", &[&[1]])],
    });
    let flat: Vec<(String, Vec<String>)> =
        user.to_ldif().into_iter().map(|a| (a.name, a.values)).collect();
    assert_eq!(
        flat,
        vec![
            ("sn".to_string(), vec!["Y".to_string()]),
            ("uid".to_string(), vec!["x".to_string()]),
            ("objectClass".to_string(), vec!["inetOrgPerson".to_string()]),
        ]
    );
}

#[test]
fn added_user_reads_back() {
    let user = User::new(full_entry());
    let entry = Entry { dn: String::new(), attrs: user.to_ldif(), bin_attrs: vec![] };
    let back = User::new(entry);
    assert_eq!(back.uid, user.uid);
    assert_eq!(back.password, user.password);
    assert_eq!(back.mail, user.mail);
    assert_eq!(back.first_name, user.first_name);
    assert_eq!(back.last_name, user.last_name);
    assert_eq!(back.name, user.name);
    assert_eq!(back.school, user.school);
    assert_eq!(back.genie, user.genie);
    assert_eq!(back.matricule, user.matricule);
    assert_eq!(back.number, user.number);
    assert_eq!(back.picture, None);
    assert_eq!(back.member, None);
}
