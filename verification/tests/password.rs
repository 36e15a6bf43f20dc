use api_polyorbite::common::password::ssha::{payload_is_well_formed, symbol, LdapSaltedSha1};
use api_polyorbite::common::password::Password;
use api_polyorbite::common::password::DEFAULT_HASH;

fn ssha() -> api_polyorbite::common::password::hash_type::Hash {
    api_polyorbite::common::password::hash_type::Hash::SSHA
}

#[test]
fn plain_stored_value_admits_itself() {
    assert!(Password::verify("abc", "abc"));
    assert!(!Password::verify("abd", "abc"));
    assert!(Password::verify("", ""));
}

#[test]
fn unknown_tag_falls_back_to_equality() {
    assert!(!Password::verify("abc", "{FOO}xyz"));
    assert!(Password::verify("{FOO}xyz", "{FOO}xyz"));
}

#[test]
fn hash_then_verify_round_trip() {
    for password in ["", "a", "secret", "correct horse battery staple", "päss wörd ✓"] {
        let record = Password::hash(password, ssha());
        assert!(record.starts_with("{SSHA}"));
        assert_eq!(record.len(), 6 + 32);
        assert!(Password::verify(password, &record));
    }
}

#[test]
fn hash_rejects_other_passwords() {
    let record = Password::hash("secret", DEFAULT_HASH);
    assert!(!Password::verify("Secret", &record));
    assert!(!Password::verify("secret ", &record));
    assert!(!Password::verify("", &record));
    assert!(!Password::verify(&record, &record));
}

#[test]
fn record_under_known_salt_is_exact() {
    assert_eq!(
        LdapSaltedSha1::hash_with_salt("secret", &[1, 2, 3, 4]),
        "{SSHA}uJDd0BIdJ9Z7yDCZNWdgYeb33+cBAgME"
    );
    assert_eq!(
        LdapSaltedSha1::hash_with_salt("abc", &[0, 0, 0, 0]),
        "{SSHA}oD64rD5q2AmAXsSJzoXyzv6NAMYAAAAA"
    );
    assert_eq!(
        LdapSaltedSha1::hash_with_salt("päss", &[255, 254, 253, 252]),
        "{SSHA}qpBJoNg2PQZU1lNmI5VDy9S1fqH//v38"
    );
}

#[test]
fn record_with_longer_salt_is_padded() {
    assert_eq!(
        LdapSaltedSha1::hash_with_salt("secret", &[1, 2, 3, 4, 5]),
        "{SSHA}ZyIkHgDuEvfzL1muCFclh6UATi8BAgMEBQ=="
    );
    assert_eq!(
        LdapSaltedSha1::hash_with_salt("secret", &[1, 2, 3, 4, 5, 6]),
        "{SSHA}JwFZe2i7gc6nzqvAPBM9Xw0ZJgwBAgMEBQY="
    );
}

#[test]
fn records_made_elsewhere_verify() {
    assert!(Password::verify("secret", "{SSHA}uJDd0BIdJ9Z7yDCZNWdgYeb33+cBAgME"));
    assert!(Password::verify("secret", "{SSHA}ZyIkHgDuEvfzL1muCFclh6UATi8BAgMEBQ=="));
    assert!(Password::verify("secret", "{SSHA}JwFZe2i7gc6nzqvAPBM9Xw0ZJgwBAgMEBQY="));
    assert!(Password::verify("päss", "{SSHA}qpBJoNg2PQZU1lNmI5VDy9S1fqH//v38"));
    assert!(!Password::verify("secreT", "{SSHA}uJDd0BIdJ9Z7yDCZNWdgYeb33+cBAgME"));
    assert!(!Password::verify("secret", "{SSHA}uJDd0BIdJ9Z7yDCZNWdgYeb33+cBAgMF"));
}

#[test]
fn checksum_is_sha1_of_secret_then_salt() {
    let checksum = LdapSaltedSha1::calc_checksum(b"abc", b"");
    assert_eq!(
        checksum,
        vec![
            0xa9, 0x99, 0x3e, 0x36, 0x47, 0x06, 0x81, 0x6a, 0xba, 0x3e, 0x25, 0x71, 0x78, 0x50,
            0xc2, 0x6c, 0x9c, 0xd0, 0xd8, 0x9d
        ]
    );
    assert_eq!(LdapSaltedSha1::calc_checksum(b"a", b"bc"), checksum);
    assert_ne!(LdapSaltedSha1::calc_checksum(b"bc", b"a"), checksum);
}

#[test]
fn salt_has_four_bytes() {
    assert_eq!(LdapSaltedSha1::generate_salt().len(), 4);
}

#[test]
fn malformed_record_falls_back_to_equality() {
    // too short a payload
    let short = "{SSHA}5en6G6MezRroT3XKqkdPOmY/BfQ=";
    assert!(!Password::verify("secret", short));
    assert!(Password::verify(short, short));
    // a payload of the right shape that is not base64
    let odd = "{SSHA}AAAAAAAAAAAAAAAAAAAAAAAAAAAAAAAAA";
    assert!(!Password::verify("secret", odd));
    assert!(Password::verify(odd, odd));
    // three padding characters
    let padded = "{SSHA}uJDd0BIdJ9Z7yDCZNWdgYeb33+cBAgME===";
    assert!(!Password::verify("secret", padded));
    assert!(Password::verify(padded, padded));
    // a character outside of the alphabet
    let foreign = "{SSHA}uJDd0BIdJ9Z7yDCZNWdgYeb33-cBAgME";
    assert!(!Password::verify("secret", foreign));
    // the tag is not at the start
    let late = "x{SSHA}uJDd0BIdJ9Z7yDCZNWdgYeb33+cBAgME";
    assert!(!Password::verify("secret", late));
    assert!(Password::verify(late, late));
    // the tag in small letters
    let small = "{ssha}uJDd0BIdJ9Z7yDCZNWdgYeb33+cBAgME";
    assert!(!Password::verify("secret", small));
    assert!(Password::verify(small, small));
}

#[test]
fn ssha_verify_alone_follows_the_same_rules() {
    assert!(LdapSaltedSha1::verify("secret", "{SSHA}uJDd0BIdJ9Z7yDCZNWdgYeb33+cBAgME"));
    assert!(!LdapSaltedSha1::verify("other", "{SSHA}uJDd0BIdJ9Z7yDCZNWdgYeb33+cBAgME"));
    assert!(LdapSaltedSha1::verify("plain", "plain"));
    let record = LdapSaltedSha1::hash("secret");
    assert!(LdapSaltedSha1::verify("secret", &record));
}

#[test]
fn scheme_reads_the_leading_tag() {
    assert!(matches!(Password::scheme("{SSHA}anything"), Some(_)));
    assert!(Password::scheme("{SSHA").is_none());
    assert!(Password::scheme("SSHA}").is_none());
    assert!(Password::scheme("{MD5}abc").is_none());
    assert!(Password::scheme(" {SSHA}abc").is_none());
    assert!(Password::scheme("").is_none());
    assert!(Password::scheme("{}").is_none());
}

#[test]
fn hash_type_from_str_knows_one_scheme() {
    assert!(api_polyorbite::common::password::hash_type::Hash::from_str("SSHA").is_some());
    assert!(api_polyorbite::common::password::hash_type::Hash::from_str("ssha").is_none());
    assert!(api_polyorbite::common::password::hash_type::Hash::from_str("SHA").is_none());
    assert!(api_polyorbite::common::password::hash_type::Hash::from_str("").is_none());
}

#[test]
fn alphabet_has_sixty_four_symbols() {
    let mut count = 0;
    for code in 0u32..0x250 {
        if let Some(c) = char::from_u32(code) {
            if symbol(c) {
                count += 1;
                assert!(c.is_ascii_alphanumeric() || c == '+' || c == '/');
            }
        }
    }
    assert_eq!(count, 64);
    assert!(!symbol('='));
    assert!(!symbol('-'));
    assert!(!symbol('_'));
}

#[test]
fn payload_shape() {
    let chars = |s: &str| s.chars().collect::<Vec<char>>();
    let thirty_two = "A".repeat(32);
    assert!(payload_is_well_formed(&chars(&thirty_two), 0));
    assert!(payload_is_well_formed(&chars(&format!("{}==", thirty_two)), 0));
    assert!(payload_is_well_formed(&chars(&format!("{}=", thirty_two)), 0));
    assert!(!payload_is_well_formed(&chars(&format!("{}===", thirty_two)), 0));
    assert!(!payload_is_well_formed(&chars(&"A".repeat(31)), 0));
    assert!(!payload_is_well_formed(&chars(&format!("{}=A", thirty_two)), 0));
    assert!(!payload_is_well_formed(&chars(&format!("{}=", "A".repeat(31))), 0));
    assert!(payload_is_well_formed(&chars(&format!("{{SSHA}}{}", thirty_two)), 6));
    assert!(!payload_is_well_formed(&chars(&thirty_two), 1));
    assert!(!payload_is_well_formed(&chars(""), 0));
}

#[test]
fn record_shape_agrees_with_the_pattern() {
    let pattern = regex::Regex::new(r"^\{SSHA\}(?P<tmp>[+/a-zA-Z0-9]{32,}={0,2})$").unwrap();
    let a32 = "A".repeat(32);
    let samples: Vec<String> = vec![
        format!("{{SSHA}}{}", a32),
        format!("{{SSHA}}{}=", a32),
        format!("{{SSHA}}{}==", a32),
        format!("{{SSHA}}{}===", a32),
        format!("{{SSHA}}{}", "A".repeat(31)),
        format!("{{SSHA}}{}=", "A".repeat(31)),
        format!("{{SSHA}}{}+/09azAZ", a32),
        format!("{{SSHA}}{}-", a32),
        format!("{{SSHA}}{}=A", a32),
        format!("{{SSHA}}{} ", a32),
        format!("{{SSHA}}{}\n", a32),
        format!(" {{SSHA}}{}", a32),
        format!("{{ssha}}{}", a32),
        format!("{{SSHA{}", a32),
        format!("{{SSHA}}{{SSHA}}{}", a32),
        format!("{{SSHA}}{}é", a32),
        "{SSHA}".to_string(),
        "{SSH".to_string(),
        String::new(),
        "{SSHA}uJDd0BIdJ9Z7yDCZNWdgYeb33+cBAgME".to_string(),
    ];
    for s in samples {
        let chars: Vec<char> = s.chars().collect();
        let shaped = s.starts_with("{SSHA}") && payload_is_well_formed(&chars, 6);
        assert_eq!(shaped, pattern.is_match(&s), "for {:?}", s);
    }
}

#[test]
fn fresh_record_has_the_tag_and_thirty_two_symbols() {
    for password in ["", "x", "secret", "a password that is longer than the record itself is"] {
        let record = Password::hash(password, ssha());
        assert_eq!(record.chars().count(), 38);
        assert_eq!(&record[..6], "{SSHA}");
        assert!(record[6..].chars().all(symbol));
        assert!(!record.contains('='));
        let record = LdapSaltedSha1::hash(password);
        assert_eq!(record.chars().count(), 38);
        assert!(record[6..].chars().all(symbol));
    }
    assert_eq!(LdapSaltedSha1::hash_with_salt("secret", &[1, 2, 3, 4, 5]).len(), 6 + 36);
    assert_eq!(LdapSaltedSha1::hash_with_salt("secret", &[]).len(), 6 + 28);
}
