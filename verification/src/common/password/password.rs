//! Hashing and checking passwords, whatever the scheme of the record.

use vstd::prelude::*;
use vstd::utf8::encode_utf8;
use crate::common::password::hash_type;
use crate::common::password::ssha::{
    has_fresh_shape, is_fresh_record, is_record_under, sha1_digest, ssha_parts, ssha_verifies,
    LdapSaltedSha1,
};
use crate::text::{chars_of, find_char_from, position, text_of};

verus! {

/// The tag that leads `stored`: what stands between a `{` at its start and
/// the first `}` after it.
pub open spec fn leading_tag(stored: Seq<char>) -> Option<Seq<char>> {
    if stored.len() > 0 && stored[0] == '{' && position(stored, '}') < stored.len() {
        Some(stored.subrange(1, position(stored, '}')))
    } else {
        None
    }
}

/// The scheme that the leading tag of `stored` names, if it has a tag and
/// the tag names a supported scheme.
pub open spec fn scheme_of(stored: Seq<char>) -> Option<hash_type::Hash> {
    match leading_tag(stored) {
        Some(tag) => hash_type::Hash::named(tag),
        None => None,
    }
}

/// Whether `stored` admits `password`. A stored value tagged with a
/// supported scheme is checked by that scheme; one without a tag, or with a
/// tag that names no supported scheme, admits only itself.
pub open spec fn verifies(password: Seq<char>, stored: Seq<char>) -> bool {
    match scheme_of(stored) {
        Some(hash_type::Hash::SSHA) => ssha_verifies(password, stored),
        None => password == stored,
    }
}

/// Passwords and their stored records.
pub struct Password;

impl Password {
    /// Records `password` under the scheme `hash`, with a fresh random salt.
    /// The record admits `password`. Under the salted SHA-1 scheme it has 38
    /// characters: the tag and 32 symbols, without padding.
    pub fn hash(password: &str, hash: hash_type::Hash) -> (record: String)
        ensures
            hash == hash_type::Hash::SSHA ==> is_fresh_record(record@, password@),
            hash == hash_type::Hash::SSHA ==> has_fresh_shape(record@) && record@.len() == 38,
            verifies(password@, record@),
    {
        match hash {
            hash_type::Hash::SSHA => {
                let record = LdapSaltedSha1::hash(password);
                proof {
                    let salt = choose|salt: Seq<u8>| #[trigger]
                        is_record_under(record@, password@, salt) && salt.len() == 4;
                    lemma_record_admits(password@, password@, record@, salt);
                }
                record
            },
        }
    }

    /// The scheme that the leading tag of `stored` names.
    pub fn scheme(stored: &str) -> (scheme: Option<hash_type::Hash>)
        ensures
            scheme == scheme_of(stored@),
    {
        let chars = chars_of(stored);
        if chars.len() == 0 || chars[0] != '{' {
            return None;
        }
        let close = find_char_from(&chars, '}', 0);
        if close >= chars.len() {
            return None;
        }
        let tag = text_of(&chars, 1, close);
        hash_type::Hash::from_str(tag.as_str())
    }

    /// Checks `password` against the stored value `hash`.
    pub fn verify(password: &str, hash: &str) -> (admitted: bool)
        ensures
            admitted == verifies(password@, hash@),
    {
        match Password::scheme(hash) {
            Some(hash_type::Hash::SSHA) => LdapSaltedSha1::verify(password, hash),
            None => password.eq(hash),
        }
    }
}

/// A record of the salted SHA-1 scheme carries the tag of that scheme.
pub proof fn lemma_record_is_tagged(stored: Seq<char>)
    requires
        ssha_parts(stored) is Some,
    ensures
        scheme_of(stored) == Some(hash_type::Hash::SSHA),
{
    reveal_strlit("{SSHA}");
    reveal_strlit("SSHA");
    let tag = "{SSHA}"@;
    assert(stored.take(6) == tag);
    assert forall|j: int| 0 <= j < 6 implies stored[j] == tag[j] by {
        assert(stored.take(6)[j] == stored[j]);
    }
    crate::text::lemma_position_from(stored, '}', 0);
    assert(position(stored, '}') == 5) by {
        assert(stored[5] == '}');
        assert(stored[0] != '}' && stored[1] != '}' && stored[2] != '}' && stored[3] != '}'
            && stored[4] != '}');
    }
    assert(stored.subrange(1, 5) =~= "SSHA"@);
}

/// A record made from a password admits that password, and it admits
/// another password only if both have the same salted digest.
pub proof fn lemma_record_admits(
    password: Seq<char>,
    other: Seq<char>,
    stored: Seq<char>,
    salt: Seq<u8>,
)
    requires
        is_record_under(stored, password, salt),
    ensures
        verifies(password, stored),
        verifies(other, stored) <==> sha1_digest(encode_utf8(other) + salt) == sha1_digest(
            encode_utf8(password) + salt,
        ),
        other == password ==> verifies(other, stored),
{
    lemma_record_is_tagged(stored);
}

/// A stored value that does not begin with `{` admits exactly itself.
pub proof fn lemma_untagged_admits_itself(password: Seq<char>, stored: Seq<char>)
    requires
        stored.len() == 0 || stored[0] != '{',
    ensures
        verifies(password, stored) <==> password == stored,
{
}

} // verus!
