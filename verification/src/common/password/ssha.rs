//! The salted SHA-1 scheme of directory servers.
//!
//! A record is the tag `{SSHA}` followed by the base64 text of a 20-byte
//! SHA-1 digest and the salt that was hashed after the secret.

use vstd::prelude::*;
use vstd::string::StringExecFns;
use vstd::utf8::encode_utf8;
use base64::Engine;
use sha1::Digest;
use crate::text::{chars_of, same_bytes, stands_at, text_of};

verus! {

/// The SHA-1 digest of `data`, as `sha1::Sha1` computes it.
pub uninterp spec fn sha1_digest(data: Seq<u8>) -> Seq<u8>;

/// The padded base64 text of `data` in the standard alphabet, as
/// `base64::engine::general_purpose::STANDARD` encodes it.
pub uninterp spec fn base64_text(data: Seq<u8>) -> Seq<char>;

/// The bytes that `base64::engine::general_purpose::STANDARD` decodes `text`
/// to, or `None` where it rejects `text`.
pub uninterp spec fn base64_data(text: Seq<char>) -> Option<Seq<u8>>;

/// The number of bytes in a SHA-1 digest.
pub const DIGEST_LEN: usize = 20;

/// The number of salt bytes in a freshly made record.
pub const SALT_LEN: usize = 4;

/// Whether `c` is one of the 64 symbols of the standard base64 alphabet.
pub open spec fn is_symbol(c: char) -> bool {
    let u = c as u32;
    ||| 0x41 <= u <= 0x5a
    ||| 0x61 <= u <= 0x7a
    ||| 0x30 <= u <= 0x39
    ||| c == '+'
    ||| c == '/'
}

/// How many `=` end the base64 text of `len` bytes.
pub open spec fn padding_len(len: nat) -> nat {
    ((3 - len % 3) % 3) as nat
}

/// How many characters the base64 text of `len` bytes has.
pub open spec fn encoded_len(len: nat) -> nat {
    4 * ((len + 2) / 3)
}

/// The number of alphabet symbols that `p` has from `from` on before its
/// first other character.
pub open spec fn symbols_from(p: Seq<char>, from: int) -> int
    decreases p.len() - from,
{
    if from < 0 || from >= p.len() || !is_symbol(p[from]) {
        0
    } else {
        1 + symbols_from(p, from + 1)
    }
}

/// A payload is at least 32 alphabet symbols followed by at most two `=`
/// and nothing else.
pub open spec fn well_formed_payload(p: Seq<char>) -> bool {
    let n = symbols_from(p, 0);
    &&& n >= 32
    &&& p.len() - n <= 2
    &&& forall|i: int| n <= i < p.len() ==> p[i] == '='
}

/// The payload of a record: what follows the tag `{SSHA}`, where that is
/// well formed.
pub open spec fn ssha_payload(stored: Seq<char>) -> Option<Seq<char>> {
    if stored.len() >= 6 && stored.take(6) == "{SSHA}"@ && well_formed_payload(stored.skip(6)) {
        Some(stored.skip(6))
    } else {
        None
    }
}

/// The digest and the salt that a record holds: the first 20 bytes of its
/// decoded payload and the bytes after them. `None` for anything that is not
/// a record of this scheme.
pub open spec fn ssha_parts(stored: Seq<char>) -> Option<(Seq<u8>, Seq<u8>)> {
    match ssha_payload(stored) {
        Some(p) => match base64_data(p) {
            Some(d) => if d.len() >= 20 {
                Some((d.take(20), d.skip(20)))
            } else {
                None
            },
            None => None,
        },
        None => None,
    }
}

/// The record of `secret` under `salt`.
pub open spec fn ssha_record(secret: Seq<u8>, salt: Seq<u8>) -> Seq<char> {
    "{SSHA}"@ + base64_text(sha1_digest(secret + salt) + salt)
}

/// Whether `stored` admits `secret`: a record admits the secrets whose
/// salted digest it holds, and anything else admits only itself.
pub open spec fn ssha_verifies(secret: Seq<char>, stored: Seq<char>) -> bool {
    match ssha_parts(stored) {
        Some((digest, salt)) => sha1_digest(encode_utf8(secret) + salt) == digest,
        None => secret == stored,
    }
}

/// The shape of a record under a salt of four bytes: the six characters of
/// the tag and then 32 symbols of the alphabet, 38 characters in all and no
/// padding.
pub open spec fn has_fresh_shape(record: Seq<char>) -> bool {
    &&& record.len() == 38
    &&& record.take(6) == "{SSHA}"@
    &&& forall|i: int| 6 <= i < 38 ==> is_symbol(#[trigger] record[i])
}

/// How many characters the record under a salt of `salt_len` bytes has.
pub open spec fn record_len(salt_len: nat) -> nat {
    6 + encoded_len(20 + salt_len)
}

/// Whether `stored` is the record of `secret` under a salt of four bytes,
/// and reads back as the digest of `secret` with that salt.
pub open spec fn is_fresh_record(stored: Seq<char>, secret: Seq<char>) -> bool {
    exists|salt: Seq<u8>| #[trigger] is_record_under(stored, secret, salt) && salt.len() == 4
}

/// Whether `stored` is the record of `secret` under `salt` and reads back as
/// the digest of `secret` with that salt.
pub open spec fn is_record_under(stored: Seq<char>, secret: Seq<char>, salt: Seq<u8>) -> bool {
    &&& stored == ssha_record(encode_utf8(secret), salt)
    &&& ssha_parts(stored) == Some((sha1_digest(encode_utf8(secret) + salt), salt))
}

/// `sha1::Sha1::digest`: the SHA-1 digest of `data`, which has 20 bytes.
#[verifier::external_body]
fn sha1(data: &Vec<u8>) -> (digest: Vec<u8>)
    ensures
        digest@ == sha1_digest(data@),
        digest@.len() == 20,
{
    sha1::Sha1::digest(data).to_vec()
}

/// `rand::random::<u8>`: a byte from the thread's random generator. Nothing
/// is known of it.
#[verifier::external_body]
fn random_byte() -> u8 {
    rand::random::<u8>()
}

/// `Engine::encode` of the standard engine: the padded base64 text of
/// `data`. It has four characters for every three bytes begun, ends in as
/// many `=` as bytes are missing from the last three, holds alphabet symbols
/// before them, and decodes to `data` again.
#[verifier::external_body]
fn base64_encode(data: &Vec<u8>) -> (text: String)
    requires
        encoded_len(data@.len()) <= usize::MAX,
    ensures
        text@ == base64_text(data@),
        text@.len() == encoded_len(data@.len()),
        forall|i: int| 0 <= i < text@.len() - padding_len(data@.len()) ==> is_symbol(#[trigger] text@[i]),
        forall|i: int| text@.len() - padding_len(data@.len()) <= i < text@.len() ==> #[trigger] text@[i] == '=',
        base64_data(text@) == Some(data@),
{
    base64::engine::general_purpose::STANDARD.encode(data)
}

/// `Engine::decode` of the standard engine: the bytes that `text` stands
/// for, or `None` where the engine rejects it.
#[verifier::external_body]
fn base64_decode(text: &str) -> (data: Option<Vec<u8>>)
    ensures
        match data {
            Some(d) => base64_data(text@) == Some(d@),
            None => base64_data(text@) is None,
        },
{
    base64::engine::general_purpose::STANDARD.decode(text).ok()
}

/// Whether `c` is one of the 64 symbols of the standard base64 alphabet.
pub fn symbol(c: char) -> (r: bool)
    ensures
        r == is_symbol(c),
{
    let u: u32 = c as u32;
    (0x41 <= u && u <= 0x5a) || (0x61 <= u && u <= 0x7a) || (0x30 <= u && u <= 0x39) || c == '+'
        || c == '/'
}

/// Whether the characters of `v` from `from` on are a well-formed payload.
pub fn payload_is_well_formed(v: &Vec<char>, from: usize) -> (r: bool)
    requires
        from <= v@.len(),
    ensures
        r == well_formed_payload(v@.skip(from as int)),
{
    let ghost p = v@.skip(from as int);
    let mut i: usize = from;
    while i < v.len() && symbol(v[i])
        invariant
            from <= i <= v@.len(),
            p == v@.skip(from as int),
            symbols_from(p, 0) == (i - from) + symbols_from(p, i - from),
        decreases v@.len() - i,
    {
        assert(p[i - from] == v@[i as int]);
        i += 1;
    }
    let symbols: usize = i - from;
    assert(symbols_from(p, 0) == symbols) by {
        if i < v@.len() {
            assert(p[i - from] == v@[i as int]);
        }
    }
    assert(p.len() == v@.len() - from);
    if symbols < 32 || v.len() - i > 2 {
        return false;
    }
    while i < v.len()
        invariant
            from + symbols <= i <= v@.len(),
            p == v@.skip(from as int),
            symbols_from(p, 0) == symbols,
            symbols >= 32,
            p.len() - symbols <= 2,
            forall|j: int| symbols <= j < i - from ==> p[j] == '=',
        decreases v@.len() - i,
    {
        if v[i] != '=' {
            assert(p[i - from] == v@[i as int]);
            return false;
        }
        i += 1;
    }
    true
}

/// The salted SHA-1 scheme.
pub struct LdapSaltedSha1;

impl LdapSaltedSha1 {
    /// Four random bytes.
    pub fn generate_salt() -> (salt: Vec<u8>)
        ensures
            salt@.len() == SALT_LEN,
    {
        let mut salt: Vec<u8> = Vec::new();
        let mut i: usize = 0;
        while i < SALT_LEN
            invariant
                i <= SALT_LEN,
                salt@.len() == i,
            decreases SALT_LEN - i,
        {
            salt.push(random_byte());
            i += 1;
        }
        salt
    }

    /// The SHA-1 digest of `secret` followed by `salt`.
    pub fn calc_checksum(secret: &[u8], salt: &[u8]) -> (checksum: Vec<u8>)
        ensures
            checksum@ == sha1_digest(secret@ + salt@),
            checksum@.len() == DIGEST_LEN,
    {
        let mut data: Vec<u8> = Vec::new();
        let mut i: usize = 0;
        while i < secret.len()
            invariant
                i <= secret@.len(),
                data@ == secret@.take(i as int),
            decreases secret@.len() - i,
        {
            data.push(secret[i]);
            i += 1;
        }
        let mut k: usize = 0;
        while k < salt.len()
            invariant
                k <= salt@.len(),
                data@ == secret@ + salt@.take(k as int),
            decreases salt@.len() - k,
        {
            data.push(salt[k]);
            k += 1;
        }
        assert(salt@.take(salt@.len() as int) == salt@);
        sha1(&data)
    }

    /// Records `secret` under `salt`.
    pub fn hash_with_salt(secret: &str, salt: &[u8]) -> (record: String)
        requires
            encoded_len(DIGEST_LEN as nat + salt@.len()) <= usize::MAX,
        ensures
            record@ == ssha_record(encode_utf8(secret@), salt@),
            record@.len() == record_len(salt@.len()),
            salt@.len() >= SALT_LEN ==> is_record_under(record@, secret@, salt@),
            salt@.len() == SALT_LEN ==> has_fresh_shape(record@),
    {
        let checksum = LdapSaltedSha1::calc_checksum(secret.as_bytes(), salt);
        let mut data = checksum;
        let ghost digest = data@;
        let mut k: usize = 0;
        while k < salt.len()
            invariant
                k <= salt@.len(),
                data@ == digest + salt@.take(k as int),
            decreases salt@.len() - k,
        {
            data.push(salt[k]);
            k += 1;
        }
        assert(salt@.take(salt@.len() as int) == salt@);
        let encoded = base64_encode(&data);
        let mut record = "{SSHA}".to_owned();
        let ghost tag = record@;
        proof {
            reveal_strlit("{SSHA}");
        }
        record.append(encoded.as_str());
        proof {
            assert(record@.take(6) =~= tag);
            if salt@.len() == SALT_LEN {
                assert forall|i: int| 6 <= i < 38 implies is_symbol(#[trigger] record@[i]) by {
                    assert(record@[i] == encoded@[i - 6]);
                }
            }
            if salt@.len() >= SALT_LEN {
                let p = encoded@;
                let symbols = p.len() - padding_len(data@.len());
                assert(record@.take(6) =~= tag);
                assert(record@.skip(6) =~= p);
                assert(32 <= symbols <= p.len() && p.len() - symbols <= 2);
                lemma_symbols_until(p, 0, symbols);
                assert(well_formed_payload(p));
                assert((digest + salt@).take(20) =~= digest);
                assert((digest + salt@).skip(20) =~= salt@);
            }
        }
        record
    }

    /// Records `secret` under a fresh random salt of four bytes. The record
    /// has 38 characters: the tag and 32 symbols, without padding.
    pub fn hash(secret: &str) -> (record: String)
        ensures
            is_fresh_record(record@, secret@),
            has_fresh_shape(record@),
            record@.len() == 38,
    {
        let salt = LdapSaltedSha1::generate_salt();
        let record = LdapSaltedSha1::hash_with_salt(secret, salt.as_slice());
        assert(is_record_under(record@, secret@, salt@) && salt@.len() == 4);
        record
    }

    /// Checks `secret` against `hash`. A record of this scheme admits the
    /// secrets whose salted digest it holds; anything that is not such a
    /// record is taken as a plain password and admits only itself.
    pub fn verify(secret: &str, hash: &str) -> (admitted: bool)
        ensures
            admitted == ssha_verifies(secret@, hash@),
    {
        let chars = chars_of(hash);
        let tag = chars_of("{SSHA}");
        proof {
            reveal_strlit("{SSHA}");
        }
        if chars.len() < 6 || !stands_at(&chars, &tag, 0) {
            assert(chars@.len() >= 6 ==> chars@.take(6) =~= chars@.subrange(0, tag@.len() as int));
            return secret.eq(hash);
        }
        assert(chars@.take(6) =~= chars@.subrange(0, tag@.len() as int));
        if !payload_is_well_formed(&chars, 6) {
            return secret.eq(hash);
        }
        let payload = text_of(&chars, 6, chars.len());
        assert(payload@ =~= chars@.skip(6));
        match base64_decode(payload.as_str()) {
            None => secret.eq(hash),
            Some(data) => {
                if data.len() < DIGEST_LEN {
                    return secret.eq(hash);
                }
                let mut digest: Vec<u8> = Vec::new();
                let mut salt: Vec<u8> = Vec::new();
                let mut i: usize = 0;
                while i < data.len()
                    invariant
                        i <= data@.len(),
                        data@.len() >= DIGEST_LEN,
                        digest@ == data@.take(if i < DIGEST_LEN { i as int } else { DIGEST_LEN as int }),
                        salt@ == data@.subrange(DIGEST_LEN as int, if i < DIGEST_LEN { DIGEST_LEN as int } else { i as int }),
                    decreases data@.len() - i,
                {
                    if i < DIGEST_LEN {
                        digest.push(data[i]);
                    } else {
                        salt.push(data[i]);
                    }
                    i += 1;
                }
                assert(salt@ =~= data@.skip(20));
                let checksum = LdapSaltedSha1::calc_checksum(secret.as_bytes(), salt.as_slice());
                same_bytes(&checksum, &digest)
            },
        }
    }
}

/// Where the characters from `from` up to `until` are alphabet symbols and
/// the text ends there or goes on with `=`, `symbols_from` counts just them.
pub proof fn lemma_symbols_until(p: Seq<char>, from: int, until: int)
    requires
        0 <= from <= until <= p.len(),
        forall|i: int| from <= i < until ==> is_symbol(#[trigger] p[i]),
        until < p.len() ==> p[until] == '=',
    ensures
        symbols_from(p, from) == until - from,
    decreases until - from,
{
    if from < until {
        lemma_symbols_until(p, from + 1, until);
    }
}

} // verus!
