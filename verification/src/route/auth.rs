//! Tokens and the guard at the door.
//!
//! A token carries the uid of a user, the second at which it was issued and
//! the second at which it expires, signed with the secret of the settings.
//! The guard lets a request in where its header carries a token that opens
//! under the secret, has not expired, and names a user of the cache.

use vstd::prelude::*;
use vstd::utf8::encode_utf8;
use crate::common::config::Config;
use crate::common::password::password::verifies;
use crate::common::user::user::{User, UserView};
use crate::common::user::users::Users;
use crate::text::{chars_of, text_of};

verus! {

/// What a token says.
#[derive(Debug)]
pub struct Cliams {
    /// The second after which the token is no longer taken.
    pub exp: usize,
    /// The second at which the token was issued.
    pub iat: usize,
    /// The uid of the user that the token was issued to.
    pub username: String,
}

pub struct CliamsView {
    pub exp: usize,
    pub iat: usize,
    pub username: Seq<char>,
}

impl View for Cliams {
    type V = CliamsView;

    open spec fn view(&self) -> CliamsView {
        CliamsView { exp: self.exp, iat: self.iat, username: self.username@ }
    }
}

/// Why the guard turned a request away, with the status that says so.
#[derive(Debug)]
pub struct AuthError {
    pub message: String,
    pub status_code: u16,
}

pub struct AuthErrorView {
    pub message: Seq<char>,
    pub status_code: u16,
}

impl View for AuthError {
    type V = AuthErrorView;

    open spec fn view(&self) -> AuthErrorView {
        AuthErrorView { message: self.message@, status_code: self.status_code }
    }
}

/// The name and the password that a caller signs in with.
pub struct SignInData {
    pub username: String,
    pub password: String,
}

/// What a caller gets for signing in.
#[derive(Debug)]
pub struct AuthBody {
    pub access_token: String,
    pub token_type: String,
}

/// The authorization header of a request, as far as it can be read.
pub enum AuthHeader {
    /// The request has no such header.
    Absent,
    /// The header is there and is no text.
    Unreadable,
    /// The header's text.
    Text(String),
}

pub enum AuthHeaderView {
    Absent,
    Unreadable,
    Text(Seq<char>),
}

impl View for AuthHeader {
    type V = AuthHeaderView;

    open spec fn view(&self) -> AuthHeaderView {
        match self {
            AuthHeader::Absent => AuthHeaderView::Absent,
            AuthHeader::Unreadable => AuthHeaderView::Unreadable,
            AuthHeader::Text(text) => AuthHeaderView::Text(text@),
        }
    }
}

/// The request may not be served at all.
pub const FORBIDDEN: u16 = 403;

/// The caller is not known, or not by this token.
pub const UNAUTHORIZED: u16 = 401;

/// The token was good once and has expired.
pub const LOGIN_TIMEOUT: u16 = 440;

/// The library could not do its own part.
pub const INTERNAL_SERVER_ERROR: u16 = 500;

/// The token that `jsonwebtoken::encode` makes of the claims under the
/// secret, with the default header.
pub uninterp spec fn jwt_signed(secret: Seq<u8>, claims: CliamsView) -> Seq<char>;

/// The claims that `jsonwebtoken::decode` reads from a token under the
/// secret where it checks the signature and not the clock, or `None` where
/// it does not take the token.
pub uninterp spec fn jwt_opened(secret: Seq<u8>, token: Seq<char>) -> Option<CliamsView>;

/// `chrono::Utc::now().timestamp()`: the seconds since the first second of
/// 1970, by the clock of the machine. Nothing is known of it. The call does
/// not return where the clock stands before 1970.
#[verifier::external_body]
fn unix_now() -> i64 {
    chrono::Utc::now().timestamp()
}

/// `jsonwebtoken::encode` with the default header and the secret as the
/// key: the signed token of the three claims, which opens again under the
/// same secret to the same claims. With a secret as the key and the default
/// header no step of the call can fail, so a token always comes out.
#[verifier::external_body]
fn sign(claims: &Cliams, secret: &[u8]) -> (token: Option<String>)
    ensures
        token is Some,
        match token {
            Some(t) => t@ == jwt_signed(secret@, claims@) && jwt_opened(secret@, t@) == Some(
                claims@,
            ),
            None => true,
        },
{
    let mut body = serde_json::Map::new();
    body.insert("exp".to_string(), serde_json::Value::from(claims.exp));
    body.insert("iat".to_string(), serde_json::Value::from(claims.iat));
    body.insert("username".to_string(), serde_json::Value::from(claims.username.as_str()));
    let key = jsonwebtoken::EncodingKey::from_secret(secret);
    jsonwebtoken::encode(&jsonwebtoken::Header::default(), &body, &key).ok()
}

/// `jsonwebtoken::decode` with the secret as the key and the default
/// validation but for the clock: the claims of a token whose signature is
/// good and which holds the three claims, or `None`. The call looks at no
/// clock, so that its result goes by the token and the secret alone; whether
/// a token has expired is decided by the functions that call this one.
#[verifier::external_body]
fn open(token: &str, secret: &[u8]) -> (claims: Option<Cliams>)
    ensures
        match claims {
            Some(c) => jwt_opened(secret@, token@) == Some(c@),
            None => jwt_opened(secret@, token@) is None,
        },
{
    let mut validation = jsonwebtoken::Validation::default();
    validation.validate_exp = false;
    let key = jsonwebtoken::DecodingKey::from_secret(secret);
    let body = jsonwebtoken::decode::<serde_json::Value>(token, &key, &validation).ok()?.claims;
    let exp = usize::try_from(body.get("exp")?.as_u64()?).ok()?;
    let iat = usize::try_from(body.get("iat")?.as_u64()?).ok()?;
    let username = body.get("username")?.as_str()?.to_string();
    Some(Cliams { exp, iat, username })
}

/// The second at which a token issued at `now` for `maxage` minutes expires.
pub open spec fn expiry(now: int, maxage: int) -> int {
    now + 60 * maxage
}

/// Whether a token can be issued at `now` for `maxage` minutes: both the
/// second of issue and the second of expiry can be written into it.
pub open spec fn issuable(now: int, maxage: int) -> bool {
    0 <= now <= usize::MAX && 0 <= expiry(now, maxage) <= usize::MAX
}

/// The claims of a token issued to `username` at `now` for `maxage`
/// minutes.
pub open spec fn claims_for(username: Seq<char>, maxage: int, now: int) -> CliamsView {
    CliamsView { exp: expiry(now, maxage) as usize, iat: now as usize, username: username }
}

/// The claims of a token issued to `username` at the second `now` for
/// `maxage` minutes, where such a token can be issued.
pub fn claims_at(username: String, maxage: i32, now: i64) -> (claims: Option<Cliams>)
    ensures
        match claims {
            Some(c) => issuable(now as int, maxage as int) && c@ == claims_for(
                username@,
                maxage as int,
                now as int,
            ),
            None => !issuable(now as int, maxage as int),
        },
{
    let exp: i128 = now as i128 + 60 * (maxage as i128);
    if now < 0 || exp < 0 || exp > usize::MAX as i128 || now as i128 > usize::MAX as i128 {
        None
    } else {
        Some(Cliams { exp: exp as usize, iat: now as usize, username })
    }
}

/// What is handed out for a token that was or was not made.
pub fn token_result(signed: Option<String>) -> (result: Result<String, u16>)
    ensures
        match signed {
            Some(token) => result == Ok::<String, u16>(token),
            None => result == Err::<String, u16>(INTERNAL_SERVER_ERROR),
        },
{
    match signed {
        Some(token) => Ok(token),
        None => Err(INTERNAL_SERVER_ERROR),
    }
}

/// What issuing a token to `username` at the second `now` gives: where the
/// two seconds can be written, the token signed under the secret, which
/// opens again to its claims; and else the status of a failure of the
/// library.
pub open spec fn issued(
    result: Result<String, u16>,
    secret: Seq<u8>,
    username: Seq<char>,
    maxage: int,
    now: int,
) -> bool {
    match result {
        Ok(token) => {
            &&& issuable(now, maxage)
            &&& token@ == jwt_signed(secret, claims_for(username, maxage, now))
            &&& jwt_opened(secret, token@) == Some(claims_for(username, maxage, now))
        },
        Err(status) => status == INTERNAL_SERVER_ERROR && !issuable(now, maxage),
    }
}

/// Issues a token to `username` at the second `now`, for the lifetime of
/// the settings and under their secret. It fails only where the second of
/// issue or of expiry cannot be written into a token.
pub fn encode_jwt_at(username: String, config: &Config, now: i64) -> (result: Result<String, u16>)
    ensures
        issued(
            result,
            encode_utf8(config@.jwt_secret),
            username@,
            config@.jwt_maxage as int,
            now as int,
        ),
        result is Ok <==> issuable(now as int, config@.jwt_maxage as int),
{
    match claims_at(username, config.jwt_maxage, now) {
        Some(claims) => token_result(sign(&claims, config.jwt_secret.as_str().as_bytes())),
        None => Err(INTERNAL_SERVER_ERROR),
    }
}

/// Issues a token to `username` now, by the clock of the machine: the token
/// is the one issued at some second.
pub fn encode_jwt(username: String, config: &Config) -> (result: Result<String, u16>)
    ensures
        exists|now: int| #[trigger]
            issued(
                result,
                encode_utf8(config@.jwt_secret),
                username@,
                config@.jwt_maxage as int,
                now,
            ),
{
    let now = unix_now();
    let result = encode_jwt_at(username, config, now);
    assert(issued(
        result,
        encode_utf8(config@.jwt_secret),
        username@,
        config@.jwt_maxage as int,
        now as int,
    ));
    result
}

/// The claims that a token is taken for at the second `now`: those that it
/// opens to, unless their expiry lies before `now`.
pub open spec fn valid_claims(opened: Option<CliamsView>, now: int) -> Option<CliamsView> {
    match opened {
        Some(claims) => if claims.exp < now {
            None
        } else {
            Some(claims)
        },
        None => None,
    }
}

/// What opening a token at the second `now` gives.
pub open spec fn decoded(
    result: Result<Cliams, u16>,
    opened: Option<CliamsView>,
    now: int,
) -> bool {
    match result {
        Ok(claims) => valid_claims(opened, now) == Some(claims@),
        Err(status) => status == INTERNAL_SERVER_ERROR && valid_claims(opened, now) is None,
    }
}

/// Opens a token under the secret of the settings at the second `now`: its
/// claims where its signature is good and its expiry does not lie before
/// `now`, and else the status of a failure of the library. The claims of an
/// expired token are never handed out.
pub fn decode_jwt_at(jwt: String, config: &Config, now: i64) -> (result: Result<Cliams, u16>)
    ensures
        decoded(result, jwt_opened(encode_utf8(config@.jwt_secret), jwt@), now as int),
{
    match open(jwt.as_str(), config.jwt_secret.as_str().as_bytes()) {
        Some(claims) => {
            if (claims.exp as i128) < now as i128 {
                Err(INTERNAL_SERVER_ERROR)
            } else {
                Ok(claims)
            }
        },
        None => Err(INTERNAL_SERVER_ERROR),
    }
}

/// Opens a token under the secret of the settings now, by the clock of the
/// machine. A token that does not open under the secret fails whatever the
/// clock says, and claims that come out are those that the token opens to.
pub fn decode_jwt(jwt: String, config: &Config) -> (result: Result<Cliams, u16>)
    ensures
        exists|now: int| #[trigger]
            decoded(result, jwt_opened(encode_utf8(config@.jwt_secret), jwt@), now),
        result matches Ok(claims) ==> jwt_opened(encode_utf8(config@.jwt_secret), jwt@) == Some(
            claims@,
        ),
        jwt_opened(encode_utf8(config@.jwt_secret), jwt@) is None ==> result == Err::<
            Cliams,
            u16,
        >(INTERNAL_SERVER_ERROR),
{
    let now = unix_now();
    let result = decode_jwt_at(jwt, config, now);
    assert(decoded(result, jwt_opened(encode_utf8(config@.jwt_secret), jwt@), now as int));
    result
}

/// Whether `c` is white space.
pub open spec fn is_space(c: char) -> bool {
    let u = c as u32;
    ||| 0x09 <= u <= 0x0d
    ||| u == 0x20
    ||| u == 0x85
    ||| u == 0xa0
    ||| u == 0x1680
    ||| 0x2000 <= u <= 0x200a
    ||| u == 0x2028
    ||| u == 0x2029
    ||| u == 0x202f
    ||| u == 0x205f
    ||| u == 0x3000
}

/// The first position at or after `from` that holds white space
/// (`spaces` set) or something else (`spaces` unset); the length where
/// there is none.
pub open spec fn run_end(s: Seq<char>, from: int, spaces: bool) -> int
    decreases s.len() - from,
{
    if from < 0 || from >= s.len() {
        s.len() as int
    } else if is_space(s[from]) == spaces {
        from
    } else {
        run_end(s, from + 1, spaces)
    }
}

/// The first position at or after `from` that holds no white space.
pub open spec fn word_start(s: Seq<char>, from: int) -> int {
    run_end(s, from, false)
}

/// The first position at or after `from` that holds white space.
pub open spec fn word_end(s: Seq<char>, from: int) -> int {
    run_end(s, from, true)
}

/// The first word at or after `from`: the run of characters that are no
/// white space.
pub open spec fn word_at(s: Seq<char>, from: int) -> Option<Seq<char>> {
    let start = word_start(s, from);
    if start >= s.len() {
        None
    } else {
        Some(s.subrange(start, word_end(s, start)))
    }
}

/// The token that a header carries: its second word, where the first is
/// `Bearer`.
pub open spec fn bearer_token(header: Seq<char>) -> Option<Seq<char>> {
    if word_at(header, 0) == Some("Bearer"@) {
        word_at(header, word_end(header, word_start(header, 0)))
    } else {
        None
    }
}

/// A run ends at or after its start and within the text.
pub proof fn lemma_run_end(s: Seq<char>, from: int, spaces: bool)
    requires
        0 <= from <= s.len(),
    ensures
        from <= run_end(s, from, spaces) <= s.len(),
        run_end(s, from, spaces) < s.len() ==> is_space(s[run_end(s, from, spaces)]) == spaces,
        forall|j: int| from <= j < run_end(s, from, spaces) ==> is_space(s[j]) != spaces,
    decreases s.len() - from,
{
    if from < s.len() && is_space(s[from]) != spaces {
        lemma_run_end(s, from + 1, spaces);
    }
}

/// Whether `c` is white space.
pub fn space(c: char) -> (r: bool)
    ensures
        r == is_space(c),
{
    let u: u32 = c as u32;
    (0x09 <= u && u <= 0x0d) || u == 0x20 || u == 0x85 || u == 0xa0 || u == 0x1680 || (0x2000 <= u
        && u <= 0x200a) || u == 0x2028 || u == 0x2029 || u == 0x202f || u == 0x205f || u == 0x3000
}

/// Finds the end of a run.
fn find_run_end(v: &Vec<char>, from: usize, spaces: bool) -> (at: usize)
    requires
        from <= v@.len(),
    ensures
        at == run_end(v@, from as int, spaces),
        from <= at <= v@.len(),
{
    proof {
        lemma_run_end(v@, from as int, spaces);
    }
    let mut i: usize = from;
    while i < v.len() && space(v[i]) != spaces
        invariant
            from <= i <= v@.len(),
            run_end(v@, from as int, spaces) == run_end(v@, i as int, spaces),
        decreases v@.len() - i,
    {
        i += 1;
    }
    i
}

/// The word at or after `from`, and where it ends.
fn read_word(v: &Vec<char>, from: usize) -> (word: Option<(String, usize)>)
    requires
        from <= v@.len(),
    ensures
        match word {
            Some((text, end)) => word_at(v@, from as int) == Some(text@) && end == word_end(
                v@,
                word_start(v@, from as int),
            ) && end <= v@.len(),
            None => word_at(v@, from as int) is None,
        },
{
    let start = find_run_end(v, from, false);
    if start >= v.len() {
        return None;
    }
    let end = find_run_end(v, start, true);
    Some((text_of(v, start, end), end))
}

/// What is said of a request without the header.
pub open spec fn no_header() -> AuthErrorView {
    AuthErrorView { message: "Please add the JWT token to the header"@, status_code: FORBIDDEN }
}

/// What is said of a header that is no text.
pub open spec fn unreadable_header() -> AuthErrorView {
    AuthErrorView { message: "Empty header is not allowed"@, status_code: FORBIDDEN }
}

/// What is said of a header that carries no bearer token.
pub open spec fn invalid_token() -> AuthErrorView {
    AuthErrorView { message: "Invalid token"@, status_code: FORBIDDEN }
}

/// What is said of a token that does not open under the secret.
pub open spec fn undecodable_token() -> AuthErrorView {
    AuthErrorView { message: "Unable to decode token"@, status_code: UNAUTHORIZED }
}

/// What is said of a token that has expired.
pub open spec fn expired_token() -> AuthErrorView {
    AuthErrorView { message: "Token has expired"@, status_code: LOGIN_TIMEOUT }
}

/// What is said of a token whose user the cache does not have.
pub open spec fn unknown_user() -> AuthErrorView {
    AuthErrorView { message: "You are not an authorized user"@, status_code: UNAUTHORIZED }
}

/// What the guard answers to a header before it looks at any signature: the
/// token that the header carries, or why the header will not do.
pub open spec fn header_token(header: AuthHeaderView) -> Result<Seq<char>, AuthErrorView> {
    match header {
        AuthHeaderView::Absent => Err(no_header()),
        AuthHeaderView::Unreadable => Err(unreadable_header()),
        AuthHeaderView::Text(text) => match bearer_token(text) {
            Some(token) => Ok(token),
            None => Err(invalid_token()),
        },
    }
}

/// What the guard answers to the claims of a token that was or was not
/// opened, at the second `now`: it turns away a token that did not open, one
/// whose expiry lies before `now`, and one whose user the cache does not
/// have, and lets in the others as the user that the token names.
pub open spec fn admitted(
    opened: Option<CliamsView>,
    cache: Map<Seq<char>, UserView>,
    now: int,
) -> Result<UserView, AuthErrorView> {
    match opened {
        None => Err(undecodable_token()),
        Some(claims) => if claims.exp < now {
            Err(expired_token())
        } else if !cache.contains_key(claims.username) {
            Err(unknown_user())
        } else {
            Ok(cache[claims.username])
        },
    }
}

/// What the guard answers to a request at the second `now`.
pub open spec fn guard(
    header: AuthHeaderView,
    secret: Seq<u8>,
    cache: Map<Seq<char>, UserView>,
    now: int,
) -> Result<UserView, AuthErrorView> {
    match header_token(header) {
        Err(error) => Err(error),
        Ok(token) => admitted(jwt_opened(secret, token), cache, now),
    }
}

/// What an answer of the guard holds.
pub open spec fn answer(result: Result<User, AuthError>) -> Result<UserView, AuthErrorView> {
    match result {
        Ok(user) => Ok(user@),
        Err(error) => Err(error@),
    }
}

/// A rejection with a message and a status.
fn reject(message: &str, status_code: u16) -> (error: AuthError)
    ensures
        error@ == (AuthErrorView { message: message@, status_code: status_code }),
{
    AuthError { message: message.to_owned(), status_code }
}

/// Reads the token off a header.
pub fn token_of(header: &AuthHeader) -> (token: Result<String, AuthError>)
    ensures
        match token {
            Ok(text) => header_token(header@) == Ok::<Seq<char>, AuthErrorView>(text@),
            Err(error) => header_token(header@) == Err::<Seq<char>, AuthErrorView>(error@),
        },
{
    match header {
        AuthHeader::Absent => Err(reject("Please add the JWT token to the header", FORBIDDEN)),
        AuthHeader::Unreadable => Err(reject("Empty header is not allowed", FORBIDDEN)),
        AuthHeader::Text(text) => {
            let chars = chars_of(text.as_str());
            match read_word(&chars, 0) {
                None => Err(reject("Invalid token", FORBIDDEN)),
                Some((scheme, end)) => {
                    if !scheme.as_str().eq("Bearer") {
                        return Err(reject("Invalid token", FORBIDDEN));
                    }
                    match read_word(&chars, end) {
                        Some((token, _)) => Ok(token),
                        None => Err(reject("Invalid token", FORBIDDEN)),
                    }
                },
            }
        },
    }
}

/// Decides on the claims of a token that was or was not opened.
pub fn let_in(opened: Option<Cliams>, users: &Users, now: i64) -> (result: Result<User, AuthError>)
    ensures
        answer(result) == admitted(
            match opened {
                Some(claims) => Some(claims@),
                None => None,
            },
            users@,
            now as int,
        ),
        result matches Ok(user) ==> opened matches Some(claims) && user@.uid == claims@.username,
{
    match opened {
        None => Err(reject("Unable to decode token", UNAUTHORIZED)),
        Some(claims) => {
            if (claims.exp as i128) < now as i128 {
                return Err(reject("Token has expired", LOGIN_TIMEOUT));
            }
            match users.user(claims.username.as_str()) {
                Some(user) => Ok(user),
                None => Err(reject("You are not an authorized user", UNAUTHORIZED)),
            }
        },
    }
}

/// Decides at the second `now` whether a request is let in, and as whom.
pub fn authorize_at(header: &AuthHeader, config: &Config, users: &Users, now: i64) -> (result:
    Result<User, AuthError>)
    ensures
        answer(result) == guard(header@, encode_utf8(config@.jwt_secret), users@, now as int),
{
    match token_of(header) {
        Err(error) => Err(error),
        Ok(token) => {
            let opened = open(token.as_str(), config.jwt_secret.as_str().as_bytes());
            let_in(opened, users, now)
        },
    }
}

/// Decides now, by the clock of the machine, whether a request is let in.
/// A header that will not do is turned away whatever the clock says.
pub fn authorize(header: &AuthHeader, config: &Config, users: &Users) -> (result: Result<
    User,
    AuthError,
>)
    ensures
        exists|now: int| #[trigger]
            guard(header@, encode_utf8(config@.jwt_secret), users@, now) == answer(result),
        header_token(header@) matches Err(error) ==> answer(result) == Err::<
            UserView,
            AuthErrorView,
        >(error),
{
    let now = unix_now();
    let result = authorize_at(header, config, users, now);
    assert(guard(header@, encode_utf8(config@.jwt_secret), users@, now as int) == answer(result));
    result
}

/// Whether the name and the password are good: the cache has a user of
/// that name and its stored password admits the password.
pub open spec fn signs_in(cache: Map<Seq<char>, UserView>, name: Seq<char>, password: Seq<char>) -> bool {
    cache.contains_key(name) && verifies(password, cache[name].password)
}

/// What signing in at the second `now` gives. A name that the cache does not
/// have and a password that is wrong give the same answer. Where both are
/// good the caller gets a bearer token issued at `now` to the uid of its
/// user, unless no token can be issued at that second.
pub open spec fn signed_in(
    result: Result<AuthBody, u16>,
    cache: Map<Seq<char>, UserView>,
    secret: Seq<u8>,
    maxage: int,
    name: Seq<char>,
    password: Seq<char>,
    now: int,
) -> bool {
    if !signs_in(cache, name, password) {
        result == Err::<AuthBody, u16>(UNAUTHORIZED)
    } else {
        match result {
            Ok(body) => {
                &&& body.token_type@ == "Bearer"@
                &&& issued(
                    Ok::<String, u16>(body.access_token),
                    secret,
                    cache[name].uid,
                    maxage,
                    now,
                )
            },
            Err(status) => status == INTERNAL_SERVER_ERROR && !issuable(now, maxage),
        }
    }
}

/// Signs a caller in at the second `now`.
pub fn sign_in_at(users: &Users, config: &Config, data: SignInData, now: i64) -> (result:
    Result<AuthBody, u16>)
    ensures
        signed_in(
            result,
            users@,
            encode_utf8(config@.jwt_secret),
            config@.jwt_maxage as int,
            data.username@,
            data.password@,
            now as int,
        ),
        result is Ok <==> signs_in(users@, data.username@, data.password@) && issuable(
            now as int,
            config@.jwt_maxage as int,
        ),
{
    let user = match users.user(data.username.as_str()) {
        Some(user) => user,
        None => return Err(UNAUTHORIZED),
    };
    if !user.verify_password(data.password.as_str()) {
        return Err(UNAUTHORIZED);
    }
    match encode_jwt_at(user.uid, config, now) {
        Ok(token) => Ok(AuthBody { access_token: token, token_type: "Bearer".to_owned() }),
        Err(_) => Err(INTERNAL_SERVER_ERROR),
    }
}

/// Signs a caller in now, by the clock of the machine: the answer is the one
/// of some second. An unknown name and a wrong password give the same
/// answer whatever the clock says.
pub fn sign_in(users: &Users, config: &Config, data: SignInData) -> (result: Result<AuthBody, u16>)
    ensures
        exists|now: int| #[trigger]
            signed_in(
                result,
                users@,
                encode_utf8(config@.jwt_secret),
                config@.jwt_maxage as int,
                data.username@,
                data.password@,
                now,
            ),
        !signs_in(users@, data.username@, data.password@) ==> result == Err::<AuthBody, u16>(
            UNAUTHORIZED,
        ),
{
    let now = unix_now();
    let ghost name = data.username@;
    let ghost password = data.password@;
    let result = sign_in_at(users, config, data, now);
    assert(signed_in(
        result,
        users@,
        encode_utf8(config@.jwt_secret),
        config@.jwt_maxage as int,
        name,
        password,
        now as int,
    ));
    result
}

/// A token that opens to claims which have not expired and name a user of
/// the cache lets the request in as that user.
pub proof fn lemma_fresh_token_is_admitted(
    header: Seq<char>,
    token: Seq<char>,
    secret: Seq<u8>,
    claims: CliamsView,
    cache: Map<Seq<char>, UserView>,
    now: int,
)
    requires
        bearer_token(header) == Some(token),
        jwt_opened(secret, token) == Some(claims),
        now <= claims.exp,
        cache.contains_key(claims.username),
    ensures
        guard(AuthHeaderView::Text(header), secret, cache, now) == Ok::<UserView, AuthErrorView>(
            cache[claims.username],
        ),
{
}

/// A token whose expiry lies before the second of the check is turned away
/// as expired, though its signature is good and whatever the cache holds.
pub proof fn lemma_expired_token_is_rejected(
    header: Seq<char>,
    token: Seq<char>,
    secret: Seq<u8>,
    claims: CliamsView,
    cache: Map<Seq<char>, UserView>,
    now: int,
)
    requires
        bearer_token(header) == Some(token),
        jwt_opened(secret, token) == Some(claims),
        claims.exp < now,
    ensures
        guard(AuthHeaderView::Text(header), secret, cache, now) == Err::<UserView, AuthErrorView>(
            expired_token(),
        ),
{
}

/// A token issued to a user lets that user in from the second of its issue
/// to the second of its expiry, as long as the cache has the user: the
/// guard answers with the user of that uid.
pub proof fn lemma_issued_token_lets_its_user_in(
    header: Seq<char>,
    token: Seq<char>,
    secret: Seq<u8>,
    username: Seq<char>,
    maxage: int,
    issued: int,
    now: int,
    cache: Map<Seq<char>, UserView>,
)
    requires
        bearer_token(header) == Some(token),
        issuable(issued, maxage),
        jwt_opened(secret, token) == Some(claims_for(username, maxage, issued)),
        now <= expiry(issued, maxage),
        cache.contains_key(username),
    ensures
        guard(AuthHeaderView::Text(header), secret, cache, now) == Ok::<UserView, AuthErrorView>(
            cache[username],
        ),
{
    lemma_fresh_token_is_admitted(
        header,
        token,
        secret,
        claims_for(username, maxage, issued),
        cache,
        now,
    );
}

} // verus!
