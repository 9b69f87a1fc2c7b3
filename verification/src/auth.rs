//! Authentication: password hashing and verification, issuing and verifying
//! signed session claims over the two transport channels (bearer header,
//! cookie), and the registration policy.
//!
//! The user table is modelled by [`UserStore`], an in-memory image of the
//! storage layer whose uniqueness constraint on usernames is the store's
//! well-formedness invariant. Hashing and signing are the outside crates'
//! work, called through trusted wrappers; every decision around them is
//! verified.

use vstd::prelude::*;

use crate::text::{is_prefix_of, str_concat, str_equal, str_starts_with, str_suffix};

use argon2::{Argon2, PasswordHasher, PasswordVerifier};

verus! {

/// A signed token, handed to the client.
pub struct Token {
    pub token: String,
}

/// Credentials as a login or registration request carries them.
pub struct QueryUser {
    pub username: String,
    pub password: String,
}

/// A password-change request.
pub struct ResetPassword {
    pub old_password: String,
    pub new_password: String,
}

/// The decoded, verified payload of a session token. Stateless: it is never
/// persisted, and its validity is purely a function of signature and expiry
/// at verification time.
pub struct Claim {
    pub sub: String,
    pub username: String,
    pub exp: u64,
}

/// The errors of the authentication subsystem.
#[derive(Clone, Copy, Debug, PartialEq, Eq, Structural)]
pub enum AuthError {
    WrongCredentials,
    MissingCredentials,
    TokenCreation,
    InvalidToken,
    DatabaseError,
}

impl AuthError {
    /// A short description, for the structured error body of a response.
    pub fn message(&self) -> (r: &'static str)
        ensures
            r@ == self.spec_message(),
    {
        match self {
            AuthError::WrongCredentials => "Wrong credentials",
            AuthError::MissingCredentials => "Missing credentials",
            AuthError::TokenCreation => "Token creation error",
            AuthError::InvalidToken => "Invalid token",
            AuthError::DatabaseError => "Database query error",
        }
    }

    /// The description `message` returns.
    pub open spec fn spec_message(&self) -> Seq<char> {
        match self {
            AuthError::WrongCredentials => "Wrong credentials"@,
            AuthError::MissingCredentials => "Missing credentials"@,
            AuthError::TokenCreation => "Token creation error"@,
            AuthError::InvalidToken => "Invalid token"@,
            AuthError::DatabaseError => "Database query error"@,
        }
    }
}

/// One stored user row.
pub struct UserRecord {
    pub username: String,
    pub password: String,
}

/// Usernames are unique across the store — the storage layer's constraint.
pub open spec fn wf_users(s: Seq<UserRecord>) -> bool {
    forall|i: int, j: int| 0 <= i < j < s.len() ==> s[i].username@ != s[j].username@
}

/// Some row carries this username.
pub open spec fn has_user(s: Seq<UserRecord>, name: Seq<char>) -> bool {
    exists|i: int| 0 <= i < s.len() && #[trigger] s[i].username@ == name
}

/// The hash stored for this username; meaningful when the user exists and
/// the store is well-formed.
pub open spec fn stored_hash(s: Seq<UserRecord>, name: Seq<char>) -> Seq<char> {
    s[choose|i: int| 0 <= i < s.len() && #[trigger] s[i].username@ == name].password@
}

/// The in-memory image of the user table.
pub struct UserStore {
    users: Vec<UserRecord>,
}

impl View for UserStore {
    type V = Seq<UserRecord>;

    closed spec fn view(&self) -> Seq<UserRecord> {
        self.users@
    }
}

impl UserStore {
    /// An empty store.
    pub fn new() -> (s: UserStore)
        ensures
            s@ == Seq::<UserRecord>::empty(),
            wf_users(s@),
    {
        UserStore { users: Vec::new() }
    }

    /// The stored password hash of `username`, if that user exists.
    pub fn lookup_hash(&self, username: &String) -> (r: Option<String>)
        requires
            wf_users(self@),
        ensures
            r is Some <==> has_user(self@, username@),
            r matches Some(h) ==> h@ == stored_hash(self@, username@),
    {
        let n = self.users.len();
        let mut i: usize = 0;
        while i < n
            invariant
                n == self.users@.len(),
                self@ == self.users@,
                wf_users(self@),
                0 <= i <= n,
                forall|j: int| 0 <= j < i ==> self.users@[j].username@ != username@,
            decreases n - i,
        {
            if str_equal(self.users[i].username.as_str(), username.as_str()) {
                proof {
                    assert(self@[i as int].username@ == username@);
                    let k = choose|k: int|
                        0 <= k < self@.len() && #[trigger] self@[k].username@ == username@;
                    assert(k == i);
                }
                return Some(self.users[i].password.clone());
            }
            i = i + 1;
        }
        None
    }

    /// Insert a new row; refused when the username is already taken (the
    /// storage layer's uniqueness constraint).
    pub fn insert(&mut self, username: String, password_hash: String) -> (r: bool)
        requires
            wf_users(old(self)@),
        ensures
            wf_users(final(self)@),
            r == !has_user(old(self)@, username@),
            r ==> final(self)@ == old(self)@.push(
                UserRecord { username: username, password: password_hash },
            ),
            !r ==> final(self)@ == old(self)@,
    {
        if self.lookup_hash(&username).is_some() {
            return false;
        }
        let ghost pre = self@;
        self.users.push(UserRecord { username, password: password_hash });
        proof {
            assert forall|i: int, j: int| 0 <= i < j < self@.len() implies self@[i].username@
                != self@[j].username@ by {
                if j < pre.len() {
                } else {
                    assert(self@[i] == pre[i]);
                }
            }
        }
        true
    }

    /// Replace the stored hash of `username`; reports whether the user
    /// existed. Every other row is untouched.
    pub fn update_hash(&mut self, username: &String, new_hash: String) -> (r: bool)
        requires
            wf_users(old(self)@),
        ensures
            wf_users(final(self)@),
            r == has_user(old(self)@, username@),
            final(self)@.len() == old(self)@.len(),
            forall|i: int|
                0 <= i < old(self)@.len() ==> final(self)@[i].username@ == old(self)@[i].username@,
            forall|i: int|
                0 <= i < old(self)@.len() && old(self)@[i].username@ != username@ ==> final(self)@[i] == old(self)@[i],
            r ==> stored_hash(final(self)@, username@) == new_hash@,
            !r ==> final(self)@ == old(self)@,
    {
        let n = self.users.len();
        let mut i: usize = 0;
        while i < n
            invariant
                n == self.users@.len(),
                self@ == self.users@,
                wf_users(self@),
                self@ == old(self)@,
                0 <= i <= n,
                forall|j: int| 0 <= j < i ==> self.users@[j].username@ != username@,
            decreases n - i,
        {
            if str_equal(self.users[i].username.as_str(), username.as_str()) {
                let ghost pre = self@;
                let name = self.users[i].username.clone();
                self.users.set(i, UserRecord { username: name, password: new_hash });
                proof {
                    assert(self@[i as int].username@ == username@);
                    assert(forall|k: int|
                        0 <= k < self@.len() ==> self@[k].username@ == pre[k].username@);
                    assert(wf_users(self@));
                    assert(has_user(pre, username@));
                    let k = choose|k: int|
                        0 <= k < self@.len() && #[trigger] self@[k].username@ == username@;
                    assert(k == i);
                }
                return true;
            }
            i = i + 1;
        }
        false
    }
}

/// Whether `hash` is a valid salted hash of `password`. The salt and the
/// parameters are embedded in the hash string, so this is a function of the
/// two arguments alone.
pub uninterp spec fn hash_matches(password: Seq<char>, hash: Seq<char>) -> bool;

/// Relies on argon2's `PasswordVerifier::verify_password`: parses the salt
/// and parameters embedded in `hash` and recomputes; a hash that fails to
/// parse never matches and never aborts the caller.
#[verifier::external_body]
pub(crate) fn check_hash(password: &String, hash: &String) -> (r: bool)
    ensures
        r == hash_matches(password@, hash@),
{
    Argon2::default().verify_password(password.as_bytes(), hash.as_str()).is_ok()
}

/// Relies on argon2's `PasswordHasher::hash_password`: produces a PHC hash
/// string over a freshly generated random salt, which argon2 documents to
/// verify against the same password. The salt is random, so nothing more is
/// promised of the hash itself; two calls on one password differ.
#[verifier::external_body]
pub(crate) fn gen_hash(password: &String) -> (r: Option<String>)
    ensures
        r matches Some(h) ==> hash_matches(password@, h@),
{
    match Argon2::default().hash_password(password.as_bytes()) {
        Ok(h) => Some(h.to_string()),
        Err(_) => None,
    }
}

/// The claims `(sub, username, exp)` that a token validly signed under `key`
/// carries, or `None` for a token that no decode under `key` accepts. With
/// expiry left to the caller, decoding is a function of token and key alone.
pub uninterp spec fn decoded_claim(token: Seq<char>, key: Seq<char>) -> Option<
    (Seq<char>, Seq<char>, u64),
>;

/// Relies on jsonwebtoken::encode (HS256, default header): a token created
/// under `key` is validly signed and carries exactly the claims given, so
/// decoding it under the same key yields them back.
#[verifier::external_body]
fn jwt_encode(sub: &String, username: &String, exp: u64, key: &String) -> (r: Option<String>)
    ensures
        r matches Some(t) ==> decoded_claim(t@, key@) == Some((sub@, username@, exp)),
{
    let mut claims = serde_json::Map::new();
    claims.insert("sub".to_string(), serde_json::Value::String(sub.clone()));
    claims.insert("username".to_string(), serde_json::Value::String(username.clone()));
    claims.insert("exp".to_string(), serde_json::Value::from(exp));
    let k = jsonwebtoken::EncodingKey::from_secret(key.as_bytes());
    let payload = serde_json::Value::Object(claims);
    jsonwebtoken::encode(&jsonwebtoken::Header::default(), &payload, &k).ok()
}

/// Relies on jsonwebtoken::decode (HS256): verifies the signature under
/// `key` and hands back the claims the token carries, `None` on any invalid
/// or malformed token. Expiry is deliberately not validated here; the
/// verified caller re-checks it on every verification.
#[verifier::external_body]
fn jwt_decode(token: &String, key: &String) -> (r: Option<Claim>)
    ensures
        (match r {
            Some(c) => decoded_claim(token@, key@) == Some((c.sub@, c.username@, c.exp)),
            None => decoded_claim(token@, key@) is None,
        }),
{
    let mut validation = jsonwebtoken::Validation::new(jsonwebtoken::Algorithm::HS256);
    validation.validate_exp = false;
    validation.required_spec_claims = std::collections::HashSet::new();
    let k = jsonwebtoken::DecodingKey::from_secret(key.as_bytes());
    let data = match jsonwebtoken::decode::<serde_json::Value>(token, &k, &validation) {
        Ok(d) => d,
        Err(_) => return None,
    };
    let sub = data.claims.get("sub")?.as_str()?.to_string();
    let username = data.claims.get("username")?.as_str()?.to_string();
    let exp = data.claims.get("exp")?.as_u64()?;
    Some(Claim { sub, username, exp })
}

/// Relies on std::time::SystemTime::now: seconds since the unix epoch, 0
/// when the system clock reports an earlier time. Reads the clock, so
/// nothing is promised of the result.
#[verifier::external_body]
pub fn get_unix_timestamp() -> u64 {
    match std::time::SystemTime::now().duration_since(std::time::SystemTime::UNIX_EPOCH) {
        Ok(n) => n.as_secs(),
        Err(_) => 0,
    }
}

/// The session a successful login returns: the signed token, the companion
/// cookie directive, and the claim both encode.
pub struct AuthSession {
    pub token: Token,
    pub cookie: String,
    pub claim: Claim,
}

/// The cookie directive issued beside a token.
pub open spec fn spec_cookie(token: Seq<char>) -> Seq<char> {
    "Authorization=Bearer "@ + token + "; Max-Age=86400"@
}

/// Build the cookie directive for a token.
pub fn build_cookie(token: &String) -> (r: String)
    ensures
        r@ == spec_cookie(token@),
{
    let head = str_concat("Authorization=Bearer ", token.as_str());
    let r = head.concat("; Max-Age=86400");
    proof {
        assert(r@ =~= spec_cookie(token@));
    }
    r
}

/// Sign a claim and package the session. Exact for every outcome of the
/// signing call: only a failure of the token encoder is an error.
pub fn issue_session(claim: Claim, key: &String) -> (r: Result<AuthSession, AuthError>)
    ensures
        r matches Err(e) ==> e == AuthError::TokenCreation,
        r matches Ok(s) ==> {
            &&& s.claim.sub@ == claim.sub@
            &&& s.claim.username@ == claim.username@
            &&& s.claim.exp == claim.exp
            &&& decoded_claim(s.token.token@, key@) == Some(
                (claim.sub@, claim.username@, claim.exp),
            )
            &&& s.cookie@ == spec_cookie(s.token.token@)
        },
{
    match jwt_encode(&claim.sub, &claim.username, claim.exp, key) {
        None => Err(AuthError::TokenCreation),
        Some(t) => {
            let cookie = build_cookie(&t);
            Ok(AuthSession { token: Token { token: t }, cookie, claim })
        },
    }
}

/// The token's lifetime in seconds: 24 hours.
pub const TOKEN_TTL_SECONDS: u64 = 86400;

/// Login: reject empty credentials, verify the password against the stored
/// hash, and issue a claim that expires a fixed TTL after `now`, signed
/// under `key`, together with its cookie directive.
pub fn authorize(store: &UserStore, payload: &QueryUser, key: &String, now: u64) -> (r: Result<
    AuthSession,
    AuthError,
>)
    requires
        wf_users(store@),
        now + 86400 <= u64::MAX,
    ensures
        (r matches Err(e) && e == AuthError::MissingCredentials) <==> (payload.username@.len() == 0
            || payload.password@.len() == 0),
        (r matches Err(e) && e == AuthError::WrongCredentials) <==> (payload.username@.len() > 0
            && payload.password@.len() > 0 && (!has_user(store@, payload.username@)
            || !hash_matches(payload.password@, stored_hash(store@, payload.username@)))),
        r matches Err(e) ==> (e == AuthError::MissingCredentials || e == AuthError::WrongCredentials
            || e == AuthError::TokenCreation),
        r matches Ok(s) ==> {
            &&& payload.username@.len() > 0 && payload.password@.len() > 0
            &&& has_user(store@, payload.username@)
            &&& hash_matches(payload.password@, stored_hash(store@, payload.username@))
            &&& s.claim.sub@ == "file"@
            &&& s.claim.username@ == payload.username@
            &&& s.claim.exp == now + TOKEN_TTL_SECONDS
            &&& decoded_claim(s.token.token@, key@) == Some(
                (s.claim.sub@, s.claim.username@, s.claim.exp),
            )
            &&& s.cookie@ == spec_cookie(s.token.token@)
        },
{
    if payload.username.as_str().is_empty() || payload.password.as_str().is_empty() {
        return Err(AuthError::MissingCredentials);
    }
    let hash = match store.lookup_hash(&payload.username) {
        Some(h) => h,
        None => {
            return Err(AuthError::WrongCredentials);
        },
    };
    if !check_hash(&payload.password, &hash) {
        return Err(AuthError::WrongCredentials);
    }
    let claim = Claim {
        sub: String::from_str("file"),
        username: payload.username.clone(),
        exp: now + TOKEN_TTL_SECONDS,
    };
    issue_session(claim, key)
}

/// File the freshly hashed credentials of a new user. Exact for every
/// outcome of the hashing call: a hashing failure is `TokenCreation`, a
/// username already taken is the storage conflict `DatabaseError`, anything
/// else is filed.
pub fn store_new_user(store: &mut UserStore, username: String, hash: Option<String>) -> (r: Result<
    (),
    AuthError,
>)
    requires
        wf_users(old(store)@),
    ensures
        wf_users(final(store)@),
        r matches Err(_) ==> final(store)@ == old(store)@,
        (match hash {
            None => r matches Err(e) && e == AuthError::TokenCreation,
            Some(h) => {
                if has_user(old(store)@, username@) {
                    r matches Err(e) && e == AuthError::DatabaseError
                } else {
                    r is Ok && final(store)@ == old(store)@.push(
                        UserRecord { username: username, password: h },
                    )
                }
            },
        }),
{
    let h = match hash {
        Some(h) => h,
        None => {
            return Err(AuthError::TokenCreation);
        },
    };
    if store.insert(username, h) {
        Ok(())
    } else {
        Err(AuthError::DatabaseError)
    }
}

/// Registration: refused outright while the deployment's policy disables it;
/// otherwise hash the password and file the new user, surfacing a storage
/// conflict (a duplicate username) as `DatabaseError`.
pub fn register(store: &mut UserStore, can_register: bool, payload: &QueryUser) -> (r: Result<
    (),
    AuthError,
>)
    requires
        wf_users(old(store)@),
    ensures
        wf_users(final(store)@),
        r matches Err(_) ==> final(store)@ == old(store)@,
        (r matches Err(e) && e == AuthError::WrongCredentials) <==> !can_register,
        r matches Err(e) ==> (e == AuthError::WrongCredentials || e == AuthError::TokenCreation
            || e == AuthError::DatabaseError),
        (r matches Err(e) && e == AuthError::DatabaseError) ==> has_user(
            old(store)@,
            payload.username@,
        ),
        can_register && has_user(old(store)@, payload.username@) ==> !(r is Ok),
        r is Ok ==> {
            &&& can_register
            &&& !has_user(old(store)@, payload.username@)
            &&& final(store)@.len() == old(store)@.len() + 1
            &&& final(store)@.drop_last() == old(store)@
            &&& final(store)@.last().username@ == payload.username@
            &&& hash_matches(payload.password@, final(store)@.last().password@)
        },
{
    if !can_register {
        return Err(AuthError::WrongCredentials);
    }
    let hash = gen_hash(&payload.password);
    let r = store_new_user(store, payload.username.clone(), hash);
    proof {
        if r is Ok {
            assert(final(store)@.drop_last() =~= old(store)@);
        }
    }
    r
}

/// Store the freshly hashed replacement password. Exact for every outcome of
/// the hashing call: a hashing failure is `TokenCreation`; an absent user is
/// the storage failure `DatabaseError`; otherwise the hash is replaced and
/// every other row is untouched.
pub fn store_updated_hash(store: &mut UserStore, username: &String, hash: Option<String>) -> (r:
    Result<(), AuthError>)
    requires
        wf_users(old(store)@),
    ensures
        wf_users(final(store)@),
        r matches Err(_) ==> final(store)@ == old(store)@,
        (match hash {
            None => r matches Err(e) && e == AuthError::TokenCreation,
            Some(h) => {
                if has_user(old(store)@, username@) {
                    r is Ok && final(store)@.len() == old(store)@.len() && stored_hash(
                        final(store)@,
                        username@,
                    ) == h@ && (forall|i: int|
                        0 <= i < old(store)@.len() ==> final(store)@[i].username@ == old(store)@[i].username@) && (forall|i: int|
                        0 <= i < old(store)@.len() && old(store)@[i].username@ != username@
                            ==> final(store)@[i] == old(store)@[i])
                } else {
                    r matches Err(e) && e == AuthError::DatabaseError
                }
            },
        }),
{
    let h = match hash {
        Some(h) => h,
        None => {
            return Err(AuthError::TokenCreation);
        },
    };
    if store.update_hash(username, h) {
        Ok(())
    } else {
        Err(AuthError::DatabaseError)
    }
}

/// Password reset for the user a verified claim names: re-verify the old
/// password against the stored hash; on mismatch fail `WrongCredentials`
/// with the store untouched; on match store a newly salted hash of the new
/// password.
pub fn reset_password(store: &mut UserStore, claim: &Claim, payload: &ResetPassword) -> (r: Result<
    (),
    AuthError,
>)
    requires
        wf_users(old(store)@),
    ensures
        wf_users(final(store)@),
        r matches Err(_) ==> final(store)@ == old(store)@,
        (r matches Err(e) && e == AuthError::DatabaseError) <==> !has_user(
            old(store)@,
            claim.username@,
        ),
        (r matches Err(e) && e == AuthError::WrongCredentials) <==> (has_user(
            old(store)@,
            claim.username@,
        ) && !hash_matches(payload.old_password@, stored_hash(old(store)@, claim.username@))),
        r matches Err(e) ==> (e == AuthError::DatabaseError || e == AuthError::WrongCredentials
            || e == AuthError::TokenCreation),
        r is Ok ==> {
            &&& has_user(old(store)@, claim.username@)
            &&& hash_matches(payload.old_password@, stored_hash(old(store)@, claim.username@))
            &&& final(store)@.len() == old(store)@.len()
            &&& hash_matches(payload.new_password@, stored_hash(final(store)@, claim.username@))
            &&& (forall|i: int|
                0 <= i < old(store)@.len() ==> final(store)@[i].username@ == old(store)@[i].username@)
            &&& (forall|i: int|
                0 <= i < old(store)@.len() && old(store)@[i].username@ != claim.username@
                    ==> final(store)@[i] == old(store)@[i])
        },
{
    let stored = match store.lookup_hash(&claim.username) {
        Some(h) => h,
        None => {
            return Err(AuthError::DatabaseError);
        },
    };
    if !check_hash(&payload.old_password, &stored) {
        return Err(AuthError::WrongCredentials);
    }
    let new_hash = gen_hash(&payload.new_password);
    store_updated_hash(store, &claim.username, new_hash)
}

/// The claim-extraction state machine over the two transport channels: a
/// bearer header wins; otherwise the `Authorization` cookie must carry a
/// `Bearer ` prefix; with neither channel present the credentials are
/// missing.
pub open spec fn spec_extract_token(bearer: Option<String>, cookie_auth: Option<String>) -> Result<
    Seq<char>,
    AuthError,
> {
    match bearer {
        Some(t) => Ok(t@),
        None => match cookie_auth {
            None => Err(AuthError::MissingCredentials),
            Some(c) => if is_prefix_of("Bearer "@, c@) {
                Ok(c@.subrange(7, c@.len() as int))
            } else {
                Err(AuthError::InvalidToken)
            },
        },
    }
}

/// Pick the token out of the request's credentials, per the extraction state
/// machine.
pub fn extract_token(bearer: &Option<String>, cookie_auth: &Option<String>) -> (r: Result<
    String,
    AuthError,
>)
    ensures
        (match spec_extract_token(*bearer, *cookie_auth) {
            Ok(t) => r matches Ok(tok) && tok@ == t,
            Err(e) => r matches Err(e2) && e2 == e,
        }),
{
    match bearer {
        Some(t) => Ok(t.clone()),
        None => match cookie_auth {
            None => Err(AuthError::MissingCredentials),
            Some(c) => {
                proof {
                    reveal_strlit("Bearer ");
                }
                if str_starts_with(c.as_str(), "Bearer ") {
                    Ok(str_suffix(c.as_str(), 7))
                } else {
                    Err(AuthError::InvalidToken)
                }
            },
        },
    }
}

/// Verify a token at time `now`: the signature must check out under `key`
/// and the carried expiry must still lie in the future; anything else is
/// `InvalidToken`. Expiry is re-checked on every verification.
pub fn verify_token(token: &String, key: &String, now: u64) -> (r: Result<Claim, AuthError>)
    ensures
        (match decoded_claim(token@, key@) {
            Some(t) => {
                if t.2 > now {
                    r matches Ok(c) && c.sub@ == t.0 && c.username@ == t.1 && c.exp == t.2
                } else {
                    r matches Err(e) && e == AuthError::InvalidToken
                }
            },
            None => r matches Err(e) && e == AuthError::InvalidToken,
        }),
{
    match jwt_decode(token, key) {
        None => Err(AuthError::InvalidToken),
        Some(c) => {
            if c.exp > now {
                Ok(c)
            } else {
                Err(AuthError::InvalidToken)
            }
        },
    }
}

impl Claim {
    /// The whole verification state machine: extract the token from the
    /// request's two channels, then check signature and expiry.
    pub fn from_credentials(
        bearer: &Option<String>,
        cookie_auth: &Option<String>,
        key: &String,
        now: u64,
    ) -> (r: Result<Claim, AuthError>)
        ensures
            (match spec_extract_token(*bearer, *cookie_auth) {
                Err(e) => r matches Err(e2) && e2 == e,
                Ok(t) => (match decoded_claim(t, key@) {
                    Some(c) => {
                        if c.2 > now {
                            r matches Ok(cl) && cl.sub@ == c.0 && cl.username@ == c.1 && cl.exp
                                == c.2
                        } else {
                            r matches Err(e) && e == AuthError::InvalidToken
                        }
                    },
                    None => r matches Err(e) && e == AuthError::InvalidToken,
                }),
            }),
    {
        let token = match extract_token(bearer, cookie_auth) {
            Ok(t) => t,
            Err(e) => {
                return Err(e);
            },
        };
        verify_token(&token, key, now)
    }
}

} // verus!
