//! The panel's sign-in: the requests and answers of its pages, credentials and tokens, and
//! the limit on failed sign-ins per address.

use std::collections::VecDeque;
use argon2::{PasswordHasher, PasswordVerifier};
use base64::Engine;
use rand::RngCore;
use sha2::Digest;
use vstd::prelude::*;
use vstd::string::StringExecFns;
use crate::error::AppError;
use crate::strmap::StrMap;
use crate::text::{chars_of, starts_with, starts_with_chars, slice_chars, string_of, trim, trimmed};

verus! {

/// How long a session lasts, in seconds.
pub const SESSION_TTL_SECONDS: i64 = 2592000;

/// How long a failed sign-in counts, in seconds.
pub const LOGIN_FAILURE_WINDOW_SECONDS: i64 = 300;

/// How many failed sign-ins an address may have within the window.
pub const LOGIN_FAILURE_LIMIT: usize = 8;

/// How many addresses the failure table holds at most.
pub const LOGIN_FAILURE_KEY_CAPACITY: usize = 2048;

/// The cookie that carries the session token.
pub const TOKEN_COOKIE_NAME: &'static str = "embypanel_token";

/// The first administrator's name and password.
#[derive(Debug)]
pub struct SetupRequest {
    pub username: String,
    pub password: String,
}

/// A sign-in.
#[derive(Debug)]
pub struct LoginRequest {
    pub username: String,
    pub password: String,
}

/// A password change.
#[derive(Debug)]
pub struct ChangePasswordRequest {
    pub current_password: String,
    pub new_password: String,
}

/// A new administrator name.
#[derive(Debug)]
pub struct UpdateProfileRequest {
    pub username: String,
}

/// The token of a new session.
#[derive(Debug)]
pub struct AuthResponse {
    pub token: String,
}

/// The answer to a password change: the new session's token.
#[derive(Debug)]
pub struct PasswordChangedResponse {
    pub changed: bool,
    pub token: String,
}

/// The answer to a sign-out.
#[derive(Debug)]
pub struct LogoutResponse {
    pub logged_out: bool,
}

/// The administrator's name.
#[derive(Debug)]
pub struct ProfileResponse {
    pub username: String,
}

/// Credentials need a name that is not blank and a password that is not empty.
pub fn validate_credentials(username: &str, password: &str) -> (r: Result<(), String>)
    ensures
        trim(username@).len() == 0 ==> (r matches Err(e) && e@ == "username cannot be empty"@),
        trim(username@).len() > 0 && password@.len() == 0 ==> (r matches Err(e) && e@
            == "password cannot be empty"@),
        r is Ok <==> (trim(username@).len() > 0 && password@.len() > 0),
{
    let u = trimmed(username);
    if u.len() == 0 {
        return Err(String::from_str("username cannot be empty"));
    }
    if password.is_empty() {
        return Err(String::from_str("password cannot be empty"));
    }
    Ok(())
}

/// The token after `Bearer ` in an `Authorization` header's text.
pub open spec fn bearer_spec(authorization: Option<Seq<char>>) -> Option<Seq<char>> {
    match authorization {
        Some(v) => if starts_with(v, "Bearer "@) {
            Some(v.skip("Bearer "@.len() as int))
        } else {
            None
        },
        None => None,
    }
}

/// The bearer token of a request, given its `Authorization` header's text.
pub fn bearer_token(authorization: Option<&str>) -> (r: Option<String>)
    ensures
        crate::text::opt_string_view(r) == bearer_spec(crate::text::opt_str_view(authorization)),
{
    match authorization {
        Some(v) => {
            let cv = chars_of(v);
            let pre = chars_of("Bearer ");
            if starts_with_chars(&cv, &pre) {
                let rest = slice_chars(&cv, pre.len(), cv.len());
                assert(rest@ =~= v@.skip("Bearer "@.len() as int));
                Some(string_of(&rest))
            } else {
                None
            }
        },
        None => None,
    }
}

/// The session token a request must carry.
pub fn auth_token(authorization: Option<&str>) -> (r: Result<String, String>)
    ensures
        match r {
            Ok(t) => bearer_spec(crate::text::opt_str_view(authorization)) == Some(t@),
            Err(e) => bearer_spec(crate::text::opt_str_view(authorization)) is None && e@
                == "missing authorization token"@,
        },
{
    match bearer_token(authorization) {
        Some(t) => Ok(t),
        None => Err(String::from_str("missing authorization token")),
    }
}

/// The SHA-256 digest of some bytes.
pub uninterp spec fn sha256_of(bytes: Seq<u8>) -> Seq<u8>;

/// `sha2::Sha256::digest` of the bytes: 32 bytes, named by `sha256_of` of the input.
#[verifier::external_body]
pub(crate) fn sha256_digest(bytes: &[u8]) -> (r: Vec<u8>)
    ensures
        r@ == sha256_of(bytes@),
        r@.len() == 32,
{
    sha2::Sha256::digest(bytes).to_vec()
}

/// The base64 digit of a six-bit value: `A`-`Z`, `a`-`z`, `0`-`9`, then `-` and `_` in the
/// URL-safe alphabet or `+` and `/` in the standard one.
pub open spec fn base64_digit(v: nat, url_safe: bool) -> char {
    if v < 26 {
        (('A' as u32) + v) as char
    } else if v < 52 {
        (('a' as u32) + (v - 26)) as char
    } else if v < 62 {
        (('0' as u32) + (v - 52)) as char
    } else if v == 62 {
        if url_safe {
            '-'
        } else {
            '+'
        }
    } else {
        if url_safe {
            '_'
        } else {
            '/'
        }
    }
}

/// The base64 text of some bytes (RFC 4648): each three bytes become four digits; a last
/// group of one or two bytes becomes two or three digits, followed by `=` up to four when
/// padded.
pub open spec fn base64_text(b: Seq<u8>, url_safe: bool, padded: bool) -> Seq<char>
    decreases b.len(),
{
    if b.len() == 0 {
        Seq::empty()
    } else if b.len() == 1 {
        let x = b[0] as nat;
        seq![base64_digit(x / 4, url_safe), base64_digit((x % 4) * 16, url_safe)] + if padded {
            seq!['=', '=']
        } else {
            Seq::empty()
        }
    } else if b.len() == 2 {
        let x = b[0] as nat;
        let y = b[1] as nat;
        seq![
            base64_digit(x / 4, url_safe),
            base64_digit((x % 4) * 16 + y / 16, url_safe),
            base64_digit((y % 16) * 4, url_safe),
        ] + if padded {
            seq!['=']
        } else {
            Seq::empty()
        }
    } else {
        let x = b[0] as nat;
        let y = b[1] as nat;
        let z = b[2] as nat;
        seq![
            base64_digit(x / 4, url_safe),
            base64_digit((x % 4) * 16 + y / 16, url_safe),
            base64_digit((y % 16) * 4 + z / 64, url_safe),
            base64_digit(z % 64, url_safe),
        ] + base64_text(b.subrange(3, b.len() as int), url_safe, padded)
    }
}

/// The URL-safe base64 text of some bytes, without padding.
pub open spec fn base64_url_of(bytes: Seq<u8>) -> Seq<char> {
    base64_text(bytes, true, false)
}

/// `base64::engine::general_purpose::URL_SAFE_NO_PAD.encode` of the bytes: their URL-safe
/// base64 text without padding (see [`base64_text`]).
#[verifier::external_body]
pub(crate) fn base64_url(bytes: &[u8]) -> (r: String)
    ensures
        r@ == base64_url_of(bytes@),
{
    base64::engine::general_purpose::URL_SAFE_NO_PAD.encode(bytes)
}

/// How a session token is stored: its SHA-256 digest of the UTF-8 bytes, in URL-safe
/// base64 without padding.
pub fn hash_token(token: &str) -> (r: String)
    ensures
        r@ == base64_url_of(sha256_of(vstd::utf8::encode_utf8(token@))),
{
    let digest = sha256_digest(token.as_bytes());
    base64_url(digest.as_slice())
}

/// `rand::rng().fill_bytes` on 32 bytes: random bytes from the thread-local generator.
/// Nothing is promised of them but their number.
#[verifier::external_body]
fn random_token_bytes() -> (r: Vec<u8>)
    ensures
        r@.len() == 32,
{
    let mut bytes = vec![0u8; 32];
    rand::rng().fill_bytes(&mut bytes);
    bytes
}

/// A new session token: 32 random bytes in URL-safe base64 without padding.
pub fn random_token() -> (r: String)
    ensures
        exists|b: Seq<u8>| b.len() == 32 && r@ == base64_url_of(b),
{
    let bytes = random_token_bytes();
    base64_url(bytes.as_slice())
}

/// The PHC text of the Argon2id hash (default parameters) of a password's UTF-8 bytes with a
/// salt, or a failure: of encoding the salt (`true`) or of hashing (`false`), with its text.
pub uninterp spec fn argon2_phc_of(password: Seq<char>, salt: Seq<u8>) -> Result<Seq<char>, (bool, Seq<char>)>;

/// The outcome of checking a password against a stored PHC hash: the text of the error of
/// reading the hash, or whether the password matches it.
pub uninterp spec fn argon2_check_of(password: Seq<char>, phc: Seq<char>) -> Result<bool, Seq<char>>;

pub open spec fn phc_result(r: Result<String, (bool, String)>) -> Result<Seq<char>, (bool, Seq<char>)> {
    match r {
        Ok(h) => Ok(h@),
        Err((salt_failed, e)) => Err((salt_failed, e@)),
    }
}

pub open spec fn check_result(r: Result<bool, String>) -> Result<bool, Seq<char>> {
    match r {
        Ok(b) => Ok(b),
        Err(e) => Err(e@),
    }
}

/// `argon2::password_hash::SaltString::encode_b64` of the salt, then
/// `argon2::Argon2::default().hash_password` of the password's bytes with it, as PHC text:
/// named by `argon2_phc_of`.
#[verifier::external_body]
fn argon2_phc_hash(password: &str, salt: &[u8]) -> (r: Result<String, (bool, String)>)
    ensures
        phc_result(r) == argon2_phc_of(password@, salt@),
{
    let salt = match argon2::password_hash::SaltString::encode_b64(salt) {
        Ok(s) => s,
        Err(err) => return Err((true, err.to_string())),
    };
    match argon2::Argon2::default().hash_password(password.as_bytes(), &salt) {
        Ok(hash) => Ok(hash.to_string()),
        Err(err) => Err((false, err.to_string())),
    }
}

/// `argon2::PasswordHash::new` of the stored text, then
/// `argon2::Argon2::default().verify_password` of the password's bytes against it: named by
/// `argon2_check_of`.
#[verifier::external_body]
fn argon2_check(password: &str, phc: &str) -> (r: Result<bool, String>)
    ensures
        check_result(r) == argon2_check_of(password@, phc@),
{
    match argon2::PasswordHash::new(phc) {
        Ok(hash) => Ok(argon2::Argon2::default().verify_password(password.as_bytes(), &hash).is_ok()),
        Err(err) => Err(err.to_string()),
    }
}

/// The message of a failed password hashing.
pub open spec fn hash_failure_message(f: (bool, Seq<char>)) -> Seq<char> {
    if f.0 {
        "failed to encode password salt: "@ + f.1
    } else {
        "failed to hash password: "@ + f.1
    }
}

/// Hashes a password for storage with Argon2id and a fresh random salt of 16 bytes: the PHC
/// text, or an internal error that names the step that failed. Which of the two comes back
/// depends on the salt drawn.
pub fn hash_password(password: &str) -> (r: Result<String, AppError>)
    ensures
        exists|salt: Seq<u8>|
            #![trigger argon2_phc_of(password@, salt)]
            salt.len() == 16 && match argon2_phc_of(password@, salt) {
                Ok(h) => r matches Ok(t) && t@ == h,
                Err(f) => r matches Err(AppError::Internal(m)) && m@ == hash_failure_message(f),
            },
{
    let salt = crate::backup_crypto::random_filled(16);
    match argon2_phc_hash(password, salt.as_slice()) {
        Ok(h) => Ok(h),
        Err((salt_failed, e)) => {
            let mut m = if salt_failed {
                String::from_str("failed to encode password salt: ")
            } else {
                String::from_str("failed to hash password: ")
            };
            m.append(e.as_str());
            Err(AppError::Internal(m))
        },
    }
}

/// Checks a password against its stored hash: a hash that cannot be read is an internal
/// error, a password that does not match is refused as `invalid username or password`.
pub fn verify_password(password: &str, password_hash: &str) -> (r: Result<(), AppError>)
    ensures
        match argon2_check_of(password@, password_hash@) {
            Err(e) => r matches Err(AppError::Internal(m)) && m@ == "invalid password hash: "@ + e,
            Ok(true) => r is Ok,
            Ok(false) => r matches Err(AppError::Unauthorized(m)) && m@ == "invalid username or password"@,
        },
{
    match argon2_check(password, password_hash) {
        Err(e) => {
            let mut m = String::from_str("invalid password hash: ");
            m.append(e.as_str());
            Err(AppError::Internal(m))
        },
        Ok(true) => Ok(()),
        Ok(false) => Err(AppError::Unauthorized(String::from_str("invalid username or password"))),
    }
}

/// A failure at `ts` no longer counts at `now`: more than the window has passed.
pub open spec fn failure_expired(ts: i64, now: i64) -> bool {
    now - ts > LOGIN_FAILURE_WINDOW_SECONDS
}

/// The failures of an address that still count: the expired ones dropped from the front.
pub open spec fn live_failures(s: Seq<i64>, now: i64) -> Seq<i64>
    decreases s.len(),
{
    if s.len() > 0 && failure_expired(s[0], now) {
        live_failures(s.drop_first(), now)
    } else {
        s
    }
}

pub open spec fn failure_views(m: Map<Seq<char>, VecDeque<i64>>) -> Map<Seq<char>, Seq<i64>> {
    Map::new(|k: Seq<char>| m.dom().contains(k), |k: Seq<char>| m[k]@)
}

/// The table with the address's expired failures dropped, and the address with them when
/// none is left.
pub open spec fn pruned_key(m: Map<Seq<char>, Seq<i64>>, key: Seq<char>, now: i64) -> Map<
    Seq<char>,
    Seq<i64>,
> {
    if m.dom().contains(key) {
        if live_failures(m[key], now).len() == 0 {
            m.remove(key)
        } else {
            m.insert(key, live_failures(m[key], now))
        }
    } else {
        m
    }
}

/// The table with every address's expired failures dropped, and the addresses left
/// without failures.
pub open spec fn pruned_all(m: Map<Seq<char>, Seq<i64>>, now: i64) -> Map<Seq<char>, Seq<i64>> {
    Map::new(
        |k: Seq<char>| m.dom().contains(k) && live_failures(m[k], now).len() > 0,
        |k: Seq<char>| live_failures(m[k], now),
    )
}

/// The table made ready for an address: its own failures pruned and, when it is new and the
/// table is full, every address pruned.
pub open spec fn prepared(m: Map<Seq<char>, Seq<i64>>, key: Seq<char>, now: i64) -> Map<
    Seq<char>,
    Seq<i64>,
> {
    let m1 = pruned_key(m, key, now);
    if !m1.dom().contains(key) && m1.dom().len() >= LOGIN_FAILURE_KEY_CAPACITY {
        pruned_all(m1, now)
    } else {
        m1
    }
}

/// A sign-in from the address is refused: the table is still full for a new address, or
/// the address has the limit of failures within the window.
pub open spec fn login_refused(m: Map<Seq<char>, Seq<i64>>, key: Seq<char>, now: i64) -> bool {
    let p = prepared(m, key, now);
    (!p.dom().contains(key) && p.dom().len() >= LOGIN_FAILURE_KEY_CAPACITY) || (p.dom().contains(key)
        && p[key].len() >= LOGIN_FAILURE_LIMIT)
}

/// The table after a failed sign-in from the address: the failure is added, unless the
/// address is new and the table is still full.
pub open spec fn after_failure(m: Map<Seq<char>, Seq<i64>>, key: Seq<char>, now: i64) -> Map<
    Seq<char>,
    Seq<i64>,
> {
    let p = prepared(m, key, now);
    if !p.dom().contains(key) && p.dom().len() >= LOGIN_FAILURE_KEY_CAPACITY {
        p
    } else if p.dom().contains(key) {
        p.insert(key, p[key].push(now))
    } else {
        p.insert(key, seq![now])
    }
}

/// Failed sign-ins per address: when each happened, oldest first.
pub struct LoginFailures {
    attempts: StrMap<VecDeque<i64>>,
}

impl LoginFailures {
    /// The table holds at most its capacity of addresses.
    pub closed spec fn wf(self) -> bool {
        &&& self.attempts.wf()
        &&& self.attempts.spec_len() <= LOGIN_FAILURE_KEY_CAPACITY
    }

    /// The failures of each address.
    pub closed spec fn spec_failures(self) -> Map<Seq<char>, Seq<i64>> {
        failure_views(self.attempts@)
    }

    /// The number of addresses.
    pub closed spec fn spec_len(self) -> nat {
        self.attempts.spec_len()
    }

    pub proof fn lemma_len(self)
        requires
            self.wf(),
        ensures
            self.spec_failures().dom().finite(),
            self.spec_failures().dom().len() == self.spec_len(),
            self.spec_len() <= LOGIN_FAILURE_KEY_CAPACITY,
    {
        self.attempts.lemma_dom_len();
        assert(self.spec_failures().dom() =~= self.attempts@.dom());
    }

    /// An empty table.
    pub fn new() -> (r: Self)
        ensures
            r.wf(),
            r.spec_failures() == Map::<Seq<char>, Seq<i64>>::empty(),
    {
        let r = LoginFailures { attempts: StrMap::new() };
        assert(r.spec_failures() =~= Map::<Seq<char>, Seq<i64>>::empty());
        r
    }

    /// Checks whether a sign-in from the address may go ahead (see [`login_refused`]),
    /// pruning the table on the way (see [`prepared`]).
    pub fn enforce_login_attempt_limit(&mut self, key: &str, now: i64) -> (r: Result<(), String>)
        requires
            old(self).wf(),
        ensures
            final(self).wf(),
            final(self).spec_failures() == prepared(old(self).spec_failures(), key@, now),
            r is Err <==> login_refused(old(self).spec_failures(), key@, now),
            r matches Err(e) ==> e@ == "too many login attempts, please try again later"@,
    {
        self.prepare(key, now);
        let full = self.attempts.len() >= LOGIN_FAILURE_KEY_CAPACITY;
        proof {
            self.lemma_len();
        }
        let refused = match self.attempts.get(key) {
            Some(q) => q.len() >= LOGIN_FAILURE_LIMIT,
            None => full,
        };
        if refused {
            Err(String::from_str("too many login attempts, please try again later"))
        } else {
            Ok(())
        }
    }

    /// Records a failed sign-in from the address (see [`after_failure`]).
    pub fn record_login_failure(&mut self, key: &str, now: i64)
        requires
            old(self).wf(),
        ensures
            final(self).wf(),
            final(self).spec_failures() == after_failure(old(self).spec_failures(), key@, now),
    {
        self.prepare(key, now);
        proof {
            self.lemma_len();
        }
        let ghost p = self.spec_failures();
        match self.attempts.take(key) {
            Some(q) => {
                let mut q = q;
                q.push_back(now);
                self.attempts.insert(String::from_str(key), q);
                assert(self.spec_failures() =~= p.insert(key@, p[key@].push(now)));
            },
            None => {
                if self.attempts.len() >= LOGIN_FAILURE_KEY_CAPACITY {
                    return;
                }
                let mut q: VecDeque<i64> = VecDeque::new();
                q.push_back(now);
                assert(q@ =~= seq![now]);
                self.attempts.insert(String::from_str(key), q);
                assert(self.spec_failures() =~= p.insert(key@, seq![now]));
            },
        }
    }

    /// Forgets the failures of an address, after it signed in.
    pub fn clear_login_failures(&mut self, key: &str)
        requires
            old(self).wf(),
        ensures
            final(self).wf(),
            final(self).spec_failures() == old(self).spec_failures().remove(key@),
    {
        let ghost before = self.spec_failures();
        self.attempts.remove(key);
        assert(self.spec_failures() =~= before.remove(key@));
    }

    fn prepare(&mut self, key: &str, now: i64)
        requires
            old(self).wf(),
        ensures
            final(self).wf(),
            final(self).spec_failures() == prepared(old(self).spec_failures(), key@, now),
    {
        let ghost m0 = self.spec_failures();
        self.prune_login_failure_key(key, now);
        let ghost m1 = self.spec_failures();
        assert(m1 == pruned_key(m0, key@, now));
        proof {
            self.lemma_len();
        }
        if !self.attempts.contains_key(key) && self.attempts.len() >= LOGIN_FAILURE_KEY_CAPACITY {
            self.prune_login_failures(now);
        }
    }

    /// Drops the address's expired failures, and the address when none is left.
    pub fn prune_login_failure_key(&mut self, key: &str, now: i64)
        requires
            old(self).wf(),
        ensures
            final(self).wf(),
            final(self).spec_failures() == pruned_key(old(self).spec_failures(), key@, now),
    {
        let ghost m0 = self.spec_failures();
        match self.attempts.take(key) {
            Some(q) => {
                let mut q = q;
                drop_expired(&mut q, now);
                if q.len() > 0 {
                    self.attempts.insert(String::from_str(key), q);
                    assert(self.spec_failures() =~= m0.insert(key@, live_failures(m0[key@], now)));
                } else {
                    assert(self.spec_failures() =~= m0.remove(key@));
                }
            },
            None => {
                assert(self.spec_failures() =~= m0);
            },
        }
    }

    /// Drops every address's expired failures, and the addresses left without any.
    pub fn prune_login_failures(&mut self, now: i64)
        requires
            old(self).wf(),
        ensures
            final(self).wf(),
            final(self).spec_failures() == pruned_all(old(self).spec_failures(), now),
    {
        let mut fresh: StrMap<VecDeque<i64>> = StrMap::new();
        let n = self.attempts.len();
        proof {
            self.attempts.lemma_key_positions();
        }
        let ghost m = self.attempts@;
        let mut i: usize = 0;
        while i < n
            invariant
                self.attempts.wf(),
                self.attempts@ == m,
                n == self.attempts.spec_len(),
                n <= LOGIN_FAILURE_KEY_CAPACITY,
                i <= n,
                fresh.wf(),
                fresh.spec_len() <= i,
                forall|k: Seq<char>| #[trigger] fresh@.dom().contains(k) <==> (exists|j: int|
                    0 <= j < i && self.attempts.spec_key_at(j) == k && live_failures(m[k]@, now).len() > 0),
                forall|k: Seq<char>| #[trigger] fresh@.dom().contains(k) ==> fresh@[k]@ == live_failures(m[k]@, now),
                forall|k: Seq<char>| #[trigger] m.dom().contains(k) ==> exists|j: int|
                    0 <= j < n && self.attempts.spec_key_at(j) == k,
                forall|j: int| 0 <= j < n ==> #[trigger] m.dom().contains(self.attempts.spec_key_at(j)),
                forall|a: int, b: int|
                    0 <= a < b < n ==> self.attempts.spec_key_at(a) != self.attempts.spec_key_at(b),
            decreases n - i,
        {
            let (k, q) = self.attempts.entry_at(i);
            let mut w = copy_failures(q);
            drop_expired(&mut w, now);
            if w.len() > 0 {
                let key = k.clone();
                proof {
                    assert(!fresh@.dom().contains(key@)) by {
                        if fresh@.dom().contains(key@) {
                            let j = choose|j: int| 0 <= j < i && self.attempts.spec_key_at(j) == key@ && live_failures(m[key@]@, now).len() > 0;
                            assert(self.attempts.spec_key_at(j) != self.attempts.spec_key_at(i as int));
                        }
                    }
                }
                fresh.insert(key, w);
            }
            i = i + 1;
        }
        proof {
            assert(failure_views(fresh@) =~= pruned_all(failure_views(m), now)) by {
                assert forall|k: Seq<char>| #[trigger] pruned_all(failure_views(m), now).dom().contains(k) implies fresh@.dom().contains(k) by {
                    let j = choose|j: int| 0 <= j < n && self.attempts.spec_key_at(j) == k;
                }
            }
        }
        self.attempts = fresh;
    }
}

fn copy_failures(q: &VecDeque<i64>) -> (r: VecDeque<i64>)
    ensures
        r@ == q@,
{
    let mut r: VecDeque<i64> = VecDeque::new();
    let mut i: usize = 0;
    while i < q.len()
        invariant
            i <= q@.len(),
            r@ == q@.take(i as int),
        decreases q@.len() - i,
    {
        r.push_back(q[i]);
        assert(r@ =~= q@.take(i + 1));
        i = i + 1;
    }
    assert(q@.take(q@.len() as int) =~= q@);
    r
}

fn front_expired(q: &VecDeque<i64>, now: i64) -> (r: bool)
    ensures
        r == (q@.len() > 0 && failure_expired(q@[0], now)),
{
    if q.len() == 0 {
        false
    } else {
        (now as i128) - (q[0] as i128) > (LOGIN_FAILURE_WINDOW_SECONDS as i128)
    }
}

/// Drops the expired failures from the front.
fn drop_expired(q: &mut VecDeque<i64>, now: i64)
    ensures
        final(q)@ == live_failures(old(q)@, now),
{
    let ghost target = live_failures(q@, now);
    while front_expired(q, now)
        invariant
            live_failures(q@, now) == target,
        decreases q@.len(),
    {
        let ghost before = q@;
        let _ = q.pop_front();
        assert(q@ =~= before.drop_first());
    }
}

/// An address with the limit of failures within the window is refused.
pub proof fn lemma_limit_refuses(m: Map<Seq<char>, Seq<i64>>, key: Seq<char>, now: i64)
    requires
        m.dom().contains(key),
        live_failures(m[key], now).len() >= LOGIN_FAILURE_LIMIT,
    ensures
        login_refused(m, key, now),
{
}

/// The failure table never holds more addresses than its capacity, whatever is recorded.
pub proof fn lemma_failure_table_bounded(m: Map<Seq<char>, Seq<i64>>, key: Seq<char>, now: i64)
    requires
        m.dom().finite(),
        m.dom().len() <= LOGIN_FAILURE_KEY_CAPACITY,
    ensures
        after_failure(m, key, now).dom().finite(),
        after_failure(m, key, now).dom().len() <= LOGIN_FAILURE_KEY_CAPACITY,
{
    let m1 = pruned_key(m, key, now);
    assert(m1.dom().finite());
    assert(m1.dom().len() <= m.dom().len()) by {
        if m.dom().contains(key) {
            if live_failures(m[key], now).len() == 0 {
                assert(m1.dom() =~= m.dom().remove(key));
            } else {
                assert(m1.dom() =~= m.dom());
            }
        }
    }
    let p = prepared(m, key, now);
    if !m1.dom().contains(key) && m1.dom().len() >= LOGIN_FAILURE_KEY_CAPACITY {
        assert(p.dom().subset_of(m1.dom()));
        vstd::set_lib::lemma_len_subset(p.dom(), m1.dom());
    }
    assert(p.dom().finite());
    assert(p.dom().len() <= LOGIN_FAILURE_KEY_CAPACITY);
    if !(!p.dom().contains(key) && p.dom().len() >= LOGIN_FAILURE_KEY_CAPACITY) {
        if p.dom().contains(key) {
            assert(after_failure(m, key, now).dom() =~= p.dom());
        } else {
            assert(after_failure(m, key, now).dom() =~= p.dom().insert(key));
        }
    }
}


/// What the sign-in learns at one of its steps.
#[derive(Debug)]
pub enum LoginEvent {
    /// No administrator has the given name.
    AdminMissing,
    /// The password was checked against the stored hash.
    PasswordChecked(Result<(), AppError>),
    /// The session was created, or refused because the password changed meanwhile.
    SessionCreated(bool),
}

/// What the sign-in does after a step: whether it counts a failure against the address,
/// clears the address's failures, and goes on; or the error it answers with.
#[derive(Debug)]
pub struct LoginDecision {
    pub record_failure: bool,
    pub clear_failures: bool,
    pub error: Option<AppError>,
}

/// The sign-in's decision after a step: an unknown name, a wrong password and a session
/// refused each count as a failure and answer `invalid username or password` (a wrong
/// password with the password check's own unauthorized error); a failed check for another reason
/// answers with its error without counting; a created session clears the failures.
pub fn login_decision(event: LoginEvent) -> (r: LoginDecision)
    ensures
        match event {
            LoginEvent::AdminMissing => r.record_failure && !r.clear_failures && (r.error matches Some(
                AppError::Unauthorized(m),
            ) && m@ == "invalid username or password"@),
            LoginEvent::PasswordChecked(Ok(())) => !r.record_failure && !r.clear_failures
                && r.error is None,
            LoginEvent::PasswordChecked(Err(e)) => r.record_failure == (e is Unauthorized)
                && !r.clear_failures && r.error == Some(e),
            LoginEvent::SessionCreated(created) => if created {
                !r.record_failure && r.clear_failures && r.error is None
            } else {
                r.record_failure && !r.clear_failures && (r.error matches Some(AppError::Unauthorized(m))
                    && m@ == "invalid username or password"@)
            },
        },
{
    match event {
        LoginEvent::AdminMissing => LoginDecision {
            record_failure: true,
            clear_failures: false,
            error: Some(AppError::Unauthorized(String::from_str("invalid username or password"))),
        },
        LoginEvent::PasswordChecked(Ok(())) => LoginDecision {
            record_failure: false,
            clear_failures: false,
            error: None,
        },
        LoginEvent::PasswordChecked(Err(e)) => {
            let unauthorized = match &e {
                AppError::Unauthorized(_) => true,
                _ => false,
            };
            LoginDecision { record_failure: unauthorized, clear_failures: false, error: Some(e) }
        },
        LoginEvent::SessionCreated(created) => if created {
            LoginDecision { record_failure: false, clear_failures: true, error: None }
        } else {
            LoginDecision {
                record_failure: true,
                clear_failures: false,
                error: Some(AppError::Unauthorized(String::from_str("invalid username or password"))),
            }
        },
    }
}

/// A new password must not be empty.
pub fn check_new_password(new_password: &str) -> (r: Result<(), AppError>)
    ensures
        r is Ok <==> new_password@.len() > 0,
        r matches Err(e) ==> (e matches AppError::Validation(m) && m@ == "new password cannot be empty"@),
{
    if new_password.unicode_len() == 0 {
        Err(AppError::Validation(String::from_str("new password cannot be empty")))
    } else {
        Ok(())
    }
}

/// The answer to the check of the current password when changing it: a rejected password is
/// a validation error (`current password is incorrect`), any other failure stays as it is.
pub fn current_password_outcome(check: Result<(), AppError>) -> (r: Result<(), AppError>)
    ensures
        match check {
            Ok(()) => r is Ok,
            Err(AppError::Unauthorized(_)) => (r matches Err(AppError::Validation(m)) && m@
                == "current password is incorrect"@),
            Err(e) => r == Err::<(), AppError>(e),
        },
{
    match check {
        Ok(()) => Ok(()),
        Err(AppError::Unauthorized(_)) => Err(
            AppError::Validation(String::from_str("current password is incorrect")),
        ),
        Err(e) => Err(e),
    }
}

/// The sign-in step that checks the password against the administrator's stored hash, as
/// [`login_decision`] takes it.
pub fn password_check_event(password: &str, password_hash: &str) -> (r: LoginEvent)
    ensures
        r matches LoginEvent::PasswordChecked(res) && match argon2_check_of(password@, password_hash@) {
            Err(e) => res matches Err(AppError::Internal(m)) && m@ == "invalid password hash: "@ + e,
            Ok(true) => res is Ok,
            Ok(false) => res matches Err(AppError::Unauthorized(m)) && m@ == "invalid username or password"@,
        },
{
    LoginEvent::PasswordChecked(verify_password(password, password_hash))
}

/// The check of the current password when changing it (see [`current_password_outcome`]): a
/// password that does not match is `current password is incorrect`, a stored hash that
/// cannot be read stays an internal error.
pub fn check_current_password(current: &str, password_hash: &str) -> (r: Result<(), AppError>)
    ensures
        match argon2_check_of(current@, password_hash@) {
            Err(e) => r matches Err(AppError::Internal(m)) && m@ == "invalid password hash: "@ + e,
            Ok(true) => r is Ok,
            Ok(false) => r matches Err(AppError::Validation(m)) && m@ == "current password is incorrect"@,
        },
{
    current_password_outcome(verify_password(current, password_hash))
}

} // verus!
