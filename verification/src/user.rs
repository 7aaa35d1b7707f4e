//! User records and the user store.
//!
//! A user is created once at registration and never deleted. The store
//! enforces that ids and emails are unique; the password field holds only
//! the bcrypt hash of the password, never the plaintext.

use crate::access_token;
use crate::access_token::TokenClaims;
use crate::str_eq;
use vstd::prelude::*;

verus! {

/// Mathematical image of a stored user record.
pub ghost struct UserView {
    pub id: int,
    pub email: Seq<char>,
    pub access_token: Option<Seq<char>>,
    /// The bcrypt hash of the user's password, never the plaintext.
    pub password: Seq<char>,
}

/// A user record.
pub struct User {
    pub id: i32,
    pub email: String,
    pub access_token: Option<String>,
    password: String,
}

impl View for User {
    type V = UserView;

    closed spec fn view(&self) -> UserView {
        UserView {
            id: self.id as int,
            email: self.email@,
            access_token: match self.access_token {
                Some(t) => Some(t@),
                None => None,
            },
            password: self.password@,
        }
    }
}

impl Clone for User {
    fn clone(&self) -> (r: Self)
        ensures
            r@ == self@,
    {
        let access_token = match &self.access_token {
            Some(t) => Some(t.clone()),
            None => None,
        };
        User { id: self.id, email: self.email.clone(), access_token, password: self.password.clone() }
    }
}

/// All user ids in `s` are distinct.
pub open spec fn user_ids_unique(s: Seq<UserView>) -> bool {
    forall|i: int, j: int| 0 <= i < j < s.len() ==> s[i].id != s[j].id
}

/// All user emails in `s` are distinct.
pub open spec fn user_emails_unique(s: Seq<UserView>) -> bool {
    forall|i: int, j: int| 0 <= i < j < s.len() ==> s[i].email != s[j].email
}

/// The well-formedness every reachable user store satisfies, seen on its
/// contents: unique ids, unique non-empty emails, positive ids.
pub open spec fn users_wf(s: Seq<UserView>) -> bool {
    &&& user_ids_unique(s)
    &&& user_emails_unique(s)
    &&& forall|i: int| 0 <= i < s.len() ==> (#[trigger] s[i]).id >= 1 && s[i].email.len() >= 1
}

/// The `Authorization` header carries the `Bearer ` scheme followed by a
/// credential.
pub open spec fn header_well_formed(header: Seq<char>) -> bool {
    header.len() >= 7 && header.subrange(0, 7) == "Bearer "@
}

/// The credential a well-formed `Authorization` header carries: everything
/// after the scheme.
pub open spec fn bearer_token_of(header: Seq<char>) -> Seq<char> {
    header.skip(7)
}

/// Some user in `s` has this email.
pub open spec fn has_user_with_email(s: Seq<UserView>, email: Seq<char>) -> bool {
    exists|i: int| 0 <= i < s.len() && (#[trigger] s[i]).email == email
}

/// Some user in `s` holds this access credential.
pub open spec fn has_user_with_token(s: Seq<UserView>, token: Seq<char>) -> bool {
    exists|i: int| 0 <= i < s.len() && (#[trigger] s[i]).access_token == Some(token)
}

/// Why a registration was refused.
#[derive(Clone, Copy, Debug, PartialEq, Eq, Structural)]
pub enum CreateUserError {
    /// The email is already registered.
    AlreadyExists,
    /// The registration parameters were rejected before reaching the core.
    InvalidAttributes,
    /// The store could not complete the write.
    DBWrite,
    /// The credential signer failed.
    TokenError,
    /// The password hasher failed.
    HashError,
}

/// The human-readable message for each registration error.
pub open spec fn spec_create_user_error_message(e: CreateUserError) -> Seq<char> {
    match e {
        CreateUserError::AlreadyExists => "Email is in use"@,
        CreateUserError::InvalidAttributes => "Attributes are invalid"@,
        CreateUserError::DBWrite => "There was an error writing to the databse"@,
        CreateUserError::TokenError => "Unable to create token"@,
        CreateUserError::HashError => "Unable to hash the password"@,
    }
}

impl CreateUserError {
    /// A short human-readable message; never store-engine error text.
    pub fn message(self) -> (r: &'static str)
        ensures
            r@ == spec_create_user_error_message(self),
    {
        match self {
            CreateUserError::AlreadyExists => "Email is in use",
            CreateUserError::InvalidAttributes => "Attributes are invalid",
            CreateUserError::DBWrite => "There was an error writing to the databse",
            CreateUserError::TokenError => "Unable to create token",
            CreateUserError::HashError => "Unable to hash the password",
        }
    }
}

/// The uniform authentication failure: every failed login or failed
/// credential resolution collapses to this one value, so a caller cannot
/// tell which check failed.
#[derive(Clone, Copy, Debug, PartialEq, Eq, Structural)]
pub enum AuthenticationError {
    InvalidCredentials,
}

/// What bcrypt verification of a plaintext against a stored hash yields:
/// a match or not, or `Err` when the stored hash is malformed. It depends
/// on the plaintext and the hash alone, so this is a pure function of both.
pub uninterp spec fn bcrypt_check(password: Seq<char>, hash: Seq<char>) -> Result<bool, ()>;

/// The plaintext reproduces the hash. Any verification error counts as a
/// non-match: the check fails closed.
pub open spec fn password_matches(password: Seq<char>, hash: Seq<char>) -> bool {
    bcrypt_check(password, hash) == Ok::<bool, ()>(true)
}

/// Relies on bcrypt::verify: parses the hash, re-derives it from the
/// plaintext with the salt and cost the hash carries, and compares; a
/// deterministic function of its two arguments, `Err` only on a malformed
/// hash, never panicking.
#[verifier::external_body]
fn bcrypt_verify(password: &str, hash: &str) -> (r: Result<bool, ()>)
    ensures
        r == bcrypt_check(password@, hash@),
{
    match bcrypt::verify(password, hash) {
        Ok(b) => Ok(b),
        Err(_) => Err(()),
    }
}

/// Relies on bcrypt::hash with DEFAULT_COST: a salted one-way hash whose
/// salt is drawn fresh, so two calls may differ; but every hash it returns
/// verifies against the password it was derived from. `Err` only when the
/// system's randomness source fails; never panics.
#[verifier::external_body]
fn bcrypt_hash(password: &str) -> (r: Result<String, ()>)
    ensures
        r is Ok ==> password_matches(password@, (r->Ok_0)@),
{
    match bcrypt::hash(password, bcrypt::DEFAULT_COST) {
        Ok(h) => Ok(h),
        Err(_) => Err(()),
    }
}

/// Persistence for user records. Ids are assigned by the store, starting
/// at 1 and increasing; emails are checked for uniqueness before insert.
pub struct UserStore {
    users: Vec<User>,
    next_id: i32,
}

impl View for UserStore {
    type V = Seq<UserView>;

    closed spec fn view(&self) -> Seq<UserView> {
        self.users@.map_values(|u: User| u@)
    }
}

impl UserStore {
    /// Well-formedness: the contents satisfy `users_wf`, and every stored id
    /// is below the next id the store will assign.
    pub closed spec fn wf(&self) -> bool {
        &&& users_wf(self@)
        &&& self.next_id >= 1
        &&& forall|i: int| 0 <= i < self@.len() ==> (#[trigger] self@[i]).id < self.next_id
    }

    /// Whether the store can still assign a fresh id.
    pub closed spec fn id_available(&self) -> bool {
        self.next_id < i32::MAX
    }

    /// A well-formed store satisfies `users_wf` on its contents.
    pub proof fn wf_contents(&self)
        requires
            self.wf(),
        ensures
            users_wf(self@),
    {
    }

    /// An empty store.
    pub fn new() -> (r: UserStore)
        ensures
            r.wf(),
            r@ == Seq::<UserView>::empty(),
            r.id_available(),
    {
        let r = UserStore { users: Vec::new(), next_id: 1 };
        proof {
            assert(r@ =~= Seq::<UserView>::empty());
        }
        r
    }

    /// An empty store that will assign ids starting at `next_id`, as when
    /// resuming from a persisted id counter.
    pub fn new_with_next_id(next_id: i32) -> (r: UserStore)
        requires
            next_id >= 1,
        ensures
            r.wf(),
            r@ == Seq::<UserView>::empty(),
            r.id_available() == (next_id < i32::MAX),
    {
        let r = UserStore { users: Vec::new(), next_id };
        proof {
            assert(r@ =~= Seq::<UserView>::empty());
        }
        r
    }

    /// Inserts a new user, assigning a fresh id. The email must be free:
    /// a taken email is refused as `AlreadyExists`, exhausted ids as
    /// `DBWrite`; on either refusal the store is unchanged.
    pub fn insert(&mut self, email: &str, password_hash: &str, access_token: &str) -> (r: Result<
        User,
        CreateUserError,
    >)
        requires
            old(self).wf(),
            email@.len() >= 1,
        ensures
            final(self).wf(),
            r is Ok <==> (!has_user_with_email(old(self)@, email@) && old(self).id_available()),
            r matches Err(e) ==> *final(self) == *old(self) && (e == CreateUserError::AlreadyExists
                <==> has_user_with_email(old(self)@, email@)) && (e == CreateUserError::AlreadyExists
                || e == CreateUserError::DBWrite),
            r matches Ok(u) ==> ({
                &&& final(self)@ == old(self)@.push(u@)
                &&& u@.email == email@
                &&& u@.password == password_hash@
                &&& u@.access_token == Some(access_token@)
                &&& u@.id >= 1
                &&& forall|k: int|
                    0 <= k < old(self)@.len() ==> (#[trigger] old(self)@[k]).id != u@.id
            }),
    {
        if let Some(_) = User::get_by_email(email, self) {
            return Err(CreateUserError::AlreadyExists);
        }
        if self.next_id == i32::MAX {
            return Err(CreateUserError::DBWrite);
        }
        let id = self.next_id;
        self.next_id = self.next_id + 1;
        let u = User {
            id,
            email: email.to_owned(),
            access_token: Some(access_token.to_owned()),
            password: password_hash.to_owned(),
        };
        let result = u.clone();
        self.users.push(u);
        proof {
            assert(self@ =~= old(self)@.push(result@));
        }
        Ok(result)
    }
}

impl User {
    /// The stored password hash; the plaintext is never stored.
    pub fn password(&self) -> (r: &str)
        ensures
            r@ == self@.password,
    {
        &self.password
    }

    /// Whether `other_password` is this user's password. A verification
    /// error counts as a non-match: the check fails closed.
    pub fn verify_password(&self, other_password: &str) -> (r: bool)
        ensures
            r == password_matches(other_password@, self@.password),
    {
        match bcrypt_verify(other_password, self.password.as_str()) {
            Ok(pw_match) => pw_match,
            Err(_) => false,
        }
    }

    /// Registers a user: hashes the password, mints an access credential
    /// bound to `email`, and inserts the record. Any failure leaves the
    /// store unchanged — a user is never persisted without a credential.
    /// The email and password reach the core pre-validated, hence non-empty.
    /// The credential expires at `exp` and is signed under `key`, both
    /// supplied by the host's configuration.
    pub fn create(conn: &mut UserStore, email: &str, password: &str, exp: u64, key: &str) -> (r:
        Result<User, CreateUserError>)
        requires
            old(conn).wf(),
            email@.len() >= 1,
            password@.len() >= 1,
        ensures
            final(conn).wf(),
            r matches Ok(u) ==> ({
                &&& !has_user_with_email(old(conn)@, email@)
                &&& old(conn).id_available()
                &&& final(conn)@ == old(conn)@.push(u@)
                &&& u@.email == email@
                &&& password_matches(password@, u@.password)
                &&& u@.access_token matches Some(t) && access_token::jwt_claims_of(t, key@)
                    == Some((email@, access_token::spec_company(), exp))
                &&& u@.id >= 1
                &&& forall|k: int|
                    0 <= k < old(conn)@.len() ==> (#[trigger] old(conn)@[k]).id != u@.id
            }),
            r is Err ==> *final(conn) == *old(conn),
            r matches Err(e) ==> (e == CreateUserError::AlreadyExists <==> has_user_with_email(
                old(conn)@,
                email@,
            )) && (e == CreateUserError::DBWrite ==> !old(conn).id_available()) && e
                != CreateUserError::InvalidAttributes && e != CreateUserError::TokenError,
    {
        if let Some(_) = User::get_by_email(email, conn) {
            return Err(CreateUserError::AlreadyExists);
        }
        let hashed_pw = match bcrypt_hash(password) {
            Ok(h) => h,
            Err(_) => {
                return Err(CreateUserError::HashError);
            },
        };
        let token = match access_token::create(email, exp, key) {
            Ok(t) => t,
            Err(_) => {
                return Err(CreateUserError::TokenError);
            },
        };
        conn.insert(email, hashed_pw.as_str(), token.as_str())
    }

    /// The user with this email, if any; `None` exactly when no stored
    /// user has it.
    pub fn get_by_email(email: &str, conn: &UserStore) -> (r: Option<User>)
        ensures
            r matches Some(u) ==> conn@.contains(u@) && u@.email == email@,
            r is None <==> !has_user_with_email(conn@, email@),
    {
        let n = conn.users.len();
        let mut i: usize = 0;
        while i < n
            invariant
                n == conn.users.len(),
                i <= n,
                conn@.len() == n,
                forall|k: int| 0 <= k < i ==> (#[trigger] conn@[k]).email != email@,
            decreases n - i,
        {
            proof {
                assert(conn@[i as int] == conn.users@[i as int]@);
            }
            if str_eq(conn.users[i].email.as_str(), email) {
                let u = conn.users[i].clone();
                return Some(u);
            }
            i += 1;
        }
        None
    }

    /// The decision core of the Identity Resolver, taking the outcome of
    /// credential decoding as an argument: the caller is the user whose
    /// email is the credential's subject claim — exactly when the claims
    /// were recovered, carry the fixed issuer claim, and the subject's
    /// stored record holds this very credential. Deterministic in all its
    /// arguments, with the same uniform error on every failure.
    pub fn resolve_claims(token: &str, claims: Option<TokenClaims>, db: &UserStore) -> (r: Result<
        User,
        AuthenticationError,
    >)
        requires
            db.wf(),
        ensures
            r matches Ok(u) ==> ({
                &&& db@.contains(u@)
                &&& u@.access_token == Some(token@)
                &&& claims matches Some(c) && u@.email == c.sub@ && c.company@
                    == access_token::spec_company()
            }),
            r is Ok <==> (claims matches Some(c) && c.company@ == access_token::spec_company()
                && exists|i: int|
                0 <= i < db@.len() && (#[trigger] db@[i]).email == c.sub@ && db@[i].access_token
                    == Some(token@)),
    {
        let c = match claims {
            Some(c) => c,
            None => {
                return Err(AuthenticationError::InvalidCredentials);
            },
        };
        if !str_eq(c.company.as_str(), access_token::company()) {
            return Err(AuthenticationError::InvalidCredentials);
        }
        let user = match User::get_by_email(c.sub.as_str(), db) {
            Some(u) => u,
            None => {
                return Err(AuthenticationError::InvalidCredentials);
            },
        };
        proof {
            let j = choose|j: int| 0 <= j < db@.len() && db@[j] == user@;
            assert forall|i: int|
                0 <= i < db@.len() && (#[trigger] db@[i]).email == c.sub@ implies db@[i]
                == user@ by {
                assert(db@[i].email == db@[j].email);
                assert(i == j);
            }
        }
        let held = match &user.access_token {
            Some(t) => str_eq(t.as_str(), token),
            None => false,
        };
        if held {
            Ok(user)
        } else {
            Err(AuthenticationError::InvalidCredentials)
        }
    }

    /// Resolves the identity behind an `Authorization` header: strips the
    /// `Bearer ` scheme, decodes the credential (signature, expiry), and
    /// hands the recovered claims to `resolve_claims`, which checks the
    /// issuer claim and that the subject's stored record holds this very
    /// credential. Every failure — missing header, malformed scheme, bad
    /// signature, expired or foreign claims, no matching user — yields the
    /// same uniform error.
    pub fn from_request(header: Option<&str>, db: &UserStore, key: &str) -> (r: Result<
        User,
        AuthenticationError,
    >)
        requires
            db.wf(),
        ensures
            r matches Ok(u) ==> ({
                &&& header matches Some(h) && header_well_formed(h@)
                &&& db@.contains(u@)
                &&& u@.access_token == Some(bearer_token_of(header->Some_0@))
                &&& access_token::jwt_claims_of(bearer_token_of(header->Some_0@), key@)
                    matches Some(c) && c.0 == u@.email && c.1 == access_token::spec_company()
            }),
            header is None ==> r is Err,
            header matches Some(h) && !header_well_formed(h@) ==> r is Err,
            header matches Some(h) && access_token::jwt_claims_of(bearer_token_of(h@), key@)
                is None ==> r is Err,
    {
        let h = match header {
            Some(h) => h,
            None => {
                return Err(AuthenticationError::InvalidCredentials);
            },
        };
        let n = h.unicode_len();
        if n < 7 {
            return Err(AuthenticationError::InvalidCredentials);
        }
        let scheme = h.substring_char(0, 7);
        if !str_eq(scheme, "Bearer ") {
            return Err(AuthenticationError::InvalidCredentials);
        }
        let token = h.substring_char(7, n);
        proof {
            assert(token@ =~= bearer_token_of(h@));
        }
        let claims = access_token::decode_claims(token, key);
        User::resolve_claims(token, claims, db)
    }

    /// Authenticates an email/password pair: the user is returned exactly
    /// when a stored user has this email and the password reproduces the
    /// stored hash. Every failure — empty field, unknown email, wrong
    /// password — yields the same uniform error.
    pub fn login(db: &UserStore, email: &str, password: &str) -> (r: Result<
        User,
        AuthenticationError,
    >)
        requires
            db.wf(),
        ensures
            r matches Ok(u) ==> db@.contains(u@) && u@.email == email@ && password_matches(
                password@,
                u@.password,
            ),
            r is Ok <==> (email@.len() > 0 && password@.len() > 0 && exists|i: int|
                0 <= i < db@.len() && (#[trigger] db@[i]).email == email@ && password_matches(
                    password@,
                    db@[i].password,
                )),
    {
        if password.unicode_len() == 0 || email.unicode_len() == 0 {
            return Err(AuthenticationError::InvalidCredentials);
        }
        let user = match User::get_by_email(email, db) {
            None => {
                return Err(AuthenticationError::InvalidCredentials);
            },
            Some(u) => u,
        };
        if user.verify_password(password) {
            proof {
                let j = choose|j: int| 0 <= j < db@.len() && db@[j] == user@;
                assert(db@[j].email == email@ && password_matches(password@, db@[j].password));
            }
            Ok(user)
        } else {
            proof {
                let j = choose|j: int| 0 <= j < db@.len() && db@[j] == user@;
                assert forall|i: int|
                    0 <= i < db@.len() && (#[trigger] db@[i]).email
                        == email@ implies !password_matches(password@, db@[i].password) by {
                    assert(db@[i].email == db@[j].email);
                    assert(i == j);
                }
            }
            Err(AuthenticationError::InvalidCredentials)
        }
    }

    /// The user holding this access credential, if any; `None` exactly
    /// when no stored user holds it.
    pub fn get_by_access_token(token: &str, conn: &UserStore) -> (r: Option<User>)
        ensures
            r matches Some(u) ==> conn@.contains(u@) && u@.access_token == Some(token@),
            r is None <==> !has_user_with_token(conn@, token@),
    {
        let n = conn.users.len();
        let mut i: usize = 0;
        while i < n
            invariant
                n == conn.users.len(),
                i <= n,
                conn@.len() == n,
                forall|k: int| 0 <= k < i ==> (#[trigger] conn@[k]).access_token != Some(token@),
            decreases n - i,
        {
            proof {
                assert(conn@[i as int] == conn.users@[i as int]@);
            }
            match &conn.users[i].access_token {
                Some(t) => {
                    if str_eq(t.as_str(), token) {
                        let u = conn.users[i].clone();
                        return Some(u);
                    }
                },
                None => {},
            }
            i += 1;
        }
        None
    }
}

/// LAW: authentication failures are uniform — the failure type has a single
/// value, so no failed login or failed credential resolution can reveal
/// which check rejected the request.
pub proof fn lemma_uniform_auth_failure(e1: AuthenticationError, e2: AuthenticationError)
    ensures
        e1 == e2,
{
}

/// LAW: a successful registration takes its email — after the store grew by
/// the new user, a user with that email stands in it.
pub proof fn lemma_registration_takes_email(pre: Seq<UserView>, post: Seq<UserView>, u: UserView)
    requires
        post == pre.push(u),
    ensures
        has_user_with_email(post, u.email),
{
    assert(post[pre.len() as int].email == u.email);
}

/// LAW: a taken email stays taken — whatever later registrations add to the
/// store, a user with that email still stands in it. Together with
/// `lemma_registration_takes_email` and the contract of `User::create`
/// (`AlreadyExists` exactly when the email is taken, with no mention of the
/// password), registering an email twice fails the second time with
/// `AlreadyExists`, regardless of the password offered.
pub proof fn lemma_email_stays_taken(s: Seq<UserView>, v: UserView, email: Seq<char>)
    requires
        has_user_with_email(s, email),
    ensures
        has_user_with_email(s.push(v), email),
{
    let i = choose|i: int| 0 <= i < s.len() && (#[trigger] s[i]).email == email;
    assert(s.push(v)[i].email == email);
}

/// LAW: a credential authenticates exactly the user it was issued to.
/// `User::create` issues `u` a credential whose subject claim is `u`'s
/// email; `User::from_request` returns only a stored user whose email
/// equals the credential's subject claim. Emails being unique, any user
/// that resolution returns for that credential is `u` itself — resolution
/// can never yield another user.
pub proof fn lemma_credential_authenticates_owner(
    s: Seq<UserView>,
    u: UserView,
    v: UserView,
    t: Seq<char>,
    key: Seq<char>,
)
    requires
        user_emails_unique(s),
        s.contains(u),
        // the credential `t` was issued to `u`: its subject claim is u's email
        crate::access_token::jwt_claims_of(t, key) matches Some(c) && c.0 == u.email,
        // what resolution guarantees of any user `v` it returns for `t`
        s.contains(v),
        crate::access_token::jwt_claims_of(t, key) matches Some(c) && c.0 == v.email,
    ensures
        v == u,
{
    let i = choose|i: int| 0 <= i < s.len() && s[i] == u;
    let j = choose|j: int| 0 <= j < s.len() && s[j] == v;
    assert(u.email == v.email);
    assert(i == j);
}

/// LAW: a credential issued at registration does authenticate its owner —
/// a stored user holding a credential whose subject claim is its own email
/// satisfies the success condition of `User::resolve_claims`, so resolution
/// with the recovered claims returns `Ok`. (The one thing outside this law
/// is the clock: decoding itself refuses a credential past its expiry.)
pub proof fn lemma_fresh_credential_resolves(
    s: Seq<UserView>,
    u: UserView,
    t: Seq<char>,
    key: Seq<char>,
    exp: u64,
)
    requires
        s.contains(u),
        u.access_token == Some(t),
        crate::access_token::jwt_claims_of(t, key) == Some(
            (u.email, crate::access_token::spec_company(), exp),
        ),
    ensures
        exists|i: int|
            0 <= i < s.len() && (#[trigger] s[i]).email == u.email && s[i].access_token == Some(t),
{
    let i = choose|i: int| 0 <= i < s.len() && s[i] == u;
    assert(s[i].email == u.email && s[i].access_token == Some(t));
}

} // verus!
