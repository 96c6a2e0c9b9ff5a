//! What the SSH server decides: who may log in, what registering and adding
//! keys come to, and how large a terminal may be. The connection itself, the
//! database and the clock are elsewhere; their answers come in as arguments.

use vstd::prelude::*;

use crate::auth;
use crate::auth::{hash_password, parse_public_key, validate_password, validate_username};
use crate::auth::verify_password;
use crate::boards::INTERNAL_ERROR;
use crate::chars;
use crate::chars::{cat2, cat3, same, same_ignoring_case, size_text};
use crate::db::{Account, DbError, KeyRecord, UserRecord, MAX_KEYS_PER_USER};
use crate::state::{ConnectionGuard, Event, Identity, IpAddr, Limiter, Limits, Role, Subject};
use crate::state::MAX_CONNECTIONS_PER_IP;
use crate::ui::paint::Rect;
use crate::ui::protocol;
use crate::ui::protocol::{KeyInfo, Response};

verus! {

pub const GUEST_USER: &'static str = "guest";

/// Sanity bounds, in bytes, so absurd credentials are rejected before any
/// real work.
pub const MAX_SSH_USER_LEN: usize = 64;

pub const MAX_SSH_PASSWORD_LEN: usize = 1024;

pub const MAX_TERMINAL_DIM: u32 = 500;

/// What the server remembers of one SSH connection.
pub struct Connection {
    pub peer_ip: Option<IpAddr>,
    /// Too many simultaneous connections from this address; refuse to auth.
    pub over_limit: bool,
    /// Set once SSH authentication succeeds; changes when a guest registers.
    pub identity: Option<Identity>,
}

/// What comes of credentials before anything is looked up.
pub enum Attempt {
    /// The connection is closed.
    Drop,
    /// Refused without a look, and not counted.
    Reject,
    /// The outcome is known.
    Decided(Option<Identity>),
    /// The account has to be looked up.
    LookUp,
}

impl Connection {
    /// A client has connected; the guard holds its address's slot.
    pub fn new_client(limiter: &mut Limiter, peer_ip: Option<IpAddr>) -> (r: (
        Connection,
        Option<ConnectionGuard>,
    ))
        requires
            old(limiter).wf(),
        ensures
            final(limiter).wf(),
            r.0.peer_ip == peer_ip,
            r.0.identity is None,
            match peer_ip {
                None => !r.0.over_limit && r.1 is None && final(limiter)@ == old(limiter)@,
                Some(ip) => {
                    &&& r.0.over_limit <==> old(limiter)@.connections_of(ip)
                        >= MAX_CONNECTIONS_PER_IP
                    &&& r.0.over_limit ==> r.1 is None && final(limiter)@ == old(limiter)@
                    &&& !r.0.over_limit ==> (r.1 matches Some(guard) && guard.addr()
                        == ip.bucketed() && final(limiter)@ == old(limiter)@.connected(ip))
                },
            },
    {
        let guard = match peer_ip {
            Some(ip) => limiter.connect(ip),
            None => None,
        };
        let over_limit = peer_ip.is_some() && guard.is_none();
        (Connection { peer_ip, over_limit, identity: None }, guard)
    }

    /// The address has failed to log in too often.
    pub open spec fn throttled(&self, limits: Limits, now: u64) -> bool {
        self.peer_ip matches Some(ip) && !limits.under_limit(
            Subject::Ip(ip.bucketed()),
            Event::AuthFailure,
            now,
        )
    }

    fn auth_throttled(&self, limiter: &Limiter, now: u64) -> (r: bool)
        requires
            limiter.wf(),
        ensures
            r == self.throttled(limiter@, now),
    {
        match self.peer_ip {
            Some(ip) => !limiter.allowed(Subject::ip(ip), Event::AuthFailure, now),
            None => false,
        }
    }

    /// The limits once a failed login from this address has been counted.
    pub open spec fn noted(&self, limits: Limits, now: u64) -> Limits {
        match self.peer_ip {
            Some(ip) => limits.recorded(Subject::Ip(ip.bucketed()), Event::AuthFailure, now),
            None => limits,
        }
    }

    fn note_auth_failure(&self, limiter: &mut Limiter, now: u64)
        requires
            old(limiter).wf(),
        ensures
            final(limiter)@ == self.noted(old(limiter)@, now),
            final(limiter).wf(),
    {
        if let Some(ip) = self.peer_ip {
            limiter.record(Subject::ip(ip), Event::AuthFailure, now);
        }
    }

    /// The account has been looked up (or was not needed): the session is
    /// accepted as `identity`, or the failure is counted.
    pub fn finish_auth(
        &mut self,
        limiter: &mut Limiter,
        identity: Option<Identity>,
        now: u64,
    ) -> (r: bool)
        requires
            old(limiter).wf(),
        ensures
            r == identity.is_some(),
            final(self).peer_ip == old(self).peer_ip,
            final(self).over_limit == old(self).over_limit,
            final(self).identity == (if r {
                identity
            } else {
                old(self).identity
            }),
            final(limiter)@ == (if r {
                old(limiter)@
            } else {
                old(self).noted(old(limiter)@, now)
            }),
            final(limiter).wf(),
    {
        match identity {
            Some(identity) => {
                self.identity = Some(identity);
                true
            },
            None => {
                self.note_auth_failure(limiter, now);
                false
            },
        }
    }

    /// What comes of a name and a password. `guest_password` is `None` where
    /// the guest account is disabled.
    pub open spec fn password_attempt(
        &self,
        limits: Limits,
        guest_password: Option<Seq<char>>,
        user: Seq<char>,
        password: Seq<char>,
        now: u64,
    ) -> Attempt {
        if self.over_limit {
            Attempt::Drop
        } else if bytes(user) > MAX_SSH_USER_LEN || bytes(password) > MAX_SSH_PASSWORD_LEN
            || self.throttled(limits, now) {
            Attempt::Reject
        } else if guest_name(user) {
            Attempt::Decided(
                if guest_password == Some(password) {
                    Some(Identity::Guest)
                } else {
                    None
                },
            )
        } else {
            Attempt::LookUp
        }
    }

    pub fn auth_password(
        &self,
        limiter: &Limiter,
        guest_password: &Option<String>,
        user: &str,
        password: &str,
        now: u64,
    ) -> (r: Attempt)
        requires
            limiter.wf(),
        ensures
            r == self.password_attempt(limiter@, protocol::text_of(*guest_password), user@, password@, now),
    {
        if self.over_limit {
            return Attempt::Drop;
        }
        if user.as_bytes().len() > MAX_SSH_USER_LEN || password.as_bytes().len()
            > MAX_SSH_PASSWORD_LEN || self.auth_throttled(limiter, now) {
            return Attempt::Reject;
        }
        if same_ignoring_case(user, GUEST_USER) {
            let known = match guest_password {
                Some(expected) => same(expected, password),
                None => false,
            };
            Attempt::Decided(
                if known {
                    Some(Identity::Guest)
                } else {
                    None
                },
            )
        } else {
            Attempt::LookUp
        }
    }

    /// What comes of a name and a key. Guests have no keys.
    pub open spec fn key_attempt(&self, limits: Limits, user: Seq<char>, now: u64) -> Attempt {
        if self.over_limit {
            Attempt::Drop
        } else if bytes(user) > MAX_SSH_USER_LEN || self.throttled(limits, now) {
            Attempt::Reject
        } else if guest_name(user) {
            Attempt::Decided(None)
        } else {
            Attempt::LookUp
        }
    }

    /// Both for a key that is only offered and for one that was signed with.
    pub fn auth_publickey(&self, limiter: &Limiter, user: &str, now: u64) -> (r: Attempt)
        requires
            limiter.wf(),
        ensures
            r == self.key_attempt(limiter@, user@, now),
    {
        if self.over_limit {
            return Attempt::Drop;
        }
        if user.as_bytes().len() > MAX_SSH_USER_LEN || self.auth_throttled(limiter, now) {
            return Attempt::Reject;
        }
        if same_ignoring_case(user, GUEST_USER) {
            Attempt::Decided(None)
        } else {
            Attempt::LookUp
        }
    }

    pub open spec fn account_id(&self) -> Option<i64> {
        match self.identity {
            Some(identity) => identity.account_id(),
            None => None,
        }
    }

    pub fn user_id(&self) -> (r: Option<i64>)
        ensures
            r == self.account_id(),
    {
        match &self.identity {
            Some(identity) => identity.user_id(),
            None => None,
        }
    }

    // ------------------------------------------------------- registering

    /// Why this session may not register `username`, if it may not.
    pub open spec fn registration(
        &self,
        limits: Limits,
        username: Seq<char>,
        password: Seq<char>,
        now: u64,
    ) -> Result<(), Seq<char>> {
        if self.identity != Some(Identity::Guest) {
            Err("You already have an account."@)
        } else if let Err(e) = auth::username_verdict(username) {
            Err(e)
        } else if let Err(e) = auth::password_verdict(username, password) {
            Err(e)
        } else if self.peer_ip matches Some(ip) && !limits.under_limit(
            Subject::Ip(ip.bucketed()),
            Event::Registration,
            now,
        ) {
            Err("Too many registrations from your address. Try again later."@)
        } else {
            Ok(())
        }
    }

    /// A guest wants an account. The UI validates too, but the client side is
    /// never trusted with anything.
    pub fn register(
        &self,
        limiter: &mut Limiter,
        username: &str,
        password: &str,
        now: u64,
    ) -> (r: Result<(), String>)
        requires
            old(limiter).wf(),
        ensures
            auth::verdict(r) == self.registration(old(limiter)@, username@, password@, now),
            final(limiter)@ == match (r, self.peer_ip) {
                (Ok(()), Some(ip)) => old(limiter)@.recorded(
                    Subject::Ip(ip.bucketed()),
                    Event::Registration,
                    now,
                ),
                _ => old(limiter)@,
            },
            final(limiter).wf(),
    {
        match &self.identity {
            Some(Identity::Guest) => {},
            _ => return Err("You already have an account.".to_owned()),
        }
        if let Err(e) = validate_username(username) {
            return Err(e);
        }
        if let Err(e) = validate_password(username, password) {
            return Err(e);
        }
        if let Some(ip) = self.peer_ip {
            if !limiter.allowed(Subject::ip(ip), Event::Registration, now) {
                return Err(
                    "Too many registrations from your address. Try again later.".to_owned(),
                );
            }
            limiter.record(Subject::ip(ip), Event::Registration, now);
        }
        Ok(())
    }

    /// The database has tried to create the account; if it has, the session
    /// goes on as its user.
    pub fn registered(&mut self, username: String, result: Result<i64, DbError>) -> (r: Result<
        Identity,
        String,
    >)
        ensures
            match result {
                Ok(id) => r == Ok::<Identity, String>(
                    Identity::User { id, name: username, role: Role::User },
                ) && final(self).identity == Some(r->Ok_0),
                Err(DbError::Duplicate) => r matches Err(e) && e@
                    == "That username is already taken."@ && final(self).identity == old(
                    self,
                ).identity,
                Err(_) => r matches Err(e) && e@ == INTERNAL_ERROR@ && final(self).identity == old(
                    self,
                ).identity,
            },
            final(self).peer_ip == old(self).peer_ip,
            final(self).over_limit == old(self).over_limit,
    {
        match result {
            Ok(id) => {
                let identity = Identity::User { id, name: username, role: Role::User };
                self.identity = Some(identity.clone());
                Ok(identity)
            },
            Err(DbError::Duplicate) => Err("That username is already taken.".to_owned()),
            Err(_) => Err(INTERNAL_ERROR.to_owned()),
        }
    }

    // -------------------------------------------------------------- keys

    /// A pasted key is to be stored, if it is one and there is somebody to
    /// store it for.
    pub fn add_key(&self, line: &str) -> (r: Result<NewKey, String>)
        ensures
            match self.account_id() {
                None => r matches Err(e) && e@ == "Register an account first."@,
                Some(id) => match auth::key_verdict(auth::openssh_key(chars::trim(line@))) {
                    Ok((parts, comment)) => r matches Ok(key) && key.user_id == id
                        && key.fingerprint@ == parts.0 && key.comment@ == comment,
                    Err(why) => r matches Err(e) && e@ == why,
                },
            },
    {
        let user_id: i64 = match self.user_id() {
            Some(id) => id,
            None => return Err("Register an account first.".to_owned()),
        };
        match parse_public_key(line) {
            Ok((key, comment)) => Ok(NewKey { user_id, fingerprint: key.fingerprint, comment }),
            Err(e) => Err(e),
        }
    }

    /// Whose key is to be deleted.
    pub fn delete_key(&self) -> (r: Result<i64, String>)
        ensures
            match self.account_id() {
                None => r matches Err(e) && e@ == "Register an account first."@,
                Some(id) => r matches Ok(user_id) && user_id == id,
            },
    {
        match self.user_id() {
            Some(id) => Ok(id),
            None => Err("Register an account first.".to_owned()),
        }
    }

    /// Shows the user's keys, with what came of the change before.
    pub fn keys_response(
        &self,
        found: Result<Vec<KeyRecord>, DbError>,
        notice: Option<Result<String, String>>,
    ) -> (r: Response)
        ensures
            match (self.account_id(), found) {
                (None, _) => keys_failed(r, "Register an account first."@),
                (Some(_), Err(_)) => keys_failed(r, INTERNAL_ERROR@),
                (Some(_), Ok(records)) => r matches Response::Keys { keys, notice: said } && said
                    == notice && keys@ == records@.map_values(|k: KeyRecord| KeyInfo::listing(k)),
            },
    {
        if self.user_id().is_none() {
            return no_keys("Register an account first.");
        }
        match found {
            Ok(records) => {
                let mut keys: Vec<KeyInfo> = Vec::new();
                for k in it: records
                    invariant
                        it.seq() == records@,
                        keys@ == records@.take(it.index() as int).map_values(
                            |k: KeyRecord| KeyInfo::listing(k),
                        ),
                {
                    keys.push(
                        KeyInfo { id: k.id, fingerprint: k.fingerprint, comment: k.comment },
                    );
                }
                assert(records@.take(records@.len() as int) =~= records@);
                Response::Keys { keys, notice }
            },
            Err(_) => no_keys(INTERNAL_ERROR),
        }
    }
}

/// The number of bytes of a text.
pub open spec fn bytes(text: Seq<char>) -> nat {
    vstd::utf8::encode_utf8(text).len()
}

pub open spec fn guest_name(user: Seq<char>) -> bool {
    chars::folded(user) == chars::folded(GUEST_USER@)
}

impl KeyInfo {
    /// A key as the UI lists it.
    pub open spec fn listing(k: KeyRecord) -> KeyInfo {
        KeyInfo { id: k.id, fingerprint: k.fingerprint, comment: k.comment }
    }
}

/// An SSH key to be stored.
pub struct NewKey {
    pub user_id: i64,
    pub fingerprint: String,
    pub comment: String,
}

/// The answer is an empty list of keys and an error.
pub open spec fn keys_failed(r: Response, why: Seq<char>) -> bool {
    r matches Response::Keys { keys, notice } && keys@.len() == 0 && (notice matches Some(Err(e))
        && e@ == why)
}

fn no_keys(why: &str) -> (r: Response)
    ensures
        keys_failed(r, why@),
{
    Response::Keys { keys: Vec::new(), notice: Some(Err(why.to_owned())) }
}

/// What a user is told of a key that the database has tried to store.
pub open spec fn key_notice(
    fingerprint: Seq<char>,
    result: Result<(), DbError>,
) -> Result<Seq<char>, Seq<char>> {
    match result {
        Ok(()) => Ok("Key added: "@ + fingerprint),
        Err(DbError::Duplicate) => Err("That key is already registered."@),
        Err(DbError::LimitReached) => Err(
            "You can store at most "@ + chars::decimal(MAX_KEYS_PER_USER as nat) + " keys."@,
        ),
        Err(_) => Err(INTERNAL_ERROR@),
    }
}

pub fn key_added(fingerprint: &str, result: Result<(), DbError>) -> (r: Result<String, String>)
    ensures
        crate::content::outcome(r) == key_notice(fingerprint@, result),
{
    match result {
        Ok(()) => Ok(cat2("Key added: ", fingerprint)),
        Err(DbError::Duplicate) => Err("That key is already registered.".to_owned()),
        Err(DbError::LimitReached) => Err(
            cat3("You can store at most ", &size_text(MAX_KEYS_PER_USER), " keys."),
        ),
        Err(_) => Err(INTERNAL_ERROR.to_owned()),
    }
}

pub fn key_removed(result: Result<(), DbError>) -> (r: Result<String, String>)
    ensures
        crate::content::outcome(r) == match result {
            Ok(()) => Ok::<Seq<char>, Seq<char>>("Key removed."@),
            Err(_) => Err(INTERNAL_ERROR@),
        },
{
    match result {
        Ok(()) => Ok("Key removed.".to_owned()),
        Err(_) => Err(INTERNAL_ERROR.to_owned()),
    }
}

// ------------------------------------------------------------------ passwords

/// Hashes a new password; what went wrong is not told to the client.
pub fn new_password_hash(password: &str) -> (r: Result<String, String>)
    ensures
        match r {
            Ok(hash) => auth::password_matches(password@, hash@) && "$argon2id$"@.is_prefix_of(
                hash@,
            ),
            Err(e) => e@ == INTERNAL_ERROR@,
        },
{
    match hash_password(password) {
        Ok(hash) => Ok(hash),
        Err(_) => Err(INTERNAL_ERROR.to_owned()),
    }
}

/// The hash that a password is compared with. Something is compared even for
/// unknown users, so timing doesn't reveal which usernames exist.
pub open spec fn stored_hash(record: Option<UserRecord>, dummy_hash: Seq<char>) -> Seq<char> {
    match record {
        Some(user) => user.password_hash@,
        None => dummy_hash,
    }
}

/// Who a password login makes of the session, given whether the password
/// was the stored one. Suspended users can't log in.
pub open spec fn password_identity(record: Option<UserRecord>, matches: bool) -> Option<Identity> {
    match record {
        Some(user) => if matches && !user.banned {
            Some(Identity::User { id: user.id, name: user.username, role: user.role })
        } else {
            None
        },
        None => None,
    }
}

pub fn password_login(record: Option<UserRecord>, matches: bool) -> (r: Option<Identity>)
    ensures
        r == password_identity(record, matches),
{
    match record {
        Some(user) => if matches && !user.banned {
            Some(Identity::User { id: user.id, name: user.username, role: user.role })
        } else {
            None
        },
        None => None,
    }
}

/// Logs a user in with a password. `record` is what the database has under
/// the name. Nobody gets in whose password is not the stored one, nor where
/// what is stored is no hash; `password_login` says who gets in when it is.
pub fn verify_password_login(
    record: Option<UserRecord>,
    password: &str,
    dummy_hash: &str,
) -> (r: Option<Identity>)
    ensures
        r == password_identity(record, true) || r is None,
        r is Some ==> auth::password_matches(password@, stored_hash(record, dummy_hash@)),
        r is Some ==> auth::argon2_text(stored_hash(record, dummy_hash@)),
{
    let matches = match &record {
        Some(user) => verify_password(password, &user.password_hash),
        None => verify_password(password, dummy_hash),
    };
    password_login(record, matches)
}

/// Who a key login makes of the session; `found` is the user of that name
/// who has the key. Suspended users can't log in.
pub open spec fn key_identity(found: Result<Option<Account>, DbError>) -> Option<Identity> {
    match found {
        Ok(Some(user)) => if user.banned {
            None
        } else {
            Some(Identity::User { id: user.id, name: user.username, role: user.role })
        },
        _ => None,
    }
}

pub fn key_login(found: Result<Option<Account>, DbError>) -> (r: Option<Identity>)
    ensures
        r == key_identity(found),
{
    match found {
        Ok(Some(user)) => if user.banned {
            None
        } else {
            Some(Identity::User { id: user.id, name: user.username, role: user.role })
        },
        _ => None,
    }
}

/// Whether a session that is already connected has to end: the account of
/// its user has been suspended. `found` is the lookup of the account; one
/// that failed ends nothing.
pub fn must_end(found: &Result<Option<Account>, DbError>) -> (r: bool)
    ensures
        r <==> (found matches Ok(Some(account)) && account.banned),
{
    match found {
        Ok(Some(account)) => account.banned,
        _ => false,
    }
}

// ------------------------------------------------------------------- terminal

/// A terminal dimension as it is used.
pub open spec fn clamped(n: u32) -> int {
    if n < 1 {
        1
    } else if n > MAX_TERMINAL_DIM {
        MAX_TERMINAL_DIM as int
    } else {
        n as int
    }
}

fn clamp_dimension(n: u32) -> (r: u16)
    ensures
        r == clamped(n),
{
    if n < 1 {
        1
    } else if n > MAX_TERMINAL_DIM {
        MAX_TERMINAL_DIM as u16
    } else {
        n as u16
    }
}

/// The screen for a terminal of the size that the client reports.
pub fn resize(cols: u32, rows: u32) -> (r: Rect)
    ensures
        r.x == 0,
        r.y == 0,
        r.width == clamped(cols),
        r.height == clamped(rows),
        r.wf(),
{
    Rect { x: 0, y: 0, width: clamp_dimension(cols), height: clamp_dimension(rows) }
}

} // verus!
