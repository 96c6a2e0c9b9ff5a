//! Laws of logging in, registering and managing keys: what the functions of
//! `auth` and `server` answer, whoever asks and whatever is on record.

use vstd::prelude::*;

use crate::auth;
use crate::auth::{Comparison, PublicKey};
use crate::chars;
use crate::db::{Account, DbError, KeyRecord, Role, UserRecord};
use crate::server;
use crate::server::{Attempt, Connection, NewKey};
use crate::state::{ConnectionGuard, Event, Identity, IpAddr, Limiter, Subject};
use crate::ui::paint::Rect;
use crate::ui::protocol::Response;

verus! {

// -------------------------------------------------------------------- logins

/// A user who is on record and not suspended, and whose password matched, is
/// logged in as the user on record, whatever their role; nobody else is.
pub proof fn law_matching_passwords_log_in(
    record: Option<UserRecord>,
    matches: bool,
    r: Option<Identity>,
)
    requires
        call_ensures(server::password_login, (record, matches), r),
    ensures
        r is Some <==> matches && (record matches Some(user) && !user.banned),
        r matches Some(who) ==> (who matches Identity::User { id, name, role } && id
            == record->Some_0.id && name == record->Some_0.username && role
            == record->Some_0.role),
{
}

/// Whoever a password logs in is the user on record, who is not suspended,
/// and the password is the one that was stored for them. A password that
/// matches is enough: what is compared is the stored hash, and the verdict
/// alone decides.
pub proof fn law_passwords_log_in_their_owner(
    record: Option<UserRecord>,
    password: &str,
    dummy_hash: &str,
    r: Option<Identity>,
)
    requires
        call_ensures(server::verify_password_login, (record, password, dummy_hash), r),
    ensures
        r matches Some(who) ==> (record matches Some(user) && !user.banned
            && auth::password_matches(password@, user.password_hash@) && (
        who matches Identity::User { id, name, role } && id == user.id && name == user.username
            && role == user.role)),
        record is None ==> r is None,
{
}

/// A password is let through exactly when comparing it came out as a match,
/// and a fresh hash never mismatches the password it was made of.
pub proof fn law_matches_are_accepted(
    password: &str,
    hash: String,
    stored: &str,
    made: Result<String, String>,
    comparison: Comparison,
    r: bool,
)
    ensures
        call_ensures(auth::accepts, (comparison,), r) ==> (r <==> comparison == Comparison::Match),
        call_ensures(auth::hash_password, (password,), made) && made == Ok::<String, String>(hash)
            && stored@ == hash@ && call_ensures(
            auth::compare_password,
            (password, stored),
            comparison,
        ) ==> comparison != Comparison::Mismatch,
        call_ensures(server::new_password_hash, (password,), made) && made == Ok::<String, String>(
            hash,
        ) && stored@ == hash@ && call_ensures(
            auth::compare_password,
            (password, stored),
            comparison,
        ) ==> comparison != Comparison::Mismatch,
{
}

/// A key logs in the user it belongs to, unless they are suspended, and as
/// the user on record; a key that belongs to nobody logs nobody in.
pub proof fn law_keys_log_in_their_owner(
    found: Result<Option<Account>, DbError>,
    r: Option<Identity>,
)
    requires
        call_ensures(server::key_login, (found,), r),
    ensures
        r is Some <==> (found matches Ok(Some(user)) && !user.banned),
        r matches Some(who) ==> (found matches Ok(Some(user)) && (who matches Identity::User {
            id,
            name,
            role,
        } && id == user.id && name == user.username && role == user.role)),
{
}

/// The guest name with the guest password gets in as a guest, the same name
/// with any other password does not get in, and any other name is looked up;
/// all that from an address that is neither throttled nor over its limit.
pub proof fn law_guests_log_in(
    connection: &Connection,
    limiter: &Limiter,
    guest_password: &Option<String>,
    user: &str,
    password: &str,
    now: u64,
    r: Attempt,
)
    requires
        call_ensures(
            Connection::auth_password,
            (connection, limiter, guest_password, user, password, now),
            r,
        ),
        vstd::utf8::encode_utf8(user@).len() <= 64,
        vstd::utf8::encode_utf8(password@).len() <= 1024,
        !connection.over_limit,
        connection.peer_ip matches Some(ip) ==> limiter@.under_limit(
            Subject::Ip(ip.bucketed()),
            Event::AuthFailure,
            now,
        ),
    ensures
        chars::folded(user@) == chars::folded("guest"@) && (guest_password matches Some(p) && p@
            == password@) ==> r == Attempt::Decided(Some(Identity::Guest)),
        chars::folded(user@) == chars::folded("guest"@) && !(guest_password matches Some(p) && p@
            == password@) ==> r == Attempt::Decided(None),
        chars::folded(user@) != chars::folded("guest"@) ==> r == Attempt::LookUp,
{
}

/// With a key nobody gets in as a guest, and any other name is looked up.
pub proof fn law_keys_are_looked_up(
    connection: &Connection,
    limiter: &Limiter,
    user: &str,
    now: u64,
    r: Attempt,
)
    requires
        call_ensures(Connection::auth_publickey, (connection, limiter, user, now), r),
        vstd::utf8::encode_utf8(user@).len() <= 64,
        !connection.over_limit,
        connection.peer_ip matches Some(ip) ==> limiter@.under_limit(
            Subject::Ip(ip.bucketed()),
            Event::AuthFailure,
            now,
        ),
    ensures
        chars::folded(user@) == chars::folded("guest"@) ==> r == Attempt::Decided(None),
        chars::folded(user@) != chars::folded("guest"@) ==> r == Attempt::LookUp,
{
}

/// A connection over the limit is dropped. From an address that has failed
/// ten times in ten minutes, or under a name or with a password that is too
/// long, every attempt is refused.
pub proof fn law_who_is_turned_away(
    connection: &Connection,
    limiter: &Limiter,
    guest_password: &Option<String>,
    user: &str,
    password: &str,
    now: u64,
    r: Attempt,
    key: Attempt,
)
    requires
        call_ensures(
            Connection::auth_password,
            (connection, limiter, guest_password, user, password, now),
            r,
        ),
        call_ensures(Connection::auth_publickey, (connection, limiter, user, now), key),
    ensures
        r is Drop <==> connection.over_limit,
        key is Drop <==> connection.over_limit,
        !connection.over_limit ==> {
            let throttled = connection.peer_ip matches Some(ip) && !limiter@.under_limit(
                Subject::Ip(ip.bucketed()),
                Event::AuthFailure,
                now,
            );
            let long_name = vstd::utf8::encode_utf8(user@).len() > 64;
            &&& r is Reject <==> throttled || long_name || vstd::utf8::encode_utf8(password@).len()
                > 1024
            &&& key is Reject <==> throttled || long_name
        },
{
}

/// Whoever was recognised is let in and is who the session acts as from
/// then on; whoever was not is kept out, and the failure is held against
/// their address.
pub proof fn law_recognised_users_are_let_in(
    connection: &mut Connection,
    limiter: &mut Limiter,
    identity: Option<Identity>,
    now: u64,
    r: bool,
)
    requires
        call_ensures(Connection::finish_auth, (connection, limiter, identity, now), r),
    ensures
        r <==> identity is Some,
        r ==> final(connection).identity == identity && final(limiter)@ == old(limiter)@,
        !r ==> final(connection).identity == old(connection).identity,
        !r && old(connection).peer_ip is None ==> final(limiter)@ == old(limiter)@,
        !r ==> (old(connection).peer_ip matches Some(ip) ==> final(limiter)@ == old(limiter)@.recorded(Subject::Ip(ip.bucketed()), Event::AuthFailure, now)),
        final(connection).peer_ip == old(connection).peer_ip,
        final(connection).over_limit == old(connection).over_limit,
{
}

/// A connection is over the limit exactly when its network has eight
/// already; every other one takes a slot of its network.
pub proof fn law_connections_take_slots(
    limiter: &mut Limiter,
    peer_ip: Option<IpAddr>,
    r: (Connection, Option<ConnectionGuard>),
)
    requires
        call_ensures(Connection::new_client, (limiter, peer_ip), r),
    ensures
        r.0.peer_ip == peer_ip,
        r.0.identity is None,
        r.0.over_limit <==> (peer_ip matches Some(ip) && old(limiter)@.connections_of(ip) >= 8),
        r.0.over_limit || peer_ip is None ==> r.1 is None && final(limiter)@ == old(limiter)@,
        !r.0.over_limit ==> (peer_ip matches Some(ip) ==> (r.1 matches Some(guard) && guard.addr()
            == ip.bucketed() && final(limiter)@ == old(limiter)@.connected(ip))),
{
}

/// A session ends exactly when the account of its user is found suspended.
pub proof fn law_suspended_sessions_end(found: &Result<Option<Account>, DbError>, r: bool)
    requires
        call_ensures(server::must_end, (found,), r),
    ensures
        found matches Ok(Some(account)) ==> r == account.banned,
        found is Err ==> !r,
        found matches Ok(None) ==> !r,
{
}

// ----------------------------------------------------------------- registering

/// A guest from an address under the limit may register any name of 3 to 16
/// letters, digits, '_' and '-' that begins with a letter and is not
/// reserved, with any password of 8 to 128 characters, none of them a
/// control character, that is not the name; and that counts as a
/// registration of the address.
pub proof fn law_valid_registrations_are_taken(
    connection: &Connection,
    limiter: &mut Limiter,
    username: &str,
    password: &str,
    now: u64,
    r: Result<(), String>,
)
    requires
        call_ensures(Connection::register, (connection, limiter, username, password, now), r),
        connection.identity == Some(Identity::Guest),
        3 <= username@.len() <= 16,
        chars::ascii_letter(username@[0]),
        forall|i: int|
            0 <= i < username@.len() ==> (chars::ascii_letter(#[trigger] username@[i])
                || chars::ascii_digit(username@[i]) || username@[i] == '_' || username@[i] == '-'),
        !auth::reserved(username@),
        8 <= password@.len() <= 128,
        forall|i: int| 0 <= i < password@.len() ==> !chars::control(#[trigger] password@[i]),
        chars::folded(password@) != chars::folded(username@),
        connection.peer_ip matches Some(ip) ==> old(limiter)@.under_limit(
            Subject::Ip(ip.bucketed()),
            Event::Registration,
            now,
        ),
    ensures
        r is Ok,
        connection.peer_ip matches Some(ip) ==> final(limiter)@ == old(limiter)@.recorded(
            Subject::Ip(ip.bucketed()),
            Event::Registration,
            now,
        ),
        connection.peer_ip is None ==> final(limiter)@ == old(limiter)@,
{
    assert(auth::verdict(r) == connection.registration(old(limiter)@, username@, password@, now));
}

/// Any other registration is refused and counts for nothing; somebody who
/// has an account is told so, and whoever comes from an address that has
/// registered too often.
pub proof fn law_other_registrations_are_refused(
    connection: &Connection,
    limiter: &mut Limiter,
    username: &str,
    password: &str,
    now: u64,
    r: Result<(), String>,
)
    requires
        call_ensures(Connection::register, (connection, limiter, username, password, now), r),
    ensures
        r is Err ==> final(limiter)@ == old(limiter)@,
        r is Ok ==> connection.identity == Some(Identity::Guest) && 3 <= username@.len() <= 16
            && chars::ascii_letter(username@[0]) && !auth::reserved(username@) && 8
            <= password@.len() <= 128 && chars::folded(password@) != chars::folded(username@),
        r is Ok ==> forall|i: int|
            0 <= i < username@.len() ==> (chars::ascii_letter(#[trigger] username@[i])
                || chars::ascii_digit(username@[i]) || username@[i] == '_' || username@[i] == '-'),
        r is Ok ==> forall|i: int|
            0 <= i < password@.len() ==> !chars::control(#[trigger] password@[i]),
        r is Ok ==> (connection.peer_ip matches Some(ip) ==> old(limiter)@.under_limit(
            Subject::Ip(ip.bucketed()),
            Event::Registration,
            now,
        )),
        connection.identity != Some(Identity::Guest) ==> (r matches Err(e) && e@
            == "You already have an account."@),
{
    assert(auth::verdict(r) == connection.registration(old(limiter)@, username@, password@, now));
    if r is Ok {
        assert forall|i: int| 0 <= i < username@.len() implies (chars::ascii_letter(
            #[trigger] username@[i],
        ) || chars::ascii_digit(username@[i]) || username@[i] == '_' || username@[i] == '-') by {
            assert(auth::name_char(username@[i]));
        }
    }
}

/// The names that are reserved, in whatever case.
pub proof fn law_reserved_names(name: Seq<char>)
    ensures
        auth::reserved(name) <==> {
            let n = chars::folded(name);
            ||| n == chars::folded("guest"@)
            ||| n == chars::folded("admin"@)
            ||| n == chars::folded("administrator"@)
            ||| n == chars::folded("root"@)
            ||| n == chars::folded("sysop"@)
            ||| n == chars::folded("system"@)
            ||| n == chars::folded("bbs"@)
            ||| n == chars::folded("anonymous"@)
            ||| n == chars::folded("anon"@)
            ||| n == chars::folded("null"@)
            ||| n == chars::folded("nobody"@)
            ||| n == chars::folded("everyone"@)
            ||| n == chars::folded("moderator"@)
            ||| n == chars::folded("mod"@)
            ||| n == chars::folded("support"@)
            ||| n == chars::folded("staff"@)
        },
{
}

/// Once the account is stored the session is that of the new user, under the
/// name they chose and as an ordinary user; if it is not, the session stays
/// what it was and they are told why.
pub proof fn law_registered_users_are_logged_in(
    connection: &mut Connection,
    username: String,
    result: Result<i64, DbError>,
    r: Result<Identity, String>,
)
    requires
        call_ensures(Connection::registered, (connection, username, result), r),
    ensures
        match result {
            Ok(new_id) => r matches Ok(who) && final(connection).identity == Some(who) && (
            who matches Identity::User { id, name, role } && id == new_id && name == username
                && role == Role::User),
            Err(DbError::Duplicate) => (r matches Err(e) && e@
                == "That username is already taken."@) && final(connection).identity == old(connection).identity,
            Err(_) => (r matches Err(e) && e@ == "Internal error, please try again later."@)
                && final(connection).identity == old(connection).identity,
        },
{
}

/// The rules for names and passwords by themselves: whether they hold, and
/// which is told to be broken.
pub proof fn law_names_and_passwords(
    name: &str,
    password: &str,
    format: Result<(), String>,
    r: Result<(), String>,
    p: Result<(), String>,
)
    requires
        call_ensures(auth::validate_username_format, (name,), format),
        call_ensures(auth::validate_username, (name,), r),
        call_ensures(auth::validate_password, (name, password), p),
    ensures
        name@.len() < 3 || name@.len() > 16 ==> (format matches Err(e) && e@
            == "Username must be 3-16 characters long."@),
        3 <= name@.len() <= 16 && !chars::ascii_letter(name@[0]) ==> (format matches Err(e) && e@
            == "Username must start with a letter."@),
        format is Err ==> (r matches Err(e) && e@ == format->Err_0@),
        format is Ok ==> (r is Err <==> auth::reserved(name@)),
        format is Ok && r is Err ==> r->Err_0@ == "That username is reserved."@,
        password@.len() < 8 ==> (p matches Err(e) && e@
            == "Password must be at least 8 characters."@),
        password@.len() > 128 ==> (p matches Err(e) && e@
            == "Password must be at most 128 characters."@),
        8 <= password@.len() <= 128 && (exists|i: int|
            0 <= i < password@.len() && chars::control(#[trigger] password@[i])) ==> (
        p matches Err(e) && e@ == "Password must not contain control characters."@),
        chars::folded(password@) == chars::folded(name@) ==> p is Err,
{
    assert(auth::verdict(format) == auth::username_format(name@));
    assert(auth::verdict(r) == auth::username_verdict(name@));
    assert(auth::verdict(p) == auth::password_verdict(name@, password@));
}

// ------------------------------------------------------------------------ keys

/// A pasted key that can be read and is no DSA key is taken as it is: its
/// own fingerprint, and its comment without control characters if it is
/// short; anything else is refused.
pub proof fn law_keys_are_taken(key: Option<PublicKey>, r: Result<(PublicKey, String), String>)
    requires
        call_ensures(auth::check_key, (key,), r),
    ensures
        r is Ok <==> (key matches Some(k) && !k.is_dsa),
        r matches Ok((taken, comment)) ==> (key matches Some(k) && taken.fingerprint@
            == k.fingerprint@ && taken.comment@ == k.comment@ && comment@.len() <= 64 && (
        k.comment@.len() <= 64 && (forall|i: int|
            0 <= i < k.comment@.len() ==> !chars::control(#[trigger] k.comment@[i])) ==> comment@
            == k.comment@)),
        r matches Ok((_, comment)) ==> forall|i: int|
            0 <= i < comment@.len() ==> !chars::control(#[trigger] comment@[i]),
        key is None ==> (r matches Err(e) && e@
            == "That doesn't look like an OpenSSH public key (e.g. 'ssh-ed25519 AAAA… comment')."@),
        key matches Some(k) && k.is_dsa ==> (r matches Err(e) && e@ == "DSA keys are not supported."@),
{
    assert(auth::key_outcome(r) == auth::key_verdict(auth::key_parts(key)));
    if let Some(k) = key {
        lemma_without_controls(k.comment@);
    }
}

pub proof fn lemma_without_controls(s: Seq<char>)
    ensures
        forall|i: int|
            0 <= i < auth::without_controls(s).len() ==> !chars::control(
                #[trigger] auth::without_controls(s)[i],
            ),
        (forall|i: int| 0 <= i < s.len() ==> !chars::control(#[trigger] s[i]))
            ==> auth::without_controls(s) == s,
    decreases s.len(),
{
    if s.len() > 0 {
        lemma_without_controls(s.drop_last());
        let before = auth::without_controls(s.drop_last());
        assert forall|i: int| 0 <= i < auth::without_controls(s).len() implies !chars::control(
            #[trigger] auth::without_controls(s)[i],
        ) by {
            if i < before.len() {
                assert(auth::without_controls(s)[i] == before[i]);
            }
        }
        if forall|i: int| 0 <= i < s.len() ==> !chars::control(#[trigger] s[i]) {
            assert forall|i: int| 0 <= i < s.drop_last().len() implies !chars::control(
                #[trigger] s.drop_last()[i],
            ) by {
                assert(s.drop_last()[i] == s[i]);
            }
            assert(!chars::control(s[s.len() - 1]));
            assert(auth::without_controls(s) =~= s);
        }
    } else {
        assert(auth::without_controls(s) =~= s);
    }
}

/// A key that a user adds is stored for that user, by its fingerprint; a
/// guest can add none. What parsing refuses is refused with the same words.
pub proof fn law_added_keys_are_the_users_own(
    connection: &Connection,
    line: &str,
    parsed: Result<(PublicKey, String), String>,
    r: Result<NewKey, String>,
)
    requires
        call_ensures(Connection::add_key, (connection, line), r),
        call_ensures(auth::parse_public_key, (line,), parsed),
    ensures
        connection.identity matches Some(Identity::User { id, .. }) ==> match parsed {
            Ok((key, comment)) => r matches Ok(new) && new.user_id == id && new.fingerprint@
                == key.fingerprint@ && new.comment@ == comment@,
            Err(why) => r matches Err(e) && e@ == why@,
        },
        !(connection.identity matches Some(Identity::User { .. })) ==> (r matches Err(e) && e@
            == "Register an account first."@),
{
    assert(auth::key_outcome(parsed) == auth::key_verdict(
        auth::openssh_key(chars::trim(line@)),
    ));
}

/// Keys are deleted for the user who asks, and listed as they are stored.
pub proof fn law_keys_are_listed(
    connection: &Connection,
    records: Vec<KeyRecord>,
    said: Option<Result<String, String>>,
    whose: Result<i64, String>,
    who: Option<i64>,
    r: Response,
)
    requires
        call_ensures(Connection::delete_key, (connection,), whose),
        call_ensures(Connection::user_id, (connection,), who),
        call_ensures(Connection::keys_response, (connection, Ok(records), said), r),
    ensures
        connection.identity matches Some(Identity::User { id, .. }) ==> who == Some(id) && (
        whose matches Ok(n) && n == id) && (r matches Response::Keys { keys, notice } && notice
            == said && keys@.len() == records@.len() && forall|i: int|
            0 <= i < records@.len() ==> (#[trigger] keys@[i]).id == records@[i].id
                && keys@[i].fingerprint == records@[i].fingerprint && keys@[i].comment
                == records@[i].comment),
        !(connection.identity matches Some(Identity::User { .. })) ==> who is None && whose is Err
            && (r matches Response::Keys { keys, notice } && keys@.len() == 0 && (
        notice matches Some(Err(e)) && e@ == "Register an account first."@)),
{
}

/// What is said once a key was stored or removed, or wasn't.
pub proof fn law_key_notices(
    fingerprint: &str,
    result: Result<(), DbError>,
    added: Result<String, String>,
    removed: Result<String, String>,
)
    requires
        call_ensures(server::key_added, (fingerprint, result), added),
        call_ensures(server::key_removed, (result,), removed),
    ensures
        match result {
            Ok(()) => (added matches Ok(t) && t@ == "Key added: "@ + fingerprint@) && (
            removed matches Ok(t) && t@ == "Key removed."@),
            Err(DbError::Duplicate) => (added matches Err(e) && e@
                == "That key is already registered."@) && removed is Err,
            Err(DbError::LimitReached) => (added matches Err(e) && e@ == "You can store at most "@
                + chars::decimal(10) + " keys."@) && removed is Err,
            Err(_) => (added matches Err(e) && e@ == "Internal error, please try again later."@)
                && (removed matches Err(e) && e@ == "Internal error, please try again later."@),
        },
{
    assert(crate::content::outcome(added) == server::key_notice(fingerprint@, result));
    assert(crate::content::outcome(removed) == match result {
        Ok(()) => Ok::<Seq<char>, Seq<char>>("Key removed."@),
        Err(_) => Err(crate::boards::INTERNAL_ERROR@),
    });
}

/// Offered keys and fingerprints are read off the key itself.
pub proof fn law_fingerprints(key: &PublicKey, r: String)
    requires
        call_ensures(auth::fingerprint, (key,), r),
    ensures
        r@ == key.fingerprint@,
{
}

/// A terminal is as large as the client says, within what is sensible.
pub proof fn law_terminals_have_the_size_asked_for(cols: u32, rows: u32, r: Rect)
    requires
        call_ensures(server::resize, (cols, rows), r),
    ensures
        r.x == 0,
        r.y == 0,
        1 <= cols <= 500 ==> r.width == cols,
        1 <= rows <= 500 ==> r.height == rows,
        cols == 0 ==> r.width == 1,
        rows == 0 ==> r.height == 1,
        cols > 500 ==> r.width == 500,
        rows > 500 ==> r.height == 500,
{
}

} // verus!
