//! Usernames, passwords and SSH keys.

use argon2::password_hash::{PasswordHasher, PasswordVerifier};
use argon2::Argon2;
use vstd::prelude::*;

use crate::chars;
use crate::chars::{
    cat2, from_chars, is_ascii_digit, is_ascii_letter, is_control, same_ignoring_case, to_chars,
    trim_text,
};

verus! {

pub const USERNAME_MIN: usize = 3;

pub const USERNAME_MAX: usize = 16;

pub const PASSWORD_MIN: usize = 8;

/// Upper bound so nobody can make us hash megabytes of input.
pub const PASSWORD_MAX: usize = 128;

/// Longest key comment that is kept.
pub const COMMENT_MAX: usize = 64;

/// The verdict inside a result, for contracts.
pub open spec fn verdict(r: Result<(), String>) -> Result<(), Seq<char>> {
    match r {
        Ok(()) => Ok(()),
        Err(e) => Err(e@),
    }
}

// ------------------------------------------------------------------- names

/// Characters a username may hold.
pub open spec fn name_char(c: char) -> bool {
    chars::ascii_letter(c) || chars::ascii_digit(c) || c == '_' || c == '-'
}

pub open spec fn username_format(name: Seq<char>) -> Result<(), Seq<char>> {
    if !(USERNAME_MIN <= name.len() <= USERNAME_MAX) {
        Err("Username must be 3-16 characters long."@)
    } else if !chars::ascii_letter(name[0]) {
        Err("Username must start with a letter."@)
    } else if exists|i: int| 0 <= i < name.len() && !name_char(#[trigger] name[i]) {
        Err("Username may only contain letters, digits, '_' and '-'."@)
    } else {
        Ok(())
    }
}

/// Names nobody can register, in whatever case.
pub open spec fn reserved(name: Seq<char>) -> bool {
    let n = chars::folded(name);
    ||| n == chars::folded("guest"@)
    ||| n == chars::folded("admin"@)
    ||| n == chars::folded("administrator"@)
    ||| n == chars::folded("root"@)
    ||| n == chars::folded("sysop"@)
    ||| n == chars::folded("system"@)
    ||| n == chars::folded("bbs"@)
    ||| n == chars::folded("anonymous"@)
    ||| n == chars::folded("anon"@)
    ||| n == chars::folded("null"@)
    ||| n == chars::folded("nobody"@)
    ||| n == chars::folded("everyone"@)
    ||| n == chars::folded("moderator"@)
    ||| n == chars::folded("mod"@)
    ||| n == chars::folded("support"@)
    ||| n == chars::folded("staff"@)
}

pub open spec fn username_verdict(name: Seq<char>) -> Result<(), Seq<char>> {
    match username_format(name) {
        Err(e) => Err(e),
        Ok(()) => if reserved(name) {
            Err("That username is reserved."@)
        } else {
            Ok(())
        },
    }
}

/// Syntax rules only. The admin tool uses this directly so a sysop can create
/// accounts with otherwise reserved names such as "sysop".
pub fn validate_username_format(name: &str) -> (r: Result<(), String>)
    ensures
        verdict(r) == username_format(name@),
{
    let cs = to_chars(name);
    if cs.len() < USERNAME_MIN || cs.len() > USERNAME_MAX {
        return Err("Username must be 3-16 characters long.".to_owned());
    }
    if !is_ascii_letter(cs[0]) {
        return Err("Username must start with a letter.".to_owned());
    }
    let mut i: usize = 0;
    while i < cs.len()
        invariant
            i <= cs@.len(),
            cs@ == name@,
            USERNAME_MIN <= cs@.len() <= USERNAME_MAX,
            chars::ascii_letter(cs@[0]),
            forall|j: int| 0 <= j < i ==> name_char(#[trigger] cs@[j]),
        decreases cs@.len() - i,
    {
        let c = cs[i];
        if !(is_ascii_letter(c) || is_ascii_digit(c) || c == '_' || c == '-') {
            assert(!name_char(name@[i as int]));
            return Err("Username may only contain letters, digits, '_' and '-'.".to_owned());
        }
        i += 1;
    }
    Ok(())
}

fn is_reserved(name: &str) -> (r: bool)
    ensures
        r == reserved(name@),
{
    same_ignoring_case(name, "guest") || same_ignoring_case(name, "admin") || same_ignoring_case(
        name,
        "administrator",
    ) || same_ignoring_case(name, "root") || same_ignoring_case(name, "sysop")
        || same_ignoring_case(name, "system") || same_ignoring_case(name, "bbs")
        || same_ignoring_case(name, "anonymous") || same_ignoring_case(name, "anon")
        || same_ignoring_case(name, "null") || same_ignoring_case(name, "nobody")
        || same_ignoring_case(name, "everyone") || same_ignoring_case(name, "moderator")
        || same_ignoring_case(name, "mod") || same_ignoring_case(name, "support")
        || same_ignoring_case(name, "staff")
}

/// Rules for self-registration: the syntax rules plus reserved names.
pub fn validate_username(name: &str) -> (r: Result<(), String>)
    ensures
        verdict(r) == username_verdict(name@),
{
    match validate_username_format(name) {
        Err(e) => Err(e),
        Ok(()) => {
            if is_reserved(name) {
                Err("That username is reserved.".to_owned())
            } else {
                Ok(())
            }
        },
    }
}

// --------------------------------------------------------------- passwords

pub open spec fn password_verdict(username: Seq<char>, password: Seq<char>) -> Result<
    (),
    Seq<char>,
> {
    if password.len() < PASSWORD_MIN {
        Err("Password must be at least 8 characters."@)
    } else if password.len() > PASSWORD_MAX {
        Err("Password must be at most 128 characters."@)
    } else if exists|i: int| 0 <= i < password.len() && chars::control(#[trigger] password[i]) {
        Err("Password must not contain control characters."@)
    } else if chars::folded(password) == chars::folded(username) {
        Err("Password must not be the same as the username."@)
    } else {
        Ok(())
    }
}

pub fn validate_password(username: &str, password: &str) -> (r: Result<(), String>)
    ensures
        verdict(r) == password_verdict(username@, password@),
{
    let cs = to_chars(password);
    if cs.len() < PASSWORD_MIN {
        return Err("Password must be at least 8 characters.".to_owned());
    }
    if cs.len() > PASSWORD_MAX {
        return Err("Password must be at most 128 characters.".to_owned());
    }
    let mut i: usize = 0;
    while i < cs.len()
        invariant
            i <= cs@.len(),
            cs@ == password@,
            PASSWORD_MIN <= cs@.len() <= PASSWORD_MAX,
            forall|j: int| 0 <= j < i ==> !chars::control(#[trigger] cs@[j]),
        decreases cs@.len() - i,
    {
        if is_control(cs[i]) {
            assert(chars::control(password@[i as int]));
            return Err("Password must not contain control characters.".to_owned());
        }
        i += 1;
    }
    if same_ignoring_case(password, username) {
        return Err("Password must not be the same as the username.".to_owned());
    }
    Ok(())
}

/// Why a password could not be hashed or compared.
#[verifier::external_type_specification]
#[verifier::external_body]
pub struct ExHashError(argon2::password_hash::Error);

/// Whether a password is the one a stored hash was made of.
pub uninterp spec fn password_matches(password: Seq<char>, stored: Seq<char>) -> bool;

/// How the PHC string of every Argon2 variant begins.
pub open spec fn argon2_text(stored: Seq<char>) -> bool {
    "$argon2"@.is_prefix_of(stored)
}

/// What comparing a password with a stored hash came to.
#[derive(Clone, Copy, Debug, PartialEq, Eq, Structural)]
pub enum Comparison {
    Match,
    Mismatch,
    /// There was no memory to hash with, so nothing is known.
    OutOfMemory,
}

/// `Argon2::hash_password` with the default parameters and a random salt, as
/// a PHC string: the hash is an Argon2id one, of that password. Which hash
/// comes out, and whether the random source or the memory fails, is left
/// open.
#[verifier::external_body]
fn argon2_hash(password: &str) -> (r: Result<String, argon2::password_hash::Error>)
    ensures
        r matches Ok(hash) ==> password_matches(password@, hash@) && "$argon2id$"@.is_prefix_of(
            hash@,
        ),
{
    Argon2::default().hash_password(password.as_bytes()).map(|hash| hash.to_string())
}

/// The `Display` text of a hashing error. Nothing is said of the text.
#[verifier::external_body]
fn hash_error_text(err: &argon2::password_hash::Error) -> String {
    err.to_string()
}

/// `Argon2::verify_password` on a PHC string: unless the memory runs out, the
/// result depends on the two texts alone. A text that doesn't begin as an
/// Argon2 hash does matches nothing, and takes no memory to refuse. When the
/// memory for hashing runs out is left open.
#[verifier::external_body]
fn argon2_verify(password: &str, stored: &str) -> (r: Comparison)
    ensures
        !argon2_text(stored@) ==> r == Comparison::Mismatch,
        r == Comparison::Match ==> password_matches(password@, stored@),
        r == Comparison::Mismatch ==> !password_matches(password@, stored@),
{
    match Argon2::default().verify_password(password.as_bytes(), stored) {
        Ok(()) => Comparison::Match,
        Err(argon2::password_hash::Error::OutOfMemory) => Comparison::OutOfMemory,
        Err(_) => Comparison::Mismatch,
    }
}

/// Hashes with Argon2id (the crate's default parameters, which follow the
/// OWASP minimum) and a fresh random salt. CPU- and memory-heavy: run it off
/// the async runtime and bound how many run at once.
pub fn hash_password(password: &str) -> (r: Result<String, String>)
    ensures
        match r {
            Ok(hash) => password_matches(password@, hash@) && "$argon2id$"@.is_prefix_of(hash@),
            Err(e) => "password hashing failed: "@.is_prefix_of(e@),
        },
{
    match argon2_hash(password) {
        Ok(hash) => Ok(hash),
        Err(err) => {
            let why = hash_error_text(&err);
            let text = cat2("password hashing failed: ", &why);
            assert("password hashing failed: "@.is_prefix_of(text@)) by {
                assert(text@.subrange(0, "password hashing failed: "@.len() as int)
                    =~= "password hashing failed: "@);
            }
            Err(text)
        },
    }
}

/// Only a match lets a password through.
pub fn accepts(comparison: Comparison) -> (r: bool)
    ensures
        r == (comparison == Comparison::Match),
{
    comparison == Comparison::Match
}

/// Compares a password with a stored hash. A hash of that very password is
/// never a mismatch; what is no Argon2 hash always is one.
pub fn compare_password(password: &str, stored_hash: &str) -> (r: Comparison)
    ensures
        !argon2_text(stored_hash@) ==> r == Comparison::Mismatch,
        r == Comparison::Match ==> password_matches(password@, stored_hash@),
        r == Comparison::Mismatch ==> !password_matches(password@, stored_hash@),
{
    argon2_verify(password, stored_hash)
}

/// Whether `password` is the one that `stored_hash` was made of. What is no
/// Argon2 hash lets nobody in. Also false if there was no memory to find out:
/// `compare_password` tells that apart.
pub fn verify_password(password: &str, stored_hash: &str) -> (r: bool)
    ensures
        r ==> password_matches(password@, stored_hash@),
        r ==> argon2_text(stored_hash@),
{
    accepts(compare_password(password, stored_hash))
}

// -------------------------------------------------------------------- keys

/// An SSH public key, as far as it is used here.
pub struct PublicKey {
    /// The SHA-256 fingerprint, as OpenSSH prints it.
    pub fingerprint: String,
    pub is_dsa: bool,
    pub comment: String,
}

/// The fingerprint, whether the algorithm is DSA, and the comment of the
/// OpenSSH public key in a text, if it holds one.
pub uninterp spec fn openssh_key(line: Seq<char>) -> Option<(Seq<char>, bool, Seq<char>)>;

/// The parts of a key, for contracts.
pub open spec fn key_parts(key: Option<PublicKey>) -> Option<(Seq<char>, bool, Seq<char>)> {
    match key {
        Some(k) => Some((k.fingerprint@, k.is_dsa, k.comment@)),
        None => None,
    }
}

/// `PublicKey::from_openssh`, with the `fingerprint`, `algorithm` and
/// `comment` of the key it reads: all of them depend on the text alone.
#[verifier::external_body]
fn from_openssh(line: &str) -> (r: Option<PublicKey>)
    ensures
        key_parts(r) == openssh_key(line@),
{
    match russh::keys::PublicKey::from_openssh(line) {
        Ok(key) => Some(
            PublicKey {
                fingerprint: key.fingerprint(russh::keys::HashAlg::Sha256).to_string(),
                is_dsa: matches!(key.algorithm(), russh::keys::Algorithm::Dsa),
                comment: key.comment().to_string(),
            },
        ),
        Err(_) => None,
    }
}

pub fn fingerprint(key: &PublicKey) -> (r: String)
    ensures
        r@ == key.fingerprint@,
{
    key.fingerprint.clone()
}

/// Reads the OpenSSH form of a key that a client offers.
pub fn offered_key(line: &str) -> (r: Option<PublicKey>)
    ensures
        key_parts(r) == openssh_key(line@),
{
    from_openssh(line)
}

/// `s` without its control characters.
pub open spec fn without_controls(s: Seq<char>) -> Seq<char>
    decreases s.len(),
{
    if s.len() == 0 {
        Seq::empty()
    } else if chars::control(s.last()) {
        without_controls(s.drop_last())
    } else {
        without_controls(s.drop_last()).push(s.last())
    }
}

/// A comment that is safe to show.
pub open spec fn shown_comment(comment: Seq<char>) -> Seq<char> {
    let kept = without_controls(comment);
    if kept.len() > COMMENT_MAX {
        kept.take(COMMENT_MAX as int)
    } else {
        kept
    }
}

fn clean_comment(comment: &str) -> (r: String)
    ensures
        r@ == shown_comment(comment@),
{
    let cs = to_chars(comment);
    let mut kept: Vec<char> = Vec::new();
    let mut i: usize = 0;
    while i < cs.len()
        invariant
            i <= cs@.len(),
            kept@ == without_controls(cs@.take(i as int)),
        decreases cs@.len() - i,
    {
        assert(cs@.take(i + 1).drop_last() =~= cs@.take(i as int));
        if !is_control(cs[i]) {
            kept.push(cs[i]);
        }
        i += 1;
    }
    assert(cs@.take(i as int) =~= cs@);
    if kept.len() > COMMENT_MAX {
        kept.truncate(COMMENT_MAX);
    }
    from_chars(&kept)
}

/// What a pasted line comes to, given what could be read from it: the key
/// itself and its comment as it is shown, or why it is refused.
pub open spec fn key_verdict(key: Option<(Seq<char>, bool, Seq<char>)>) -> Result<
    ((Seq<char>, bool, Seq<char>), Seq<char>),
    Seq<char>,
> {
    match key {
        None => Err(
            "That doesn't look like an OpenSSH public key (e.g. 'ssh-ed25519 AAAA… comment')."@,
        ),
        Some((fingerprint, is_dsa, comment)) => if is_dsa {
            Err("DSA keys are not supported."@)
        } else {
            Ok(((fingerprint, is_dsa, comment), shown_comment(comment)))
        },
    }
}

/// A key and its comment, for contracts.
pub open spec fn key_outcome(r: Result<(PublicKey, String), String>) -> Result<
    ((Seq<char>, bool, Seq<char>), Seq<char>),
    Seq<char>,
> {
    match r {
        Ok((key, comment)) => Ok(((key.fingerprint@, key.is_dsa, key.comment@), comment@)),
        Err(e) => Err(e@),
    }
}

/// Refuses what is no key or a DSA key; else the key and a display-safe
/// comment.
pub fn check_key(key: Option<PublicKey>) -> (r: Result<(PublicKey, String), String>)
    ensures
        key_outcome(r) == key_verdict(key_parts(key)),
        r matches Ok((k, _)) ==> key_parts(Some(k)) == key_parts(key),
{
    match key {
        None => Err(
            "That doesn't look like an OpenSSH public key (e.g. 'ssh-ed25519 AAAA… comment').".to_owned(),
        ),
        Some(key) => {
            if key.is_dsa {
                return Err("DSA keys are not supported.".to_owned());
            }
            let comment = clean_comment(&key.comment);
            Ok((key, comment))
        },
    }
}

/// Parses a pasted `authorized_keys`-style line. Returns the key and a
/// display-safe comment.
pub fn parse_public_key(line: &str) -> (r: Result<(PublicKey, String), String>)
    ensures
        key_outcome(r) == key_verdict(openssh_key(chars::trim(line@))),
        r matches Ok((k, _)) ==> key_parts(Some(k)) == openssh_key(chars::trim(line@)),
{
    check_key(from_openssh(&trim_text(line)))
}

} // verus!
