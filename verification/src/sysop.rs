//! Server-side handling of sysop-only requests that concern no particular
//! content: the message of the day. Board and post moderation live in
//! `boards`, next to the content they act on.

use vstd::prelude::*;

use crate::boards;
use crate::boards::{require_sysop, INTERNAL_ERROR};
use crate::content;
use crate::content::clean_motd;
use crate::db::{Account, DbError};
use crate::state::Identity;
use crate::ui::protocol::{Refusal, Response};

verus! {

/// May this session see the message of the day for editing? `found` is the
/// lookup of its account.
pub fn get_motd(identity: &Identity, found: Result<Option<Account>, DbError>) -> (r: Result<
    (),
    Response,
>)
    ensures
        match boards::moderation(*identity, found) {
            Ok(()) => r is Ok,
            Err(e) => r matches Err(response) && response.refusal() == Refusal::Sysop(e),
        },
{
    match require_sysop(identity, found) {
        Ok(()) => Ok(()),
        Err(e) => Err(Response::SysopActionFailed(e)),
    }
}

/// A message of the day to be stored.
pub struct NewMotd {
    pub text: String,
    pub user_id: i64,
    /// What is said once it is stored.
    pub notice: &'static str,
}

/// The text of a message of the day and who sets it, or why it is not set.
pub open spec fn motd_request(
    identity: Identity,
    found: Result<Option<Account>, DbError>,
    text: Seq<char>,
) -> Result<(Seq<char>, i64), Seq<char>> {
    match identity.account_id() {
        None => Err("Only sysops can do that."@),
        Some(user_id) => match boards::moderation(identity, found) {
            Err(e) => Err(e),
            Ok(()) => match content::motd_of(text) {
                Err(e) => Err(e),
                Ok(clean) => Ok((clean, user_id)),
            },
        },
    }
}

/// What is said once the message of the day is `text`.
pub open spec fn motd_notice(text: Seq<char>) -> Seq<char> {
    if text.len() == 0 {
        "MOTD cleared."@
    } else {
        "MOTD saved."@
    }
}

/// A sysop wants to set the message of the day; an empty one clears it.
/// `found` is the lookup of their account.
pub fn set_motd(
    identity: &Identity,
    found: Result<Option<Account>, DbError>,
    text: String,
) -> (r: Result<NewMotd, Response>)
    ensures
        match motd_request(*identity, found, text@) {
            Ok((clean, id)) => r matches Ok(motd) && motd.text@ == clean && motd.user_id == id
                && motd.notice@ == motd_notice(clean),
            Err(e) => r matches Err(response) && response.refusal() == Refusal::Sysop(e),
        },
{
    let user_id: i64 = match identity.user_id() {
        Some(id) => id,
        None => return Err(Response::SysopActionFailed("Only sysops can do that.".to_owned())),
    };
    if let Err(e) = require_sysop(identity, found) {
        return Err(Response::SysopActionFailed(e));
    }
    let text = match clean_motd(&text) {
        Ok(text) => text,
        Err(e) => return Err(Response::SysopActionFailed(e)),
    };
    let notice = if text.as_str().unicode_len() == 0 {
        "MOTD cleared."
    } else {
        "MOTD saved."
    };
    Ok(NewMotd { text, user_id, notice })
}

/// The database has tried to store the message of the day.
pub fn motd_stored(result: Result<(), DbError>) -> (r: Result<(), Response>)
    ensures
        match result {
            Ok(()) => r is Ok,
            Err(_) => r matches Err(response) && response.refusal() == Refusal::Sysop(
                INTERNAL_ERROR@,
            ),
        },
{
    match result {
        Ok(()) => Ok(()),
        Err(_) => Err(Response::SysopActionFailed(INTERNAL_ERROR.to_owned())),
    }
}

/// Shows the message of the day that was read from the database.
pub fn fetch_motd(found: Result<String, DbError>, notice: Option<String>) -> (r: Response)
    ensures
        match found {
            Ok(text) => r == (Response::Motd { text, notice }),
            Err(_) => r.refusal() == Refusal::Sysop(INTERNAL_ERROR@),
        },
{
    match found {
        Ok(text) => Response::Motd { text, notice },
        Err(_) => Response::SysopActionFailed(INTERNAL_ERROR.to_owned()),
    }
}

} // verus!
