//! Matrix room and user ids.

use vstd::prelude::*;
use crate::text::{chars_of, find, position, starts_with};

verus! {

/// Whether `s` is a room id: it starts with `!`.
pub open spec fn is_room_id(s: Seq<char>) -> bool {
    s.len() > 0 && s[0] == '!'
}

/// Parses `s` as a `matrix_sdk::ruma::OwnedRoomId`. The parse succeeds if and
/// only if the text starts with `!`; with the features that matrix-sdk builds
/// ruma with, its length does not matter.
#[verifier::external_body]
pub(crate) fn room_id_ok(s: &str) -> (r: bool)
    ensures
        r == is_room_id(s@),
{
    s.parse::<matrix_sdk::ruma::OwnedRoomId>().is_ok()
}

/// Whether `s` parses as a `matrix_sdk::ruma::OwnedUserId`.
pub uninterp spec fn user_id_parses(s: Seq<char>) -> bool;

/// Parses `s` as a `matrix_sdk::ruma::OwnedUserId`. The outcome is named by
/// [`user_id_parses`]; a text that parses starts with `@` and holds a colon. What
/// follows the colon has to be a server name.
#[verifier::external_body]
pub(crate) fn user_id_ok(s: &str) -> (r: bool)
    ensures
        r == user_id_parses(s@),
        r ==> s@.len() > 0 && s@[0] == '@' && s@.contains(':'),
{
    s.parse::<matrix_sdk::ruma::OwnedUserId>().is_ok()
}

/// The localpart of a user id: what stands between its first character, the `@`,
/// and its first colon. Of a text without a colon, all but the first character.
pub open spec fn localpart_in(user_id: Seq<char>) -> Seq<char> {
    let end = match find(user_id, seq![':']) {
        Some(n) => n as int,
        None => user_id.len() as int,
    };
    if end < 1 {
        Seq::empty()
    } else {
        user_id.subrange(1, end)
    }
}

/// The localpart of a user id.
pub fn localpart<'a>(user_id: &'a str) -> (r: &'a str)
    ensures
        r@ == localpart_in(user_id@),
{
    proof {
        reveal_strlit(":");
        assert(":"@ =~= seq![':']);
    }
    let end: usize = match position(user_id, ":") {
        Some(n) => n,
        None => chars_of(user_id).len(),
    };
    if end < 1 {
        user_id.substring_char(0, 0)
    } else {
        user_id.substring_char(1, end)
    }
}

/// Whether a user is a per-hook virtual one: its localpart starts with `hook_`.
pub open spec fn is_hook_user(user_id: Seq<char>) -> bool {
    "hook_"@.is_prefix_of(localpart_in(user_id))
}

/// Tests for a per-hook virtual user.
pub fn hook_user(user_id: &str) -> (r: bool)
    ensures
        r == is_hook_user(user_id@),
{
    starts_with(localpart(user_id), "hook_")
}

} // verus!
