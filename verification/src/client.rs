//! Restoring Matrix sessions and sending into rooms.
//!
//! A session is restored from a user id, a device id and an access token; there
//! is no login with a password at run time.

use vstd::prelude::*;
use crate::config::Config;
use crate::matrix_id::{is_room_id, room_id_ok, user_id_ok, user_id_parses};

verus! {

/// A session to restore.
#[derive(Debug, PartialEq, Eq)]
pub struct Session<S = String> {
    pub user_id: S,
    pub device_id: S,
    pub access_token: S,
}

impl View for Session {
    type V = Session<Seq<char>>;

    open spec fn view(&self) -> Session<Seq<char>> {
        Session {
            user_id: self.user_id@,
            device_id: self.device_id@,
            access_token: self.access_token@,
        }
    }
}

/// How to bring up a client: build it for `homeserver` with a persistent store in
/// the directory `store_path`, which is created first; then restore `session`,
/// or fail if there is none, because the user id is invalid.
#[derive(Debug, PartialEq, Eq)]
pub struct RestorePlan<S = String> {
    pub homeserver: S,
    pub store_path: S,
    pub session: Option<Session<S>>,
}

impl View for RestorePlan {
    type V = RestorePlan<Seq<char>>;

    open spec fn view(&self) -> RestorePlan<Seq<char>> {
        RestorePlan {
            homeserver: self.homeserver@,
            store_path: self.store_path@,
            session: match self.session {
                Some(s) => Some(s@),
                None => None,
            },
        }
    }
}

/// The plan for a session.
pub open spec fn restore_plan(
    homeserver: Seq<char>,
    user_id: Seq<char>,
    device_id: Seq<char>,
    access_token: Seq<char>,
    store_path: Seq<char>,
) -> RestorePlan<Seq<char>> {
    RestorePlan {
        homeserver,
        store_path,
        session: if user_id_parses(user_id) {
            Some(Session { user_id, device_id, access_token })
        } else {
            None
        },
    }
}

/// The session of a user, for whether the user id is valid.
pub fn session_for(valid: bool, user_id: &str, device_id: &str, access_token: &str) -> (r: Option<
    Session,
>)
    ensures
        match r {
            Some(s) => valid && s@ == (Session {
                user_id: user_id@,
                device_id: device_id@,
                access_token: access_token@,
            }),
            None => !valid,
        },
{
    if valid {
        Some(
            Session {
                user_id: user_id.to_owned(),
                device_id: device_id.to_owned(),
                access_token: access_token.to_owned(),
            },
        )
    } else {
        None
    }
}

/// Plans the client of a configuration.
pub fn connect(config: &Config) -> (r: RestorePlan)
    ensures
        r@ == restore_plan(
            config.homeserver@,
            config.user_id@,
            config.device_id@,
            config.access_token@,
            config.store_path@,
        ),
{
    restore(
        config.homeserver.as_str(),
        config.user_id.as_str(),
        config.device_id.as_str(),
        config.access_token.as_str(),
        config.store_path.as_str(),
    )
}

/// Plans the client of an arbitrary session.
pub fn restore(
    homeserver: &str,
    user_id: &str,
    device_id: &str,
    access_token: &str,
    store_path: &str,
) -> (r: RestorePlan)
    ensures
        r@ == restore_plan(homeserver@, user_id@, device_id@, access_token@, store_path@),
{
    RestorePlan {
        homeserver: homeserver.to_owned(),
        store_path: store_path.to_owned(),
        session: session_for(user_id_ok(user_id), user_id, device_id, access_token),
    }
}

/// Why a text is not sent into a room.
#[derive(Clone, Copy, Debug, PartialEq, Eq, Structural)]
pub enum SendError {
    /// The room id is invalid.
    InvalidRoom,
    /// The bot is not a member of the room.
    NotAMember,
}

/// Tests that `room_id` names a room, before it is looked up.
pub fn room_to_send(room_id: &str) -> (r: Result<(), SendError>)
    ensures
        r == (if is_room_id(room_id@) {
            Ok::<(), SendError>(())
        } else {
            Err(SendError::InvalidRoom)
        }),
{
    if room_id_ok(room_id) {
        Ok(())
    } else {
        Err(SendError::InvalidRoom)
    }
}

/// What is sent into a room, given whether the client knows it.
pub open spec fn sendable(room_id: Seq<char>, known: bool, body: Seq<char>) -> Result<
    Seq<char>,
    SendError,
> {
    if !is_room_id(room_id) {
        Err(SendError::InvalidRoom)
    } else if !known {
        Err(SendError::NotAMember)
    } else {
        Ok(body)
    }
}

/// Sends `body` into a room as plain text, never as markup: decides on what to
/// send, given whether the client knows the room.
pub fn send_room_text(room_id: &str, known: bool, body: &str) -> (r: Result<String, SendError>)
    ensures
        match r {
            Ok(text) => is_room_id(room_id@) && known && text@ == body@,
            Err(SendError::InvalidRoom) => !is_room_id(room_id@),
            Err(SendError::NotAMember) => is_room_id(room_id@) && !known,
        },
        sendable(room_id@, known, body@) == (match r {
            Ok(text) => Ok::<Seq<char>, SendError>(text@),
            Err(e) => Err(e),
        }),
{
    match room_to_send(room_id) {
        Ok(_) => if known {
            Ok(body.to_owned())
        } else {
            Err(SendError::NotAMember)
        },
        Err(e) => Err(e),
    }
}

/// A text is sent if the room id is valid and the client knows the room, and is then the
/// whole text as it is; otherwise the first reason against it is the error.
pub proof fn law_texts_are_sent_as_they_are(room_id: Seq<char>, known: bool, body: Seq<char>)
    ensures
        sendable(room_id, known, body) is Ok <==> room_id.len() > 0 && room_id[0] == '!' && known,
        sendable(room_id, known, body) matches Ok(text) ==> text == body,
        sendable(room_id, known, body) == Err::<Seq<char>, SendError>(SendError::InvalidRoom) <==> !(
        room_id.len() > 0 && room_id[0] == '!'),
{
}

/// A session is restored as it was given, into the store that was given for it, if its
/// user id is valid, and not at all otherwise.
pub proof fn law_sessions_are_restored(
    homeserver: Seq<char>,
    user_id: Seq<char>,
    device_id: Seq<char>,
    access_token: Seq<char>,
    store_path: Seq<char>,
)
    ensures
        ({
            let plan = restore_plan(homeserver, user_id, device_id, access_token, store_path);
            &&& plan.homeserver == homeserver && plan.store_path == store_path
            &&& plan.session is Some <==> user_id_parses(user_id)
            &&& plan.session matches Some(s) ==> s.user_id == user_id && s.device_id == device_id
                && s.access_token == access_token
        }),
{
}

} // verus!
