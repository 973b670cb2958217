//! Per-hook end-to-end-encrypted clients.
//!
//! Each hook delivers as its own user, with a device session and a persistent
//! crypto store of its own:
//! - device, access token and crypto store are one unit: without the store, a
//!   fresh device is minted;
//! - a client is ready once it is joined to an encrypted room, and nothing is ever
//!   sent in plain text;
//! - at most one task builds a hook's client at a time;
//! - on deletion the hook's user leaves the room and logs its device out.
//!
//! Each operation alternates decisions with work on the homeserver. The caller
//! performs each [`Action`] on the hook's client and hands back the [`Event`] that
//! it ended in.

use vstd::prelude::*;
use crate::appservice::AppService;
use crate::matrix_id::{is_room_id, room_id_ok, user_id_ok, user_id_parses};
use crate::store::Hook;
use crate::table::Table;

verus! {

/// How often a client that is not ready is looked at before a delivery.
pub const POLLS: u8 = 20;

/// The time between two looks, in milliseconds.
pub const POLL_MILLIS: u64 = 500;

/// What the caller is to do. `S` is `String` in running code and `Seq<char>` in
/// its model.
#[derive(Debug, PartialEq, Eq)]
pub enum Action<S = String> {
    /// Delete the hook's crypto store.
    DropStore,
    /// Log the hook's user in through the application service.
    Login { localpart: S },
    /// Save a session under the hook.
    SaveSession { id: S, device_id: S, access_token: S },
    /// Restore a session into a client.
    Restore { user_id: S, device_id: S, access_token: S },
    /// Set the client's display name.
    SetDisplayName { name: S },
    /// See whether the bot knows a room.
    FindBotRoom { room_id: S },
    /// Let the bot invite a user into a room.
    Invite { room_id: S, user_id: S },
    /// Sync the client once.
    SyncOnce,
    /// Look at a room as the client sees it.
    ReadRoom { room_id: S },
    /// Join a room that the client knows.
    JoinRoom { room_id: S },
    /// Join a room that the client does not know.
    JoinById { room_id: S },
    /// Create a cross-signing identity if there is none.
    Bootstrap,
    /// Load the client's own device.
    ReadDevice,
    /// Sign the client's own device.
    VerifyDevice,
    /// Wait.
    Sleep { millis: u64 },
    /// Remember that the client is ready.
    MarkReady,
    /// Send a plain text into a room; the client encrypts it.
    Send { room_id: S, body: S },
    /// Leave a room.
    Leave { room_id: S },
    /// Log the client's device out.
    LogOut,
    /// Stop the client's sync loop.
    StopSync,
}

impl View for Action {
    type V = Action<Seq<char>>;

    open spec fn view(&self) -> Action<Seq<char>> {
        match self {
            Action::DropStore => Action::DropStore,
            Action::Login { localpart } => Action::Login { localpart: localpart@ },
            Action::SaveSession { id, device_id, access_token } => Action::SaveSession {
                id: id@,
                device_id: device_id@,
                access_token: access_token@,
            },
            Action::Restore { user_id, device_id, access_token } => Action::Restore {
                user_id: user_id@,
                device_id: device_id@,
                access_token: access_token@,
            },
            Action::SetDisplayName { name } => Action::SetDisplayName { name: name@ },
            Action::FindBotRoom { room_id } => Action::FindBotRoom { room_id: room_id@ },
            Action::Invite { room_id, user_id } => Action::Invite {
                room_id: room_id@,
                user_id: user_id@,
            },
            Action::SyncOnce => Action::SyncOnce,
            Action::ReadRoom { room_id } => Action::ReadRoom { room_id: room_id@ },
            Action::JoinRoom { room_id } => Action::JoinRoom { room_id: room_id@ },
            Action::JoinById { room_id } => Action::JoinById { room_id: room_id@ },
            Action::Bootstrap => Action::Bootstrap,
            Action::ReadDevice => Action::ReadDevice,
            Action::VerifyDevice => Action::VerifyDevice,
            Action::Sleep { millis } => Action::Sleep { millis: *millis },
            Action::MarkReady => Action::MarkReady,
            Action::Send { room_id, body } => Action::Send { room_id: room_id@, body: body@ },
            Action::Leave { room_id } => Action::Leave { room_id: room_id@ },
            Action::LogOut => Action::LogOut,
            Action::StopSync => Action::StopSync,
        }
    }
}

/// A room as a client sees it.
#[derive(Clone, Copy, Debug, PartialEq, Eq, Structural)]
pub enum RoomView {
    Unknown,
    Known { joined: bool, encrypted: bool },
}

impl RoomView {
    /// Whether a client can deliver: it is joined, and the room is encrypted.
    pub open spec fn is_ready(self) -> bool {
        self == (RoomView::Known { joined: true, encrypted: true })
    }

    /// Whether a client can deliver.
    pub fn ready(self) -> (r: bool)
        ensures
            r == self.is_ready(),
    {
        match self {
            RoomView::Known { joined, encrypted } => joined && encrypted,
            RoomView::Unknown => false,
        }
    }
}

/// What came of an action.
#[derive(Debug, PartialEq, Eq)]
pub enum Event<S = String> {
    /// The device and access token of a login, unless it failed.
    LoggedIn(Option<(S, S)>),
    /// Whether the bot knows the room.
    BotRoom(bool),
    /// The room.
    Room(RoomView),
    /// Whether the client's own device is signed, if there is one, unless loading
    /// it failed.
    Device(Option<Option<bool>>),
    /// Whether the action succeeded.
    Done(bool),
}

impl View for Event {
    type V = Event<Seq<char>>;

    open spec fn view(&self) -> Event<Seq<char>> {
        match self {
            Event::LoggedIn(Some((d, t))) => Event::LoggedIn(Some((d@, t@))),
            Event::LoggedIn(None) => Event::LoggedIn(None),
            Event::BotRoom(known) => Event::BotRoom(*known),
            Event::Room(room) => Event::Room(*room),
            Event::Device(d) => Event::Device(*d),
            Event::Done(ok) => Event::Done(*ok),
        }
    }
}

/// What happens next: an action in a phase, or the end.
#[derive(Debug, PartialEq, Eq)]
pub enum Step<P, T, S = String> {
    Go(P, Action<S>),
    End(T),
}

impl<P: View, T> View for Step<P, T> {
    type V = Step<P::V, T, Seq<char>>;

    open spec fn view(&self) -> Step<P::V, T, Seq<char>> {
        match *self {
            Step::Go(phase, action) => Step::Go(phase@, action@),
            Step::End(t) => Step::End(t),
        }
    }
}

/// The view of an optional step.
pub open spec fn step_option<P: View, T>(step: Option<Step<P, T>>) -> Option<
    Step<P::V, T, Seq<char>>,
> {
    match step {
        Some(s) => Some(s@),
        None => None,
    }
}

/// Where the joining of a room stands.
#[derive(Clone, Copy, Debug, PartialEq, Eq, Structural)]
pub enum JoinPhase {
    FindingBotRoom,
    Inviting,
    SyncingBefore,
    Looking,
    Joining,
    SyncingAfter,
}

impl View for JoinPhase {
    type V = JoinPhase;

    open spec fn view(&self) -> JoinPhase {
        *self
    }
}

/// How joining starts: it is over at once for an invalid room id, and the
/// invitation is left out for an invalid user id.
pub open spec fn join_start(hook: Hook<Seq<char>>, user_id: Seq<char>) -> Step<
    JoinPhase,
    (),
    Seq<char>,
> {
    if !is_room_id(hook.room_id) {
        Step::End(())
    } else if user_id_parses(user_id) {
        Step::Go(JoinPhase::FindingBotRoom, Action::FindBotRoom { room_id: hook.room_id })
    } else {
        Step::Go(JoinPhase::SyncingBefore, Action::SyncOnce)
    }
}

/// How joining goes on: the bot invites if it knows the room; the client syncs,
/// joins unless it is joined, and syncs again. A step that fails stops nothing.
pub open spec fn join_next(
    phase: JoinPhase,
    event: Event<Seq<char>>,
    hook: Hook<Seq<char>>,
    user_id: Seq<char>,
) -> Option<Step<JoinPhase, (), Seq<char>>> {
    match (phase, event) {
        (JoinPhase::FindingBotRoom, Event::BotRoom(true)) => Some(
            Step::Go(JoinPhase::Inviting, Action::Invite { room_id: hook.room_id, user_id }),
        ),
        (JoinPhase::FindingBotRoom, Event::BotRoom(false)) => Some(
            Step::Go(JoinPhase::SyncingBefore, Action::SyncOnce),
        ),
        (JoinPhase::Inviting, Event::Done(_)) => Some(
            Step::Go(JoinPhase::SyncingBefore, Action::SyncOnce),
        ),
        (JoinPhase::SyncingBefore, Event::Done(_)) => Some(
            Step::Go(JoinPhase::Looking, Action::ReadRoom { room_id: hook.room_id }),
        ),
        (JoinPhase::Looking, Event::Room(room)) => Some(
            match room {
                RoomView::Known { joined: true, .. } => Step::Go(
                    JoinPhase::SyncingAfter,
                    Action::SyncOnce,
                ),
                RoomView::Known { .. } => Step::Go(
                    JoinPhase::Joining,
                    Action::JoinRoom { room_id: hook.room_id },
                ),
                RoomView::Unknown => Step::Go(
                    JoinPhase::Joining,
                    Action::JoinById { room_id: hook.room_id },
                ),
            },
        ),
        (JoinPhase::Joining, Event::Done(_)) => Some(
            Step::Go(JoinPhase::SyncingAfter, Action::SyncOnce),
        ),
        (JoinPhase::SyncingAfter, Event::Done(_)) => Some(Step::End(())),
        _ => None,
    }
}

/// Starts to get the hook's user into the hook's room.
pub fn ensure_joined(hook: &Hook, user_id: &str) -> (r: Step<JoinPhase, ()>)
    ensures
        r@ == join_start(hook@, user_id@),
{
    if !room_id_ok(hook.room_id.as_str()) {
        Step::End(())
    } else if user_id_ok(user_id) {
        Step::Go(
            JoinPhase::FindingBotRoom,
            Action::FindBotRoom { room_id: hook.room_id.clone() },
        )
    } else {
        Step::Go(JoinPhase::SyncingBefore, Action::SyncOnce)
    }
}

/// Goes on with getting the hook's user into the hook's room; nothing if the event
/// does not answer what was asked for.
pub fn joining(phase: JoinPhase, event: &Event, hook: &Hook, user_id: &str) -> (r: Option<
    Step<JoinPhase, ()>,
>)
    ensures
        step_option(r) == join_next(phase, event@, hook@, user_id@),
{
    match (phase, event) {
        (JoinPhase::FindingBotRoom, Event::BotRoom(known)) => if *known {
            Some(
                Step::Go(
                    JoinPhase::Inviting,
                    Action::Invite {
                        room_id: hook.room_id.clone(),
                        user_id: user_id.to_owned(),
                    },
                ),
            )
        } else {
            Some(Step::Go(JoinPhase::SyncingBefore, Action::SyncOnce))
        },
        (JoinPhase::Inviting, Event::Done(_)) => Some(
            Step::Go(JoinPhase::SyncingBefore, Action::SyncOnce),
        ),
        (JoinPhase::SyncingBefore, Event::Done(_)) => Some(
            Step::Go(JoinPhase::Looking, Action::ReadRoom { room_id: hook.room_id.clone() }),
        ),
        (JoinPhase::Looking, Event::Room(room)) => match *room {
            RoomView::Known { joined, .. } => if joined {
                Some(Step::Go(JoinPhase::SyncingAfter, Action::SyncOnce))
            } else {
                Some(
                    Step::Go(
                        JoinPhase::Joining,
                        Action::JoinRoom { room_id: hook.room_id.clone() },
                    ),
                )
            },
            RoomView::Unknown => Some(
                Step::Go(JoinPhase::Joining, Action::JoinById { room_id: hook.room_id.clone() }),
            ),
        },
        (JoinPhase::Joining, Event::Done(_)) => Some(
            Step::Go(JoinPhase::SyncingAfter, Action::SyncOnce),
        ),
        (JoinPhase::SyncingAfter, Event::Done(_)) => Some(Step::End(())),
        _ => None,
    }
}

/// Where the cross-signing of a device stands.
#[derive(Clone, Copy, Debug, PartialEq, Eq, Structural)]
pub enum SignPhase {
    Bootstrapping,
    ReadingDevice,
    Verifying,
}

impl View for SignPhase {
    type V = SignPhase;

    open spec fn view(&self) -> SignPhase {
        *self
    }
}

/// How cross-signing goes on: the device is signed if there is an identity and
/// the device is there and not signed yet. A step that fails ends it.
pub open spec fn sign_next(phase: SignPhase, event: Event<Seq<char>>) -> Option<
    Step<SignPhase, (), Seq<char>>,
> {
    match (phase, event) {
        (SignPhase::Bootstrapping, Event::Done(ok)) => Some(
            if ok {
                Step::Go(SignPhase::ReadingDevice, Action::ReadDevice)
            } else {
                Step::End(())
            },
        ),
        (SignPhase::ReadingDevice, Event::Device(device)) => Some(
            if device == Some(Some(false)) {
                Step::Go(SignPhase::Verifying, Action::VerifyDevice)
            } else {
                Step::End(())
            },
        ),
        (SignPhase::Verifying, Event::Done(_)) => Some(Step::End(())),
        _ => None,
    }
}

/// Starts to sign the client's own device, so that its messages count as verified
/// by their owner.
pub fn ensure_cross_signing() -> (r: Step<SignPhase, ()>)
    ensures
        r@ == Step::<SignPhase, (), Seq<char>>::Go(SignPhase::Bootstrapping, Action::Bootstrap),
{
    Step::Go(SignPhase::Bootstrapping, Action::Bootstrap)
}

/// Goes on with the signing of the client's own device.
pub fn cross_signing(phase: SignPhase, event: &Event) -> (r: Option<Step<SignPhase, ()>>)
    ensures
        step_option(r) == sign_next(phase, event@),
{
    match (phase, event) {
        (SignPhase::Bootstrapping, Event::Done(ok)) => if *ok {
            Some(Step::Go(SignPhase::ReadingDevice, Action::ReadDevice))
        } else {
            Some(Step::End(()))
        },
        (SignPhase::ReadingDevice, Event::Device(device)) => match device {
            Some(Some(signed)) => if !*signed {
                Some(Step::Go(SignPhase::Verifying, Action::VerifyDevice))
            } else {
                Some(Step::End(()))
            },
            _ => Some(Step::End(())),
        },
        (SignPhase::Verifying, Event::Done(_)) => Some(Step::End(())),
        _ => None,
    }
}

/// Where the building of a client stands.
#[derive(Debug, PartialEq, Eq)]
pub enum BuildPhase<S = String> {
    /// The crypto store is dropped, before a fresh login.
    Clearing,
    LoggingIn,
    /// The session of the fresh login is saved.
    Saving { device_id: S, access_token: S },
    Restoring,
    Naming,
    Joining(JoinPhase),
    Signing(SignPhase),
    /// The room is looked at, to see whether the client is ready.
    Inspecting,
}

impl View for BuildPhase {
    type V = BuildPhase<Seq<char>>;

    open spec fn view(&self) -> BuildPhase<Seq<char>> {
        match self {
            BuildPhase::Clearing => BuildPhase::Clearing,
            BuildPhase::LoggingIn => BuildPhase::LoggingIn,
            BuildPhase::Saving { device_id, access_token } => BuildPhase::Saving {
                device_id: device_id@,
                access_token: access_token@,
            },
            BuildPhase::Restoring => BuildPhase::Restoring,
            BuildPhase::Naming => BuildPhase::Naming,
            BuildPhase::Joining(j) => BuildPhase::Joining(*j),
            BuildPhase::Signing(s) => BuildPhase::Signing(*s),
            BuildPhase::Inspecting => BuildPhase::Inspecting,
        }
    }
}

/// Why a client could not be built.
#[derive(Clone, Copy, Debug, PartialEq, Eq, Structural)]
pub enum BuildError {
    /// The login through the application service failed.
    Login,
    /// The fresh session could not be saved.
    Save,
    /// The session could not be restored.
    Restore,
}

/// Whether a hook's stored session can be used: its crypto store is present, and
/// there is a session.
pub open spec fn reusable(store_present: bool, hook: Hook<Seq<char>>) -> bool {
    store_present && hook.device_id.len() > 0
}

/// How the building of a client starts: with the stored session if it can be
/// used, and with a fresh device otherwise.
pub open spec fn build_start(
    store_present: bool,
    hook: Hook<Seq<char>>,
    user_id: Seq<char>,
) -> Step<BuildPhase<Seq<char>>, Result<bool, BuildError>, Seq<char>> {
    if reusable(store_present, hook) {
        restore_step(user_id, hook.device_id, hook.access_token)
    } else {
        Step::Go(BuildPhase::Clearing, Action::DropStore)
    }
}

/// The restoring of a session.
pub open spec fn restore_step(user_id: Seq<char>, device_id: Seq<char>, access_token: Seq<char>) -> Step<
    BuildPhase<Seq<char>>,
    Result<bool, BuildError>,
    Seq<char>,
> {
    Step::Go(BuildPhase::Restoring, Action::Restore { user_id, device_id, access_token })
}

/// What a step of joining is in the building of a client: cross-signing follows
/// its end.
pub open spec fn build_joining(step: Step<JoinPhase, (), Seq<char>>) -> Step<
    BuildPhase<Seq<char>>,
    Result<bool, BuildError>,
    Seq<char>,
> {
    match step {
        Step::Go(phase, action) => Step::Go(BuildPhase::Joining(phase), action),
        Step::End(_) => Step::Go(
            BuildPhase::Signing(SignPhase::Bootstrapping),
            Action::Bootstrap,
        ),
    }
}

/// What a step of cross-signing is in the building of a client: a look at the room
/// follows its end, and a client with an invalid room id is not ready.
pub open spec fn build_signing(step: Step<SignPhase, (), Seq<char>>, hook: Hook<Seq<char>>) -> Step<
    BuildPhase<Seq<char>>,
    Result<bool, BuildError>,
    Seq<char>,
> {
    match step {
        Step::Go(phase, action) => Step::Go(BuildPhase::Signing(phase), action),
        Step::End(_) => if is_room_id(hook.room_id) {
            Step::Go(BuildPhase::Inspecting, Action::ReadRoom { room_id: hook.room_id })
        } else {
            Step::End(Ok(false))
        },
    }
}

/// How the building of a client goes on. It ends in whether the client is ready,
/// or in an error.
pub open spec fn build_next(
    phase: BuildPhase<Seq<char>>,
    event: Event<Seq<char>>,
    hook: Hook<Seq<char>>,
    user_id: Seq<char>,
) -> Option<Step<BuildPhase<Seq<char>>, Result<bool, BuildError>, Seq<char>>> {
    match (phase, event) {
        (BuildPhase::Clearing, Event::Done(_)) => Some(
            Step::Go(BuildPhase::LoggingIn, Action::Login { localpart: hook.sender }),
        ),
        (BuildPhase::LoggingIn, Event::LoggedIn(Some((device_id, access_token)))) => Some(
            Step::Go(
                BuildPhase::Saving { device_id, access_token },
                Action::SaveSession { id: hook.id, device_id, access_token },
            ),
        ),
        (BuildPhase::LoggingIn, Event::LoggedIn(None)) => Some(Step::End(Err(BuildError::Login))),
        (BuildPhase::Saving { device_id, access_token }, Event::Done(ok)) => Some(
            if ok {
                restore_step(user_id, device_id, access_token)
            } else {
                Step::End(Err(BuildError::Save))
            },
        ),
        (BuildPhase::Restoring, Event::Done(ok)) => Some(
            if ok {
                Step::Go(BuildPhase::Naming, Action::SetDisplayName { name: hook.name })
            } else {
                Step::End(Err(BuildError::Restore))
            },
        ),
        (BuildPhase::Naming, Event::Done(_)) => Some(build_joining(join_start(hook, user_id))),
        (BuildPhase::Joining(j), e) => match join_next(j, e, hook, user_id) {
            Some(step) => Some(build_joining(step)),
            None => None,
        },
        (BuildPhase::Signing(s), e) => match sign_next(s, e) {
            Some(step) => Some(build_signing(step, hook)),
            None => None,
        },
        (BuildPhase::Inspecting, Event::Room(room)) => Some(Step::End(Ok(room.is_ready()))),
        _ => None,
    }
}

/// Starts to build the client of a hook, given whether its crypto store is
/// present: to log in or restore, join the room and sign the device.
pub fn build(store_present: bool, hook: &Hook, user_id: &str) -> (r: Step<
    BuildPhase,
    Result<bool, BuildError>,
>)
    ensures
        r@ == build_start(store_present, hook@, user_id@),
{
    if store_present && !hook.device_id.as_str().is_empty() {
        Step::Go(
            BuildPhase::Restoring,
            Action::Restore {
                user_id: user_id.to_owned(),
                device_id: hook.device_id.clone(),
                access_token: hook.access_token.clone(),
            },
        )
    } else {
        Step::Go(BuildPhase::Clearing, Action::DropStore)
    }
}

fn then_sign(step: Step<JoinPhase, ()>) -> (r: Step<BuildPhase, Result<bool, BuildError>>)
    ensures
        r@ == build_joining(step@),
{
    match step {
        Step::Go(phase, action) => Step::Go(BuildPhase::Joining(phase), action),
        Step::End(_) => match ensure_cross_signing() {
            Step::Go(phase, action) => Step::Go(BuildPhase::Signing(phase), action),
            Step::End(_) => Step::End(Ok(false)),
        },
    }
}

fn then_inspect(step: Step<SignPhase, ()>, hook: &Hook) -> (r: Step<
    BuildPhase,
    Result<bool, BuildError>,
>)
    ensures
        r@ == build_signing(step@, hook@),
{
    match step {
        Step::Go(phase, action) => Step::Go(BuildPhase::Signing(phase), action),
        Step::End(_) => if room_id_ok(hook.room_id.as_str()) {
            Step::Go(BuildPhase::Inspecting, Action::ReadRoom { room_id: hook.room_id.clone() })
        } else {
            Step::End(Ok(false))
        },
    }
}

/// Goes on with the building of a client; nothing if the event does not answer
/// what was asked for.
pub fn building(phase: BuildPhase, event: Event, hook: &Hook, user_id: &str) -> (r: Option<
    Step<BuildPhase, Result<bool, BuildError>>,
>)
    ensures
        step_option(r) == build_next(phase@, event@, hook@, user_id@),
{
    match phase {
        BuildPhase::Clearing => match event {
            Event::Done(_) => Some(
                Step::Go(BuildPhase::LoggingIn, Action::Login { localpart: hook.sender.clone() }),
            ),
            _ => None,
        },
        BuildPhase::LoggingIn => match event {
            Event::LoggedIn(Some((device_id, access_token))) => Some(
                Step::Go(
                    BuildPhase::Saving {
                        device_id: device_id.clone(),
                        access_token: access_token.clone(),
                    },
                    Action::SaveSession { id: hook.id.clone(), device_id, access_token },
                ),
            ),
            Event::LoggedIn(None) => Some(Step::End(Err(BuildError::Login))),
            _ => None,
        },
        BuildPhase::Saving { device_id, access_token } => match event {
            Event::Done(ok) => if ok {
                Some(
                    Step::Go(
                        BuildPhase::Restoring,
                        Action::Restore { user_id: user_id.to_owned(), device_id, access_token },
                    ),
                )
            } else {
                Some(Step::End(Err(BuildError::Save)))
            },
            _ => None,
        },
        BuildPhase::Restoring => match event {
            Event::Done(ok) => if ok {
                Some(
                    Step::Go(BuildPhase::Naming, Action::SetDisplayName { name: hook.name.clone() }),
                )
            } else {
                Some(Step::End(Err(BuildError::Restore)))
            },
            _ => None,
        },
        BuildPhase::Naming => match event {
            Event::Done(_) => Some(then_sign(ensure_joined(hook, user_id))),
            _ => None,
        },
        BuildPhase::Joining(j) => match joining(j, &event, hook, user_id) {
            Some(step) => Some(then_sign(step)),
            None => None,
        },
        BuildPhase::Signing(s) => match cross_signing(s, &event) {
            Some(step) => Some(then_inspect(step, hook)),
            None => None,
        },
        BuildPhase::Inspecting => match event {
            Event::Room(room) => Some(Step::End(Ok(room.ready()))),
            _ => None,
        },
    }
}

/// Where the waiting for a client to become ready stands; the number is how many
/// looks are left, this one among them.
#[derive(Clone, Copy, Debug, PartialEq, Eq, Structural)]
pub enum WaitPhase {
    Looking(u8),
    Sleeping(u8),
    Marking,
}

impl View for WaitPhase {
    type V = WaitPhase;

    open spec fn view(&self) -> WaitPhase {
        *self
    }
}

/// How waiting goes on with `left` looks to go: a look at the room, which is left
/// out where the room id is invalid, and a pause.
pub open spec fn wait_start(left: u8, hook: Hook<Seq<char>>) -> Step<WaitPhase, bool, Seq<char>> {
    if left == 0 {
        Step::End(false)
    } else if is_room_id(hook.room_id) {
        Step::Go(WaitPhase::Looking(left), Action::ReadRoom { room_id: hook.room_id })
    } else {
        Step::Go(WaitPhase::Sleeping(left), Action::Sleep { millis: POLL_MILLIS })
    }
}

/// How waiting goes on. It ends in whether the client has become ready.
pub open spec fn wait_next(
    phase: WaitPhase,
    event: Event<Seq<char>>,
    hook: Hook<Seq<char>>,
) -> Option<Step<WaitPhase, bool, Seq<char>>> {
    match (phase, event) {
        (WaitPhase::Looking(left), Event::Room(room)) => Some(
            if room.is_ready() {
                Step::Go(WaitPhase::Marking, Action::MarkReady)
            } else {
                Step::Go(WaitPhase::Sleeping(left), Action::Sleep { millis: POLL_MILLIS })
            },
        ),
        (WaitPhase::Sleeping(left), Event::Done(_)) => if left == 0 {
            None
        } else {
            Some(wait_start((left - 1) as u8, hook))
        },
        (WaitPhase::Marking, Event::Done(_)) => Some(Step::End(true)),
        _ => None,
    }
}

fn wait(left: u8, hook: &Hook) -> (r: Step<WaitPhase, bool>)
    ensures
        r@ == wait_start(left, hook@),
{
    if left == 0 {
        Step::End(false)
    } else if room_id_ok(hook.room_id.as_str()) {
        Step::Go(WaitPhase::Looking(left), Action::ReadRoom { room_id: hook.room_id.clone() })
    } else {
        Step::Go(WaitPhase::Sleeping(left), Action::Sleep { millis: POLL_MILLIS })
    }
}

fn waiting(phase: WaitPhase, event: &Event, hook: &Hook) -> (r: Option<Step<WaitPhase, bool>>)
    ensures
        step_option(r) == wait_next(phase, event@, hook@),
{
    match (phase, event) {
        (WaitPhase::Looking(left), Event::Room(room)) => if room.ready() {
            Some(Step::Go(WaitPhase::Marking, Action::MarkReady))
        } else {
            Some(Step::Go(WaitPhase::Sleeping(left), Action::Sleep { millis: POLL_MILLIS }))
        },
        (WaitPhase::Sleeping(left), Event::Done(_)) => if left == 0 {
            None
        } else {
            Some(wait(left - 1, hook))
        },
        (WaitPhase::Marking, Event::Done(_)) => Some(Step::End(true)),
        _ => None,
    }
}

/// Where a delivery stands.
#[derive(Clone, Copy, Debug, PartialEq, Eq, Structural)]
pub enum DeliverPhase {
    Joining(JoinPhase),
    Waiting(WaitPhase),
    /// The room is looked at for the last time before sending.
    Checking,
    Sending,
}

impl View for DeliverPhase {
    type V = DeliverPhase;

    open spec fn view(&self) -> DeliverPhase {
        *self
    }
}

/// Why a message is not delivered.
#[derive(Clone, Copy, Debug, PartialEq, Eq, Structural)]
pub enum DeliverError {
    /// The hook's room id is invalid.
    InvalidRoom,
    /// The hook's client is not in its room.
    NotInRoom,
    /// The hook's client is not joined to its room.
    NotJoined,
    /// The hook's room is not encrypted.
    NotEncrypted,
    /// Sending failed.
    SendFailed,
}

/// The last check before sending starts with a look at the room.
pub open spec fn check_start(hook: Hook<Seq<char>>) -> Step<
    DeliverPhase,
    Result<(), DeliverError>,
    Seq<char>,
> {
    if is_room_id(hook.room_id) {
        Step::Go(DeliverPhase::Checking, Action::ReadRoom { room_id: hook.room_id })
    } else {
        Step::End(Err(DeliverError::InvalidRoom))
    }
}

/// What a step of waiting is in a delivery: the last check follows its end,
/// whether the client has become ready or not.
pub open spec fn deliver_waiting(step: Step<WaitPhase, bool, Seq<char>>, hook: Hook<Seq<char>>) -> Step<
    DeliverPhase,
    Result<(), DeliverError>,
    Seq<char>,
> {
    match step {
        Step::Go(phase, action) => Step::Go(DeliverPhase::Waiting(phase), action),
        Step::End(_) => check_start(hook),
    }
}

/// What a step of joining is in a delivery: waiting follows its end.
pub open spec fn deliver_joining(step: Step<JoinPhase, (), Seq<char>>, hook: Hook<Seq<char>>) -> Step<
    DeliverPhase,
    Result<(), DeliverError>,
    Seq<char>,
> {
    match step {
        Step::Go(phase, action) => Step::Go(DeliverPhase::Joining(phase), action),
        Step::End(_) => deliver_waiting(wait_start(POLLS, hook), hook),
    }
}

/// How a delivery starts: a client that is not ready joins its room again and is
/// waited for.
pub open spec fn deliver_start(ready: bool, hook: Hook<Seq<char>>, user_id: Seq<char>) -> Step<
    DeliverPhase,
    Result<(), DeliverError>,
    Seq<char>,
> {
    if ready {
        check_start(hook)
    } else {
        deliver_joining(join_start(hook, user_id), hook)
    }
}

/// How a delivery goes on. The message is sent only into a room that the client is
/// joined to and that is encrypted.
pub open spec fn deliver_next(
    phase: DeliverPhase,
    event: Event<Seq<char>>,
    hook: Hook<Seq<char>>,
    user_id: Seq<char>,
    body: Seq<char>,
) -> Option<Step<DeliverPhase, Result<(), DeliverError>, Seq<char>>> {
    match (phase, event) {
        (DeliverPhase::Joining(j), e) => match join_next(j, e, hook, user_id) {
            Some(step) => Some(deliver_joining(step, hook)),
            None => None,
        },
        (DeliverPhase::Waiting(w), e) => match wait_next(w, e, hook) {
            Some(step) => Some(deliver_waiting(step, hook)),
            None => None,
        },
        (DeliverPhase::Checking, Event::Room(RoomView::Unknown)) => Some(
            Step::End(Err(DeliverError::NotInRoom)),
        ),
        (DeliverPhase::Checking, Event::Room(RoomView::Known { joined, encrypted })) => Some(
            if !joined {
                Step::End(Err(DeliverError::NotJoined))
            } else if !encrypted {
                Step::End(Err(DeliverError::NotEncrypted))
            } else {
                Step::Go(DeliverPhase::Sending, Action::Send { room_id: hook.room_id, body })
            },
        ),
        (DeliverPhase::Sending, Event::Done(ok)) => Some(
            Step::End(
                if ok {
                    Ok(())
                } else {
                    Err(DeliverError::SendFailed)
                },
            ),
        ),
        _ => None,
    }
}

fn check(hook: &Hook) -> (r: Step<DeliverPhase, Result<(), DeliverError>>)
    ensures
        r@ == check_start(hook@),
{
    if room_id_ok(hook.room_id.as_str()) {
        Step::Go(DeliverPhase::Checking, Action::ReadRoom { room_id: hook.room_id.clone() })
    } else {
        Step::End(Err(DeliverError::InvalidRoom))
    }
}

fn then_check(step: Step<WaitPhase, bool>, hook: &Hook) -> (r: Step<
    DeliverPhase,
    Result<(), DeliverError>,
>)
    ensures
        r@ == deliver_waiting(step@, hook@),
{
    match step {
        Step::Go(phase, action) => Step::Go(DeliverPhase::Waiting(phase), action),
        Step::End(_) => check(hook),
    }
}

fn then_wait(step: Step<JoinPhase, ()>, hook: &Hook) -> (r: Step<
    DeliverPhase,
    Result<(), DeliverError>,
>)
    ensures
        r@ == deliver_joining(step@, hook@),
{
    match step {
        Step::Go(phase, action) => Step::Go(DeliverPhase::Joining(phase), action),
        Step::End(_) => then_check(wait(POLLS, hook), hook),
    }
}

fn begin_delivery(ready: bool, hook: &Hook, user_id: &str) -> (r: Step<
    DeliverPhase,
    Result<(), DeliverError>,
>)
    ensures
        r@ == deliver_start(ready, hook@, user_id@),
{
    if ready {
        check(hook)
    } else {
        then_wait(ensure_joined(hook, user_id), hook)
    }
}

/// Goes on with a delivery; nothing if the event does not answer what was asked
/// for.
pub fn delivering(
    phase: DeliverPhase,
    event: &Event,
    hook: &Hook,
    user_id: &str,
    body: &str,
) -> (r: Option<Step<DeliverPhase, Result<(), DeliverError>>>)
    ensures
        step_option(r) == deliver_next(phase, event@, hook@, user_id@, body@),
{
    match phase {
        DeliverPhase::Joining(j) => match joining(j, event, hook, user_id) {
            Some(step) => Some(then_wait(step, hook)),
            None => None,
        },
        DeliverPhase::Waiting(w) => match waiting(w, event, hook) {
            Some(step) => Some(then_check(step, hook)),
            None => None,
        },
        DeliverPhase::Checking => match event {
            Event::Room(RoomView::Unknown) => Some(Step::End(Err(DeliverError::NotInRoom))),
            Event::Room(RoomView::Known { joined, encrypted }) => if !*joined {
                Some(Step::End(Err(DeliverError::NotJoined)))
            } else if !*encrypted {
                Some(Step::End(Err(DeliverError::NotEncrypted)))
            } else {
                Some(
                    Step::Go(
                        DeliverPhase::Sending,
                        Action::Send { room_id: hook.room_id.clone(), body: body.to_owned() },
                    ),
                )
            },
            _ => None,
        },
        DeliverPhase::Sending => match event {
            Event::Done(ok) => if *ok {
                Some(Step::End(Ok(())))
            } else {
                Some(Step::End(Err(DeliverError::SendFailed)))
            },
            _ => None,
        },
    }
}

/// How the provisioning of a built client starts: one that is not ready is waited
/// for. It ends in whether the client is ready.
pub open spec fn provision_start(ready: bool, hook: Hook<Seq<char>>) -> Step<
    WaitPhase,
    bool,
    Seq<char>,
> {
    if ready {
        Step::End(true)
    } else {
        wait_start(POLLS, hook)
    }
}

fn begin_provision(ready: bool, hook: &Hook) -> (r: Step<WaitPhase, bool>)
    ensures
        r@ == provision_start(ready, hook@),
{
    if ready {
        Step::End(true)
    } else {
        wait(POLLS, hook)
    }
}

/// Goes on with the provisioning of a hook's client.
pub fn provisioning(phase: WaitPhase, event: &Event, hook: &Hook) -> (r: Option<
    Step<WaitPhase, bool>,
>)
    ensures
        step_option(r) == wait_next(phase, event@, hook@),
{
    waiting(phase, event, hook)
}

/// Where the removal of a hook's client stands.
#[derive(Clone, Copy, Debug, PartialEq, Eq, Structural)]
pub enum RemovePhase {
    Looking,
    Leaving,
    LoggingOut,
    Stopping,
    Dropping,
}

impl View for RemovePhase {
    type V = RemovePhase;

    open spec fn view(&self) -> RemovePhase {
        *self
    }
}

/// How a removal starts: a live client leaves its room first; in any case the
/// crypto store goes.
pub open spec fn remove_start(live: bool, hook: Hook<Seq<char>>) -> Step<
    RemovePhase,
    (),
    Seq<char>,
> {
    if !live {
        Step::Go(RemovePhase::Dropping, Action::DropStore)
    } else if is_room_id(hook.room_id) {
        Step::Go(RemovePhase::Looking, Action::ReadRoom { room_id: hook.room_id })
    } else {
        Step::Go(RemovePhase::LoggingOut, Action::LogOut)
    }
}

/// How a removal goes on: leave the room if the client knows it, log the device
/// out, stop syncing, drop the store. A step that fails stops nothing.
pub open spec fn remove_next(
    phase: RemovePhase,
    event: Event<Seq<char>>,
    hook: Hook<Seq<char>>,
) -> Option<Step<RemovePhase, (), Seq<char>>> {
    match (phase, event) {
        (RemovePhase::Looking, Event::Room(RoomView::Unknown)) => Some(
            Step::Go(RemovePhase::LoggingOut, Action::LogOut),
        ),
        (RemovePhase::Looking, Event::Room(RoomView::Known { .. })) => Some(
            Step::Go(RemovePhase::Leaving, Action::Leave { room_id: hook.room_id }),
        ),
        (RemovePhase::Leaving, Event::Done(_)) => Some(
            Step::Go(RemovePhase::LoggingOut, Action::LogOut),
        ),
        (RemovePhase::LoggingOut, Event::Done(_)) => Some(
            Step::Go(RemovePhase::Stopping, Action::StopSync),
        ),
        (RemovePhase::Stopping, Event::Done(_)) => Some(
            Step::Go(RemovePhase::Dropping, Action::DropStore),
        ),
        (RemovePhase::Dropping, Event::Done(_)) => Some(Step::End(())),
        _ => None,
    }
}

fn begin_removal(live: bool, hook: &Hook) -> (r: Step<RemovePhase, ()>)
    ensures
        r@ == remove_start(live, hook@),
{
    if !live {
        Step::Go(RemovePhase::Dropping, Action::DropStore)
    } else if room_id_ok(hook.room_id.as_str()) {
        Step::Go(RemovePhase::Looking, Action::ReadRoom { room_id: hook.room_id.clone() })
    } else {
        Step::Go(RemovePhase::LoggingOut, Action::LogOut)
    }
}

/// Goes on with tearing a hook's client down.
pub fn removing(phase: RemovePhase, event: &Event, hook: &Hook) -> (r: Option<
    Step<RemovePhase, ()>,
>)
    ensures
        step_option(r) == remove_next(phase, event@, hook@),
{
    match (phase, event) {
        (RemovePhase::Looking, Event::Room(RoomView::Unknown)) => Some(
            Step::Go(RemovePhase::LoggingOut, Action::LogOut),
        ),
        (RemovePhase::Looking, Event::Room(RoomView::Known { .. })) => Some(
            Step::Go(RemovePhase::Leaving, Action::Leave { room_id: hook.room_id.clone() }),
        ),
        (RemovePhase::Leaving, Event::Done(_)) => Some(
            Step::Go(RemovePhase::LoggingOut, Action::LogOut),
        ),
        (RemovePhase::LoggingOut, Event::Done(_)) => Some(
            Step::Go(RemovePhase::Stopping, Action::StopSync),
        ),
        (RemovePhase::Stopping, Event::Done(_)) => Some(
            Step::Go(RemovePhase::Dropping, Action::DropStore),
        ),
        (RemovePhase::Dropping, Event::Done(_)) => Some(Step::End(())),
        _ => None,
    }
}

/// A hook's live client, and whether it is known to be ready.
#[derive(Debug)]
pub struct Entry<C> {
    pub client: C,
    pub ready: bool,
}

/// The registry of per-hook clients, keyed by hook id. `C` is a client.
#[derive(Debug)]
pub struct HookClients<C> {
    live: Table<Entry<C>>,
    building: Table<()>,
    appservice: AppService,
}

/// The model of a registry: the live clients, and the ids of the hooks whose
/// clients are being built.
pub struct ClientsModel<C> {
    pub live: Map<Seq<char>, Entry<C>>,
    pub building: Map<Seq<char>, ()>,
    pub appservice: AppService<Seq<char>>,
}

impl<C> View for HookClients<C> {
    type V = ClientsModel<C>;

    closed spec fn view(&self) -> ClientsModel<C> {
        ClientsModel {
            live: self.live@,
            building: self.building@,
            appservice: self.appservice@,
        }
    }
}

/// What someone who needs a hook's client is to do.
#[derive(Clone, Copy, Debug, PartialEq, Eq, Structural)]
pub enum Claim {
    /// Use the live client.
    Use,
    /// Wait for the task that builds it, and claim again.
    Wait,
    /// Build it, and report the outcome.
    Build,
}

impl<C> ClientsModel<C> {
    /// No hook has a live client while one is being built for it.
    pub open spec fn one_owner(self) -> bool {
        forall|id: Seq<char>|
            !(#[trigger] self.live.dom().contains(id) && self.building.dom().contains(id))
    }

    /// Whether the client of a hook is known to be ready.
    pub open spec fn is_ready(self, id: Seq<char>) -> bool {
        self.live.dom().contains(id) && self.live[id].ready
    }

    /// What a claim on the client of a hook results in.
    pub open spec fn claim(self, id: Seq<char>) -> Claim {
        if self.live.dom().contains(id) {
            Claim::Use
        } else if self.building.dom().contains(id) {
            Claim::Wait
        } else {
            Claim::Build
        }
    }

    /// The registry after a claim.
    pub open spec fn claimed(self, id: Seq<char>) -> ClientsModel<C> {
        if self.claim(id) == Claim::Build {
            ClientsModel { building: self.building.insert(id, ()), ..self }
        } else {
            self
        }
    }

    /// The registry after a build has ended, with a client or without.
    pub open spec fn built(self, id: Seq<char>, client: Option<Entry<C>>) -> ClientsModel<C> {
        ClientsModel {
            live: match client {
                Some(entry) => self.live.insert(id, entry),
                None => self.live,
            },
            building: self.building.remove(id),
            ..self
        }
    }

    /// The registry after a client was found to be ready.
    pub open spec fn marked(self, id: Seq<char>) -> ClientsModel<C> {
        if self.live.dom().contains(id) {
            ClientsModel {
                live: self.live.insert(id, Entry { client: self.live[id].client, ready: true }),
                ..self
            }
        } else {
            self
        }
    }

    /// The registry without the client of a hook.
    pub open spec fn removed(self, id: Seq<char>) -> ClientsModel<C> {
        ClientsModel { live: self.live.remove(id), ..self }
    }
}

impl<C> HookClients<C> {
    /// The tables are well-formed, and no client is live while it is being built.
    pub closed spec fn wf(self) -> bool {
        self.live.wf() && self.building.wf() && self@.one_owner()
    }

    /// A registry without clients.
    pub fn new(appservice: AppService) -> (r: HookClients<C>)
        ensures
            r.wf(),
            r@ == (ClientsModel {
                live: Map::<Seq<char>, Entry<C>>::empty(),
                building: Map::<Seq<char>, ()>::empty(),
                appservice: appservice@,
            }),
    {
        HookClients { live: Table::new(), building: Table::new(), appservice }
    }

    /// The full id of the user that a hook delivers as.
    pub fn user_id(&self, hook: &Hook) -> (r: String)
        ensures
            r@ == self@.appservice.mxid(hook.sender@),
    {
        self.appservice.user_id(hook.sender.as_str())
    }

    /// Claims the client of a hook: it is there, or is being built, or the caller
    /// is the one to build it.
    pub fn ensure(&mut self, hook: &Hook) -> (r: Claim)
        requires
            old(self).wf(),
        ensures
            final(self).wf(),
            r == old(self)@.claim(hook.id@),
            final(self)@ == old(self)@.claimed(hook.id@),
    {
        let id = hook.id.as_str();
        if self.live.get(id).is_some() {
            Claim::Use
        } else if self.building.get(id).is_some() {
            Claim::Wait
        } else {
            self.building.insert(id, ());
            Claim::Build
        }
    }

    /// Reports the end of a build, with the client and whether it is ready, or
    /// without a client.
    pub fn built(&mut self, hook: &Hook, client: Option<Entry<C>>)
        requires
            old(self).wf(),
        ensures
            final(self).wf(),
            final(self)@ == old(self)@.built(hook.id@, client),
    {
        let id = hook.id.as_str();
        let _ = self.building.remove(id);
        if let Some(entry) = client {
            self.live.insert(id, entry);
        }
        proof {
            assert forall|k: Seq<char>|
                !(#[trigger] self@.live.dom().contains(k) && self@.building.dom().contains(k)) by {
                assert(old(self)@.live.dom().contains(k) ==> !old(self)@.building.dom().contains(k));
            }
        }
    }

    /// The live client of a hook.
    pub fn client(&self, hook: &Hook) -> (r: Option<&C>)
        requires
            self.wf(),
        ensures
            match r {
                Some(c) => self@.live.dom().contains(hook.id@) && *c == self@.live[hook.id@].client,
                None => !self@.live.dom().contains(hook.id@),
            },
    {
        match self.live.get(hook.id.as_str()) {
            Some(entry) => Some(&entry.client),
            None => None,
        }
    }

    /// Remembers that a hook's client is ready.
    pub fn mark_ready(&mut self, hook: &Hook)
        requires
            old(self).wf(),
        ensures
            final(self).wf(),
            final(self)@ == old(self)@.marked(hook.id@),
    {
        let id = hook.id.as_str();
        if let Some(entry) = self.live.remove(id) {
            self.live.insert(id, Entry { client: entry.client, ready: true });
        }
        assert(self@.live =~= old(self)@.marked(hook.id@).live);
    }

    fn known_ready(&self, hook: &Hook) -> (r: bool)
        requires
            self.wf(),
        ensures
            r == self@.is_ready(hook.id@),
    {
        match self.live.get(hook.id.as_str()) {
            Some(entry) => entry.ready,
            None => false,
        }
    }

    /// Starts to deliver a message into the hook's room; [`delivering`] goes on.
    pub fn deliver(&self, hook: &Hook) -> (r: Step<DeliverPhase, Result<(), DeliverError>>)
        requires
            self.wf(),
        ensures
            r@ == deliver_start(
                self@.is_ready(hook.id@),
                hook@,
                self@.appservice.mxid(hook.sender@),
            ),
    {
        begin_delivery(self.known_ready(hook), hook, self.user_id(hook).as_str())
    }

    /// Starts to provision a hook's client once it is built; [`provisioning`] goes
    /// on. It fails unless the client becomes ready.
    pub fn provision(&self, hook: &Hook) -> (r: Step<WaitPhase, bool>)
        requires
            self.wf(),
        ensures
            r@ == provision_start(self@.is_ready(hook.id@), hook@),
    {
        begin_provision(self.known_ready(hook), hook)
    }

    /// Takes a hook's client out of the registry, and starts to tear it down;
    /// [`removing`] goes on.
    pub fn remove(&mut self, hook: &Hook) -> (r: (Option<C>, Step<RemovePhase, ()>))
        requires
            old(self).wf(),
        ensures
            final(self).wf(),
            final(self)@ == old(self)@.removed(hook.id@),
            match r.0 {
                Some(c) => old(self)@.live.dom().contains(hook.id@) && c
                    == old(self)@.live[hook.id@].client,
                None => !old(self)@.live.dom().contains(hook.id@),
            },
            r.1@ == remove_start(old(self)@.live.dom().contains(hook.id@), hook@),
    {
        match self.live.remove(hook.id.as_str()) {
            Some(entry) => (Some(entry.client), begin_removal(true, hook)),
            None => (None, begin_removal(false, hook)),
        }
    }
}

} // verus!
