//! What holds of every operation on a hook's client, whatever the homeserver
//! answers.

use vstd::prelude::*;
use crate::clients::{
    build_next, build_start, check_start, deliver_next, deliver_start, join_next, join_start,
    provision_start, remove_next, remove_start, reusable, wait_next, wait_start, Action, BuildError,
    BuildPhase, Claim, ClientsModel, DeliverError, DeliverPhase, Entry, Event, JoinPhase, RemovePhase,
    RoomView, SignPhase, Step, WaitPhase, POLLS, POLL_MILLIS,
};
use crate::matrix_id::{is_room_id, user_id_parses};
use crate::store::Hook;

verus! {

/// One delivery: whether the client was known to be ready, the hook, its user, the
/// message, and the events in the order in which they came back.
pub struct Delivery {
    pub ready: bool,
    pub hook: Hook<Seq<char>>,
    pub user_id: Seq<char>,
    pub body: Seq<char>,
    pub events: Seq<Event<Seq<char>>>,
}

impl Delivery {
    /// The step that the delivery has reached after `n` events; nothing if it was
    /// over before, or an event did not answer what was asked for.
    pub open spec fn step(self, n: nat) -> Option<
        Step<DeliverPhase, Result<(), DeliverError>, Seq<char>>,
    >
        decreases n,
    {
        if n == 0 {
            Some(deliver_start(self.ready, self.hook, self.user_id))
        } else if n > self.events.len() {
            None
        } else {
            match self.step((n - 1) as nat) {
                Some(Step::Go(phase, _)) => deliver_next(
                    phase,
                    self.events[n - 1],
                    self.hook,
                    self.user_id,
                    self.body,
                ),
                _ => None,
            }
        }
    }

    /// What the delivery asks for after `n` events.
    pub open spec fn asked(self, n: nat) -> Option<Action<Seq<char>>> {
        match self.step(n) {
            Some(Step::Go(_, action)) => Some(action),
            _ => None,
        }
    }

    /// The time that the delivery has asked to wait after `n` events, in
    /// milliseconds.
    pub open spec fn slept(self, n: nat) -> nat
        decreases n,
    {
        if n == 0 {
            0
        } else {
            self.slept((n - 1) as nat) + (match self.asked((n - 1) as nat) {
                Some(Action::Sleep { millis }) => millis as nat,
                _ => 0,
            })
        }
    }
}

/// How many more events the joining of a room can take.
pub open spec fn join_left(phase: JoinPhase) -> nat {
    match phase {
        JoinPhase::FindingBotRoom => 6,
        JoinPhase::Inviting => 5,
        JoinPhase::SyncingBefore => 4,
        JoinPhase::Looking => 3,
        JoinPhase::Joining => 2,
        JoinPhase::SyncingAfter => 1,
    }
}

/// How many more events waiting can take.
pub open spec fn wait_left(phase: WaitPhase) -> nat {
    match phase {
        WaitPhase::Looking(left) => 2 * left as nat,
        WaitPhase::Sleeping(left) => (2 * left - 1) as nat,
        WaitPhase::Marking => 1,
    }
}

/// How many more pauses waiting can take.
pub open spec fn pauses_left(phase: WaitPhase) -> nat {
    match phase {
        WaitPhase::Looking(left) => left as nat,
        WaitPhase::Sleeping(left) => left as nat,
        WaitPhase::Marking => 0,
    }
}

/// Whether a phase of waiting is one that can be reached.
pub open spec fn wait_ok(phase: WaitPhase) -> bool {
    match phase {
        WaitPhase::Looking(left) => 1 <= left <= POLLS,
        WaitPhase::Sleeping(left) => 1 <= left <= POLLS,
        WaitPhase::Marking => true,
    }
}

/// How many more events a delivery can take.
pub open spec fn deliver_left(phase: DeliverPhase) -> nat {
    match phase {
        DeliverPhase::Joining(j) => 42 + join_left(j),
        DeliverPhase::Waiting(w) => 2 + wait_left(w),
        DeliverPhase::Checking => 2,
        DeliverPhase::Sending => 1,
    }
}

spec fn delivery_ok(d: Delivery, n: nat) -> bool {
    match d.step(n) {
        Some(Step::Go(phase, action)) => {
            &&& n + deliver_left(phase) <= 48
            &&& match phase {
                DeliverPhase::Joining(_) => !(action is Send) && !(action is Sleep) && d.slept(n) == 0,
                DeliverPhase::Waiting(w) => {
                    &&& wait_ok(w) && !(action is Send)
                    &&& action is Sleep ==> action->millis == POLL_MILLIS && w is Sleeping
                    &&& d.slept(n) + pauses_left(w) * POLL_MILLIS <= POLLS * POLL_MILLIS
                },
                DeliverPhase::Checking => {
                    &&& action == (Action::ReadRoom { room_id: d.hook.room_id })
                    &&& is_room_id(d.hook.room_id)
                    &&& d.slept(n) <= POLLS * POLL_MILLIS
                },
                DeliverPhase::Sending => {
                    &&& action == (Action::Send { room_id: d.hook.room_id, body: d.body })
                    &&& n >= 1 && d.asked((n - 1) as nat) == Some(
                        Action::ReadRoom { room_id: d.hook.room_id },
                    )
                    &&& d.events[n - 1] == Event::<Seq<char>>::Room(
                        RoomView::Known { joined: true, encrypted: true },
                    )
                    &&& d.slept(n) <= POLLS * POLL_MILLIS
                },
            }
        },
        _ => d.slept(n) <= POLLS * POLL_MILLIS,
    }
}

proof fn lemma_delivery(d: Delivery, n: nat)
    ensures
        delivery_ok(d, n),
    decreases n,
{
    if n > 0 {
        lemma_delivery(d, (n - 1) as nat);
        if let Some(Step::Go(DeliverPhase::Waiting(w), _)) = d.step((n - 1) as nat) {
            assert(pauses_left(w) * POLL_MILLIS >= 0);
            if n <= d.events.len() {
                if let Some(Step::Go(v, _)) = wait_next(w, d.events[n - 1], d.hook) {
                    assert(pauses_left(v) * POLL_MILLIS <= pauses_left(w) * POLL_MILLIS)
                        by (nonlinear_arith)
                        requires
                            pauses_left(v) <= pauses_left(w),
                    ;
                }
            }
        }
    }
}

/// Nothing is ever sent in plain text: a delivery sends only right after its
/// client was seen to be joined to the hook's room and the room to be encrypted;
/// what it sends is the message, and where it sends it is the hook's room.
pub proof fn law_never_plain_text(d: Delivery, n: nat, room_id: Seq<char>, body: Seq<char>)
    requires
        d.asked(n) == Some(Action::Send { room_id, body }),
    ensures
        room_id == d.hook.room_id && body == d.body,
        n >= 1,
        d.asked((n - 1) as nat) == Some(Action::ReadRoom { room_id }),
        d.events[n - 1] == Event::<Seq<char>>::Room(
            RoomView::Known { joined: true, encrypted: true },
        ),
{
    lemma_delivery(d, n);
}

/// A delivery succeeds if and only if the message was sent: its last request was
/// to send it, and that succeeded.
pub proof fn law_delivered_means_sent(d: Delivery, n: nat)
    requires
        n >= 1,
        d.step(n) is Some,
    ensures
        d.step(n) == Some(
            Step::<DeliverPhase, Result<(), DeliverError>, Seq<char>>::End(Ok(())),
        ) <==> d.asked((n - 1) as nat) == Some(
            Action::Send { room_id: d.hook.room_id, body: d.body },
        ) && d.events[n - 1] == Event::<Seq<char>>::Done(true),
{
    lemma_delivery(d, (n - 1) as nat);
}

/// Every delivery ends, after 48 events at the latest, and waits for ten seconds
/// at most.
pub proof fn law_deliveries_end(d: Delivery, n: nat)
    ensures
        d.step(n) is Some && n >= 48 ==> d.step(n)->0 is End,
        d.slept(n) <= 10_000,
{
    lemma_delivery(d, n);
    if let Some(Step::Go(DeliverPhase::Waiting(w), _)) = d.step(n) {
        assert(pauses_left(w) * POLL_MILLIS >= 0);
    }
}

/// One provisioning of a built client.
pub struct Provisioning {
    pub ready: bool,
    pub hook: Hook<Seq<char>>,
    pub events: Seq<Event<Seq<char>>>,
}

impl Provisioning {
    /// The step that the provisioning has reached after `n` events.
    pub open spec fn step(self, n: nat) -> Option<Step<WaitPhase, bool, Seq<char>>>
        decreases n,
    {
        if n == 0 {
            Some(provision_start(self.ready, self.hook))
        } else if n > self.events.len() {
            None
        } else {
            match self.step((n - 1) as nat) {
                Some(Step::Go(phase, _)) => wait_next(phase, self.events[n - 1], self.hook),
                _ => None,
            }
        }
    }
}

spec fn provisioning_ok(p: Provisioning, n: nat) -> bool {
    match p.step(n) {
        Some(Step::Go(phase, action)) => {
            &&& !p.ready && wait_ok(phase) && n + wait_left(phase) <= 40
            &&& phase == WaitPhase::Marking ==> action == Action::<Seq<char>>::MarkReady && n >= 1
                && p.events[n - 1] == Event::<Seq<char>>::Room(
                RoomView::Known { joined: true, encrypted: true },
            )
        },
        Some(Step::End(true)) => p.ready || (n >= 2 && p.step((n - 1) as nat) == Some(
            Step::<WaitPhase, bool, Seq<char>>::Go(WaitPhase::Marking, Action::MarkReady),
        ) && p.events[n - 2] == Event::<Seq<char>>::Room(
            RoomView::Known { joined: true, encrypted: true },
        )),
        Some(Step::End(false)) => !p.ready,
        None => true,
    }
}

proof fn lemma_provisioning(p: Provisioning, n: nat)
    ensures
        provisioning_ok(p, n),
    decreases n,
{
    if n > 0 {
        lemma_provisioning(p, (n - 1) as nat);
    }
}

/// Provisioning succeeds only for a client that is joined to an encrypted room: it
/// was known to be ready, or was seen to be just before; and it ends after 40
/// events at the latest.
pub proof fn law_provisioned_means_ready(p: Provisioning, n: nat)
    ensures
        p.step(n) == Some(Step::<WaitPhase, bool, Seq<char>>::End(true)) ==> p.ready || (n >= 2
            && p.events[n - 2] == Event::<Seq<char>>::Room(
            RoomView::Known { joined: true, encrypted: true },
        )),
        p.step(n) is Some && n >= 40 ==> p.step(n)->0 is End,
{
    lemma_provisioning(p, n);
}

/// One building of a client.
pub struct Build {
    pub store_present: bool,
    pub hook: Hook<Seq<char>>,
    pub user_id: Seq<char>,
    pub events: Seq<Event<Seq<char>>>,
}

impl Build {
    /// The step that the building has reached after `n` events.
    pub open spec fn step(self, n: nat) -> Option<
        Step<BuildPhase<Seq<char>>, Result<bool, BuildError>, Seq<char>>,
    >
        decreases n,
    {
        if n == 0 {
            Some(build_start(self.store_present, self.hook, self.user_id))
        } else if n > self.events.len() {
            None
        } else {
            match self.step((n - 1) as nat) {
                Some(Step::Go(phase, _)) => build_next(
                    phase,
                    self.events[n - 1],
                    self.hook,
                    self.user_id,
                ),
                _ => None,
            }
        }
    }

    /// What the building asks for after `n` events.
    pub open spec fn asked(self, n: nat) -> Option<Action<Seq<char>>> {
        match self.step(n) {
            Some(Step::Go(_, action)) => Some(action),
            _ => None,
        }
    }

    /// Whether a session stands for the crypto store that is on disk: it is the
    /// stored one and its store was present, or it is of a login made after the
    /// store was dropped, and was saved.
    pub open spec fn session_fits_store(self, n: nat, device_id: Seq<char>, token: Seq<char>) -> bool {
        if reusable(self.store_present, self.hook) {
            n == 0 && device_id == self.hook.device_id && token == self.hook.access_token
        } else {
            &&& n == 3
            &&& self.asked(0) == Some(Action::<Seq<char>>::DropStore)
            &&& self.asked(1) == Some(Action::Login { localpart: self.hook.sender })
            &&& self.events[1] == Event::LoggedIn(Some((device_id, token)))
            &&& self.asked(2) == Some(
                Action::SaveSession { id: self.hook.id, device_id, access_token: token },
            )
            &&& self.events[2] == Event::<Seq<char>>::Done(true)
        }
    }
}

/// How many more events the building of a client can take.
pub open spec fn build_left(phase: BuildPhase<Seq<char>>) -> nat {
    match phase {
        BuildPhase::Clearing => 15,
        BuildPhase::LoggingIn => 14,
        BuildPhase::Saving { .. } => 13,
        BuildPhase::Restoring => 12,
        BuildPhase::Naming => 11,
        BuildPhase::Joining(j) => 4 + join_left(j),
        BuildPhase::Signing(SignPhase::Bootstrapping) => 4,
        BuildPhase::Signing(SignPhase::ReadingDevice) => 3,
        BuildPhase::Signing(SignPhase::Verifying) => 2,
        BuildPhase::Inspecting => 1,
    }
}

spec fn build_ok(b: Build, n: nat) -> bool {
    match b.step(n) {
        Some(Step::Go(phase, action)) => {
            &&& n + build_left(phase) <= 15
            &&& match phase {
                BuildPhase::Clearing => n == 0 && action == Action::<Seq<char>>::DropStore
                    && !reusable(b.store_present, b.hook),
                BuildPhase::LoggingIn => n == 1 && !reusable(b.store_present, b.hook) && b.asked(0)
                    == Some(Action::<Seq<char>>::DropStore) && action == (Action::Login {
                    localpart: b.hook.sender,
                }),
                BuildPhase::Saving { device_id, access_token } => {
                    &&& n == 2 && !reusable(b.store_present, b.hook)
                    &&& b.asked(0) == Some(Action::<Seq<char>>::DropStore)
                    &&& b.asked(1) == Some(Action::Login { localpart: b.hook.sender })
                    &&& b.events[1] == Event::LoggedIn(Some((device_id, access_token)))
                    &&& action == (Action::SaveSession { id: b.hook.id, device_id, access_token })
                },
                BuildPhase::Restoring => action is Restore && action->Restore_user_id == b.user_id
                    && b.session_fits_store(
                    n,
                    action->Restore_device_id,
                    action->Restore_access_token,
                ),
                _ => !(action is Restore) && !(action is SaveSession) && !(action is DropStore) && !(
                action is Login),
            }
        },
        Some(Step::End(Ok(ready))) => ready ==> n >= 1 && b.events[n - 1]
            == Event::<Seq<char>>::Room(RoomView::Known { joined: true, encrypted: true }),
        Some(Step::End(Err(e))) => {
            &&& n >= 1 && n <= 4
            &&& match e {
                BuildError::Login => b.events[n - 1] == Event::<Seq<char>>::LoggedIn(None),
                BuildError::Save => b.asked((n - 1) as nat) matches Some(a) && a is SaveSession
                    && b.events[n - 1] == Event::<Seq<char>>::Done(false),
                BuildError::Restore => b.asked((n - 1) as nat) matches Some(a) && a is Restore
                    && b.events[n - 1] == Event::<Seq<char>>::Done(false),
            }
        },
        None => true,
    }
}

proof fn lemma_build(b: Build, n: nat)
    ensures
        build_ok(b, n),
    decreases n,
{
    if n > 0 {
        lemma_build(b, (n - 1) as nat);
        reveal_with_fuel(Build::step, 2);
    }
}

/// Device, access token and crypto store are one unit: the session that is
/// restored is the stored one if its crypto store is present, and otherwise that of
/// a fresh device, minted after the rest of a store was dropped and saved before it
/// is used.
pub proof fn law_session_and_store_are_one(
    b: Build,
    n: nat,
    user_id: Seq<char>,
    device_id: Seq<char>,
    access_token: Seq<char>,
)
    requires
        b.asked(n) == Some(Action::Restore { user_id, device_id, access_token }),
    ensures
        user_id == b.user_id,
        b.session_fits_store(n, device_id, access_token),
{
    lemma_build(b, n);
}

/// A client that counts as ready when it is built was seen to be joined to the
/// hook's room and the room to be encrypted; a build fails only where the login,
/// the saving or the restoring failed; and it ends after 15 events at the latest.
pub proof fn law_builds_end(b: Build, n: nat)
    ensures
        b.step(n) == Some(
            Step::<BuildPhase<Seq<char>>, Result<bool, BuildError>, Seq<char>>::End(Ok(true)),
        ) ==> n >= 1 && b.events[n - 1] == Event::<Seq<char>>::Room(
            RoomView::Known { joined: true, encrypted: true },
        ),
        b.step(n) matches Some(Step::End(Err(e))) ==> n >= 1 && match e {
            BuildError::Login => b.events[n - 1] == Event::<Seq<char>>::LoggedIn(None),
            BuildError::Save => b.asked((n - 1) as nat) matches Some(a) && a is SaveSession
                && b.events[n - 1] == Event::<Seq<char>>::Done(false),
            BuildError::Restore => b.asked((n - 1) as nat) matches Some(a) && a is Restore
                && b.events[n - 1] == Event::<Seq<char>>::Done(false),
        },
        b.step(n) is Some && n >= 15 ==> b.step(n)->0 is End,
{
    lemma_build(b, n);
}

/// One removal of a hook's client.
pub struct Removal {
    pub live: bool,
    pub hook: Hook<Seq<char>>,
    pub events: Seq<Event<Seq<char>>>,
}

impl Removal {
    /// The step that the removal has reached after `n` events.
    pub open spec fn step(self, n: nat) -> Option<Step<RemovePhase, (), Seq<char>>>
        decreases n,
    {
        if n == 0 {
            Some(remove_start(self.live, self.hook))
        } else if n > self.events.len() {
            None
        } else {
            match self.step((n - 1) as nat) {
                Some(Step::Go(phase, _)) => remove_next(phase, self.events[n - 1], self.hook),
                _ => None,
            }
        }
    }

    /// What the removal asks for after `n` events.
    pub open spec fn asked(self, n: nat) -> Option<Action<Seq<char>>> {
        match self.step(n) {
            Some(Step::Go(_, action)) => Some(action),
            _ => None,
        }
    }
}

spec fn removal_ok(r: Removal, n: nat) -> bool {
    match r.step(n) {
        Some(Step::Go(phase, action)) => match phase {
            RemovePhase::Looking => n == 0 && r.live && action == (Action::ReadRoom {
                room_id: r.hook.room_id,
            }),
            RemovePhase::Leaving => n == 1 && r.live && action == (Action::Leave {
                room_id: r.hook.room_id,
            }),
            RemovePhase::LoggingOut => n <= 2 && r.live && action == Action::<Seq<char>>::LogOut && (
            n == 1 ==> r.events[0] == Event::<Seq<char>>::Room(RoomView::Unknown)) && (n == 2
                ==> r.asked(1) == Some(Action::Leave { room_id: r.hook.room_id })),
            RemovePhase::Stopping => n <= 3 && r.live && action == Action::<Seq<char>>::StopSync
                && n >= 1 && r.asked((n - 1) as nat) == Some(Action::<Seq<char>>::LogOut),
            RemovePhase::Dropping => {
                &&& n <= 4 && action == Action::<Seq<char>>::DropStore
                &&& r.live ==> n >= 2 && r.asked((n - 1) as nat) == Some(
                    Action::<Seq<char>>::StopSync,
                ) && r.asked((n - 2) as nat) == Some(Action::<Seq<char>>::LogOut)
                &&& !r.live ==> n == 0
            },
        },
        Some(Step::End(_)) => n >= 1 && n <= 5 && r.asked((n - 1) as nat) == Some(
            Action::<Seq<char>>::DropStore,
        ),
        None => true,
    }
}

proof fn lemma_removal(r: Removal, n: nat)
    ensures
        removal_ok(r, n),
    decreases n,
{
    if n > 0 {
        lemma_removal(r, (n - 1) as nat);
        reveal_with_fuel(Removal::step, 2);
    }
}

/// A removal that has ended has dropped the crypto store last; where there was a
/// live client, its device was logged out and its syncing stopped before, and it
/// had left the room if it knew the room.
pub proof fn law_removal_is_complete(r: Removal, n: nat)
    requires
        r.step(n) == Some(Step::<RemovePhase, (), Seq<char>>::End(())),
    ensures
        1 <= n <= 5,
        r.asked((n - 1) as nat) == Some(Action::<Seq<char>>::DropStore),
        r.live ==> n >= 3 && r.asked((n - 2) as nat) == Some(Action::<Seq<char>>::StopSync)
            && r.asked((n - 3) as nat) == Some(Action::<Seq<char>>::LogOut),
        r.live && is_room_id(r.hook.room_id) && r.events[0] != Event::<Seq<char>>::Room(
            RoomView::Unknown,
        ) ==> n == 5 && r.asked(1) == Some(Action::Leave { room_id: r.hook.room_id }),
{
    lemma_removal(r, n);
    lemma_removal(r, (n - 1) as nat);
    if r.live {
        lemma_removal(r, (n - 2) as nat);
        lemma_removal(r, (n - 3) as nat);
    }
    reveal_with_fuel(Removal::step, 6);
}

/// At most one task builds the client of a hook at a time: whoever is told to
/// build is the only one until the end of the build is reported, whatever happens
/// to other hooks meanwhile.
pub proof fn law_one_builder<C>(
    m: ClientsModel<C>,
    id: Seq<char>,
    other: Seq<char>,
    entry: Option<Entry<C>>,
)
    ensures
        m.claim(id) == Claim::Build ==> m.claimed(id).building.dom().contains(id),
        m.one_owner() && m.building.dom().contains(id) ==> {
            &&& m.claim(id) == Claim::Wait
            &&& m.claimed(other).building.dom().contains(id)
            &&& m.marked(other).building.dom().contains(id)
            &&& m.removed(other).building.dom().contains(id)
            &&& other != id ==> m.built(other, entry).building.dom().contains(id)
        },
{
}

/// After a build that succeeded, everyone uses that client; after one that failed,
/// the next one to claim it builds.
pub proof fn law_build_outcome<C>(m: ClientsModel<C>, id: Seq<char>, entry: Entry<C>)
    ensures
        m.built(id, Some(entry)).claim(id) == Claim::Use,
        m.built(id, Some(entry)).live[id] == entry,
        !m.live.dom().contains(id) ==> m.built(id, None).claim(id) == Claim::Build,
{
}

/// An event of a run.
pub type Answer = Event<Seq<char>>;

/// A room that a message can be sent into: the client is joined to it, and it is
/// encrypted.
pub open spec fn good_room() -> RoomView {
    RoomView::Known { joined: true, encrypted: true }
}

/// Whether an event is an answer to an action.
pub open spec fn answers(event: Answer, action: Action<Seq<char>>) -> bool {
    match action {
        Action::Login { .. } => event is LoggedIn,
        Action::FindBotRoom { .. } => event is BotRoom,
        Action::ReadRoom { .. } => event is Room,
        Action::ReadDevice => event is Device,
        _ => event is Done,
    }
}

/// One joining of a hook's room by the hook's user.
pub struct Joining {
    pub hook: Hook<Seq<char>>,
    pub user_id: Seq<char>,
    pub events: Seq<Answer>,
}

impl Joining {
    /// The step that the joining has reached after `n` events.
    pub open spec fn step(self, n: nat) -> Option<Step<JoinPhase, (), Seq<char>>>
        decreases n,
    {
        if n == 0 {
            Some(join_start(self.hook, self.user_id))
        } else if n > self.events.len() {
            None
        } else {
            match self.step((n - 1) as nat) {
                Some(Step::Go(phase, _)) => join_next(
                    phase,
                    self.events[n - 1],
                    self.hook,
                    self.user_id,
                ),
                _ => None,
            }
        }
    }

    /// What the joining asks for after `n` events.
    pub open spec fn asked(self, n: nat) -> Option<Action<Seq<char>>> {
        match self.step(n) {
            Some(Step::Go(_, action)) => Some(action),
            _ => None,
        }
    }

    /// Whether the joining has ended with event `n`.
    pub open spec fn over(self, n: nat) -> bool {
        self.step(n) == Some(Step::<JoinPhase, (), Seq<char>>::End(()))
    }

    /// How many events it takes to get the user invited: none where the user id is
    /// invalid, one where the bot does not know the room, and two otherwise.
    pub open spec fn invited_after(self) -> nat {
        if !user_id_parses(self.user_id) {
            0
        } else if self.events[0] == Answer::BotRoom(false) {
            1
        } else {
            2
        }
    }
}

/// The user of a hook is invited by the bot, if the bot knows the room.
pub proof fn law_joining_invites(j: Joining)
    requires
        is_room_id(j.hook.room_id),
        user_id_parses(j.user_id),
        j.events.len() >= 1,
    ensures
        j.asked(0) == Some(Action::FindBotRoom { room_id: j.hook.room_id }),
        j.events[0] == Answer::BotRoom(true) ==> j.asked(1) == Some(
            Action::Invite { room_id: j.hook.room_id, user_id: j.user_id },
        ),
{
    reveal_with_fuel(Joining::step, 2);
}

/// After the invitation, whatever came of it, the client syncs and looks at the room.
/// One that is not joined, whether the room is known to be encrypted or not, joins that
/// very room, by its id where it does not know it; one that is joined does not join
/// again. In either case it syncs once more, and that is the end. With an invalid room
/// id there is nothing to do.
pub proof fn law_joining_joins(j: Joining, view: RoomView)
    requires
        j.events.len() >= j.invited_after() + 3,
        user_id_parses(j.user_id) ==> j.events[0] is BotRoom,
        j.invited_after() == 2 ==> j.events[1] is Done,
        j.events[j.invited_after() as int] is Done,
        j.events[(j.invited_after() + 1) as int] == Answer::Room(view),
        j.events[(j.invited_after() + 2) as int] is Done,
    ensures
        !is_room_id(j.hook.room_id) ==> j.over(0),
        is_room_id(j.hook.room_id) ==> ({
            let k = j.invited_after();
            let room_id = j.hook.room_id;
            let joined = view matches RoomView::Known { joined, .. } && joined;
            &&& j.asked(k) == Some(Action::<Seq<char>>::SyncOnce)
            &&& j.asked(k + 1) == Some(Action::ReadRoom { room_id })
            &&& joined ==> j.asked(k + 2) == Some(Action::<Seq<char>>::SyncOnce) && j.over(k + 3)
            &&& !joined ==> {
                &&& j.asked(k + 2) == Some(
                    if view is Unknown {
                        Action::JoinById { room_id }
                    } else {
                        Action::JoinRoom { room_id }
                    },
                )
                &&& j.asked(k + 3) == Some(Action::<Seq<char>>::SyncOnce)
                &&& j.events.len() >= k + 4 && j.events[(k + 3) as int] is Done ==> j.over(k + 4)
            }
        }),
{
    reveal_with_fuel(Joining::step, 7);
}

spec fn join_fits(phase: JoinPhase, action: Action<Seq<char>>) -> bool {
    match phase {
        JoinPhase::FindingBotRoom => action is FindBotRoom,
        JoinPhase::Inviting => action is Invite,
        JoinPhase::SyncingBefore => action is SyncOnce,
        JoinPhase::Looking => action is ReadRoom,
        JoinPhase::Joining => action is JoinRoom || action is JoinById,
        JoinPhase::SyncingAfter => action is SyncOnce,
    }
}

spec fn wait_fits(phase: WaitPhase, action: Action<Seq<char>>) -> bool {
    match phase {
        WaitPhase::Looking(left) => left >= 1 && action is ReadRoom,
        WaitPhase::Sleeping(left) => left >= 1 && action is Sleep,
        WaitPhase::Marking => action is MarkReady,
    }
}

spec fn deliver_fits(phase: DeliverPhase, action: Action<Seq<char>>) -> bool {
    match phase {
        DeliverPhase::Joining(j) => join_fits(j, action),
        DeliverPhase::Waiting(w) => wait_fits(w, action),
        DeliverPhase::Checking => action is ReadRoom,
        DeliverPhase::Sending => action is Send,
    }
}

spec fn build_fits(phase: BuildPhase<Seq<char>>, action: Action<Seq<char>>) -> bool {
    match phase {
        BuildPhase::Clearing => action is DropStore,
        BuildPhase::LoggingIn => action is Login,
        BuildPhase::Saving { .. } => action is SaveSession,
        BuildPhase::Restoring => action is Restore,
        BuildPhase::Naming => action is SetDisplayName,
        BuildPhase::Joining(j) => join_fits(j, action),
        BuildPhase::Signing(SignPhase::Bootstrapping) => action is Bootstrap,
        BuildPhase::Signing(SignPhase::ReadingDevice) => action is ReadDevice,
        BuildPhase::Signing(SignPhase::Verifying) => action is VerifyDevice,
        BuildPhase::Inspecting => action is ReadRoom,
    }
}

spec fn remove_fits(phase: RemovePhase, action: Action<Seq<char>>) -> bool {
    match phase {
        RemovePhase::Looking => action is ReadRoom,
        RemovePhase::Leaving => action is Leave,
        RemovePhase::LoggingOut => action is LogOut,
        RemovePhase::Stopping => action is StopSync,
        RemovePhase::Dropping => action is DropStore,
    }
}

proof fn lemma_delivery_fits(d: Delivery, n: nat)
    ensures
        d.step(n) matches Some(Step::Go(phase, action)) ==> deliver_fits(phase, action),
    decreases n,
{
    if n > 0 {
        lemma_delivery_fits(d, (n - 1) as nat);
    }
}

proof fn lemma_build_fits(b: Build, n: nat)
    ensures
        b.step(n) matches Some(Step::Go(phase, action)) ==> build_fits(phase, action),
    decreases n,
{
    if n > 0 {
        lemma_build_fits(b, (n - 1) as nat);
    }
}

proof fn lemma_provisioning_fits(p: Provisioning, n: nat)
    ensures
        p.step(n) matches Some(Step::Go(phase, action)) ==> wait_fits(phase, action),
    decreases n,
{
    if n > 0 {
        lemma_provisioning_fits(p, (n - 1) as nat);
    }
}

proof fn lemma_removal_fits(r: Removal, n: nat)
    ensures
        r.step(n) matches Some(Step::Go(phase, action)) ==> remove_fits(phase, action),
    decreases n,
{
    if n > 0 {
        lemma_removal_fits(r, (n - 1) as nat);
    }
}

/// Every operation goes on as long as the events answer what it asks for, and does not
/// go on with anything else.
pub proof fn law_operations_go_on(d: Delivery, b: Build, p: Provisioning, r: Removal, n: nat)
    ensures
        d.step(n) matches Some(Step::Go(_, action)) ==> n < d.events.len() ==> (d.step(n + 1)
            is Some <==> answers(d.events[n as int], action)),
        b.step(n) matches Some(Step::Go(_, action)) ==> n < b.events.len() ==> (b.step(n + 1)
            is Some <==> answers(b.events[n as int], action)),
        p.step(n) matches Some(Step::Go(_, action)) ==> n < p.events.len() ==> (p.step(n + 1)
            is Some <==> answers(p.events[n as int], action)),
        r.step(n) matches Some(Step::Go(_, action)) ==> n < r.events.len() ==> (r.step(n + 1)
            is Some <==> answers(r.events[n as int], action)),
{
    lemma_delivery_fits(d, n);
    lemma_build_fits(b, n);
    lemma_provisioning_fits(p, n);
    lemma_removal_fits(r, n);
    reveal_with_fuel(Delivery::step, 2);
    reveal_with_fuel(Build::step, 2);
    reveal_with_fuel(Provisioning::step, 2);
    reveal_with_fuel(Removal::step, 2);
}

impl Delivery {
    /// The joining that the delivery starts with where its client is not ready.
    pub open spec fn joining(self) -> Joining {
        Joining { hook: self.hook, user_id: self.user_id, events: self.events }
    }

    /// Whether the look at the room after `n` events decides on the delivery: into a
    /// room that the client is joined to and that is encrypted the message is sent, and
    /// how that went is the outcome; any other room is an error of its own.
    pub open spec fn decided_by(self, n: nat) -> bool {
        &&& self.asked(n) == Some(Action::ReadRoom { room_id: self.hook.room_id })
        &&& n < self.events.len() ==> (self.events[n as int] matches Event::Room(view) ==> match view {
            RoomView::Unknown => self.ends(n + 1, Err(DeliverError::NotInRoom)),
            RoomView::Known { joined: false, .. } => self.ends(
                n + 1,
                Err(DeliverError::NotJoined),
            ),
            RoomView::Known { joined: true, encrypted: false } => self.ends(
                n + 1,
                Err(DeliverError::NotEncrypted),
            ),
            RoomView::Known { joined: true, encrypted: true } => {
                &&& self.asked(n + 1) == Some(
                    Action::Send { room_id: self.hook.room_id, body: self.body },
                )
                &&& n + 1 < self.events.len() ==> {
                    &&& self.events[(n + 1) as int] == Answer::Done(true) ==> self.ends(n + 2, Ok(()))
                    &&& self.events[(n + 1) as int] == Answer::Done(false) ==> self.ends(
                        n + 2,
                        Err(DeliverError::SendFailed),
                    )
                }
            },
        })
    }

    /// Whether the delivery has ended with this outcome after `n` events.
    pub open spec fn ends(self, n: nat, outcome: Result<(), DeliverError>) -> bool {
        self.step(n) == Some(Step::<DeliverPhase, Result<(), DeliverError>, Seq<char>>::End(outcome))
    }

    /// Whether the first `looks` looks after `start` events all showed a client that is
    /// not ready, and each pause after them is over.
    pub open spec fn unready(self, start: nat, looks: nat) -> bool {
        forall|m: int|
            0 <= m < looks ==> start + 2 * m + 1 < self.events.len() && (
            #[trigger] self.events[start + 2 * m] matches Event::Room(view) && view != good_room())
                && self.events[start + 2 * m + 1] is Done
    }
}

proof fn lemma_checking(d: Delivery, n: nat)
    requires
        is_room_id(d.hook.room_id),
        d.step(n) == Some(check_start(d.hook)),
    ensures
        d.decided_by(n),
{
    reveal_with_fuel(Delivery::step, 3);
}

/// With a client that is known to be ready, one look at the room decides at once; with
/// an invalid room id the delivery fails at once.
pub proof fn law_ready_delivery(d: Delivery)
    requires
        d.ready,
    ensures
        is_room_id(d.hook.room_id) ==> d.decided_by(0),
        !is_room_id(d.hook.room_id) ==> d.ends(0, Err(DeliverError::InvalidRoom)),
{
    if is_room_id(d.hook.room_id) {
        lemma_checking(d, 0);
    }
}

proof fn lemma_delivery_joins(d: Delivery, n: nat)
    requires
        !d.ready,
    ensures
        match d.joining().step(n) {
            Some(Step::Go(phase, action)) => d.step(n) == Some(
                Step::<DeliverPhase, Result<(), DeliverError>, Seq<char>>::Go(
                    DeliverPhase::Joining(phase),
                    action,
                ),
            ),
            Some(Step::End(_)) => d.step(n) == Some(
                crate::clients::deliver_waiting(wait_start(20, d.hook), d.hook),
            ),
            None => true,
        },
    decreases n,
{
    if n > 0 {
        lemma_delivery_joins(d, (n - 1) as nat);
    }
}

/// With a client that is not known to be ready, a delivery does all that joining does,
/// and once that is over it looks at the room.
pub proof fn law_unready_delivery_joins(d: Delivery, n: nat)
    requires
        !d.ready,
        is_room_id(d.hook.room_id),
    ensures
        d.joining().asked(n) is Some ==> d.asked(n) == d.joining().asked(n),
        d.joining().over(n) ==> d.asked(n) == Some(Action::ReadRoom { room_id: d.hook.room_id }),
{
    lemma_delivery_joins(d, n);
}

proof fn lemma_polls(d: Delivery, start: nat, i: nat)
    requires
        !d.ready,
        is_room_id(d.hook.room_id),
        d.joining().over(start),
        i <= 20,
        d.unready(start, i),
    ensures
        i < 20 ==> d.step(start + 2 * i) == Some(
            Step::<DeliverPhase, Result<(), DeliverError>, Seq<char>>::Go(
                DeliverPhase::Waiting(WaitPhase::Looking((20 - i) as u8)),
                Action::ReadRoom { room_id: d.hook.room_id },
            ),
        ),
        i == 20 ==> d.step(start + 2 * i) == Some(check_start(d.hook)),
    decreases i,
{
    if i == 0 {
        lemma_delivery_joins(d, start);
    } else {
        let m = i - 1;
        assert(d.unready(start, m as nat));
        lemma_polls(d, start, m as nat);
        assert(d.events[start + 2 * m] matches Event::Room(view) && view != good_room());
        reveal_with_fuel(Delivery::step, 3);
    }
}

/// Once it has joined, a delivery looks at the room up to twenty times, half a second
/// apart, until the client is ready, which it then remembers; and after that, or after
/// the twentieth look, one more look decides.
pub proof fn law_delivery_waits(d: Delivery, start: nat, i: nat)
    requires
        !d.ready,
        is_room_id(d.hook.room_id),
        d.joining().over(start),
        i <= 20,
        d.unready(start, i),
    ensures
        ({
            let n = start + 2 * i;
            &&& d.asked(n) == Some(Action::ReadRoom { room_id: d.hook.room_id })
            &&& i == 20 ==> d.decided_by(n)
            &&& i < 20 && n < d.events.len() ==> (d.events[n as int] matches Event::Room(view) ==> {
                &&& view != good_room() ==> d.asked(n + 1) == Some(
                    Action::<Seq<char>>::Sleep { millis: 500 },
                )
                &&& view == good_room() ==> d.asked(n + 1) == Some(Action::<Seq<char>>::MarkReady)
                &&& view == good_room() && n + 1 < d.events.len() && d.events[(n + 1) as int] is Done
                    ==> d.decided_by(n + 2)
            })
        }),
{
    lemma_polls(d, start, i);
    let n = start + 2 * i;
    reveal_with_fuel(Delivery::step, 3);
    if i == 20 {
        lemma_checking(d, n);
    } else if n + 1 < d.events.len() && d.events[n as int] == Answer::Room(good_room())
        && d.events[(n + 1) as int] is Done {
        lemma_checking(d, n + 2);
    }
}

/// With an invalid room id and a client that is not known to be ready, a delivery
/// pauses twenty times, half a second each, and fails.
pub proof fn law_delivery_to_invalid_room(d: Delivery, i: nat)
    requires
        !d.ready,
        !is_room_id(d.hook.room_id),
        i <= 20,
        d.events.len() >= i,
        forall|m: int| 0 <= m < i ==> #[trigger] d.events[m] is Done,
    ensures
        i < 20 ==> d.asked(i) == Some(Action::<Seq<char>>::Sleep { millis: 500 }),
        i == 20 ==> d.ends(20, Err(DeliverError::InvalidRoom)),
{
    lemma_blind_polls(d, i);
}

proof fn lemma_blind_polls(d: Delivery, i: nat)
    requires
        !d.ready,
        !is_room_id(d.hook.room_id),
        i <= 20,
        d.events.len() >= i,
        forall|m: int| 0 <= m < i ==> #[trigger] d.events[m] is Done,
    ensures
        i < 20 ==> d.step(i) == Some(
            Step::<DeliverPhase, Result<(), DeliverError>, Seq<char>>::Go(
                DeliverPhase::Waiting(WaitPhase::Sleeping((20 - i) as u8)),
                Action::Sleep { millis: 500 },
            ),
        ),
        i == 20 ==> d.ends(20, Err(DeliverError::InvalidRoom)),
    decreases i,
{
    if i > 0 {
        lemma_blind_polls(d, (i - 1) as nat);
        assert(d.events[i - 1] is Done);
    }
}

impl Provisioning {
    /// Whether the first `looks` looks all showed a client that is not ready, and each
    /// pause after them is over.
    pub open spec fn unready(self, looks: nat) -> bool {
        forall|m: int|
            0 <= m < looks ==> 2 * m + 1 < self.events.len() && (#[trigger] self.events[2 * m]
                matches Event::Room(view) && view != good_room()) && self.events[2 * m + 1] is Done
    }

    /// Whether the provisioning has ended with this outcome after `n` events.
    pub open spec fn ends(self, n: nat, ready: bool) -> bool {
        self.step(n) == Some(Step::<WaitPhase, bool, Seq<char>>::End(ready))
    }

    /// What the provisioning asks for after `n` events.
    pub open spec fn asked(self, n: nat) -> Option<Action<Seq<char>>> {
        match self.step(n) {
            Some(Step::Go(_, action)) => Some(action),
            _ => None,
        }
    }
}

proof fn lemma_provisioning_polls(p: Provisioning, i: nat)
    requires
        !p.ready,
        is_room_id(p.hook.room_id),
        i <= 20,
        p.unready(i),
    ensures
        i < 20 ==> p.step(2 * i) == Some(
            Step::<WaitPhase, bool, Seq<char>>::Go(
                WaitPhase::Looking((20 - i) as u8),
                Action::ReadRoom { room_id: p.hook.room_id },
            ),
        ),
        i == 20 ==> p.ends(40, false),
    decreases i,
{
    if i > 0 {
        let m = i - 1;
        assert(p.unready(m as nat));
        lemma_provisioning_polls(p, m as nat);
        assert(p.events[2 * m] matches Event::Room(view) && view != good_room());
        reveal_with_fuel(Provisioning::step, 3);
    }
}

/// A client that is known to be ready is provisioned at once. Any other is looked at up
/// to twenty times, half a second apart: the first look that shows it ready is
/// remembered and ends in success, and where none does provisioning fails.
pub proof fn law_provisioning_waits(p: Provisioning, i: nat)
    requires
        i <= 20,
        p.unready(i),
    ensures
        p.ready ==> p.ends(0, true),
        !p.ready && is_room_id(p.hook.room_id) ==> ({
            let n = 2 * i;
            &&& i == 20 ==> p.ends(n, false)
            &&& i < 20 ==> p.asked(n) == Some(Action::ReadRoom { room_id: p.hook.room_id })
            &&& i < 20 && n < p.events.len() ==> (p.events[n as int] matches Event::Room(view) ==> {
                &&& view != good_room() ==> p.asked(n + 1) == Some(
                    Action::<Seq<char>>::Sleep { millis: 500 },
                )
                &&& view == good_room() ==> p.asked(n + 1) == Some(Action::<Seq<char>>::MarkReady)
                &&& view == good_room() && n + 1 < p.events.len() && p.events[(n + 1) as int] is Done
                    ==> p.ends(n + 2, true)
            })
        }),
{
    if !p.ready && is_room_id(p.hook.room_id) {
        lemma_provisioning_polls(p, i);
        reveal_with_fuel(Provisioning::step, 3);
    }
}

/// With an invalid room id, a client that is not known to be ready is not provisioned:
/// there are only the twenty pauses.
pub proof fn law_provisioning_in_invalid_room(p: Provisioning, i: nat)
    requires
        !p.ready,
        !is_room_id(p.hook.room_id),
        i <= 20,
        p.events.len() >= i,
        forall|m: int| 0 <= m < i ==> #[trigger] p.events[m] is Done,
    ensures
        i < 20 ==> p.asked(i) == Some(Action::<Seq<char>>::Sleep { millis: 500 }),
        i == 20 ==> p.ends(20, false),
{
    lemma_blind_provisioning(p, i);
}

proof fn lemma_blind_provisioning(p: Provisioning, i: nat)
    requires
        !p.ready,
        !is_room_id(p.hook.room_id),
        i <= 20,
        p.events.len() >= i,
        forall|m: int| 0 <= m < i ==> #[trigger] p.events[m] is Done,
    ensures
        i < 20 ==> p.step(i) == Some(
            Step::<WaitPhase, bool, Seq<char>>::Go(
                WaitPhase::Sleeping((20 - i) as u8),
                Action::Sleep { millis: 500 },
            ),
        ),
        i == 20 ==> p.ends(20, false),
    decreases i,
{
    if i > 0 {
        lemma_blind_provisioning(p, (i - 1) as nat);
        assert(p.events[i - 1] is Done);
    }
}

impl Build {
    /// The position of the restoring of a session: at once where the stored one is used,
    /// and otherwise after a fresh one was made.
    pub open spec fn restored_after(self) -> nat {
        if self.store_present && self.hook.device_id.len() > 0 {
            0
        } else {
            3
        }
    }

    /// The joining that is part of the building.
    pub open spec fn joining(self) -> Joining {
        Joining {
            hook: self.hook,
            user_id: self.user_id,
            events: self.events.skip((self.restored_after() + 2) as int),
        }
    }

    /// Whether the building has ended with this outcome after `n` events.
    pub open spec fn ends(self, n: nat, outcome: Result<bool, BuildError>) -> bool {
        self.step(n) == Some(
            Step::<BuildPhase<Seq<char>>, Result<bool, BuildError>, Seq<char>>::End(outcome),
        )
    }

    /// Whether what is left after `n` events is a look at the room, which tells whether
    /// the client is ready; with an invalid room id it is not.
    pub open spec fn inspected(self, n: nat) -> bool {
        &&& !is_room_id(self.hook.room_id) ==> self.ends(n, Ok(false))
        &&& is_room_id(self.hook.room_id) ==> {
            &&& self.asked(n) == Some(Action::ReadRoom { room_id: self.hook.room_id })
            &&& n < self.events.len() ==> (self.events[n as int] matches Event::Room(view)
                ==> self.ends(n + 1, Ok(view == good_room())))
        }
    }
}

/// A build starts with the stored session if its crypto store is there, and otherwise
/// with a fresh device: the store is dropped, the hook's user logs in, and the session
/// is saved under the hook, before it is restored. Only a failed login, a failed saving
/// and a failed restoring end a build with an error. Once it is restored, the client is
/// named after the hook.
pub proof fn law_build_gets_a_session(b: Build)
    requires
        b.events.len() >= 4,
    ensures
        ({
            let stored = b.store_present && b.hook.device_id.len() > 0;
            let cleared = !stored && b.events[0] is Done;
            let r = b.restored_after();
            &&& stored ==> b.asked(0) == Some(
                Action::Restore {
                    user_id: b.user_id,
                    device_id: b.hook.device_id,
                    access_token: b.hook.access_token,
                },
            )
            &&& !stored ==> b.asked(0) == Some(Action::<Seq<char>>::DropStore)
            &&& cleared ==> b.asked(1) == Some(Action::Login { localpart: b.hook.sender })
            &&& cleared && b.events[1] == Answer::LoggedIn(None) ==> b.ends(
                2,
                Err(BuildError::Login),
            )
            &&& cleared ==> (b.events[1] matches Event::LoggedIn(Some((device_id, access_token))) ==> {
                &&& b.asked(2) == Some(
                    Action::SaveSession { id: b.hook.id, device_id, access_token },
                )
                &&& b.events[2] == Answer::Done(false) ==> b.ends(3, Err(BuildError::Save))
                &&& b.events[2] == Answer::Done(true) ==> b.asked(3) == Some(
                    Action::Restore { user_id: b.user_id, device_id, access_token },
                )
            })
            &&& b.asked(r) matches Some(Action::Restore { .. }) ==> {
                &&& b.events[r as int] == Answer::Done(false) ==> b.ends(
                    r + 1,
                    Err(BuildError::Restore),
                )
                &&& b.events[r as int] == Answer::Done(true) ==> b.asked(r + 1) == Some(
                    Action::SetDisplayName { name: b.hook.name },
                )
            }
        }),
{
    reveal_with_fuel(Build::step, 5);
}

proof fn lemma_build_joins(b: Build, n: nat)
    requires
        b.asked(b.restored_after() + 1) matches Some(Action::SetDisplayName { .. }),
        b.events.len() >= b.restored_after() + 2,
        b.events[(b.restored_after() + 1) as int] is Done,
    ensures
        match b.joining().step(n) {
            Some(Step::Go(phase, action)) => b.step(b.restored_after() + 2 + n) == Some(
                Step::<BuildPhase<Seq<char>>, Result<bool, BuildError>, Seq<char>>::Go(
                    BuildPhase::Joining(phase),
                    action,
                ),
            ),
            Some(Step::End(_)) => b.step(b.restored_after() + 2 + n) == Some(
                Step::<BuildPhase<Seq<char>>, Result<bool, BuildError>, Seq<char>>::Go(
                    BuildPhase::Signing(SignPhase::Bootstrapping),
                    Action::Bootstrap,
                ),
            ),
            None => true,
        },
    decreases n,
{
    if n == 0 {
        lemma_build_fits(b, b.restored_after() + 1);
        reveal_with_fuel(Build::step, 2);
    } else {
        lemma_build_joins(b, (n - 1) as nat);
        if n <= b.joining().events.len() {
            assert(b.joining().events[n - 1] == b.events[b.restored_after() + 2 + (n - 1)]);
        }
    }
}

/// Once the client has its name, a build does all that joining does; once that is over
/// the device is signed, unless it is signed already, is not there, or there is no
/// identity to sign it with; and then a look at the room tells whether the client is
/// ready.
pub proof fn law_build_joins_and_signs(b: Build, n: nat)
    requires
        b.asked(b.restored_after() + 1) matches Some(Action::SetDisplayName { .. }),
        b.events.len() >= b.restored_after() + 2,
        b.events[(b.restored_after() + 1) as int] is Done,
    ensures
        ({
            let q = b.restored_after() + 2 + n;
            &&& b.joining().asked(n) is Some ==> b.asked(q) == b.joining().asked(n)
            &&& b.joining().over(n) ==> {
                &&& b.asked(q) == Some(Action::<Seq<char>>::Bootstrap)
                &&& q < b.events.len() && b.events[q as int] == Answer::Done(false) ==> b.inspected(
                    q + 1,
                )
                &&& q < b.events.len() && b.events[q as int] == Answer::Done(true) ==> b.asked(q + 1)
                    == Some(Action::<Seq<char>>::ReadDevice)
                &&& q + 1 < b.events.len() && b.events[q as int] == Answer::Done(true) ==> (
                b.events[(q + 1) as int] matches Event::Device(device) ==> {
                    &&& device != Some(Some(false)) ==> b.inspected(q + 2)
                    &&& device == Some(Some(false)) ==> b.asked(q + 2) == Some(
                        Action::<Seq<char>>::VerifyDevice,
                    )
                    &&& device == Some(Some(false)) && q + 2 < b.events.len() && b.events[(q + 2) as int]
                        is Done ==> b.inspected(q + 3)
                })
            }
        }),
{
    lemma_build_joins(b, n);
    reveal_with_fuel(Build::step, 5);
}

/// A removal of a live client looks at its room, leaves the room if the client knows it,
/// logs the device out, stops the syncing and drops the crypto store, in this order,
/// whatever fails; with an invalid room id it starts with the logging out, and without a
/// client there is only the store to drop.
pub proof fn law_removal_runs(r: Removal)
    requires
        r.events.len() >= 5,
    ensures
        ({
            let looks = r.live && is_room_id(r.hook.room_id);
            let leaves = looks && (r.events[0] matches Event::Room(view) && view is Known);
            // Where the logging out stands, if there is one.
            let at: nat = if leaves {
                2
            } else if looks {
                1
            } else {
                0
            };
            let answered = (looks ==> r.events[0] is Room) && (leaves ==> r.events[1] is Done);
            let done = |n: nat| r.events[n as int] is Done;
            &&& looks ==> r.asked(0) == Some(Action::ReadRoom { room_id: r.hook.room_id })
            &&& leaves ==> r.asked(1) == Some(Action::Leave { room_id: r.hook.room_id })
            &&& r.live && answered ==> r.asked(at) == Some(Action::<Seq<char>>::LogOut)
            &&& r.live && answered && done(at) ==> r.asked(at + 1) == Some(
                Action::<Seq<char>>::StopSync,
            )
            &&& r.live && answered && done(at) && done(at + 1) ==> r.asked(at + 2) == Some(
                Action::<Seq<char>>::DropStore,
            )
            &&& r.live && answered && done(at) && done(at + 1) && done(at + 2) ==> r.step(
                at + 3,
            ) == Some(Step::<RemovePhase, (), Seq<char>>::End(()))
            &&& !r.live ==> r.asked(0) == Some(Action::<Seq<char>>::DropStore)
            &&& !r.live && done(0) ==> r.step(1) == Some(Step::<RemovePhase, (), Seq<char>>::End(()))
        }),
{
    reveal_with_fuel(Removal::step, 6);
}

/// A claim says whether there is a client, or one is being built, or neither; it starts
/// a build only in the last case, and touches nothing else.
pub proof fn law_claims<C>(m: ClientsModel<C>, id: Seq<char>, other: Seq<char>)
    ensures
        m.claim(id) == Claim::Use <==> m.live.dom().contains(id),
        m.claim(id) == Claim::Wait <==> !m.live.dom().contains(id) && m.building.dom().contains(id),
        m.claimed(id).live == m.live && m.claimed(id).appservice == m.appservice,
        m.claimed(id).building.dom().contains(other) <==> m.building.dom().contains(other) || (other
            == id && !m.live.dom().contains(id)),
{
}

/// The end of a build, the remembering that a client is ready, and a removal each
/// concern one hook: its client is the one that was built, keeps itself when it becomes
/// ready, and is gone when it is removed; every other hook's is as before.
pub proof fn law_registry_changes<C>(
    m: ClientsModel<C>,
    id: Seq<char>,
    entry: Option<Entry<C>>,
    other: Seq<char>,
)
    requires
        other != id,
    ensures
        ({
            let built = m.built(id, entry);
            &&& !built.building.dom().contains(id)
            &&& entry is Some ==> built.live.dom().contains(id) && built.live[id] == entry->0
            &&& entry is None ==> built.live == m.live
            &&& built.live.dom().contains(other) == m.live.dom().contains(other)
            &&& built.live[other] == m.live[other]
            &&& built.building.dom().contains(other) == m.building.dom().contains(other)
            &&& built.appservice == m.appservice
        }),
        ({
            let marked = m.marked(id);
            &&& marked.live.dom() == m.live.dom()
            &&& marked.is_ready(id) == m.live.dom().contains(id)
            &&& m.live.dom().contains(id) ==> marked.live[id].client == m.live[id].client
            &&& marked.live[other] == m.live[other]
            &&& marked.building == m.building && marked.appservice == m.appservice
        }),
        ({
            let removed = m.removed(id);
            &&& !removed.live.dom().contains(id) && !removed.is_ready(id)
            &&& removed.live.dom().contains(other) == m.live.dom().contains(other)
            &&& removed.live[other] == m.live[other]
            &&& removed.building == m.building && removed.appservice == m.appservice
        }),
        m.is_ready(id) <==> m.live.dom().contains(id) && m.live[id].ready,
{
    assert(m.marked(id).live.dom() =~= m.live.dom());
}

} // verus!
