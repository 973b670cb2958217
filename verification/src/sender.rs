//! Provisioning and delivery for virtual users without a client of their own.
//!
//! The service acts for such a user through the application service. To post into
//! a private room the user has to be a member, so the bot, which is in the room,
//! invites it, and the application service makes it join.

use vstd::prelude::*;
use crate::appservice::AppService;
use crate::matrix_id::{is_room_id, room_id_ok, user_id_ok, user_id_parses};
use crate::store::Hook;

verus! {

/// What the caller is to do: [`AppService`] has the requests for all but the two
/// that concern the bot. `S` is `String` in running code and `Seq<char>` in its
/// model.
#[derive(Debug, PartialEq, Eq)]
pub enum Action<S = String> {
    /// Register the virtual user.
    Register { localpart: S },
    /// Set the virtual user's display name.
    SetDisplayname { localpart: S, name: S },
    /// See whether the bot knows a room.
    FindBotRoom { room_id: S },
    /// Let the bot invite a user into a room.
    Invite { room_id: S, user_id: S },
    /// Make the virtual user join a room.
    JoinRoom { localpart: S, room_id: S },
    /// Send a text as the virtual user.
    SendText { localpart: S, room_id: S, body: S },
}

impl View for Action {
    type V = Action<Seq<char>>;

    open spec fn view(&self) -> Action<Seq<char>> {
        match self {
            Action::Register { localpart } => Action::Register { localpart: localpart@ },
            Action::SetDisplayname { localpart, name } => Action::SetDisplayname {
                localpart: localpart@,
                name: name@,
            },
            Action::FindBotRoom { room_id } => Action::FindBotRoom { room_id: room_id@ },
            Action::Invite { room_id, user_id } => Action::Invite {
                room_id: room_id@,
                user_id: user_id@,
            },
            Action::JoinRoom { localpart, room_id } => Action::JoinRoom {
                localpart: localpart@,
                room_id: room_id@,
            },
            Action::SendText { localpart, room_id, body } => Action::SendText {
                localpart: localpart@,
                room_id: room_id@,
                body: body@,
            },
        }
    }
}

/// What came of an action.
#[derive(Clone, Copy, Debug, PartialEq, Eq, Structural)]
pub enum Event {
    /// Whether the bot knows the room.
    BotRoom(bool),
    /// Whether the action succeeded.
    Done(bool),
}

/// Where the work for a virtual user stands.
#[derive(Clone, Copy, Debug, PartialEq, Eq, Structural)]
pub enum Phase {
    Registering,
    Naming,
    FindingBotRoom,
    Inviting,
    Joining,
    FirstSend,
    SecondSend,
}

/// What happens next: an action in a phase, or the end, with whether it went well.
#[derive(Debug, PartialEq, Eq)]
pub enum Step<S = String> {
    Go(Phase, Action<S>),
    End(bool),
}

impl View for Step {
    type V = Step<Seq<char>>;

    open spec fn view(&self) -> Step<Seq<char>> {
        match self {
            Step::Go(phase, action) => Step::Go(*phase, action@),
            Step::End(ok) => Step::End(*ok),
        }
    }
}

/// How the virtual user gets into the hook's room: the bot invites it if both ids
/// are valid and the bot knows the room; in any case it joins.
pub open spec fn enter(hook: Hook<Seq<char>>, a: AppService<Seq<char>>) -> Step<Seq<char>> {
    if user_id_parses(a.mxid(hook.sender)) && is_room_id(hook.room_id) {
        Step::Go(Phase::FindingBotRoom, Action::FindBotRoom { room_id: hook.room_id })
    } else {
        join(hook)
    }
}

/// The joining of the hook's room.
pub open spec fn join(hook: Hook<Seq<char>>) -> Step<Seq<char>> {
    Step::Go(Phase::Joining, Action::JoinRoom { localpart: hook.sender, room_id: hook.room_id })
}

/// How getting into the room goes on, with what follows it.
pub open spec fn enter_next(
    phase: Phase,
    event: Event,
    hook: Hook<Seq<char>>,
    a: AppService<Seq<char>>,
    next: Step<Seq<char>>,
) -> Option<Step<Seq<char>>> {
    match (phase, event) {
        (Phase::FindingBotRoom, Event::BotRoom(known)) => Some(
            if known {
                Step::Go(
                    Phase::Inviting,
                    Action::Invite { room_id: hook.room_id, user_id: a.mxid(hook.sender) },
                )
            } else {
                join(hook)
            },
        ),
        (Phase::Inviting, Event::Done(_)) => Some(join(hook)),
        (Phase::Joining, Event::Done(_)) => Some(next),
        _ => None,
    }
}

/// How provisioning goes on: only a failed registration is an error.
pub open spec fn provision_next(
    phase: Phase,
    event: Event,
    hook: Hook<Seq<char>>,
    a: AppService<Seq<char>>,
) -> Option<Step<Seq<char>>> {
    match (phase, event) {
        (Phase::Registering, Event::Done(ok)) => Some(
            if ok {
                Step::Go(
                    Phase::Naming,
                    Action::SetDisplayname { localpart: hook.sender, name: hook.name },
                )
            } else {
                Step::End(false)
            },
        ),
        (Phase::Naming, Event::Done(_)) => Some(enter(hook, a)),
        _ => enter_next(phase, event, hook, a, Step::End(true)),
    }
}

/// The sending of a message.
pub open spec fn send(phase: Phase, hook: Hook<Seq<char>>, body: Seq<char>) -> Step<Seq<char>> {
    Step::Go(
        phase,
        Action::SendText { localpart: hook.sender, room_id: hook.room_id, body },
    )
}

/// How a delivery goes on: where the first send fails, the user gets into the room
/// again, and there is one more.
pub open spec fn deliver_next(
    phase: Phase,
    event: Event,
    hook: Hook<Seq<char>>,
    a: AppService<Seq<char>>,
    body: Seq<char>,
) -> Option<Step<Seq<char>>> {
    match (phase, event) {
        (Phase::FirstSend, Event::Done(ok)) => Some(
            if ok {
                Step::End(true)
            } else {
                enter(hook, a)
            },
        ),
        (Phase::SecondSend, Event::Done(ok)) => Some(Step::End(ok)),
        _ => enter_next(phase, event, hook, a, send(Phase::SecondSend, hook, body)),
    }
}

fn join_step(hook: &Hook) -> (r: Step)
    ensures
        r@ == join(hook@),
{
    Step::Go(
        Phase::Joining,
        Action::JoinRoom { localpart: hook.sender.clone(), room_id: hook.room_id.clone() },
    )
}

/// Starts to get the virtual user into the hook's room.
pub fn ensure_in_room(appservice: &AppService, hook: &Hook) -> (r: Step)
    ensures
        r@ == enter(hook@, appservice@),
{
    let user_id = appservice.user_id(hook.sender.as_str());
    if user_id_ok(user_id.as_str()) && room_id_ok(hook.room_id.as_str()) {
        Step::Go(Phase::FindingBotRoom, Action::FindBotRoom { room_id: hook.room_id.clone() })
    } else {
        join_step(hook)
    }
}

fn entering(phase: Phase, event: Event, appservice: &AppService, hook: &Hook, next: Step) -> (r:
    Option<Step>)
    ensures
        match r {
            Some(step) => enter_next(phase, event, hook@, appservice@, next@) == Some(step@),
            None => enter_next(phase, event, hook@, appservice@, next@) is None,
        },
{
    match (phase, event) {
        (Phase::FindingBotRoom, Event::BotRoom(known)) => if known {
            Some(
                Step::Go(
                    Phase::Inviting,
                    Action::Invite {
                        room_id: hook.room_id.clone(),
                        user_id: appservice.user_id(hook.sender.as_str()),
                    },
                ),
            )
        } else {
            Some(join_step(hook))
        },
        (Phase::Inviting, Event::Done(_)) => Some(join_step(hook)),
        (Phase::Joining, Event::Done(_)) => Some(next),
        _ => None,
    }
}

/// Provisioning starts with the registration.
pub open spec fn provision_start(hook: Hook<Seq<char>>) -> Step<Seq<char>> {
    Step::Go(Phase::Registering, Action::Register { localpart: hook.sender })
}

/// Starts to provision a virtual user: to register it, name it after the hook and
/// get it into the hook's room; [`provisioning`] goes on.
pub fn provision(hook: &Hook) -> (r: Step)
    ensures
        r@ == Step::Go(Phase::Registering, Action::Register { localpart: hook@.sender }),
        r@ == provision_start(hook@),
{
    Step::Go(Phase::Registering, Action::Register { localpart: hook.sender.clone() })
}

/// Goes on with the provisioning of a virtual user; nothing if the event does not
/// answer what was asked for.
pub fn provisioning(phase: Phase, event: Event, appservice: &AppService, hook: &Hook) -> (r: Option<
    Step,
>)
    ensures
        match r {
            Some(step) => provision_next(phase, event, hook@, appservice@) == Some(step@),
            None => provision_next(phase, event, hook@, appservice@) is None,
        },
{
    match (phase, event) {
        (Phase::Registering, Event::Done(ok)) => if ok {
            Some(
                Step::Go(
                    Phase::Naming,
                    Action::SetDisplayname {
                        localpart: hook.sender.clone(),
                        name: hook.name.clone(),
                    },
                ),
            )
        } else {
            Some(Step::End(false))
        },
        (Phase::Naming, Event::Done(_)) => Some(ensure_in_room(appservice, hook)),
        _ => entering(phase, event, appservice, hook, Step::End(true)),
    }
}

fn send_step(phase: Phase, hook: &Hook, body: &str) -> (r: Step)
    ensures
        r@ == send(phase, hook@, body@),
{
    Step::Go(
        phase,
        Action::SendText {
            localpart: hook.sender.clone(),
            room_id: hook.room_id.clone(),
            body: body.to_owned(),
        },
    )
}

/// Starts to deliver a message as the hook's virtual user; [`delivering`] goes on.
pub fn deliver(hook: &Hook, body: &str) -> (r: Step)
    ensures
        r@ == send(Phase::FirstSend, hook@, body@),
{
    send_step(Phase::FirstSend, hook, body)
}

/// Goes on with a delivery; nothing if the event does not answer what was asked
/// for.
pub fn delivering(phase: Phase, event: Event, appservice: &AppService, hook: &Hook, body: &str) -> (r:
    Option<Step>)
    ensures
        match r {
            Some(step) => deliver_next(phase, event, hook@, appservice@, body@) == Some(step@),
            None => deliver_next(phase, event, hook@, appservice@, body@) is None,
        },
{
    match (phase, event) {
        (Phase::FirstSend, Event::Done(ok)) => if ok {
            Some(Step::End(true))
        } else {
            Some(ensure_in_room(appservice, hook))
        },
        (Phase::SecondSend, Event::Done(ok)) => Some(Step::End(ok)),
        _ => entering(phase, event, appservice, hook, send_step(Phase::SecondSend, hook, body)),
    }
}

/// One delivery, with the events in the order in which they came back.
pub struct Delivery {
    pub hook: Hook<Seq<char>>,
    pub appservice: AppService<Seq<char>>,
    pub body: Seq<char>,
    pub events: Seq<Event>,
}

impl Delivery {
    /// The step that the delivery has reached after `n` events; nothing if it was
    /// over before, or an event did not answer what was asked for.
    pub open spec fn step(self, n: nat) -> Option<Step<Seq<char>>>
        decreases n,
    {
        if n == 0 {
            Some(send(Phase::FirstSend, self.hook, self.body))
        } else if n > self.events.len() {
            None
        } else {
            match self.step((n - 1) as nat) {
                Some(Step::Go(phase, _)) => deliver_next(
                    phase,
                    self.events[n - 1],
                    self.hook,
                    self.appservice,
                    self.body,
                ),
                _ => None,
            }
        }
    }

    /// Whether the delivery sends its message after `n` events.
    pub open spec fn sends(self, n: nat) -> bool {
        self.step(n) matches Some(Step::Go(_, action)) && action == (Action::SendText {
            localpart: self.hook.sender,
            room_id: self.hook.room_id,
            body: self.body,
        })
    }
}

spec fn delivery_ok(d: Delivery, n: nat) -> bool {
    match d.step(n) {
        Some(Step::Go(phase, action)) => match phase {
            Phase::FirstSend => n == 0 && d.sends(0),
            Phase::FindingBotRoom => n == 1 && d.events[0] == Event::Done(false) && !(
            action is SendText),
            Phase::Inviting => n == 2 && d.events[0] == Event::Done(false) && !(action is SendText),
            Phase::Joining => 1 <= n <= 3 && d.events[0] == Event::Done(false) && !(
            action is SendText),
            Phase::SecondSend => 2 <= n <= 4 && d.events[0] == Event::Done(false) && d.sends(n),
            _ => false,
        },
        Some(Step::End(ok)) => n >= 1 && n <= 5 && d.sends((n - 1) as nat) && d.events[n - 1]
            == Event::Done(ok) && (n > 1 ==> d.events[0] == Event::Done(false)),
        None => true,
    }
}

proof fn lemma_delivery(d: Delivery, n: nat)
    ensures
        delivery_ok(d, n),
    decreases n,
{
    if n > 0 {
        lemma_delivery(d, (n - 1) as nat);
    }
}

/// Where getting into the room stands in a run of steps that starts with it at `start`:
/// the bot is asked for the room and invites the user if it knows it, where both ids are
/// valid; in any case the user then joins the hook's room; and what follows is `next`.
pub open spec fn enters(
    step: spec_fn(nat) -> Option<Step<Seq<char>>>,
    events: Seq<Event>,
    start: nat,
    hook: Hook<Seq<char>>,
    user_id: Seq<char>,
    next: Option<Step<Seq<char>>>,
) -> bool {
    let asks = |n: nat, action: Action<Seq<char>>|
        step(n) matches Some(Step::Go(_, a)) && a == action;
    let room_id = hook.room_id;
    let invitable = user_id_parses(user_id) && is_room_id(room_id);
    let known = invitable && events[start as int] == Event::BotRoom(true);
    let at: nat = if known {
        start + 2
    } else if invitable {
        start + 1
    } else {
        start
    };
    let answered = (invitable ==> start < events.len() && events[start as int] is BotRoom) && (known
        ==> start + 1 < events.len() && events[(start + 1) as int] is Done);
    &&& invitable ==> asks(start, Action::FindBotRoom { room_id })
    &&& known && start < events.len() ==> asks(start + 1, Action::Invite { room_id, user_id })
    &&& answered ==> asks(at, Action::JoinRoom { localpart: hook.sender, room_id })
    &&& answered && at < events.len() && events[at as int] is Done ==> step(at + 1) == next
}

/// A delivery sends at once. Where that succeeds it is over; where it fails the user
/// gets into the room again, and the same message is sent once more, which decides.
pub proof fn law_delivery_sends(d: Delivery)
    ensures
        d.sends(0),
        d.events.len() >= 1 && d.events[0] == Event::Done(true) ==> d.step(1) == Some(
            Step::<Seq<char>>::End(true),
        ),
        d.events.len() >= 1 && d.events[0] == Event::Done(false) ==> enters(
            |n: nat| d.step(n),
            d.events,
            1,
            d.hook,
            d.appservice.mxid(d.hook.sender),
            Some(
                Step::Go(
                    Phase::SecondSend,
                    Action::SendText {
                        localpart: d.hook.sender,
                        room_id: d.hook.room_id,
                        body: d.body,
                    },
                ),
            ),
        ),
{
    reveal_with_fuel(Delivery::step, 5);
}

/// The second send decides: the delivery ends as it did.
pub proof fn law_second_send_decides(d: Delivery, n: nat)
    requires
        n > 0,
        d.sends(n),
        n < d.events.len(),
        d.events[n as int] is Done,
    ensures
        d.step(n + 1) == Some(Step::<Seq<char>>::End(d.events[n as int] == Event::Done(true))),
{
    lemma_delivery(d, n);
    reveal_with_fuel(Delivery::step, 2);
}

/// One provisioning of a virtual user, with the events in the order in which they came
/// back.
pub struct Provisioning {
    pub hook: Hook<Seq<char>>,
    pub appservice: AppService<Seq<char>>,
    pub events: Seq<Event>,
}

impl Provisioning {
    /// The step that the provisioning has reached after `n` events.
    pub open spec fn step(self, n: nat) -> Option<Step<Seq<char>>>
        decreases n,
    {
        if n == 0 {
            Some(provision_start(self.hook))
        } else if n > self.events.len() {
            None
        } else {
            match self.step((n - 1) as nat) {
                Some(Step::Go(phase, _)) => provision_next(
                    phase,
                    self.events[n - 1],
                    self.hook,
                    self.appservice,
                ),
                _ => None,
            }
        }
    }

    /// Whether the provisioning asks for `action` after `n` events.
    pub open spec fn asks(self, n: nat, action: Action<Seq<char>>) -> bool {
        self.step(n) matches Some(Step::Go(_, a)) && a == action
    }
}

/// Provisioning registers the hook's user, names it after the hook, and gets it into the
/// hook's room; only a failed registration is a failure.
pub proof fn law_provisioning_runs(p: Provisioning)
    requires
        p.events.len() >= 2,
    ensures
        p.asks(0, Action::Register { localpart: p.hook.sender }),
        p.events[0] == Event::Done(false) ==> p.step(1) == Some(Step::<Seq<char>>::End(false)),
        p.events[0] == Event::Done(true) ==> p.asks(
            1,
            Action::SetDisplayname { localpart: p.hook.sender, name: p.hook.name },
        ),
        p.events[0] == Event::Done(true) && p.events[1] is Done ==> enters(
            |n: nat| p.step(n),
            p.events,
            2,
            p.hook,
            p.appservice.mxid(p.hook.sender),
            Some(Step::<Seq<char>>::End(true)),
        ),
{
    reveal_with_fuel(Provisioning::step, 6);
}

/// A delivery sends once, and once more if that fails, after getting the user into
/// the room again; it ends as its last send did, after five events at the latest.
pub proof fn law_one_retry(d: Delivery, n: nat)
    ensures
        d.sends(n) && n > 0 ==> n >= 2 && d.events[0] == Event::Done(false),
        d.step(n) matches Some(Step::End(ok)) ==> 1 <= n <= 5 && d.sends((n - 1) as nat)
            && d.events[n - 1] == Event::Done(ok),
        d.step(n) is Some && n >= 5 ==> d.step(n)->0 is End,
{
    lemma_delivery(d, n);
}

} // verus!
