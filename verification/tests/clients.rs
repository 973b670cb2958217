use hook_core::clients::{
    build, building, cross_signing, delivering, ensure_cross_signing, ensure_joined, joining,
    provisioning, removing, Action, BuildError, Claim, DeliverError, Entry, Event, HookClients,
    RoomView, Step, POLLS,
};
use hook_core::{AppService, Hook};

const USER: &str = "@hook_a_1:s";

fn hook(room_id: &str) -> Hook {
    Hook {
        id: "1".into(),
        public_id: "p".into(),
        name: "A".into(),
        owner: "@alice:s".into(),
        room_id: room_id.into(),
        sender: "hook_a_1".into(),
        device_id: "DEV".into(),
        access_token: "tok".into(),
    }
}

fn clients() -> HookClients<&'static str> {
    HookClients::new(AppService::new("http://hs", "as", "s"))
}

fn ready_clients(ready: bool) -> HookClients<&'static str> {
    let mut c = clients();
    assert_eq!(c.ensure(&hook("!r:s")), Claim::Build);
    c.built(&hook("!r:s"), Some(Entry { client: "client", ready }));
    c
}

const GOOD: RoomView = RoomView::Known { joined: true, encrypted: true };
const PLAIN: RoomView = RoomView::Known { joined: true, encrypted: false };
const INVITED: RoomView = RoomView::Known { joined: false, encrypted: true };

fn room_id() -> String {
    "!r:s".to_string()
}

/// Runs a delivery with a fixed answer to everything but looks at the room, which
/// show `rooms` in turn. Returns the actions and the outcome.
fn run_delivery(
    ready: bool,
    h: &Hook,
    rooms: &[RoomView],
    sent: bool,
) -> (Vec<Action>, Result<(), DeliverError>) {
    let c = ready_clients(ready);
    let mut actions = Vec::new();
    let mut looks = rooms.iter();
    let mut step = c.deliver(h);
    loop {
        match step {
            Step::End(outcome) => return (actions, outcome),
            Step::Go(phase, action) => {
                let event = match &action {
                    Action::FindBotRoom { .. } => Event::BotRoom(true),
                    Action::ReadRoom { .. } => Event::Room(*looks.next().unwrap()),
                    Action::Send { .. } => Event::Done(sent),
                    _ => Event::Done(true),
                };
                actions.push(action);
                step = delivering(phase, &event, h, USER, "hi").unwrap();
            }
        }
    }
}

#[test]
fn a_ready_client_sends_at_once() {
    let (actions, outcome) = run_delivery(true, &hook("!r:s"), &[GOOD], true);
    assert_eq!(outcome, Ok(()));
    assert_eq!(
        actions,
        vec![
            Action::ReadRoom { room_id: room_id() },
            Action::Send { room_id: room_id(), body: "hi".to_string() },
        ]
    );
    let (_, outcome) = run_delivery(true, &hook("!r:s"), &[GOOD], false);
    assert_eq!(outcome, Err(DeliverError::SendFailed));
}

#[test]
fn nothing_is_sent_in_plain_text() {
    for (room, error) in [
        (PLAIN, DeliverError::NotEncrypted),
        (INVITED, DeliverError::NotJoined),
        (RoomView::Known { joined: false, encrypted: false }, DeliverError::NotJoined),
        (RoomView::Unknown, DeliverError::NotInRoom),
    ] {
        let (actions, outcome) = run_delivery(true, &hook("!r:s"), &[room], true);
        assert_eq!(outcome, Err(error));
        assert_eq!(actions, vec![Action::ReadRoom { room_id: room_id() }]);
    }
    let (actions, outcome) = run_delivery(true, &hook("r"), &[], true);
    assert_eq!((actions, outcome), (vec![], Err(DeliverError::InvalidRoom)));
}

#[test]
fn a_client_that_is_not_ready_joins_and_is_waited_for() {
    // Joined on the first look, encrypted on the second of the wait, then the check.
    let (actions, outcome) =
        run_delivery(false, &hook("!r:s"), &[INVITED, PLAIN, GOOD, GOOD], true);
    assert_eq!(outcome, Ok(()));
    let look = || Action::ReadRoom { room_id: room_id() };
    assert_eq!(
        actions,
        vec![
            Action::FindBotRoom { room_id: room_id() },
            Action::Invite { room_id: room_id(), user_id: USER.to_string() },
            Action::SyncOnce,
            look(),
            Action::JoinRoom { room_id: room_id() },
            Action::SyncOnce,
            look(),
            Action::Sleep { millis: 500 },
            look(),
            Action::MarkReady,
            look(),
            Action::Send { room_id: room_id(), body: "hi".to_string() },
        ]
    );
}

#[test]
fn waiting_ends_after_ten_seconds() {
    let rooms = [PLAIN; 22];
    let (actions, outcome) = run_delivery(false, &hook("!r:s"), &rooms, true);
    assert_eq!(outcome, Err(DeliverError::NotEncrypted));
    let slept: u64 = actions
        .iter()
        .map(|a| if let Action::Sleep { millis } = a { *millis } else { 0 })
        .sum();
    assert_eq!(slept, 10_000);
    // An invalid room id is waited for too, without looks.
    let (actions, outcome) = run_delivery(false, &hook("r"), &[], true);
    assert_eq!(outcome, Err(DeliverError::InvalidRoom));
    assert_eq!(actions.len(), POLLS as usize);
}

#[test]
fn joining_covers_every_case() {
    let h = hook("!r:s");
    // No invitation for an invalid user, nothing at all for an invalid room.
    assert_eq!(ensure_joined(&hook("r"), USER), Step::End(()));
    let Step::Go(phase, action) = ensure_joined(&h, "nobody") else { panic!() };
    assert_eq!(action, Action::SyncOnce);
    let Some(Step::Go(phase, action)) = joining(phase, &Event::Done(false), &h, "nobody") else {
        panic!()
    };
    assert_eq!(action, Action::ReadRoom { room_id: room_id() });
    let Some(Step::Go(_, action)) = joining(phase, &Event::Room(RoomView::Unknown), &h, USER) else {
        panic!()
    };
    assert_eq!(action, Action::JoinById { room_id: room_id() });
    let Some(Step::Go(phase, action)) = joining(phase, &Event::Room(PLAIN), &h, USER) else {
        panic!()
    };
    assert_eq!(action, Action::SyncOnce);
    assert_eq!(joining(phase, &Event::Done(true), &h, USER), Some(Step::End(())));
    assert_eq!(joining(phase, &Event::BotRoom(true), &h, USER), None);
    // The bot does not know the room: no invitation.
    let Step::Go(phase, _) = ensure_joined(&h, USER) else { panic!() };
    let Some(Step::Go(_, action)) = joining(phase, &Event::BotRoom(false), &h, USER) else {
        panic!()
    };
    assert_eq!(action, Action::SyncOnce);
}

#[test]
fn devices_are_signed_once() {
    let Step::Go(phase, action) = ensure_cross_signing() else { panic!() };
    assert_eq!(action, Action::Bootstrap);
    assert_eq!(cross_signing(phase, &Event::Done(false)), Some(Step::End(())));
    let Some(Step::Go(phase, action)) = cross_signing(phase, &Event::Done(true)) else { panic!() };
    assert_eq!(action, Action::ReadDevice);
    for done in [None, Some(None), Some(Some(true))] {
        assert_eq!(cross_signing(phase, &Event::Device(done)), Some(Step::End(())));
    }
    let unsigned = Event::Device(Some(Some(false)));
    let Some(Step::Go(phase, action)) = cross_signing(phase, &unsigned) else { panic!() };
    assert_eq!(action, Action::VerifyDevice);
    assert_eq!(cross_signing(phase, &Event::Done(false)), Some(Step::End(())));
}

/// Builds a client: `answers` give the events for the first actions; afterwards
/// everything succeeds and the room is `room`.
fn run_build(
    store_present: bool,
    h: &Hook,
    answers: Vec<Event>,
    room: RoomView,
) -> (Vec<Action>, Result<bool, BuildError>) {
    let mut answers = answers.into_iter();
    let mut actions = Vec::new();
    let mut step = build(store_present, h, USER);
    loop {
        match step {
            Step::End(outcome) => return (actions, outcome),
            Step::Go(phase, action) => {
                let event = match answers.next() {
                    Some(event) => event,
                    None => match &action {
                        Action::FindBotRoom { .. } => Event::BotRoom(false),
                        Action::ReadRoom { .. } => Event::Room(room),
                        Action::ReadDevice => Event::Device(None),
                        _ => Event::Done(true),
                    },
                };
                actions.push(action);
                step = building(phase, event, h, USER).unwrap();
            }
        }
    }
}

#[test]
fn a_stored_session_is_used_with_its_store_only() {
    let (actions, outcome) = run_build(true, &hook("!r:s"), vec![], GOOD);
    assert_eq!(outcome, Ok(true));
    assert_eq!(
        actions[0],
        Action::Restore {
            user_id: USER.to_string(),
            device_id: "DEV".to_string(),
            access_token: "tok".to_string(),
        }
    );
    assert_eq!(actions[1], Action::SetDisplayName { name: "A".to_string() });
    assert_eq!(actions.last(), Some(&Action::ReadRoom { room_id: room_id() }));
    assert_eq!(run_build(true, &hook("!r:s"), vec![], PLAIN).1, Ok(false));

    let mut fresh = hook("!r:s");
    fresh.device_id = "".into();
    for (present, h) in [(false, hook("!r:s")), (true, fresh)] {
        let login = Event::LoggedIn(Some(("NEW".to_string(), "new".to_string())));
        let (actions, outcome) =
            run_build(present, &h, vec![Event::Done(false), login, Event::Done(true)], GOOD);
        assert_eq!(outcome, Ok(true));
        assert_eq!(
            actions[..4],
            [
                Action::DropStore,
                Action::Login { localpart: "hook_a_1".to_string() },
                Action::SaveSession {
                    id: "1".to_string(),
                    device_id: "NEW".to_string(),
                    access_token: "new".to_string(),
                },
                Action::Restore {
                    user_id: USER.to_string(),
                    device_id: "NEW".to_string(),
                    access_token: "new".to_string(),
                },
            ]
        );
    }
}

#[test]
fn builds_fail_for_three_reasons() {
    let h = hook("!r:s");
    let login = || Event::LoggedIn(Some(("NEW".to_string(), "new".to_string())));
    let answers = vec![Event::Done(true), Event::LoggedIn(None)];
    assert_eq!(run_build(false, &h, answers, GOOD).1, Err(BuildError::Login));
    let answers = vec![Event::Done(true), login(), Event::Done(false)];
    assert_eq!(run_build(false, &h, answers, GOOD).1, Err(BuildError::Save));
    let answers = vec![Event::Done(true), login(), Event::Done(true), Event::Done(false)];
    assert_eq!(run_build(false, &h, answers, GOOD).1, Err(BuildError::Restore));
    assert_eq!(run_build(true, &h, vec![Event::Done(false)], GOOD).1, Err(BuildError::Restore));
    // A client with an invalid room id is built, but not ready.
    let (actions, outcome) = run_build(true, &hook("r"), vec![], GOOD);
    assert_eq!(outcome, Ok(false));
    assert_eq!(actions.len(), 4);
}

#[test]
fn provisioning_needs_a_ready_client() {
    let h = hook("!r:s");
    assert_eq!(ready_clients(true).provision(&h), Step::End(true));
    let Step::Go(phase, action) = ready_clients(false).provision(&h) else { panic!() };
    assert_eq!(action, Action::ReadRoom { room_id: room_id() });
    let Some(Step::Go(marking, action)) = provisioning(phase, &Event::Room(GOOD), &h) else {
        panic!()
    };
    assert_eq!(action, Action::MarkReady);
    assert_eq!(provisioning(marking, &Event::Done(true), &h), Some(Step::End(true)));

    let mut looks = 0;
    let mut step = clients().provision(&h);
    let outcome = loop {
        match step {
            Step::End(ready) => break ready,
            Step::Go(phase, Action::ReadRoom { .. }) => {
                looks += 1;
                step = provisioning(phase, &Event::Room(INVITED), &h).unwrap();
            }
            Step::Go(phase, _) => step = provisioning(phase, &Event::Done(true), &h).unwrap(),
        }
    };
    assert_eq!((looks, outcome), (20, false));
}

#[test]
fn clients_are_torn_down() {
    let run = |live: bool, h: &Hook, room: RoomView| {
        let mut c = if live { ready_clients(true) } else { clients() };
        let (client, mut step) = c.remove(h);
        assert_eq!(client.is_some(), live);
        assert!(c.client(h).is_none());
        let mut actions = Vec::new();
        while let Step::Go(phase, action) = step {
            let event = match &action {
                Action::ReadRoom { .. } => Event::Room(room),
                _ => Event::Done(false),
            };
            actions.push(action);
            step = removing(phase, &event, h).unwrap();
        }
        actions
    };
    let look = || Action::ReadRoom { room_id: room_id() };
    assert_eq!(
        run(true, &hook("!r:s"), GOOD),
        vec![
            look(),
            Action::Leave { room_id: room_id() },
            Action::LogOut,
            Action::StopSync,
            Action::DropStore,
        ]
    );
    assert_eq!(
        run(true, &hook("!r:s"), RoomView::Unknown),
        vec![look(), Action::LogOut, Action::StopSync, Action::DropStore]
    );
    assert_eq!(
        run(true, &hook("r"), GOOD),
        vec![Action::LogOut, Action::StopSync, Action::DropStore]
    );
    assert_eq!(run(false, &hook("!r:s"), GOOD), vec![Action::DropStore]);
}

#[test]
fn one_task_builds_a_client() {
    let h = hook("!r:s");
    let mut other = hook("!r:s");
    other.id = "2".into();
    let mut c = clients();
    assert_eq!(c.ensure(&h), Claim::Build);
    assert_eq!(c.ensure(&h), Claim::Wait);
    assert_eq!(c.ensure(&other), Claim::Build);
    c.built(&other, None);
    assert_eq!(c.ensure(&h), Claim::Wait);
    assert_eq!(c.ensure(&other), Claim::Build);
    c.built(&h, Some(Entry { client: "one", ready: false }));
    assert_eq!(c.ensure(&h), Claim::Use);
    assert_eq!(c.client(&h), Some(&"one"));
    assert_eq!(c.client(&other), None);
    c.mark_ready(&h);
    assert_eq!(c.client(&h), Some(&"one"));
    assert_eq!(c.provision(&h), Step::End(true));
    assert_eq!(c.user_id(&h), USER);
    assert_eq!(c.remove(&h).0, Some("one"));
    assert_eq!(c.ensure(&h), Claim::Build);
}
