use hook_core::sender::{
    deliver, delivering, ensure_in_room, provision, provisioning, Action, Event, Step,
};
use hook_core::{AppService, Hook};

fn hook(room_id: &str) -> Hook {
    Hook {
        id: "1".into(),
        public_id: "p".into(),
        name: "A".into(),
        owner: "@alice:s".into(),
        room_id: room_id.into(),
        sender: "hook_a_1".into(),
        device_id: "".into(),
        access_token: "".into(),
    }
}

fn service() -> AppService {
    AppService::new("http://hs", "as", "s")
}

fn join() -> Action {
    Action::JoinRoom { localpart: "hook_a_1".to_string(), room_id: "!r:s".to_string() }
}

fn send() -> Action {
    Action::SendText {
        localpart: "hook_a_1".to_string(),
        room_id: "!r:s".to_string(),
        body: "hi".to_string(),
    }
}

fn run_delivery(events: &[Event]) -> (Vec<Action>, Option<bool>) {
    let h = hook("!r:s");
    let mut actions = Vec::new();
    let mut events = events.iter();
    let mut step = deliver(&h, "hi");
    loop {
        match step {
            Step::End(ok) => return (actions, Some(ok)),
            Step::Go(phase, action) => {
                actions.push(action);
                let event = *events.next().unwrap();
                match delivering(phase, event, &service(), &h, "hi") {
                    Some(next) => step = next,
                    None => return (actions, None),
                }
            }
        }
    }
}

#[test]
fn a_send_that_works_is_enough() {
    assert_eq!(run_delivery(&[Event::Done(true)]), (vec![send()], Some(true)));
}

#[test]
fn a_failed_send_is_retried_once() {
    let invite =
        Action::Invite { room_id: "!r:s".to_string(), user_id: "@hook_a_1:s".to_string() };
    let find = Action::FindBotRoom { room_id: "!r:s".to_string() };
    for ok in [true, false] {
        let events = [
            Event::Done(false),
            Event::BotRoom(true),
            Event::Done(false),
            Event::Done(false),
            Event::Done(ok),
        ];
        let (actions, outcome) = run_delivery(&events);
        assert_eq!(outcome, Some(ok));
        assert_eq!(actions.len(), 5);
        assert_eq!(actions[0], send());
        assert_eq!(actions[1], find);
        assert_eq!(actions[2], invite);
        assert_eq!(actions[3], join());
        assert_eq!(actions[4], send());
    }
    let events = [Event::Done(false), Event::BotRoom(false), Event::Done(true), Event::Done(true)];
    assert_eq!(run_delivery(&events), (vec![send(), find, join(), send()], Some(true)));
    assert_eq!(run_delivery(&[Event::BotRoom(true)]), (vec![send()], None));
}

#[test]
fn invalid_ids_are_not_invited() {
    assert!(matches!(
        ensure_in_room(&service(), &hook("r")),
        Step::Go(_, Action::JoinRoom { .. })
    ));
    let odd = AppService::new("http://hs", "as", "not a server");
    assert!(matches!(
        ensure_in_room(&odd, &hook("!r:s")),
        Step::Go(_, Action::JoinRoom { .. })
    ));
}

#[test]
fn only_a_failed_registration_fails() {
    let h = hook("!r:s");
    let Step::Go(phase, action) = provision(&h) else { panic!() };
    assert_eq!(action, Action::Register { localpart: "hook_a_1".to_string() });
    assert_eq!(provisioning(phase, Event::Done(false), &service(), &h), Some(Step::End(false)));
    let Some(Step::Go(phase, action)) = provisioning(phase, Event::Done(true), &service(), &h) else {
        panic!()
    };
    assert_eq!(
        action,
        Action::SetDisplayname { localpart: "hook_a_1".to_string(), name: "A".to_string() }
    );
    let Some(Step::Go(phase, _)) = provisioning(phase, Event::Done(false), &service(), &h) else {
        panic!()
    };
    let Some(Step::Go(phase, action)) = provisioning(phase, Event::BotRoom(false), &service(), &h)
    else {
        panic!()
    };
    assert_eq!(action, join());
    assert_eq!(provisioning(phase, Event::Done(false), &service(), &h), Some(Step::End(true)));
}
