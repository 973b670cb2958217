use hook_core::http::{Body, Fields, HttpRequest, Json, Method, Reply};
use hook_core::selftest::{
    account_localpart, checking, deactivate, deactivate_outcome, extract_uuid, nonce, run_checks,
    timeout_secs, wait_for, wait_for_map, Action, CheckError, Event, Poll, Step,
};

fn request(method: Method, url: &str, body: Body) -> HttpRequest {
    HttpRequest { method, url: url.to_string(), bearer: None, body }
}

#[test]
fn ids_are_extracted() {
    assert_eq!(extract_uuid("- id: `abc`\n- URL: `x`"), Some("abc".into()));
    assert_eq!(extract_uuid("id: ` abc `"), Some("abc".into()));
    assert_eq!(extract_uuid("id: `abc"), Some("abc".into()));
    assert_eq!(extract_uuid("id: `abc id: `def`"), Some("abc".into()));
    assert_eq!(extract_uuid("id: `` id: `x`"), None);
    assert_eq!(extract_uuid("id: abc"), None);
    assert_eq!(extract_uuid(""), None);
}

#[test]
fn probes_are_recognized_behind_a_name() {
    let seen = vec!["selftest-7: post-probe-7".to_string()];
    assert_eq!(wait_for(&seen, "post-probe-7", 0, 1), Poll::Found(()));
}

#[test]
fn any_quoted_id_is_extracted() {
    assert_eq!(extract_uuid("- id: `a id: b`\n- public id: `p`"), Some("a id: b".into()));
    assert_eq!(extract_uuid("- id: `0:1`\n- public id: `p`"), Some("0:1".into()));
}

#[test]
fn tokens_and_timeouts() {
    assert_eq!(nonce(0), "0");
    assert_eq!(nonce(1_700_000_000_123_456_789), "1700000000123456789");
    assert_eq!(account_localpart("17"), "hooktest-17");
    for text in ["60", "0", "+5", "007", "18446744073709551615"] {
        assert_eq!(timeout_secs(text), text.parse::<u64>().unwrap());
    }
    for text in ["", "+", "-1", "1s", " 1", "1 ", "++1", "18446744073709551616", "99999999999999999999999"] {
        assert!(text.parse::<u64>().is_err());
        assert_eq!(timeout_secs(text), 60);
    }
}

#[test]
fn waits_end_when_the_time_is_up() {
    let seen = vec!["hello".to_string(), "a post-probe-1 b".to_string()];
    assert_eq!(wait_for(&seen, "post-probe-1", 9, 5), Poll::Found(()));
    assert_eq!(wait_for(&seen, "post-probe-2", 4, 5), Poll::Again);
    assert_eq!(wait_for(&seen, "post-probe-2", 5, 5), Poll::TimedOut);
    let seen = vec!["x".to_string(), "id: `a`".to_string(), "id: `b`".to_string()];
    assert_eq!(wait_for_map(&seen, 9, 5), Poll::Found("a".to_string()));
    assert_eq!(wait_for_map(&vec![], 4, 5), Poll::Again);
    assert_eq!(wait_for_map(&vec![], 5, 5), Poll::TimedOut);
}

fn run(events: Vec<Event>) -> (Vec<Action>, Result<(), CheckError>) {
    let mut actions = Vec::new();
    let mut events = events.into_iter();
    let mut step = run_checks();
    loop {
        match step {
            Step::End(outcome) => return (actions, outcome),
            Step::Go(phase, action) => {
                actions.push(action);
                step = checking(phase, events.next().unwrap(), "https://h/", "7").unwrap();
            }
        }
    }
}

fn id() -> Event {
    Event::Id(Some("abc".to_string()))
}

#[test]
fn the_checks_pass() {
    let events = vec![
        Event::Done(false),
        Event::Done(true),
        Event::Done(true),
        Event::Done(true),
        id(),
        Event::Replied(Some(200)),
        Event::Done(true),
        Event::Replied(Some(204)),
        Event::Done(true),
    ];
    let (actions, outcome) = run(events);
    assert_eq!(outcome, Ok(()));
    let posted = Body::Text("post-probe-7".to_string());
    assert_eq!(
        actions,
        vec![
            Action::FindRoom,
            Action::CreateRoom,
            Action::Sleep { secs: 3 },
            Action::Say { text: "new selftest-7".to_string() },
            Action::AwaitId,
            Action::Call { request: request(Method::Post, "https://h/abc", posted) },
            Action::Await { probe: "post-probe-7".to_string() },
            Action::Call {
                request: request(Method::Get, "https://h/abc/get-probe-7", Body::Empty),
            },
            Action::Await { probe: "get-probe-7".to_string() },
        ]
    );
}

#[test]
fn each_check_can_fail() {
    let ok = || Event::Done(true);
    let no = || Event::Done(false);
    let fails = |events: Vec<Event>| run(events).1.unwrap_err();
    assert_eq!(fails(vec![no(), no()]), CheckError::CreateRoom);
    assert_eq!(fails(vec![ok(), ok(), no()]), CheckError::Say);
    assert_eq!(fails(vec![ok(), ok(), ok(), Event::Id(None)]), CheckError::NoReply);
    let asked = || vec![ok(), ok(), ok(), id()];
    let with = |more: Vec<Event>| {
        let mut all = asked();
        all.extend(more);
        all
    };
    assert_eq!(fails(with(vec![Event::Replied(None)])), CheckError::Post);
    assert_eq!(fails(with(vec![Event::Replied(Some(404))])), CheckError::PostStatus(404));
    assert_eq!(fails(with(vec![Event::Replied(Some(200)), no()])), CheckError::PostLost);
    let posted = |e: Event| with(vec![Event::Replied(Some(200)), ok(), e]);
    assert_eq!(fails(posted(Event::Replied(None))), CheckError::Get);
    assert_eq!(fails(posted(Event::Replied(Some(502)))), CheckError::GetStatus(502));
    let mut lost = posted(Event::Replied(Some(200)));
    lost.push(no());
    assert_eq!(fails(lost), CheckError::GetLost);
}

#[test]
fn accounts_are_deactivated() {
    let who = Json::Object(
        Fields::End.with("user", Json::text("u")).with("type", Json::text("m.id.user")),
    );
    let auth = Fields::End
        .with("password", Json::text("pw"))
        .with("identifier", who)
        .with("type", Json::text("m.login.password"));
    let fields = Fields::End.with("erase", Json::Bool(true)).with("auth", Json::Object(auth));
    assert_eq!(
        deactivate("https://hs/", "u", "pw", "tok"),
        HttpRequest {
            method: Method::Post,
            url: "https://hs/_matrix/client/v3/account/deactivate".to_string(),
            bearer: Some("tok".to_string()),
            body: Body::Json(Json::Object(fields)),
        }
    );
    let reply = |code: u16, status: &str| Reply { code, status: status.into(), body: "".into() };
    assert_eq!(deactivate_outcome(&reply(200, "200 OK")), Ok(()));
    assert_eq!(
        deactivate_outcome(&reply(401, "401 Unauthorized")),
        Err("deactivate returned 401 Unauthorized".into())
    );
}
