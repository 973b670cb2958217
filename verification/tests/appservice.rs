use hook_core::appservice::{register_outcome, AppService, TRANSACTION_ID_LEN};
use hook_core::http::{check, enc, Body, Fields, HttpRequest, Json, Method, Reply};

fn service() -> AppService {
    AppService::new("http://hs:8008/", "tok", "example.dev")
}

fn object(members: Vec<(&str, Json)>) -> Body {
    let mut fields = Fields::End;
    for (name, value) in members.into_iter().rev() {
        fields = fields.with(name, value);
    }
    Body::Json(Json::Object(fields))
}

fn request(method: Method, url: &str, body: Body) -> HttpRequest {
    HttpRequest { method, url: url.into(), bearer: Some("tok".into()), body }
}

fn reply(code: u16, status: &str, body: &str) -> Reply {
    Reply { code, status: status.into(), body: body.into() }
}

#[test]
fn user_id_and_encoding() {
    let a = AppService::new("http://hs:8008/", "tok", "example.dev");
    assert_eq!(a.user_id("hook_alerts_9k3m"), "@hook_alerts_9k3m:example.dev");
    assert_eq!(enc("@hook_x:example.dev"), "%40hook_x%3Aexample.dev");
    assert_eq!(enc("!room:example.dev"), "%21room%3Aexample.dev");
}

#[test]
fn encoding_covers_every_byte() {
    assert_eq!(enc("AZaz09-_.~"), "AZaz09-_.~");
    assert_eq!(enc("a b/c?d#e&f=g%"), "a%20b%2Fc%3Fd%23e%26f%3Dg%25");
    assert_eq!(enc("é→"), "%C3%A9%E2%86%92");
    assert_eq!(enc("\u{0}\u{7f}"), "%00%7F");
    assert_eq!(enc(""), "");
}

#[test]
fn registers_and_logs_in() {
    assert_eq!(
        service().register("hook_x"),
        request(
            Method::Post,
            "http://hs:8008/_matrix/client/v3/register",
            object(vec![
                ("type", Json::text("m.login.application_service")),
                ("username", Json::text("hook_x")),
            ]),
        )
    );
    let who = Json::Object(
        Fields::End.with("user", Json::text("hook_x")).with("type", Json::text("m.id.user")),
    );
    assert_eq!(
        service().login("hook_x"),
        request(
            Method::Post,
            "http://hs:8008/_matrix/client/v3/login",
            object(vec![
                ("type", Json::text("m.login.application_service")),
                ("identifier", who),
            ]),
        )
    );
}

#[test]
fn acts_as_the_virtual_user() {
    assert_eq!(
        service().set_displayname("hook_x", "Alerts"),
        request(
            Method::Put,
            "http://hs:8008/_matrix/client/v3/profile/%40hook_x%3Aexample.dev/displayname?user_id=%40hook_x%3Aexample.dev",
            object(vec![("displayname", Json::text("Alerts"))]),
        )
    );
    assert_eq!(
        service().join_room("hook_x", "!r:example.dev"),
        request(
            Method::Post,
            "http://hs:8008/_matrix/client/v3/rooms/%21r%3Aexample.dev/join?user_id=%40hook_x%3Aexample.dev",
            object(vec![]),
        )
    );
    assert_eq!(
        service().send_text_with("hook_x", "!r:example.dev", "hi", "t1"),
        request(
            Method::Put,
            "http://hs:8008/_matrix/client/v3/rooms/%21r%3Aexample.dev/send/m.room.message/t1?user_id=%40hook_x%3Aexample.dev",
            object(vec![("msgtype", Json::text("m.text")), ("body", Json::text("hi"))]),
        )
    );
}

#[test]
fn transaction_ids_are_fresh() {
    let a = service().send_text("hook_x", "!r:example.dev", "hi").url;
    let b = service().send_text("hook_x", "!r:example.dev", "hi").url;
    assert_ne!(a, b);
    let fixed = service().send_text_with("hook_x", "!r:example.dev", "hi", "").url;
    assert_eq!(a.len(), fixed.len() + TRANSACTION_ID_LEN);
}

#[test]
fn a_registered_user_is_fine() {
    let ok = reply(200, "200 OK", "{}");
    let used = reply(400, "400 Bad Request", "{\"errcode\":\"M_USER_IN_USE\"}");
    let bad = reply(403, "403 Forbidden", "no");
    assert_eq!(register_outcome("u", &ok, &None), Ok(()));
    assert_eq!(register_outcome("u", &used, &Some("M_USER_IN_USE".into())), Ok(()));
    assert_eq!(
        register_outcome("u", &bad, &Some("M_FORBIDDEN".into())),
        Err("register u failed (403 Forbidden): no".into())
    );
    assert_eq!(
        register_outcome("u", &used, &None),
        Err("register u failed (400 Bad Request): {\"errcode\":\"M_USER_IN_USE\"}".into())
    );
}

#[test]
fn only_the_two_hundreds_succeed() {
    for code in [200, 204, 299] {
        assert_eq!(check("x", &reply(code, "s", "b")), Ok(()));
    }
    for code in [100, 199, 300, 404, 500] {
        assert_eq!(check("join_room", &reply(code, "s", "b")), Err("join_room failed (s): b".into()));
    }
}
