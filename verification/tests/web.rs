use hook_core::config::{Config, Env};
use hook_core::web::{
    accept, attributed, deliver, delivered, get_no_message, health, prepare, recipient, Response,
    WebState,
};
use hook_core::Hook;

fn hook() -> Hook {
    Hook {
        id: "abcd".into(),
        public_id: "pub".into(),
        name: "Alerts".into(),
        owner: "@a:s".into(),
        room_id: "!r:s".into(),
        sender: "hook_alerts_abcd".into(),
        device_id: "".into(),
        access_token: "".into(),
    }
}

fn state(base: &str) -> WebState {
    let mut entries: Vec<(String, String)> = Vec::new();
    for key in [
        "MATRIX_HOMESERVER",
        "MATRIX_USER",
        "MATRIX_ACCESS_TOKEN",
        "MATRIX_DEVICE_ID",
        "SURREAL_USER",
        "SURREAL_PASS",
        "AS_TOKEN",
    ] {
        entries.push((key.into(), "x".into()));
    }
    entries.push(("HOOK_PUBLIC_BASE_URL".into(), base.into()));
    WebState::new(&Config::from_env(&Env { entries }).unwrap())
}

fn answer(code: u16, body: &str) -> Response {
    Response { code, body: body.into() }
}

#[test]
fn fixed_answers() {
    assert_eq!(health(), answer(200, "ok\n"));
    assert_eq!(
        get_no_message(),
        answer(
            400,
            "provide a message: GET /<uuid>/<message> or POST /<uuid> with a body\n\
             (or fetch /onboard/<uuid> for full usage instructions)\n",
        )
    );
    assert_eq!(
        state("https://h/").index(),
        answer(
            200,
            "matrixHook\n\nPOST https://h/<uuid> with a body, or GET https://h/<uuid>/<message>\n",
        )
    );
}

#[test]
fn onboarding() {
    let st = state("https://h/");
    assert_eq!(st.onboard(&None), answer(500, "internal error\n"));
    assert_eq!(st.onboard(&Some(None)), answer(404, "unknown hook\n"));
    assert_eq!(
        st.onboard(&Some(Some(hook()))),
        answer(
            200,
            "matrixHook — hook **Alerts**\n\n\
             Trigger it (posts appear in the room where it was created, as \
             **Alerts**, end-to-end encrypted):\n\
             - POST a body:  curl -X POST https://h/abcd -d 'your message here'\n\
             - or GET with a short message in the path:  curl https://h/abcd/your%20short%20message\n\n\
             Constraints:\n\
             - message must be non-empty and under 4000 bytes\n\
             - anyone with this URL can post here — keep it secret\n",
        )
    );
}

#[test]
fn messages_are_trimmed_and_bounded() {
    assert_eq!(accept("  hi there\n"), Ok("hi there"));
    assert_eq!(accept(" \u{3000}\n"), Err(answer(400, "empty message\n")));
    assert_eq!(accept(""), Err(answer(400, "empty message\n")));
    let most = "x".repeat(4000);
    assert_eq!(accept(&format!(" {most} ")), Ok(most.as_str()));
    let over = "x".repeat(4001);
    assert_eq!(accept(&over), Err(answer(413, "message too large (max 4000 bytes)\n")));
    // Bytes count, not characters.
    let wide = "é".repeat(2001);
    assert_eq!(accept(&wide), Err(answer(413, "message too large (max 4000 bytes)\n")));
}

#[test]
fn recipients() {
    assert_eq!(recipient(Some(Some(hook()))), Ok(hook()));
    assert_eq!(recipient(Some(None)), Err(answer(404, "unknown hook\n")));
    assert_eq!(recipient(None), Err(answer(500, "internal error\n")));
}

#[test]
fn deliveries_carry_the_name() {
    assert_eq!(attributed(&hook(), "disk full"), "Alerts: disk full");
    assert_eq!(
        prepare("  disk full\n", Some(Some(hook()))),
        Ok((hook(), "Alerts: disk full".to_string()))
    );
    // The limit is on the message, not on the text with the name.
    let most = "x".repeat(4000);
    assert_eq!(
        prepare(&most, Some(Some(hook()))),
        Ok((hook(), format!("Alerts: {most}")))
    );
    assert_eq!(prepare(" ", Some(Some(hook()))), Err(answer(400, "empty message\n")));
    assert_eq!(prepare(" ", None), Err(answer(400, "empty message\n")));
    assert_eq!(prepare("m", Some(None)), Err(answer(404, "unknown hook\n")));
    assert_eq!(prepare("m", None), Err(answer(500, "internal error\n")));
}

#[test]
fn each_outcome_has_its_status() {
    assert_eq!(delivered(true), answer(200, "delivered\n"));
    assert_eq!(delivered(false), answer(502, "delivery failed\n"));
    assert_eq!(deliver("m", Some(Some(hook())), true).code, 200);
    assert_eq!(deliver("m", Some(Some(hook())), false).code, 502);
    assert_eq!(deliver("m", Some(None), true).code, 404);
    assert_eq!(deliver("m", None, true).code, 500);
    assert_eq!(deliver(" ", None, true).code, 400);
    assert_eq!(deliver(&"x".repeat(5000), None, true).code, 413);
}
