use hook_core::client::{
    connect, restore, room_to_send, send_room_text, session_for, SendError, Session,
};
use hook_core::config::{Config, Env};
use hook_core::matrix_id::{hook_user, localpart};

#[test]
fn valid_users_are_restored() {
    let plan = restore("https://hs", "@hook_x:example.dev", "DEV", "tok", "/store");
    assert_eq!(plan.homeserver, "https://hs");
    assert_eq!(plan.store_path, "/store");
    assert_eq!(
        plan.session,
        Some(Session {
            user_id: "@hook_x:example.dev".into(),
            device_id: "DEV".into(),
            access_token: "tok".into(),
        })
    );
}

#[test]
fn invalid_users_are_not() {
    for user in ["", "hook_x:example.dev", "@hook_x", "@hook_x:", "@hook_x:not a server"] {
        assert_eq!(restore("https://hs", user, "DEV", "tok", "/store").session, None);
    }
    assert_eq!(session_for(false, "@a:b", "d", "t"), None);
}

#[test]
fn the_configured_session_is_restored() {
    let entries = [
        ("MATRIX_HOMESERVER", "https://hs"),
        ("MATRIX_USER", "@bot:example.dev"),
        ("MATRIX_ACCESS_TOKEN", "tok"),
        ("MATRIX_DEVICE_ID", "DEV"),
        ("SURREAL_USER", "u"),
        ("SURREAL_PASS", "p"),
        ("AS_TOKEN", "as"),
    ];
    let env = Env { entries: entries.iter().map(|(k, v)| (k.to_string(), v.to_string())).collect() };
    let plan = connect(&Config::from_env(&env).unwrap());
    assert_eq!(plan, restore("https://hs", "@bot:example.dev", "DEV", "tok", "./store"));
    assert!(plan.session.is_some());
}

#[test]
fn texts_go_into_known_rooms_only() {
    assert_eq!(send_room_text("!r:s", true, "<b>hi</b>"), Ok("<b>hi</b>".into()));
    assert_eq!(send_room_text("!r:s", false, "hi"), Err(SendError::NotAMember));
    assert_eq!(send_room_text("#alias:s", true, "hi"), Err(SendError::InvalidRoom));
    assert_eq!(send_room_text("", true, "hi"), Err(SendError::InvalidRoom));
}

#[test]
fn room_ids_start_with_an_exclamation_mark() {
    assert_eq!(room_to_send("!r:s"), Ok(()));
    assert_eq!(room_to_send("!"), Ok(()));
    let long = format!("!{}", "x".repeat(1000));
    assert_eq!(room_to_send(&long), Ok(()));
    for bad in ["", "r:s", "@r:s", " !r:s", "¡r:s"] {
        assert_eq!(room_to_send(bad), Err(SendError::InvalidRoom));
    }
}

#[test]
fn localparts() {
    assert_eq!(localpart("@hook_alerts_9k3m:example.dev"), "hook_alerts_9k3m");
    assert_eq!(localpart("@a:b:8448"), "a");
    assert_eq!(localpart("@nocolon"), "nocolon");
    assert_eq!(localpart(""), "");
    assert_eq!(localpart(":x"), "");
    assert!(hook_user("@hook_:s"));
    assert!(!hook_user("@hooky:s"));
    assert!(!hook_user("@myhook_x:s"));
}
