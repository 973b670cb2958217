use hook_core::bot::{
    begin, handle_command, handle_command_with, help_text, is_direct_chat, on_message,
    reply_created, screen,
    Action, Chat, Event, Phase, Step, CREATE_FAILED, DELETE_FAILED, LIST_FAILED, NAME_TOO_LONG,
    NOT_ENCRYPTED, NO_HOOKS, TOO_MANY_HOOKS,
};
use hook_core::command::{parse_command, Command};
use hook_core::config::{Config, Env};
use hook_core::selftest::extract_uuid;
use hook_core::Hook;

fn config() -> Config {
    let mut entries: Vec<(String, String)> = Vec::new();
    for key in [
        "MATRIX_HOMESERVER",
        "MATRIX_USER",
        "MATRIX_ACCESS_TOKEN",
        "MATRIX_DEVICE_ID",
        "SURREAL_USER",
        "SURREAL_PASS",
        "AS_TOKEN",
    ] {
        entries.push((key.into(), "x".into()));
    }
    entries.push(("HOOK_PUBLIC_BASE_URL".into(), "https://h/".into()));
    Config::from_env(&Env { entries }).unwrap()
}

fn chat(encrypted: bool) -> Chat {
    Chat { sender: "@alice:s".into(), room_id: "!r:s".into(), encrypted }
}

fn hook(name: &str, id: &str, owner: &str) -> Hook {
    Hook {
        id: id.into(),
        public_id: "pub".into(),
        name: name.into(),
        owner: owner.into(),
        room_id: "!r:s".into(),
        sender: format!("hook_{name}_{id}"),
        device_id: "".into(),
        access_token: "".into(),
    }
}

fn reply(step: Step) -> String {
    match step {
        Step::Reply(text) => text,
        Step::Go(_, action) => panic!("asks for {action:?}"),
    }
}

fn go(step: Step) -> (Phase, Action) {
    match step {
        Step::Go(phase, action) => (phase, action),
        Step::Reply(text) => panic!("replies {text}"),
    }
}

fn next(phase: Phase, event: Event) -> Step {
    handle_command_with(phase, event, &chat(true), &config(), "9k3m", "pub").unwrap()
}

fn start(text: &str) -> Phase {
    go(begin(parse_command(text), &chat(true))).0
}

#[test]
fn own_messages_and_other_types_are_ignored() {
    assert_eq!(screen("@alice:s", Some("@bot:s"), Some("hi")), Some("hi"));
    assert_eq!(screen("@alice:s", None, Some("hi")), Some("hi"));
    assert_eq!(screen("@bot:s", Some("@bot:s"), Some("hi")), None);
    assert_eq!(screen("@alice:s", Some("@bot:s"), None), None);
}

#[test]
fn only_one_to_one_rooms_count() {
    let room = |members: &[&str]| Some(members.iter().map(|m| m.to_string()).collect());
    let me = Some("@bot:s");
    assert!(is_direct_chat(&room(&["@bot:s", "@alice:s"]), me));
    assert!(is_direct_chat(&room(&["@bot:s", "@hook_a_1:s", "@alice:s", "@hook_b_2:s"]), me));
    assert!(is_direct_chat(&room(&["@bot:s"]), me));
    assert!(!is_direct_chat(&room(&["@bot:s", "@alice:s", "@bob:s"]), me));
    assert!(!is_direct_chat(&room(&["@bot:s", "@alice:s"]), None));
    assert!(!is_direct_chat(&None, me));
}

#[test]
fn messages_become_commands() {
    let pair = Some(vec!["@bot:s".to_string(), "@alice:s".to_string()]);
    let group = Some(vec!["@a:s".to_string(), "@b:s".to_string()]);
    let me = Some("@bot:s");
    assert_eq!(on_message("@alice:s", me, Some(" LS "), &pair), Some(Command::List));
    assert_eq!(on_message("@alice:s", me, Some("ls"), &group), None);
    assert_eq!(on_message("@alice:s", me, Some("ls"), &None), None);
    assert_eq!(on_message("@alice:s", me, None, &pair), None);
    assert_eq!(on_message("@bot:s", me, Some("ls"), &pair), None);
}

#[test]
fn help_and_unknown() {
    assert_eq!(reply(begin(Command::Help, &chat(false))), help_text());
    assert_eq!(
        reply(begin(Command::Unknown("x".into()), &chat(false))),
        format!("I didn't understand that.\n\n{}", help_text())
    );
    assert_eq!(
        help_text(),
        "**matrixHook** — turn messages into Matrix posts.\n\n\
         Commands:\n\
         - `new <name>` — create a hook and get its URL\n\
         - `list` — list your hooks\n\
         - `delete <id>` — delete a hook\n\
         - `help` — show this help\n\n\
         Once you have a hook URL, POST a body or GET `<url>/<message>` and it \
         appears in the room where you created it, posted by a per-hook user named \
         after the hook."
    );
}

#[test]
fn new_hooks_are_refused_at_once() {
    let long = Command::New("é".repeat(51));
    assert_eq!(reply(begin(long, &chat(false))), NAME_TOO_LONG);
    assert_eq!(NAME_TOO_LONG, "Name is too long (max 100 characters).");
    assert_eq!(reply(begin(Command::New("x".repeat(100)), &chat(false))), NOT_ENCRYPTED);
    assert_eq!(
        NOT_ENCRYPTED,
        "This room isn't end-to-end encrypted, and matrixHook only \
         delivers encrypted alerts. Enable encryption for this chat \
         (Room settings → Security) and try again."
    );
    let padded = format!("  {}  ", "x".repeat(100));
    let (_, action) = go(begin(Command::New(padded), &chat(true)));
    assert!(matches!(action, Action::ListHooks { owner } if owner == "@alice:s"));
}

#[test]
fn a_new_hook_is_created() {
    let (phase, action) = go(next(start("new Alerts"), Event::Listed(Some(vec![]))));
    assert!(matches!(&action, Action::Register { localpart } if localpart == "hook_alerts_9k3m"));
    let (phase, action) = go(next(phase, Event::Done(true)));
    let made = match action {
        Action::CreateHook { hook } => hook,
        other => panic!("{other:?}"),
    };
    assert_eq!(
        made,
        Hook {
            id: "9k3m".into(),
            public_id: "pub".into(),
            name: "Alerts".into(),
            owner: "@alice:s".into(),
            room_id: "!r:s".into(),
            sender: "hook_alerts_9k3m".into(),
            device_id: "".into(),
            access_token: "".into(),
        }
    );
    let (phase, action) = go(next(phase, Event::Done(true)));
    assert!(matches!(&action, Action::Provision { hook } if *hook == made));
    let text = reply(next(phase, Event::Done(true)));
    assert_eq!(text, reply_created(&made, &config()));
    assert_eq!(
        text,
        "✅ Created hook **Alerts**.\n\n\
         - id: `9k3m`\n\
         - public id: `pub`\n\
         - URL: `https://h/9k3m`\n\n\
         Trigger it (posts appear in *this* room as **Alerts**, end-to-end encrypted) \
         as described at https://h/onboard/9k3m\n\n\
         ⚠️ Anyone with this URL can post here — keep it secret."
    );
    assert_eq!(extract_uuid(&text), Some("9k3m".into()));
}

#[test]
fn the_reply_links_to_the_instructions() {
    let text = reply_created(&hook("a", "1", "@alice:s"), &config());
    assert!(text.contains("https://h/onboard/1\n"));
    assert!(text.contains("- public id: `pub`\n"));
    assert!(!text.contains("curl"));
}

#[test]
fn each_failure_on_the_way_is_reported() {
    assert_eq!(reply(next(start("new a"), Event::Listed(None))), CREATE_FAILED);
    let full: Vec<Hook> = (0..50).map(|i| hook("h", &format!("{i}"), "@alice:s")).collect();
    assert_eq!(reply(next(start("new a"), Event::Listed(Some(full)))), TOO_MANY_HOOKS);
    assert_eq!(
        TOO_MANY_HOOKS,
        "You already have 50 hooks (the maximum). Delete one with `delete <id>` first."
    );
    let many: Vec<Hook> = (0..49).map(|i| hook("h", &format!("{i}"), "@alice:s")).collect();
    let (phase, _) = go(next(start("new a"), Event::Listed(Some(many))));
    assert_eq!(reply(next(phase, Event::Done(false))), CREATE_FAILED);
    let (phase, _) = go(next(start("new a"), Event::Listed(Some(vec![]))));
    let (phase, _) = go(next(phase, Event::Done(true)));
    assert_eq!(reply(next(phase, Event::Done(false))), CREATE_FAILED);
    assert_eq!(CREATE_FAILED, "Sorry, I couldn't create that hook (internal error).");
}

#[test]
fn a_hook_without_a_client_is_rolled_back() {
    for ok in [true, false] {
        let (phase, _) = go(next(start("new a b"), Event::Listed(Some(vec![]))));
        let (phase, _) = go(next(phase, Event::Done(true)));
        let (phase, _) = go(next(phase, Event::Done(true)));
        let (phase, action) = go(next(phase, Event::Done(false)));
        assert!(matches!(
            &action,
            Action::DeleteHook { id, owner } if id == "9k3m" && owner == "@alice:s"
        ));
        assert_eq!(
            reply(next(phase, Event::Done(ok))),
            "Created hook **a b** but couldn't set up its encrypted \
             sender, so I rolled it back. Please try again."
        );
    }
}

#[test]
fn hooks_are_listed() {
    assert_eq!(reply(next(start("list"), Event::Listed(None))), LIST_FAILED);
    assert_eq!(LIST_FAILED, "Sorry, I couldn't list your hooks (internal error).");
    assert_eq!(reply(next(start("ls"), Event::Listed(Some(vec![])))), NO_HOOKS);
    assert_eq!(NO_HOOKS, "You have no hooks yet. Create one with `new <name>`.");
    let two = vec![hook("a", "1", "@alice:s"), hook("b", "2", "@alice:s")];
    assert_eq!(
        reply(next(start("list"), Event::Listed(Some(two)))),
        "Your hooks:\n- **a** — `1`\n  https://h/1\n- **b** — `2`\n  https://h/2\n"
    );
}

#[test]
fn only_owners_delete() {
    let (_, action) = go(begin(parse_command("delete 1"), &chat(false)));
    assert!(matches!(action, Action::FindHook { id } if id == "1"));
    assert_eq!(reply(next(start("rm 1"), Event::Found(Some(None)))), "No hook `1` owned by you.");
    let bobs = Event::Found(Some(Some(hook("a", "1", "@bob:s"))));
    assert_eq!(reply(next(start("rm 1"), bobs)), "No hook `1` owned by you.");
    assert_eq!(reply(next(start("rm 1"), Event::Found(None))), DELETE_FAILED);
    let mine = Event::Found(Some(Some(hook("a", "1", "@alice:s"))));
    let (phase, action) = go(next(start("rm 1"), mine));
    assert!(matches!(&action, Action::TearDown { hook } if hook.id == "1"));
    let (phase, action) = go(next(phase, Event::Done(false)));
    assert!(matches!(
        &action,
        Action::DeleteHook { id, owner } if id == "1" && owner == "@alice:s"
    ));
    assert_eq!(reply(next(phase, Event::Done(true))), "🗑️ Deleted hook `1`.");
    let failed = next(Phase::Deleting { id: "1".into() }, Event::Done(false));
    assert_eq!(reply(failed), DELETE_FAILED);
    assert_eq!(DELETE_FAILED, "Sorry, I couldn't delete that hook (internal error).");
}

#[test]
fn answers_have_to_fit() {
    let c = config();
    let none = handle_command_with(Phase::Listing, Event::Done(true), &chat(true), &c, "a", "b");
    assert!(none.is_none());
    let found = Event::Found(Some(None));
    assert!(handle_command(Phase::Counting { name: "n".into() }, found, &chat(true), &c).is_none());
}

#[test]
fn new_hooks_get_fresh_ids() {
    let ids: Vec<String> = (0..2)
        .map(|_| {
            let listed = Event::Listed(Some(vec![]));
            let step = handle_command(start("new x"), listed, &chat(true), &config()).unwrap();
            match go(step).0 {
                Phase::Registering { hook } => {
                    assert_eq!(hook.id.len(), 16);
                    assert_eq!(hook.public_id.len(), 16);
                    assert_ne!(hook.id, hook.public_id);
                    assert_eq!(hook.sender, format!("hook_x_{}", hook.id));
                    hook.id
                }
                other => panic!("{other:?}"),
            }
        })
        .collect();
    assert_ne!(ids[0], ids[1]);
}
