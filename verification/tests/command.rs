use hook_core::command::{command_from, onboard_url, parse_command, webhook_url, Command};

#[test]
fn parses_verbs() {
    assert_eq!(parse_command("new alerts"), Command::New("alerts".into()));
    assert_eq!(parse_command("  CREATE   my hook  "), Command::New("my hook".into()));
    assert_eq!(parse_command("list"), Command::List);
    assert_eq!(parse_command("LS"), Command::List);
    assert_eq!(parse_command("delete abc-123"), Command::Delete("abc-123".into()));
    assert_eq!(parse_command("rm  abc-123 extra"), Command::Delete("abc-123".into()));
    assert_eq!(parse_command(""), Command::Help);
    assert_eq!(parse_command("help"), Command::Help);
}

#[test]
fn incomplete_and_unknown() {
    assert_eq!(parse_command("new"), Command::Unknown("new".into()));
    assert_eq!(parse_command("delete"), Command::Unknown("delete".into()));
    assert_eq!(parse_command("frobnicate x"), Command::Unknown("frobnicate x".into()));
}

#[test]
fn builds_url_trimming_trailing_slash() {
    assert_eq!(webhook_url("https://h.example.dev/", "uuid-1"), "https://h.example.dev/uuid-1");
    assert_eq!(webhook_url("https://h.example.dev", "uuid-1"), "https://h.example.dev/uuid-1");
}

#[test]
fn every_alias_is_understood() {
    for verb in ["new", "create", "add", "NEW", "Create", "aDD"] {
        assert_eq!(parse_command(&format!("{verb} x y")), Command::New("x y".into()));
    }
    for verb in ["list", "ls", "hooks", "HOOKS"] {
        assert_eq!(parse_command(&format!("{verb} ignored")), Command::List);
    }
    for verb in ["delete", "del", "rm", "remove", "Remove"] {
        assert_eq!(parse_command(&format!("{verb}\t x y")), Command::Delete("x".into()));
    }
    for verb in ["help", "?", "commands", "Help me", "   ", "\n\u{3000}"] {
        assert_eq!(parse_command(verb), Command::Help);
    }
}

#[test]
fn verbs_lower_by_unicode() {
    // The Kelvin sign lowers to an ASCII `k`; nothing is a verb by that alone.
    assert_eq!(parse_command("hoo\u{212a}s"), Command::List);
    assert_eq!(parse_command("ÄDD x"), Command::Unknown("ÄDD x".into()));
}

#[test]
fn the_case_of_a_verb_does_not_matter() {
    for (a, b) in [("new My Hook", "nEW My Hook"), ("hoo\u{212a}s", "HOO\u{212a}S"), ("RM Ab", "rm Ab")] {
        assert_eq!(parse_command(a), parse_command(b));
    }
    // What follows the verb keeps its case.
    assert_ne!(parse_command("new a"), parse_command("new A"));
    assert_eq!(parse_command("FROB"), Command::Unknown("FROB".into()));
}

#[test]
fn outer_white_space_does_not_matter() {
    for body in ["", "new a b", "list", "rm x y", "frob"] {
        assert_eq!(parse_command(&format!("\t\u{2003}{body}\n ")), parse_command(body));
    }
}

#[test]
fn instructions_have_an_address() {
    assert_eq!(onboard_url("https://h//", "abc"), "https://h/onboard/abc");
}

#[test]
fn parts_decide_alone() {
    assert_eq!(command_from("rm", "  ", "rm"), Command::Unknown("rm".into()));
    assert_eq!(command_from("rm", " a b", "whole"), Command::Delete("a".into()));
    assert_eq!(command_from("NEW", "a", "NEW a"), Command::Unknown("NEW a".into()));
}

#[test]
fn all_trailing_slashes_go() {
    assert_eq!(webhook_url("https://h///", "a"), "https://h/a");
    for slashes in ["", "/", "//", "/////"] {
        assert_eq!(webhook_url(&format!("https://h{slashes}"), "a"), "https://h/a");
        assert_eq!(onboard_url(&format!("https://h{slashes}"), "a"), "https://h/onboard/a");
    }
    assert_eq!(webhook_url("", "a"), "/a");
    assert_ne!(webhook_url("https://h", "a"), webhook_url("https://h", "b"));
}
