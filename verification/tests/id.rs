use hook_core::id::{gen, hook_id, spell, virtual_localpart, ALPHABET, HOOK_ID_LEN};

#[test]
fn ids_are_unambiguous_and_sized() {
    for _ in 0..100 {
        let id = hook_id();
        assert_eq!(id.len(), HOOK_ID_LEN);
        assert!(
            id.bytes().all(|b| ALPHABET.as_bytes().contains(&b)),
            "id {id} has out-of-alphabet chars"
        );
        assert!(
            !id.contains(['0', '1', 'i', 'l', 'o']),
            "id {id} contains an ambiguous char"
        );
    }
}

#[test]
fn ids_are_distinct() {
    let a = hook_id();
    let b = hook_id();
    assert_ne!(a, b);
}

#[test]
fn localpart_slugifies_and_matches_namespace() {
    assert_eq!(virtual_localpart("Alerts!", "9k3m"), "hook_alerts_9k3m");
    assert_eq!(virtual_localpart("  ", "9k3m"), "hook_9k3m");
    assert_eq!(virtual_localpart("My Prod Deploys", "abcd"), "hook_myproddeploys_abcd");
    // Only [a-z0-9_] in the result -> always a valid localpart.
    let lp = virtual_localpart("Wéird / Näme #1", "zzzz");
    assert!(lp.starts_with("hook_"));
    assert!(lp.bytes().all(|b| b.is_ascii_alphanumeric() || b == b'_'));
}

#[test]
fn ids_have_any_length() {
    assert_eq!(gen(0), "");
    assert_eq!(gen(200).len(), 200);
    // 200 draws over 31 symbols do not all agree.
    let id = gen(200);
    assert!(id.chars().any(|c| !id.starts_with(c)));
}

#[test]
fn picks_are_spelled_out() {
    assert_eq!(spell(ALPHABET, &vec![0, 30, 8, 8]), "2zaa");
}

#[test]
fn slugs_are_cut_after_24() {
    assert_eq!(
        virtual_localpart("ABCDEFGHIJKLMNOPQRSTUVWXYZ", "x"),
        "hook_abcdefghijklmnopqrstuvwx_x"
    );
    assert_eq!(
        virtual_localpart("abcdefghijklmnopqrstuvwx", "x"),
        "hook_abcdefghijklmnopqrstuvwx_x"
    );
    assert_eq!(virtual_localpart("Wéird / Näme #1", "zzzz"), "hook_wirdnme1_zzzz");
}

#[test]
fn any_safe_id_gives_a_safe_localpart() {
    assert_eq!(virtual_localpart("Ünï 1", "o_0il"), "hook_n1_o_0il");
}

#[test]
fn different_ids_have_different_localparts() {
    assert_ne!(virtual_localpart("a", "b2cc"), virtual_localpart("a_b2", "ccdd"));
    assert_ne!(virtual_localpart("same", "aaaa"), virtual_localpart("same", "aaab"));
}
