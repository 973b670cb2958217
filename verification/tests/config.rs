use hook_core::config::{env_or, opt, req, Config, Env};

const REQUIRED: [&str; 7] = [
    "MATRIX_HOMESERVER",
    "MATRIX_USER",
    "MATRIX_ACCESS_TOKEN",
    "MATRIX_DEVICE_ID",
    "SURREAL_USER",
    "SURREAL_PASS",
    "AS_TOKEN",
];

fn env(pairs: &[(&str, &str)]) -> Env {
    Env { entries: pairs.iter().map(|(k, v)| (k.to_string(), v.to_string())).collect() }
}

#[test]
fn empty_is_absent() {
    let e = env(&[("A", "1"), ("B", ""), ("A", "2")]);
    assert_eq!(opt(&e, "A"), Some("1".into()));
    assert_eq!(opt(&e, "B"), None);
    assert_eq!(opt(&e, "C"), None);
    assert_eq!(env_or(&e, "B", "d"), "d");
    assert_eq!(env_or(&e, "A", "d"), "1");
    assert_eq!(req(&e, "A"), Ok("1".into()));
    let missing = req(&e, "B").unwrap_err();
    assert_eq!(missing.message(), "required environment variable B is not set");
}

#[test]
fn defaults_fill_in() {
    let pairs: Vec<(&str, &str)> = REQUIRED.iter().map(|k| (*k, *k)).collect();
    let c = Config::from_env(&env(&pairs)).unwrap();
    assert_eq!(c.homeserver, "MATRIX_HOMESERVER");
    assert_eq!(c.user_id, "MATRIX_USER");
    assert_eq!(c.access_token, "MATRIX_ACCESS_TOKEN");
    assert_eq!(c.device_id, "MATRIX_DEVICE_ID");
    assert_eq!(c.surreal_user, "SURREAL_USER");
    assert_eq!(c.surreal_pass, "SURREAL_PASS");
    assert_eq!(c.as_token, "AS_TOKEN");
    assert_eq!(c.store_path, "./store");
    assert_eq!(c.surreal_url, "wss://surrealdb.damastacoda.dev");
    assert_eq!(c.db_namespace, "matrixHook");
    assert_eq!(c.db_name, "hooks");
    assert_eq!(c.bind_addr, "127.0.0.1:8480");
    assert_eq!(c.public_base_url, "https://matrixHook.damastacoda.dev");
    assert_eq!(c.server_name, "damastacoda.dev");
}

#[test]
fn given_values_win() {
    let mut pairs: Vec<(&str, &str)> = REQUIRED.iter().map(|k| (*k, "x")).collect();
    pairs.push(("MATRIX_STORE_PATH", "/s"));
    pairs.push(("SURREAL_URL", "ws://127.0.0.1:8000"));
    pairs.push(("SURREAL_NS", "n"));
    pairs.push(("SURREAL_DB", "d"));
    pairs.push(("HOOK_BIND_ADDR", "0.0.0.0:1"));
    pairs.push(("HOOK_PUBLIC_BASE_URL", "https://p"));
    pairs.push(("SERVER_NAME", "s"));
    let c = Config::from_env(&env(&pairs)).unwrap();
    assert_eq!(c.store_path, "/s");
    assert_eq!(c.surreal_url, "ws://127.0.0.1:8000");
    assert_eq!(c.db_namespace, "n");
    assert_eq!(c.db_name, "d");
    assert_eq!(c.bind_addr, "0.0.0.0:1");
    assert_eq!(c.public_base_url, "https://p");
    assert_eq!(c.server_name, "s");
}

#[test]
fn the_first_missing_variable_is_named() {
    for n in 0..REQUIRED.len() {
        // All up to the n-th are set; the n-th is empty, the later ones absent.
        let mut pairs: Vec<(&str, &str)> = REQUIRED[..n].iter().map(|k| (*k, "x")).collect();
        pairs.push((REQUIRED[n], ""));
        assert_eq!(Config::from_env(&env(&pairs)).unwrap_err().key, REQUIRED[n]);
    }
}
