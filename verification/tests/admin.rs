use hmac::Mac;
use hook_core::admin::{
    login_password, nonce_found, nonce_from, nonce_request, print_env, random_secret,
    read_registration_secret, register_request, register_shared_secret, secret_from, sops_arguments,
    LoginResponse, NonceError, ProcessOutput, CHARSET,
};
use hook_core::http::{Body, Fields, HttpRequest, Json, Method};

fn output(success: bool, stdout: &[u8], stderr: &[u8]) -> ProcessOutput {
    ProcessOutput { success, stdout: stdout.to_vec(), stderr: stderr.to_vec() }
}

fn post(url: &str, fields: Fields) -> HttpRequest {
    HttpRequest {
        method: Method::Post,
        url: url.into(),
        bearer: None,
        body: Body::Json(Json::Object(fields)),
    }
}

#[test]
fn secrets_are_alphanumeric() {
    let a = random_secret(48);
    assert_eq!(a.len(), 48);
    assert!(a.chars().all(|c| c.is_ascii_alphanumeric() && CHARSET.contains(c)));
    assert_ne!(a, random_secret(48));
    assert_eq!(random_secret(0), "");
}

#[test]
fn the_secret_is_found_in_the_configuration() {
    assert_eq!(secret_from("registration_shared_secret: abc"), Some("abc".into()));
    assert_eq!(
        secret_from("a: 1\r\n  registration_shared_secret:  \"s e\"  \r\nregistration_shared_secret: no"),
        Some("s e".into())
    );
    assert_eq!(secret_from("registration_shared_secret:"), Some("".into()));
    assert_eq!(secret_from("xregistration_shared_secret: a\n\n"), None);
    assert_eq!(secret_from(""), None);
}

#[test]
fn sops_output_is_judged() {
    assert_eq!(
        sops_arguments("f.yaml"),
        vec!["-d", "--extract", "[\"synapse_extra_config\"]", "f.yaml"]
    );
    let good = output(true, b"x: y\nregistration_shared_secret: \"abc\"\n", b"");
    assert_eq!(read_registration_secret("f", &good), Ok("abc".into()));
    let none = output(true, b"x: y\n", b"");
    assert_eq!(
        read_registration_secret("f.yaml", &none),
        Err("registration_shared_secret not found in f.yaml".into())
    );
    let bad = output(false, b"registration_shared_secret: abc", b"  no key\n");
    assert_eq!(read_registration_secret("f", &bad), Err("sops failed: no key".into()));
    let broken = output(true, b"\xff\nregistration_shared_secret: a\xffb\n", b"");
    assert_eq!(read_registration_secret("f", &broken), Ok("a\u{fffd}b".into()));
}

#[test]
fn nonces_are_read() {
    let r = nonce_request("http://hs//");
    assert_eq!(r.method, Method::Get);
    assert_eq!(r.url, "http://hs/_synapse/admin/v1/register");
    assert_eq!(r.body, Body::Empty);
    assert_eq!(nonce_from(b"{\"nonce\":\"abc\",\"x\":1}"), Ok("abc".into()));
    assert_eq!(nonce_from(b"{\"nonce\":1}"), Err(NonceError::Missing));
    assert_eq!(nonce_from(b"[\"nonce\"]"), Err(NonceError::Missing));
    assert_eq!(nonce_from(b"{"), Err(NonceError::NotJson));
    assert_eq!(nonce_found(Some(Some("n".into()))), Ok("n".into()));
    assert_eq!(nonce_found(Some(None)), Err(NonceError::Missing));
    assert_eq!(nonce_found(None), Err(NonceError::NotJson));
}

#[test]
fn registrations_are_authenticated() {
    // HMAC-SHA1 with key `key` over `nonce NUL user NUL pass NUL notadmin`.
    let sent = register_shared_secret("http://hs/", "key", "user", "pass", false, "nonce");
    let mac = match &sent.body {
        Body::Json(Json::Object(fields)) => last_text(fields),
        _ => panic!("no object"),
    };
    assert_eq!(mac.len(), 40);
    assert!(mac.chars().all(|c| c.is_ascii_digit() || ('a'..='f').contains(&c)));
    assert_eq!(sent, register_request("http://hs", "nonce", "user", "pass", false, &mac));
    assert_eq!(
        sent,
        post(
            "http://hs/_synapse/admin/v1/register",
            Fields::End
                .with("mac", Json::text(&mac))
                .with("admin", Json::Bool(false))
                .with("password", Json::text("pass"))
                .with("username", Json::text("user"))
                .with("nonce", Json::text("nonce")),
        )
    );
    let as_admin = register_shared_secret("http://hs/", "key", "user", "pass", true, "nonce");
    assert_ne!(sent, as_admin);
    assert_ne!(sent, register_shared_secret("http://hs/", "kex", "user", "pass", false, "nonce"));
}

fn last_text(fields: &Fields) -> String {
    match fields {
        Fields::Field(_, value, rest) => match (&**value, &**rest) {
            (Json::Text(t), Fields::End) => t.clone(),
            (_, rest) => last_text(rest),
        },
        Fields::End => panic!("no text"),
    }
}

#[test]
fn the_code_is_that_of_the_crates() {
    let mut mac = hmac::Hmac::<sha1::Sha1>::new_from_slice(b"key").unwrap();
    for part in ["nonce", "\0", "user", "\0", "pass", "\0", "admin"] {
        mac.update(part.as_bytes());
    }
    let expected = hex::encode(mac.finalize().into_bytes());
    let sent = register_shared_secret("http://hs/", "key", "user", "pass", true, "nonce");
    assert_eq!(sent, register_request("http://hs/", "nonce", "user", "pass", true, &expected));
}

#[test]
fn logins_name_the_user() {
    let who = Json::Object(
        Fields::End.with("user", Json::text("bot")).with("type", Json::text("m.id.user")),
    );
    assert_eq!(
        login_password("http://hs/", "bot", "pw", "device"),
        post(
            "http://hs/_matrix/client/v3/login",
            Fields::End
                .with("initial_device_display_name", Json::text("device"))
                .with("password", Json::text("pw"))
                .with("identifier", who)
                .with("type", Json::text("m.login.password")),
        )
    );
    let login = LoginResponse {
        user_id: "@bot:s".to_string(),
        device_id: "DEV".to_string(),
        access_token: "tok".to_string(),
    };
    assert_eq!(
        print_env("https://hs", &login.user_id, &login.access_token, &login.device_id),
        "MATRIX_HOMESERVER=https://hs\nMATRIX_USER=@bot:s\nMATRIX_ACCESS_TOKEN=tok\nMATRIX_DEVICE_ID=DEV\n"
    );
}
