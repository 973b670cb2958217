//! Account bootstrap on Synapse: shared-secret registration and password login.

use hmac::Mac;
use vstd::prelude::*;
use vstd::string::*;
use vstd::utf8::*;
use crate::http::{member, text_member, Body, Fields, HttpRequest, Json, Method};
use crate::id::{draw, spell, spelled, spelled_in};
use crate::text::{
    after, cut, from_utf8_lossy, lemma_span, span, strip_char, strip_end, strip_prefix, trim, trim_both,
    trim_end, trimmed, utf8_lossy, Class,
};

verus! {

/// What a login returns. `S` is `String` in running code and `Seq<char>` in its
/// model.
#[derive(Clone, Debug, PartialEq, Eq)]
pub struct LoginResponse<S = String> {
    /// The full id of the account.
    pub user_id: S,
    /// The device created by the login.
    pub device_id: S,
    /// The access token bound to that device.
    pub access_token: S,
}

impl View for LoginResponse {
    type V = LoginResponse<Seq<char>>;

    open spec fn view(&self) -> LoginResponse<Seq<char>> {
        LoginResponse {
            user_id: self.user_id@,
            device_id: self.device_id@,
            access_token: self.access_token@,
        }
    }
}

/// The symbols that secrets are spelled in.
pub const CHARSET: &'static str = "ABCDEFGHIJKLMNOPQRSTUVWXYZabcdefghijklmnopqrstuvwxyz0123456789";

/// Generates a random alphanumeric secret of length `len`.
pub fn random_secret(len: usize) -> (r: String)
    ensures
        r@.len() == len,
        spelled_in(CHARSET@, r@),
        exists|picks: Seq<usize>|
            picks.len() == len && (forall|i: int| 0 <= i < len ==> #[trigger] picks[i] < 62) && r@
                == #[trigger] spelled(CHARSET@, picks),
{
    proof {
        law_charset();
    }
    let picks = draw(len, 62);
    let r = spell(CHARSET, &picks);
    proof {
        assert forall|i: int| 0 <= i < r@.len() implies CHARSET@.contains(#[trigger] r@[i]) by {
            assert(r@[i] == CHARSET@[picks@[i] as int]);
        }
        assert(r@ == spelled(CHARSET@, picks@));
    }
    r
}

/// Secrets are spelled in 62 different symbols.
pub proof fn law_charset()
    ensures
        CHARSET@.len() == 62,
        CHARSET@.no_duplicates(),
{
    reveal_strlit("ABCDEFGHIJKLMNOPQRSTUVWXYZabcdefghijklmnopqrstuvwxyz0123456789");
}

/// What marks the line that holds the registration secret.
pub const SECRET_KEY: &'static str = "registration_shared_secret:";

/// The secret in a configuration text: on the first line that, without white
/// space at its ends, starts with [`SECRET_KEY`], what follows that, without white
/// space and then without quotes at its ends.
pub open spec fn secret_in(text: Seq<char>) -> Option<Seq<char>>
    decreases text.len(),
{
    let line = trim(text.take(span(text, Class::Except('\n')) as int));
    if SECRET_KEY@.is_prefix_of(line) {
        Some(trim_both(trim(line.skip(SECRET_KEY@.len() as int)), Class::Only('"')))
    } else if span(text, Class::Except('\n')) < text.len() {
        secret_in(after(text, Class::Except('\n')))
    } else {
        None
    }
}

/// Finds the registration secret in a configuration text.
pub fn secret_from(text: &str) -> (r: Option<String>)
    ensures
        match r {
            Some(s) => secret_in(text@) == Some(s@),
            None => secret_in(text@) is None,
        },
{
    let mut rest = text;
    loop
        invariant
            secret_in(rest@) == secret_in(text@),
        decreases rest@.len(),
    {
        let (first, tail) = cut(rest, Class::Except('\n'));
        proof {
            lemma_span(rest@, Class::Except('\n'));
        }
        if let Some(value) = strip_prefix(trimmed(first), SECRET_KEY) {
            return Some(strip_char(trimmed(value), '"').to_owned());
        }
        if first.unicode_len() == rest.unicode_len() {
            return None;
        }
        rest = tail;
    }
}

/// What a finished process left: whether it succeeded, and what it wrote.
pub struct ProcessOutput {
    pub success: bool,
    pub stdout: Vec<u8>,
    pub stderr: Vec<u8>,
}

/// The arguments that make `sops` print the extra Synapse configuration.
pub fn sops_arguments(sops_file: &str) -> (r: Vec<String>)
    ensures
        r@.map_values(|a: String| a@) == seq![
            "-d"@,
            "--extract"@,
            "[\"synapse_extra_config\"]"@,
            sops_file@,
        ],
{
    let mut r: Vec<String> = Vec::new();
    r.push("-d".to_owned());
    r.push("--extract".to_owned());
    r.push("[\"synapse_extra_config\"]".to_owned());
    r.push(sops_file.to_owned());
    assert(r@.map_values(|a: String| a@) =~= seq![
        "-d"@,
        "--extract"@,
        "[\"synapse_extra_config\"]"@,
        sops_file@,
    ]);
    r
}

/// What is read from what `sops` left: the secret, or an error.
pub open spec fn secret_read(
    sops_file: Seq<char>,
    success: bool,
    stdout: Seq<u8>,
    stderr: Seq<u8>,
) -> Result<Seq<char>, Seq<char>> {
    if !success {
        Err("sops failed: "@ + trim(utf8_lossy(stderr)))
    } else {
        match secret_in(utf8_lossy(stdout)) {
            Some(secret) => Ok(secret),
            None => Err("registration_shared_secret not found in "@ + sops_file),
        }
    }
}

/// Reads the registration secret out of what `sops` wrote: the secret, or the
/// text of the error that `sops` reported or that it was not found.
pub fn read_registration_secret(sops_file: &str, output: &ProcessOutput) -> (r: Result<
    String,
    String,
>)
    ensures
        match r {
            Ok(secret) => output.success && secret_in(utf8_lossy(output.stdout@)) == Some(secret@),
            Err(e) => if output.success {
                &&& secret_in(utf8_lossy(output.stdout@)) is None
                &&& e@ == "registration_shared_secret not found in "@ + sops_file@
            } else {
                e@ == "sops failed: "@ + trim(utf8_lossy(output.stderr@))
            },
        },
        output.success && valid_utf8(output.stdout@) ==> match r {
            Ok(secret) => secret_in(decode_utf8(output.stdout@)) == Some(secret@),
            Err(_) => secret_in(decode_utf8(output.stdout@)) is None,
        },
        secret_read(sops_file@, output.success, output.stdout@, output.stderr@) == (match r {
            Ok(secret) => Ok::<Seq<char>, Seq<char>>(secret@),
            Err(e) => Err(e@),
        }),
{
    if !output.success {
        let report = from_utf8_lossy(output.stderr.as_slice());
        return Err("sops failed: ".to_owned().concat(trimmed(report.as_str())));
    }
    let text = from_utf8_lossy(output.stdout.as_slice());
    match secret_from(text.as_str()) {
        Some(secret) => Ok(secret),
        None => Err("registration_shared_secret not found in ".to_owned().concat(sops_file)),
    }
}

/// The address of the registration endpoint.
pub open spec fn register_url(admin_hs: Seq<char>) -> Seq<char> {
    trim_end(admin_hs, Class::Only('/')) + "/_synapse/admin/v1/register"@
}

fn register_address(admin_hs: &str) -> (r: String)
    ensures
        r@ == register_url(admin_hs@),
{
    strip_end(admin_hs, Class::Only('/')).to_owned().concat("/_synapse/admin/v1/register")
}

/// The request for a one-time nonce.
pub open spec fn nonce_request_of(admin_hs: Seq<char>) -> HttpRequest<Seq<char>> {
    HttpRequest {
        method: Method::Get,
        url: register_url(admin_hs),
        bearer: None,
        body: Body::Empty,
    }
}

/// Asks for a one-time nonce, the first step of a registration.
pub fn nonce_request(admin_hs: &str) -> (r: HttpRequest)
    ensures
        r@ == (HttpRequest {
            method: Method::Get,
            url: register_url(admin_hs@),
            bearer: None,
            body: Body::Empty,
        }),
        r@ == nonce_request_of(admin_hs@),
{
    HttpRequest {
        method: Method::Get,
        url: register_address(admin_hs),
        bearer: None,
        body: Body::Empty,
    }
}

/// What `serde_json` reads from bytes under a key: nothing if the bytes are not
/// JSON, and then the text of that member if the value is an object with such a
/// member and the member is a text.
pub uninterp spec fn json_member(bytes: Seq<u8>, key: Seq<char>) -> Option<Option<Seq<char>>>;

/// Calls `serde_json::from_slice` for a `Value`, then `Value::get` and
/// `Value::as_str`. The result is named by [`json_member`].
#[verifier::external_body]
fn json_text_member(bytes: &[u8], key: &str) -> (r: Option<Option<String>>)
    ensures
        json_member(bytes@, key@) == (match r {
            Some(Some(text)) => Some(Some(text@)),
            Some(None) => Some(None),
            None => None,
        }),
{
    match serde_json::from_slice::<serde_json::Value>(bytes) {
        Ok(value) => match value.get(key) {
            Some(found) => match found.as_str() {
                Some(text) => Some(Some(text.to_owned())),
                None => Some(None),
            },
            None => Some(None),
        },
        Err(_) => None,
    }
}

/// Why a reply holds no nonce.
#[derive(Clone, Copy, Debug, PartialEq, Eq, Structural)]
pub enum NonceError {
    /// The reply is not JSON.
    NotJson,
    /// The reply has no text under `nonce`.
    Missing,
}

/// The outcome of reading a nonce, for what was found under `nonce`.
pub fn nonce_found(found: Option<Option<String>>) -> (r: Result<String, NonceError>)
    ensures
        match r {
            Ok(nonce) => found == Some(Some(nonce)),
            Err(NonceError::Missing) => found == Some(None::<String>),
            Err(NonceError::NotJson) => found is None,
        },
{
    match found {
        Some(Some(nonce)) => Ok(nonce),
        Some(None) => Err(NonceError::Missing),
        None => Err(NonceError::NotJson),
    }
}

/// Reads the nonce out of the reply to [`nonce_request`].
pub fn nonce_from(reply: &[u8]) -> (r: Result<String, NonceError>)
    ensures
        match r {
            Ok(nonce) => json_member(reply@, "nonce"@) == Some(Some(nonce@)),
            Err(NonceError::Missing) => json_member(reply@, "nonce"@) == Some(None::<Seq<char>>),
            Err(NonceError::NotJson) => json_member(reply@, "nonce"@) is None,
        },
{
    nonce_found(json_text_member(reply, "nonce"))
}

/// The HMAC-SHA1 of a message under a key.
pub uninterp spec fn hmac_sha1(key: Seq<u8>, message: Seq<u8>) -> Seq<u8>;

/// Computes `Hmac::<Sha1>` of a message: `new_from_slice`, which takes a key of any
/// length, one `update` and `finalize`. The result is named by [`hmac_sha1`] and
/// has 20 bytes.
#[verifier::external_body]
fn hmac_sha1_of(key: &[u8], message: &[u8]) -> (r: Vec<u8>)
    ensures
        r@ == hmac_sha1(key@, message@),
        r@.len() == 20,
{
    let mut mac = hmac::Hmac::<sha1::Sha1>::new_from_slice(key).expect("any key length");
    mac.update(message);
    mac.finalize().into_bytes().to_vec()
}

/// A lowercase hexadecimal digit.
pub open spec fn hex_lower(n: u8) -> char {
    if n < 10 {
        ('0' as u8 + n) as char
    } else {
        ('a' as u8 + n - 10) as char
    }
}

/// The lowercase hexadecimal form of bytes, two digits for each.
pub open spec fn hex_of(bytes: Seq<u8>) -> Seq<char> {
    Seq::new(
        2 * bytes.len(),
        |i: int|
            if i % 2 == 0 {
                hex_lower(bytes[i / 2] / 16)
            } else {
                hex_lower(bytes[i / 2] % 16)
            },
    )
}

/// Calls `hex::encode`, which writes each byte as two lowercase hexadecimal
/// digits, the high one first.
#[verifier::external_body]
fn hex_encode(bytes: &[u8]) -> (r: String)
    ensures
        r@ == hex_of(bytes@),
{
    hex::encode(bytes)
}

/// The word for whether an account is an administrator's.
pub open spec fn role(admin: bool) -> Seq<char> {
    if admin {
        "admin"@
    } else {
        "notadmin"@
    }
}

/// What a registration is authenticated by: nonce, user, password and role,
/// separated by NUL characters.
pub open spec fn mac_text(
    nonce: Seq<char>,
    localpart: Seq<char>,
    password: Seq<char>,
    admin: bool,
) -> Seq<char> {
    nonce + "\0"@ + localpart + "\0"@ + password + "\0"@ + role(admin)
}

/// The authentication code of a registration, in hexadecimal.
pub open spec fn mac_of(
    secret: Seq<char>,
    nonce: Seq<char>,
    localpart: Seq<char>,
    password: Seq<char>,
    admin: bool,
) -> Seq<char> {
    hex_of(
        hmac_sha1(encode_utf8(secret), encode_utf8(mac_text(nonce, localpart, password, admin))),
    )
}

/// The request that registers an account, authenticated by `mac`.
pub open spec fn register_request_of(
    admin_hs: Seq<char>,
    nonce: Seq<char>,
    localpart: Seq<char>,
    password: Seq<char>,
    admin: bool,
    mac: Seq<char>,
) -> HttpRequest<Seq<char>> {
    HttpRequest {
        method: Method::Post,
        url: register_url(admin_hs),
        bearer: None,
        body: Body::Json(
            Json::Object(
                text_member(
                    "nonce"@,
                    nonce,
                    text_member(
                        "username"@,
                        localpart,
                        text_member(
                            "password"@,
                            password,
                            member(
                                "admin"@,
                                Json::Bool(admin),
                                text_member("mac"@, mac, Fields::End),
                            ),
                        ),
                    ),
                ),
            ),
        ),
    }
}

/// Builds the request that registers an account, for a given authentication code.
pub fn register_request(
    admin_hs: &str,
    nonce: &str,
    localpart: &str,
    password: &str,
    admin: bool,
    mac: &str,
) -> (r: HttpRequest)
    ensures
        r@ == register_request_of(admin_hs@, nonce@, localpart@, password@, admin, mac@),
{
    let fields = Fields::End
        .with("mac", Json::text(mac))
        .with("admin", Json::Bool(admin))
        .with("password", Json::text(password))
        .with("username", Json::text(localpart))
        .with("nonce", Json::text(nonce));
    HttpRequest {
        method: Method::Post,
        url: register_address(admin_hs),
        bearer: None,
        body: Body::Json(Json::Object(fields)),
    }
}

/// Registers an account with the shared secret, given the nonce: the request to
/// send. Its reply is judged by [`crate::http::check`] under the name
/// `shared-secret register`.
pub fn register_shared_secret(
    admin_hs: &str,
    shared_secret: &str,
    localpart: &str,
    password: &str,
    admin: bool,
    nonce: &str,
) -> (r: HttpRequest)
    ensures
        r@ == register_request_of(
            admin_hs@,
            nonce@,
            localpart@,
            password@,
            admin,
            mac_of(shared_secret@, nonce@, localpart@, password@, admin),
        ),
{
    let role_word = if admin {
        "admin"
    } else {
        "notadmin"
    };
    let text = nonce
        .to_owned()
        .concat("\0")
        .concat(localpart)
        .concat("\0")
        .concat(password)
        .concat("\0")
        .concat(role_word);
    let code = hmac_sha1_of(shared_secret.as_bytes(), text.as_str().as_bytes());
    let mac = hex_encode(code.as_slice());
    register_request(admin_hs, nonce, localpart, password, admin, mac.as_str())
}

/// How a password login names an account.
pub open spec fn user_identifier(localpart: Seq<char>) -> Json<Seq<char>> {
    Json::Object(text_member("type"@, "m.id.user"@, text_member("user"@, localpart, Fields::End)))
}

/// Names an account for a password login.
pub(crate) fn identify(localpart: &str) -> (r: Json)
    ensures
        r.model() == user_identifier(localpart@),
{
    Json::Object(
        Fields::End.with("user", Json::text(localpart)).with("type", Json::text("m.id.user")),
    )
}

/// The request that logs in with a password.
pub open spec fn login_request(
    homeserver: Seq<char>,
    localpart: Seq<char>,
    password: Seq<char>,
    device_display_name: Seq<char>,
) -> HttpRequest<Seq<char>> {
    HttpRequest {
        method: Method::Post,
        url: trim_end(homeserver, Class::Only('/')) + "/_matrix/client/v3/login"@,
        bearer: None,
        body: Body::Json(
            Json::Object(
                text_member(
                    "type"@,
                    "m.login.password"@,
                    member(
                        "identifier"@,
                        user_identifier(localpart),
                        text_member(
                            "password"@,
                            password,
                            text_member(
                                "initial_device_display_name"@,
                                device_display_name,
                                Fields::End,
                            ),
                        ),
                    ),
                ),
            ),
        ),
    }
}

/// Logs in with a password: the request to send. Its reply is judged by
/// [`crate::http::check`] under the name `login`.
pub fn login_password(
    homeserver: &str,
    localpart: &str,
    password: &str,
    device_display_name: &str,
) -> (r: HttpRequest)
    ensures
        r@ == login_request(homeserver@, localpart@, password@, device_display_name@),
        r@ == (HttpRequest {
            method: Method::Post,
            url: trim_end(homeserver@, Class::Only('/')) + "/_matrix/client/v3/login"@,
            bearer: None,
            body: Body::Json(
                Json::Object(
                    text_member(
                        "type"@,
                        "m.login.password"@,
                        member(
                            "identifier"@,
                            user_identifier(localpart@),
                            text_member(
                                "password"@,
                                password@,
                                text_member(
                                    "initial_device_display_name"@,
                                    device_display_name@,
                                    Fields::End,
                                ),
                            ),
                        ),
                    ),
                ),
            ),
        }),
{
    let fields = Fields::End
        .with("initial_device_display_name", Json::text(device_display_name))
        .with("password", Json::text(password))
        .with("identifier", identify(localpart))
        .with("type", Json::text("m.login.password"));
    HttpRequest {
        method: Method::Post,
        url: strip_end(homeserver, Class::Only('/')).to_owned().concat(
            "/_matrix/client/v3/login",
        ),
        bearer: None,
        body: Body::Json(Json::Object(fields)),
    }
}

/// The settings that a login yields, one `NAME=value` line for each.
pub open spec fn env_lines(
    homeserver: Seq<char>,
    user_id: Seq<char>,
    token: Seq<char>,
    device_id: Seq<char>,
) -> Seq<char> {
    "MATRIX_HOMESERVER="@ + homeserver + "\nMATRIX_USER="@ + user_id + "\nMATRIX_ACCESS_TOKEN="@
        + token + "\nMATRIX_DEVICE_ID="@ + device_id + "\n"@
}

/// Writes the settings that a login yields.
pub fn print_env(homeserver: &str, user_id: &str, token: &str, device_id: &str) -> (r: String)
    ensures
        r@ == env_lines(homeserver@, user_id@, token@, device_id@),
{
    "MATRIX_HOMESERVER="
        .to_owned()
        .concat(homeserver)
        .concat("\nMATRIX_USER=")
        .concat(user_id)
        .concat("\nMATRIX_ACCESS_TOKEN=")
        .concat(token)
        .concat("\nMATRIX_DEVICE_ID=")
        .concat(device_id)
        .concat("\n")
}

/// What an authenticated text says is unambiguous: from parts without NUL
/// characters, no other parts give the same text.
pub proof fn law_mac_text_unambiguous(
    n1: Seq<char>,
    u1: Seq<char>,
    p1: Seq<char>,
    a1: bool,
    n2: Seq<char>,
    u2: Seq<char>,
    p2: Seq<char>,
    a2: bool,
)
    requires
        !n1.contains('\0') && !u1.contains('\0') && !p1.contains('\0'),
        !n2.contains('\0') && !u2.contains('\0') && !p2.contains('\0'),
        mac_text(n1, u1, p1, a1) == mac_text(n2, u2, p2, a2),
    ensures
        n1 == n2 && u1 == u2 && p1 == p2 && a1 == a2,
{
    reveal_strlit("\0");
    reveal_strlit("admin");
    reveal_strlit("notadmin");
    let r1 = p1 + "\0"@ + role(a1);
    let r2 = p2 + "\0"@ + role(a2);
    let t1 = u1 + "\0"@ + r1;
    let t2 = u2 + "\0"@ + r2;
    assert(mac_text(n1, u1, p1, a1) =~= n1 + "\0"@ + t1);
    assert(mac_text(n2, u2, p2, a2) =~= n2 + "\0"@ + t2);
    lemma_first_nul(n1, t1, n2, t2);
    lemma_first_nul(u1, r1, u2, r2);
    lemma_first_nul(p1, role(a1), p2, role(a2));
}

/// The first NUL character of a text splits it in one way.
proof fn lemma_first_nul(a: Seq<char>, x: Seq<char>, b: Seq<char>, y: Seq<char>)
    requires
        !a.contains('\0'),
        !b.contains('\0'),
        a + "\0"@ + x == b + "\0"@ + y,
    ensures
        a == b,
        x == y,
{
    reveal_strlit("\0");
    let s = a + "\0"@ + x;
    assert(s[a.len() as int] == '\0');
    assert(s[b.len() as int] == '\0');
    if a.len() < b.len() {
        assert(b[a.len() as int] == '\0');
    }
    if b.len() < a.len() {
        assert(a[b.len() as int] == '\0');
    }
    assert(a =~= s.take(a.len() as int));
    assert(b =~= s.take(b.len() as int));
    assert(x =~= s.skip(a.len() as int + 1));
    assert(y =~= s.skip(b.len() as int + 1));
}

/// A secret is read if `sops` succeeded and its output holds one, and is then that one;
/// otherwise the error tells what `sops` reported, or which file has no secret.
pub proof fn law_secrets_are_read(
    sops_file: Seq<char>,
    success: bool,
    stdout: Seq<u8>,
    stderr: Seq<u8>,
)
    ensures
        ({
            let r = secret_read(sops_file, success, stdout, stderr);
            &&& r is Ok <==> success && secret_in(utf8_lossy(stdout)) is Some
            &&& r matches Ok(secret) ==> secret_in(utf8_lossy(stdout)) == Some(secret)
            &&& success ==> (r matches Err(e) ==> sops_file.is_suffix_of(e))
            &&& !success ==> (r matches Err(e) && trim(utf8_lossy(stderr)).is_suffix_of(e))
        }),
{
    if let Err(e) = secret_read(sops_file, success, stdout, stderr) {
        if success {
            assert(sops_file =~= e.skip(e.len() - sops_file.len()));
        } else {
            let t = trim(utf8_lossy(stderr));
            assert(t =~= e.skip(e.len() - t.len()));
        }
    }
}

} // verus!
