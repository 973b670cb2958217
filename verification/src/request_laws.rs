//! What the requests to other servers say, for all that they are made of.

use vstd::prelude::*;
use vstd::utf8::*;
use crate::admin::{
    env_lines, hex_lower, hex_of, hmac_sha1, login_request, mac_of, mac_text, nonce_request_of,
    register_request_of, role, secret_in, user_identifier, SECRET_KEY,
};
use crate::appservice::{is_registered, AppService};
use crate::embed::embed_request;
use crate::http::{
    encoded, failure_text, field_of, hex_value, is_success, names_of, Body, Fields, HttpRequest,
    Items, Json, Method,
};
use crate::matrix_id::{is_hook_user, localpart_in};
use crate::id::localpart_of;
use crate::selftest::deactivate_request;
use crate::text::{
    after, filled, find, is_white, lemma_filled_holds, lemma_find_is, lemma_span_is,
    lemma_tail_span_is, law_trim_undoes_padding, trim, trim_both, trim_end, trim_start, Class,
};

verus! {

/// The members of the JSON object that a request carries.
pub open spec fn carried(r: HttpRequest<Seq<char>>) -> Fields<Seq<char>> {
    match r.body {
        Body::Json(Json::Object(fields)) => fields,
        _ => arbitrary(),
    }
}

/// The text that a request carries under a name.
pub open spec fn says(r: HttpRequest<Seq<char>>, name: Seq<char>) -> Option<Seq<char>> {
    match field_of(carried(r), name) {
        Some(Json::Text(t)) => Some(t),
        _ => None,
    }
}

/// Whether a request carries a JSON object with exactly these members, in this order.
pub open spec fn carries(r: HttpRequest<Seq<char>>, names: Seq<Seq<char>>) -> bool {
    r.body matches Body::Json(Json::Object(fields)) && names_of(fields) == names
}

/// Whether a value names the account with this localpart.
pub open spec fn identifies(value: Option<Json<Seq<char>>>, localpart: Seq<char>) -> bool {
    value matches Some(Json::Object(fields)) && names_of(fields) == seq!["type"@, "user"@]
        && field_of(fields, "type"@) == Some(Json::Text("m.id.user"@)) && field_of(fields, "user"@)
        == Some(Json::Text(localpart))
}

proof fn lemma_names()
    ensures
        "type"@ != "username"@ && "type"@ != "user"@ && "type"@ != "identifier"@ && "type"@
            != "password"@ && "type"@ != "initial_device_display_name"@,
        "identifier"@ != "password"@ && "identifier"@ != "initial_device_display_name"@ && "password"@
            != "initial_device_display_name"@,
        "nonce"@ != "username"@ && "nonce"@ != "password"@ && "nonce"@ != "admin"@ && "nonce"@
            != "mac"@,
        "username"@ != "password"@ && "username"@ != "admin"@ && "username"@ != "mac"@,
        "password"@ != "admin"@ && "password"@ != "mac"@ && "admin"@ != "mac"@,
        "msgtype"@ != "body"@ && "model"@ != "input"@ && "auth"@ != "erase"@,
{
    reveal_strlit("type");
    reveal_strlit("user");
    reveal_strlit("username");
    reveal_strlit("identifier");
    reveal_strlit("password");
    reveal_strlit("initial_device_display_name");
    reveal_strlit("nonce");
    reveal_strlit("admin");
    reveal_strlit("mac");
    reveal_strlit("msgtype");
    reveal_strlit("body");
    reveal_strlit("model");
    reveal_strlit("input");
    reveal_strlit("auth");
    reveal_strlit("erase");
    assert("identifier"@.len() == 10 && "initial_device_display_name"@.len() == 27);
    assert("msgtype"@.len() == 7 && "body"@.len() == 4);
    assert("type"@[0] == 't' && "user"@[0] == 'u' && "username"@[0] == 'u' && "auth"@[0] == 'a');
    assert("nonce"@[0] == 'n' && "admin"@[0] == 'a' && "mac"@[0] == 'm' && "password"@[0] == 'p');
    assert("model"@[0] == 'm' && "input"@[0] == 'i' && "erase"@[0] == 'e' && "identifier"@[0] == 'i');
}

proof fn lemma_identifies(localpart: Seq<char>)
    ensures
        identifies(Some(user_identifier(localpart)), localpart),
{
    lemma_names();
    reveal_with_fuel(field_of, 3);
    reveal_with_fuel(names_of, 3);
    assert(names_of(user_identifier(localpart)->Object_0) =~= seq!["type"@, "user"@]);
}

/// What the application service sends for a virtual user, with its own token: to
/// register it, its localpart; to log it in, who it is; to name it, the name; to make it
/// join, nothing but the address of the room; and to send, a plain text.
pub proof fn law_appservice_requests(
    a: AppService<Seq<char>>,
    localpart: Seq<char>,
    room_id: Seq<char>,
    text: Seq<char>,
    txn: Seq<char>,
)
    ensures
        ({
            let r = a.registration(localpart);
            &&& r.method == Method::Post && r.bearer == Some(a.as_token)
            &&& r.url == a.homeserver + "/_matrix/client/v3/register"@
            &&& carries(r, seq!["type"@, "username"@])
            &&& says(r, "type"@) == Some("m.login.application_service"@)
            &&& says(r, "username"@) == Some(localpart)
        }),
        ({
            let r = a.session(localpart);
            &&& r.method == Method::Post && r.bearer == Some(a.as_token)
            &&& r.url == a.homeserver + "/_matrix/client/v3/login"@
            &&& carries(r, seq!["type"@, "identifier"@])
            &&& says(r, "type"@) == Some("m.login.application_service"@)
            &&& identifies(field_of(carried(r), "identifier"@), localpart)
        }),
        ({
            let r = a.naming(localpart, text);
            let user = encoded(a.mxid(localpart));
            &&& r.method == Method::Put && r.bearer == Some(a.as_token)
            &&& r.url == a.homeserver + ("/_matrix/client/v3/profile/"@ + user
                + "/displayname?user_id="@ + user)
            &&& carries(r, seq!["displayname"@]) && says(r, "displayname"@) == Some(text)
        }),
        ({
            let r = a.joining(localpart, room_id);
            let user = encoded(a.mxid(localpart));
            &&& r.method == Method::Post && r.bearer == Some(a.as_token)
            &&& r.url == a.homeserver + ("/_matrix/client/v3/rooms/"@ + encoded(room_id)
                + "/join?user_id="@ + user)
            &&& carries(r, Seq::empty())
        }),
        ({
            let r = a.sending(localpart, room_id, text, txn);
            let user = encoded(a.mxid(localpart));
            &&& r.method == Method::Put && r.bearer == Some(a.as_token)
            &&& r.url == a.homeserver + ("/_matrix/client/v3/rooms/"@ + encoded(room_id)
                + "/send/m.room.message/"@ + encoded(txn) + "?user_id="@ + user)
            &&& carries(r, seq!["msgtype"@, "body"@])
            &&& says(r, "msgtype"@) == Some("m.text"@) && says(r, "body"@) == Some(text)
        }),
{
    lemma_names();
    lemma_identifies(localpart);
    reveal_with_fuel(field_of, 3);
    reveal_with_fuel(names_of, 3);
    assert(names_of(carried(a.registration(localpart))) =~= seq!["type"@, "username"@]);
    assert(names_of(carried(a.session(localpart))) =~= seq!["type"@, "identifier"@]);
    assert(names_of(carried(a.naming(localpart, text))) =~= seq!["displayname"@]);
    assert(names_of(carried(a.joining(localpart, room_id))) =~= Seq::empty());
    assert(names_of(carried(a.sending(localpart, room_id, text, txn))) =~= seq![
        "msgtype"@,
        "body"@,
    ]);
}

/// The full id of a virtual user has the localpart and the server in their places: the
/// localpart is read back from it, and the user of every hook counts as a virtual one.
pub proof fn law_user_ids(a: AppService<Seq<char>>, localpart: Seq<char>, name: Seq<char>, id: Seq<char>)
    ensures
        a.mxid(localpart).len() == localpart.len() + a.server_name.len() + 2,
        (":"@ + a.server_name).is_suffix_of(a.mxid(localpart)),
        !localpart.contains(':') ==> localpart_in(a.mxid(localpart)) == localpart,
        is_hook_user(a.mxid(localpart_of(name, id))),
{
    let m = a.mxid(localpart);
    reveal_strlit("@");
    reveal_strlit(":");
    reveal_strlit("hook_");
    assert((":"@ + a.server_name) =~= m.skip(m.len() - (1 + a.server_name.len())));
    if !localpart.contains(':') {
        lemma_localpart(a, localpart);
    }
    lemma_hook_user(a, localpart_of(name, id));
    crate::id::law_localpart_in_namespace(name, id);
    let l = localpart_of(name, id);
    assert("hook_"@ =~= l.subrange(0, 5));
}

proof fn lemma_localpart(a: AppService<Seq<char>>, localpart: Seq<char>)
    requires
        !localpart.contains(':'),
    ensures
        localpart_in(a.mxid(localpart)) == localpart,
{
    let m = a.mxid(localpart);
    reveal_strlit("@");
    reveal_strlit(":");
    let n = localpart.len() + 1;
    assert(m.skip(n as int).subrange(0, 1) =~= seq![':']);
    assert forall|k: int| 0 <= k < n implies !seq![':'].is_prefix_of(#[trigger] m.skip(k)) by {
        if seq![':'].is_prefix_of(m.skip(k)) {
            assert(seq![':'][0] == m.skip(k).subrange(0, 1)[0]);
            assert(m[k] == ':');
            if k > 0 {
                assert(localpart[k - 1] == ':');
            }
        }
    }
    lemma_find_is(m, seq![':'], n);
    assert(m.subrange(1, n as int) =~= localpart);
}

/// Whoever's localpart starts with `hook_` is a virtual user.
proof fn lemma_hook_user(a: AppService<Seq<char>>, localpart: Seq<char>)
    ensures
        localpart.len() >= 5 && localpart.subrange(0, 5) == "hook_"@ ==> is_hook_user(
            a.mxid(localpart),
        ),
{
    let m = a.mxid(localpart);
    reveal_strlit("@");
    reveal_strlit(":");
    reveal_strlit("hook_");
    if localpart.len() >= 5 && localpart.subrange(0, 5) == "hook_"@ {
        assert forall|i: int| 0 <= i < 5 implies #[trigger] localpart[i] == "hook_"@[i] by {
            assert(localpart[i] == localpart.subrange(0, 5)[i]);
        }
        let end = find(m, seq![':']);
        crate::text::lemma_find(m, seq![':']);
        let colon = (localpart.len() + 1) as nat;
        assert(m.subrange(colon as int, colon as int + 1) =~= seq![':']);
        crate::text::lemma_found(m, seq![':'], colon);
        let n = end->0 as int;
        assert(m[n] == ':') by {
            assert(seq![':'][0] == m.skip(n).subrange(0, 1)[0]);
        }
        assert(m[1] == 'h' && m[2] == 'o' && m[3] == 'o' && m[4] == 'k' && m[5] == '_' && m[0]
            == '@');
        assert(n >= 6);
        assert(localpart_in(m).subrange(0, 5) =~= "hook_"@);
    }
}

/// A registration counts as done if it succeeded or the user was there before, and in no
/// other case.
pub proof fn law_registered(code: u16, errcode: Option<Seq<char>>)
    ensures
        is_success(code) ==> is_registered(code, errcode),
        !is_success(code) ==> (is_registered(code, errcode) <==> errcode == Some(
            "M_USER_IN_USE"@,
        )),
{
}

/// What registers an account with the shared secret: first a plain request for a nonce,
/// then, to the same address, the nonce, the name, the password, whether it is an
/// administrator, and the code.
pub proof fn law_registration_requests(
    admin_hs: Seq<char>,
    nonce: Seq<char>,
    localpart: Seq<char>,
    password: Seq<char>,
    admin: bool,
    mac: Seq<char>,
)
    ensures
        ({
            let ask = nonce_request_of(admin_hs);
            let r = register_request_of(admin_hs, nonce, localpart, password, admin, mac);
            &&& ask.method == Method::Get && ask.bearer is None && ask.body is Empty
            &&& r.method == Method::Post && r.bearer is None
            &&& ask.url == r.url
            &&& r.url == trim_end(admin_hs, Class::Only('/')) + "/_synapse/admin/v1/register"@
            &&& carries(r, seq!["nonce"@, "username"@, "password"@, "admin"@, "mac"@])
            &&& says(r, "nonce"@) == Some(nonce) && says(r, "username"@) == Some(localpart)
            &&& says(r, "password"@) == Some(password) && says(r, "mac"@) == Some(mac)
            &&& field_of(carried(r), "admin"@) == Some(Json::<Seq<char>>::Bool(admin))
        }),
{
    let r = register_request_of(admin_hs, nonce, localpart, password, admin, mac);
    lemma_names();
    reveal_with_fuel(field_of, 6);
    reveal_with_fuel(names_of, 6);
    assert(names_of(carried(r)) =~= seq!["nonce"@, "username"@, "password"@, "admin"@, "mac"@]);
}

/// The code of a registration is that of the nonce, the name, the password and the role,
/// in this order, with a NUL character between each two; the role of an administrator is
/// `admin`, and any other has `not` before it. The code is made with the shared secret.
pub proof fn law_registration_code(
    secret: Seq<char>,
    nonce: Seq<char>,
    localpart: Seq<char>,
    password: Seq<char>,
    admin: bool,
)
    ensures
        ({
            let text = mac_text(nonce, localpart, password, admin);
            let a = nonce.len() as int;
            let b = a + 1 + localpart.len();
            let c = b + 1 + password.len();
            &&& text.len() > c && text[a] == '\0' && text[b] == '\0' && text[c] == '\0'
            &&& text.subrange(0, a) == nonce
            &&& text.subrange(a + 1, b) == localpart
            &&& text.subrange(b + 1, c) == password
            &&& text.skip(c + 1) == (if admin {
                "admin"@
            } else {
                "not"@ + "admin"@
            })
            &&& mac_of(secret, nonce, localpart, password, admin) == hex_of(
                hmac_sha1(encode_utf8(secret), encode_utf8(text)),
            )
        }),
{
    let text = mac_text(nonce, localpart, password, admin);
    let a = nonce.len() as int;
    let b = a + 1 + localpart.len();
    let c = b + 1 + password.len();
    reveal_strlit("\0");
    reveal_strlit("admin");
    reveal_strlit("not");
    reveal_strlit("notadmin");
    assert("notadmin"@ =~= "not"@ + "admin"@);
    assert(text.subrange(0, a) =~= nonce);
    assert(text.subrange(a + 1, b) =~= localpart);
    assert(text.subrange(b + 1, c) =~= password);
    assert(text.skip(c + 1) =~= role(admin));
}

/// The hexadecimal form of bytes has two digits for each, from which it is read back.
pub proof fn law_hexadecimal(bytes: Seq<u8>, i: int)
    requires
        0 <= i < bytes.len(),
    ensures
        hex_of(bytes).len() == 2 * bytes.len(),
        hex_value(hex_of(bytes)[2 * i]) * 16 + hex_value(hex_of(bytes)[2 * i + 1]) == bytes[i],
        !('A' <= hex_of(bytes)[2 * i] <= 'Z') && !('A' <= hex_of(bytes)[2 * i + 1] <= 'Z'),
{
    let b = bytes[i];
    assert((2 * i) / 2 == i && (2 * i) % 2 == 0 && (2 * i + 1) / 2 == i && (2 * i + 1) % 2 == 1);
    assert(hex_value(hex_lower(b / 16)) == b / 16);
    assert(hex_value(hex_lower(b % 16)) == b % 16);
}

/// What logs in with a password, and what deactivates an account: who it is, and the
/// password; a login also names the new device, and a deactivation goes with the token
/// and erases the account.
pub proof fn law_password_requests(
    homeserver: Seq<char>,
    localpart: Seq<char>,
    password: Seq<char>,
    device: Seq<char>,
    token: Seq<char>,
)
    ensures
        ({
            let r = login_request(homeserver, localpart, password, device);
            &&& r.method == Method::Post && r.bearer is None
            &&& r.url == trim_end(homeserver, Class::Only('/')) + "/_matrix/client/v3/login"@
            &&& carries(
                r,
                seq!["type"@, "identifier"@, "password"@, "initial_device_display_name"@],
            )
            &&& says(r, "type"@) == Some("m.login.password"@)
            &&& identifies(field_of(carried(r), "identifier"@), localpart)
            &&& says(r, "password"@) == Some(password)
            &&& says(r, "initial_device_display_name"@) == Some(device)
        }),
        ({
            let r = deactivate_request(homeserver, localpart, password, token);
            &&& r.method == Method::Post && r.bearer == Some(token)
            &&& r.url == trim_end(homeserver, Class::Only('/'))
                + "/_matrix/client/v3/account/deactivate"@
            &&& carries(r, seq!["auth"@, "erase"@])
            &&& field_of(carried(r), "erase"@) == Some(Json::<Seq<char>>::Bool(true))
            &&& field_of(carried(r), "auth"@) matches Some(Json::Object(auth)) && {
                &&& names_of(auth) == seq!["type"@, "identifier"@, "password"@]
                &&& field_of(auth, "type"@) == Some(Json::Text("m.login.password"@))
                &&& identifies(field_of(auth, "identifier"@), localpart)
                &&& field_of(auth, "password"@) == Some(Json::Text(password))
            }
        }),
{
    lemma_names();
    lemma_identifies(localpart);
    reveal_with_fuel(field_of, 5);
    reveal_with_fuel(names_of, 5);
    let r = login_request(homeserver, localpart, password, device);
    assert(names_of(carried(r)) =~= seq![
        "type"@,
        "identifier"@,
        "password"@,
        "initial_device_display_name"@,
    ]);
    let d = deactivate_request(homeserver, localpart, password, token);
    assert(names_of(carried(d)) =~= seq!["auth"@, "erase"@]);
    let auth = field_of(carried(d), "auth"@)->0->Object_0;
    assert(names_of(auth) =~= seq!["type"@, "identifier"@, "password"@]);
}

/// What asks for an embedding: the model, and the text as the only one of a list.
pub proof fn law_embed_request(ollama_url: Seq<char>, model: Seq<char>, text: Seq<char>)
    ensures
        ({
            let r = embed_request(ollama_url, model, text);
            &&& r.method == Method::Post && r.bearer is None
            &&& r.url == trim_end(ollama_url, Class::Only('/')) + "/api/embed"@
            &&& carries(r, seq!["model"@, "input"@])
            &&& says(r, "model"@) == Some(model)
            &&& field_of(carried(r), "input"@) matches Some(Json::List(Items::Item(first, rest)))
                && *first == Json::Text(text) && *rest is End
        }),
{
    lemma_names();
    reveal_with_fuel(field_of, 3);
    reveal_with_fuel(names_of, 3);
    let r = embed_request(ollama_url, model, text);
    assert(names_of(carried(r)) =~= seq!["model"@, "input"@]);
}

/// Whether these pieces are the wording of the report of a failed call.
pub open spec fn failure_wording(p: Seq<Seq<char>>) -> bool {
    forall|what: Seq<char>, status: Seq<char>, body: Seq<char>|
        #[trigger] failure_text(what, status, body) == filled(p, seq![what, status, body])
}

/// Whether these pieces are the wording of the settings that a login yields.
pub open spec fn env_wording(p: Seq<Seq<char>>) -> bool {
    forall|h: Seq<char>, u: Seq<char>, t: Seq<char>, d: Seq<char>|
        #[trigger] env_lines(h, u, t, d) == filled(p, seq![h, u, t, d])
}

/// The report of a failed call, and the settings that a login yields, have one wording
/// for all that they are made of.
pub proof fn law_reports_have_one_wording()
    ensures
        exists|p: Seq<Seq<char>>| #[trigger] failure_wording(p),
        exists|p: Seq<Seq<char>>| #[trigger] env_wording(p),
{
    let p = seq![Seq::empty(), " failed ("@, "): "@, Seq::empty()];
    assert forall|what: Seq<char>, status: Seq<char>, body: Seq<char>|
        #[trigger] failure_text(what, status, body) == filled(p, seq![what, status, body]) by {
        let g = seq![what, status, body];
        assert(g.drop_last() =~= seq![what, status]);
        assert(g.drop_last().drop_last() =~= seq![what]);
        assert(g.drop_last().drop_last().drop_last() =~= Seq::empty());
        reveal_with_fuel(filled, 4);
        assert(filled(p, g) =~= failure_text(what, status, body));
    }
    assert(failure_wording(p));
    let e = env_pieces();
    assert forall|h: Seq<char>, u: Seq<char>, t: Seq<char>, d: Seq<char>|
        #[trigger] env_lines(h, u, t, d) == filled(e, seq![h, u, t, d]) by {
        lemma_env_filled(h, u, t, d);
    }
    assert(env_wording(e));
}

spec fn env_pieces() -> Seq<Seq<char>> {
    seq![
        "MATRIX_HOMESERVER="@,
        "\nMATRIX_USER="@,
        "\nMATRIX_ACCESS_TOKEN="@,
        "\nMATRIX_DEVICE_ID="@,
        "\n"@,
    ]
}

proof fn lemma_env_filled(h: Seq<char>, u: Seq<char>, t: Seq<char>, d: Seq<char>)
    ensures
        env_lines(h, u, t, d) == filled(env_pieces(), seq![h, u, t, d]),
{
    let g = seq![h, u, t, d];
    assert(g.drop_last() =~= seq![h, u, t]);
    assert(g.drop_last().drop_last() =~= seq![h, u]);
    assert(g.drop_last().drop_last().drop_last() =~= seq![h]);
    assert(g.drop_last().drop_last().drop_last().drop_last() =~= Seq::empty());
    reveal_with_fuel(filled, 5);
}

/// The settings that a login yields hold the homeserver, the user, the token and the
/// device.
pub proof fn law_settings_are_complete(h: Seq<char>, u: Seq<char>, t: Seq<char>, d: Seq<char>)
    ensures
        find(env_lines(h, u, t, d), h) is Some,
        find(env_lines(h, u, t, d), u) is Some,
        find(env_lines(h, u, t, d), t) is Some,
        find(env_lines(h, u, t, d), d) is Some,
{
    lemma_env_filled(h, u, t, d);
    lemma_filled_holds(env_pieces(), seq![h, u, t, d], 0);
    lemma_filled_holds(env_pieces(), seq![h, u, t, d], 1);
    lemma_filled_holds(env_pieces(), seq![h, u, t, d], 2);
    lemma_filled_holds(env_pieces(), seq![h, u, t, d], 3);
}

/// The registration secret is what follows its key on the first line that has it,
/// indented or not, and in quotes or not: lines before that one make no difference, and
/// neither does what comes after.
pub proof fn law_secret_is_found(
    line: Seq<char>,
    indent: Seq<char>,
    gap: Seq<char>,
    quotes: Seq<char>,
    secret: Seq<char>,
    rest: Seq<char>,
)
    requires
        !line.contains('\n'),
    ensures
        !SECRET_KEY@.is_prefix_of(trim(line)) ==> secret_in(line + "\n"@ + rest) == secret_in(rest),
        !SECRET_KEY@.is_prefix_of(trim(line)) ==> secret_in(line) is None,
        ({
            let white = |s: Seq<char>| forall|i: int| 0 <= i < s.len() ==> is_white(#[trigger] s[i]);
            &&& line == indent + SECRET_KEY@ + gap + quotes + secret + quotes
            &&& white(indent) && white(gap)
            &&& quotes.len() <= 1 && (quotes.len() == 1 ==> quotes[0] == '"')
            &&& secret.len() > 0 && secret[0] != '"' && secret.last() != '"'
            &&& !is_white(secret[0]) && !is_white(secret.last())
        }) ==> secret_in(line + "\n"@ + rest) == Some(secret) && secret_in(line) == Some(secret),
{
    let k = Class::Except('\n');
    reveal_strlit("\n");
    let text = line + "\n"@ + rest;
    let n = line.len();
    assert forall|i: int| 0 <= i < n implies k.has(#[trigger] text[i]) by {
        assert(line.contains(line[i]));
    }
    assert forall|i: int| 0 <= i < n implies k.has(#[trigger] line[i]) by {
        assert(line.contains(line[i]));
    }
    assert(text[n as int] == '\n');
    lemma_span_is(text, k, n);
    lemma_span_is(line, k, n);
    assert(text.take(n as int) =~= line);
    assert(line.take(n as int) =~= line);
    assert(after(text, k) =~= rest);
    let white = |s: Seq<char>| forall|i: int| 0 <= i < s.len() ==> is_white(#[trigger] s[i]);
    if line == indent + SECRET_KEY@ + gap + quotes + secret + quotes && white(indent) && white(gap)
        && quotes.len() <= 1 && (quotes.len() == 1 ==> quotes[0] == '"') && secret.len() > 0
        && secret[0] != '"' && secret.last() != '"' && !is_white(secret[0]) && !is_white(
        secret.last(),
    ) {
        lemma_secret_line(line, indent, gap, quotes, secret);
    }
}

proof fn lemma_secret_line(
    line: Seq<char>,
    indent: Seq<char>,
    gap: Seq<char>,
    quotes: Seq<char>,
    secret: Seq<char>,
)
    requires
        line == indent + SECRET_KEY@ + gap + quotes + secret + quotes,
        forall|i: int| 0 <= i < indent.len() ==> is_white(#[trigger] indent[i]),
        forall|i: int| 0 <= i < gap.len() ==> is_white(#[trigger] gap[i]),
        quotes.len() <= 1 && (quotes.len() == 1 ==> quotes[0] == '"'),
        secret.len() > 0 && secret[0] != '"' && secret.last() != '"',
        !is_white(secret[0]) && !is_white(secret.last()),
    ensures
        SECRET_KEY@.is_prefix_of(trim(line)),
        trim_both(trim(trim(line).skip(SECRET_KEY@.len() as int)), Class::Only('"')) == secret,
{
    let key = SECRET_KEY@;
    let none = Seq::<char>::empty();
    let value = quotes + secret + quotes;
    let tail = gap + value;
    let body = key + tail;
    reveal_strlit("registration_shared_secret:");
    assert(key[0] == 'r');
    lemma_quotes(quotes, secret);
    // The indentation goes, and so does the gap.
    assert(body[0] == key[0]);
    assert(body.last() == value.last());
    law_trim_undoes_padding(indent, body, none);
    assert(indent + body + none =~= line);
    assert(key =~= body.subrange(0, key.len() as int));
    assert(body.skip(key.len() as int) =~= tail);
    law_trim_undoes_padding(gap, value, none);
    assert(gap + value + none =~= tail);
}

/// Quotes around a text go with a trimming for quotes, and are no white space.
proof fn lemma_quotes(quotes: Seq<char>, secret: Seq<char>)
    requires
        quotes.len() <= 1 && (quotes.len() == 1 ==> quotes[0] == '"'),
        secret.len() > 0 && secret[0] != '"' && secret.last() != '"',
        !is_white(secret[0]) && !is_white(secret.last()),
    ensures
        ({
            let value = quotes + secret + quotes;
            &&& value.len() > 0 && !is_white(value[0]) && !is_white(value.last())
            &&& trim_both(value, Class::Only('"')) == secret
        }),
{
    let q = Class::Only('"');
    let value = quotes + secret + quotes;
    let m = quotes.len();
    let open = secret + quotes;
    if m == 0 {
        assert(value =~= secret);
        assert(open =~= secret);
    } else {
        assert(value[0] == quotes[0]);
        assert(value.last() == quotes[0]);
    }
    assert(value[m as int] == secret[0]);
    lemma_span_is(value, q, m);
    assert(trim_start(value, q) =~= open);
    assert(open[open.len() - m - 1] == secret.last());
    lemma_tail_span_is(open, q, m);
    assert(trim_both(value, q) =~= secret);
}

} // verus!
