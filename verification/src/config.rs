//! Configuration from the process environment.

use vstd::prelude::*;
use crate::text::same;

verus! {

/// The variables of an environment. Where a name occurs more than once, its first
/// value counts.
#[derive(Debug)]
pub struct Env {
    pub entries: Vec<(String, String)>,
}

/// The value of `key` in an environment, if it has a value that is not empty.
pub open spec fn value_in(entries: Seq<(Seq<char>, Seq<char>)>, key: Seq<char>) -> Option<Seq<char>>
    decreases entries.len(),
{
    if entries.len() == 0 {
        None
    } else if entries[0].0 == key {
        if entries[0].1.len() == 0 {
            None
        } else {
            Some(entries[0].1)
        }
    } else {
        value_in(entries.drop_first(), key)
    }
}

impl View for Env {
    type V = Seq<(Seq<char>, Seq<char>)>;

    open spec fn view(&self) -> Seq<(Seq<char>, Seq<char>)> {
        self.entries@.map_values(|e: (String, String)| (e.0@, e.1@))
    }
}

/// A required variable that is absent or empty.
#[derive(Debug, PartialEq, Eq)]
pub struct MissingVar {
    pub key: &'static str,
}

impl MissingVar {
    /// The error as a text.
    pub fn message(&self) -> (r: String)
        ensures
            r@ == "required environment variable "@ + self.key@ + " is not set"@,
    {
        "required environment variable ".to_owned().concat(self.key).concat(" is not set")
    }
}

/// Reads an optional variable, treating an empty one as absent.
pub fn opt(env: &Env, key: &str) -> (r: Option<String>)
    ensures
        match r {
            Some(v) => value_in(env@, key@) == Some(v@),
            None => value_in(env@, key@) is None,
        },
{
    let mut i: usize = 0;
    assert(env@.skip(0) =~= env@);
    while i < env.entries.len()
        invariant
            i <= env.entries@.len(),
            value_in(env@.skip(i as int), key@) == value_in(env@, key@),
        decreases env.entries@.len() - i,
    {
        let ghost rest = env@.skip(i as int);
        assert(rest[0] == (env.entries@[i as int].0@, env.entries@[i as int].1@));
        if same(env.entries[i].0.as_str(), key) {
            if env.entries[i].1.as_str().is_empty() {
                return None;
            }
            return Some(env.entries[i].1.clone());
        }
        assert(rest.drop_first() =~= env@.skip(i + 1));
        i += 1;
    }
    assert(env@.skip(i as int) =~= Seq::empty());
    None
}

/// Reads a required variable; absent or empty is an error that names it.
pub fn req(env: &Env, key: &'static str) -> (r: Result<String, MissingVar>)
    ensures
        match r {
            Ok(v) => value_in(env@, key@) == Some(v@),
            Err(e) => value_in(env@, key@) is None && e.key@ == key@,
        },
{
    match opt(env, key) {
        Some(v) => Ok(v),
        None => Err(MissingVar { key }),
    }
}

/// The value of `key`, or `default` if it is absent or empty.
pub open spec fn value_or(
    entries: Seq<(Seq<char>, Seq<char>)>,
    key: Seq<char>,
    default: Seq<char>,
) -> Seq<char> {
    match value_in(entries, key) {
        Some(v) => v,
        None => default,
    }
}

/// Reads a variable, falling back to `default`.
pub fn env_or(env: &Env, key: &str, default: &str) -> (r: String)
    ensures
        r@ == value_or(env@, key@, default@),
{
    match opt(env, key) {
        Some(v) => v,
        None => default.to_owned(),
    }
}

/// Everything the service needs to run. `S` is `String` in running code and
/// `Seq<char>` in its model.
#[derive(Debug, PartialEq, Eq)]
pub struct Config<S = String> {
    /// The homeserver's base URL.
    pub homeserver: S,
    /// The bot's full user id.
    pub user_id: S,
    /// The access token bound to the device.
    pub access_token: S,
    /// The device that the token belongs to.
    pub device_id: S,
    /// The directory of the persistent crypto and state store.
    pub store_path: S,
    /// The address of the SurrealDB server.
    pub surreal_url: S,
    pub surreal_user: S,
    pub surreal_pass: S,
    pub db_namespace: S,
    pub db_name: S,
    /// The address that the webhost binds to.
    pub bind_addr: S,
    /// The base URL at which the webhost is reached.
    pub public_base_url: S,
    /// The token that authorizes posting as the virtual users.
    pub as_token: S,
    /// The domain part of user ids.
    pub server_name: S,
}

impl View for Config {
    type V = Config<Seq<char>>;

    open spec fn view(&self) -> Config<Seq<char>> {
        Config {
            homeserver: self.homeserver@,
            user_id: self.user_id@,
            access_token: self.access_token@,
            device_id: self.device_id@,
            store_path: self.store_path@,
            surreal_url: self.surreal_url@,
            surreal_user: self.surreal_user@,
            surreal_pass: self.surreal_pass@,
            db_namespace: self.db_namespace@,
            db_name: self.db_name@,
            bind_addr: self.bind_addr@,
            public_base_url: self.public_base_url@,
            as_token: self.as_token@,
            server_name: self.server_name@,
        }
    }
}

/// The required variables, in the order in which they are read.
pub open spec fn required() -> Seq<Seq<char>> {
    seq![
        "MATRIX_HOMESERVER"@,
        "MATRIX_USER"@,
        "MATRIX_ACCESS_TOKEN"@,
        "MATRIX_DEVICE_ID"@,
        "SURREAL_USER"@,
        "SURREAL_PASS"@,
        "AS_TOKEN"@,
    ]
}

/// Whether `key` is the first of the required variables that is absent or empty.
pub open spec fn first_missing(entries: Seq<(Seq<char>, Seq<char>)>, key: Seq<char>) -> bool {
    exists|n: int|
        0 <= n < required().len() && #[trigger] required()[n] == key && value_in(entries, key) is None
            && forall|m: int|
            0 <= m < n ==> value_in(entries, #[trigger] required()[m]) is Some
}

/// The configuration that an environment with all required variables holds.
pub open spec fn config_of(e: Seq<(Seq<char>, Seq<char>)>) -> Config<Seq<char>> {
    Config {
        homeserver: value_or(e, "MATRIX_HOMESERVER"@, Seq::empty()),
        user_id: value_or(e, "MATRIX_USER"@, Seq::empty()),
        access_token: value_or(e, "MATRIX_ACCESS_TOKEN"@, Seq::empty()),
        device_id: value_or(e, "MATRIX_DEVICE_ID"@, Seq::empty()),
        store_path: value_or(e, "MATRIX_STORE_PATH"@, "./store"@),
        surreal_url: value_or(e, "SURREAL_URL"@, "wss://surrealdb.damastacoda.dev"@),
        surreal_user: value_or(e, "SURREAL_USER"@, Seq::empty()),
        surreal_pass: value_or(e, "SURREAL_PASS"@, Seq::empty()),
        db_namespace: value_or(e, "SURREAL_NS"@, "matrixHook"@),
        db_name: value_or(e, "SURREAL_DB"@, "hooks"@),
        bind_addr: value_or(e, "HOOK_BIND_ADDR"@, "127.0.0.1:8480"@),
        public_base_url: value_or(
            e,
            "HOOK_PUBLIC_BASE_URL"@,
            "https://matrixHook.damastacoda.dev"@,
        ),
        as_token: value_or(e, "AS_TOKEN"@, Seq::empty()),
        server_name: value_or(e, "SERVER_NAME"@, "damastacoda.dev"@),
    }
}

impl Config {
    /// Reads the configuration from an environment: the first required variable
    /// that is missing is an error; the others have defaults.
    pub fn from_env(env: &Env) -> (r: Result<Config, MissingVar>)
        ensures
            match r {
                Ok(c) => c@ == config_of(env@) && forall|n: int|
                    0 <= n < required().len() ==> value_in(env@, #[trigger] required()[n]) is Some,
                Err(e) => first_missing(env@, e.key@),
            },
    {
        assert(required()[0] == "MATRIX_HOMESERVER"@ && required()[1] == "MATRIX_USER"@);
        assert(required()[2] == "MATRIX_ACCESS_TOKEN"@ && required()[3] == "MATRIX_DEVICE_ID"@);
        assert(required()[4] == "SURREAL_USER"@ && required()[5] == "SURREAL_PASS"@);
        assert(required()[6] == "AS_TOKEN"@);
        let homeserver = match req(env, "MATRIX_HOMESERVER") {
            Ok(v) => v,
            Err(e) => return Err(e),
        };
        let user_id = match req(env, "MATRIX_USER") {
            Ok(v) => v,
            Err(e) => return Err(e),
        };
        let access_token = match req(env, "MATRIX_ACCESS_TOKEN") {
            Ok(v) => v,
            Err(e) => return Err(e),
        };
        let device_id = match req(env, "MATRIX_DEVICE_ID") {
            Ok(v) => v,
            Err(e) => return Err(e),
        };
        let surreal_user = match req(env, "SURREAL_USER") {
            Ok(v) => v,
            Err(e) => return Err(e),
        };
        let surreal_pass = match req(env, "SURREAL_PASS") {
            Ok(v) => v,
            Err(e) => return Err(e),
        };
        let as_token = match req(env, "AS_TOKEN") {
            Ok(v) => v,
            Err(e) => return Err(e),
        };
        Ok(
            Config {
                homeserver,
                user_id,
                access_token,
                device_id,
                store_path: env_or(env, "MATRIX_STORE_PATH", "./store"),
                surreal_url: env_or(env, "SURREAL_URL", "wss://surrealdb.damastacoda.dev"),
                surreal_user,
                surreal_pass,
                db_namespace: env_or(env, "SURREAL_NS", "matrixHook"),
                db_name: env_or(env, "SURREAL_DB", "hooks"),
                bind_addr: env_or(env, "HOOK_BIND_ADDR", "127.0.0.1:8480"),
                public_base_url: env_or(
                    env,
                    "HOOK_PUBLIC_BASE_URL",
                    "https://matrixHook.damastacoda.dev",
                ),
                as_token,
                server_name: env_or(env, "SERVER_NAME", "damastacoda.dev"),
            },
        )
    }
}

/// Whether every setting holds something.
pub open spec fn complete(c: Config<Seq<char>>) -> bool {
    &&& c.homeserver.len() > 0 && c.user_id.len() > 0 && c.access_token.len() > 0
    &&& c.device_id.len() > 0 && c.store_path.len() > 0 && c.surreal_url.len() > 0
    &&& c.surreal_user.len() > 0 && c.surreal_pass.len() > 0 && c.db_namespace.len() > 0
    &&& c.db_name.len() > 0 && c.bind_addr.len() > 0 && c.public_base_url.len() > 0
    &&& c.as_token.len() > 0 && c.server_name.len() > 0
}

/// A configuration that was read has no empty setting.
pub proof fn law_config_is_complete(e: Seq<(Seq<char>, Seq<char>)>)
    requires
        forall|n: int| 0 <= n < required().len() ==> value_in(e, #[trigger] required()[n]) is Some,
    ensures
        complete(config_of(e)),
{
    assert(required()[0] == "MATRIX_HOMESERVER"@ && required()[1] == "MATRIX_USER"@);
    assert(required()[2] == "MATRIX_ACCESS_TOKEN"@ && required()[3] == "MATRIX_DEVICE_ID"@);
    assert(required()[4] == "SURREAL_USER"@ && required()[5] == "SURREAL_PASS"@);
    assert(required()[6] == "AS_TOKEN"@);
    assert forall|key: Seq<char>| (#[trigger] value_in(e, key)) is Some implies value_in(
        e,
        key,
    )->0.len() > 0 by {
        lemma_values_not_empty(e, key);
    }
    reveal_strlit("./store");
    reveal_strlit("wss://surrealdb.damastacoda.dev");
    reveal_strlit("matrixHook");
    reveal_strlit("hooks");
    reveal_strlit("127.0.0.1:8480");
    reveal_strlit("https://matrixHook.damastacoda.dev");
    reveal_strlit("damastacoda.dev");
}

/// An empty value never counts.
proof fn lemma_values_not_empty(e: Seq<(Seq<char>, Seq<char>)>, key: Seq<char>)
    ensures
        value_in(e, key) matches Some(v) ==> v.len() > 0,
    decreases e.len(),
{
    if e.len() > 0 {
        lemma_values_not_empty(e.drop_first(), key);
    }
}

/// Whether a variable is set: it occurs, and its first value is not empty.
pub open spec fn is_set(e: Seq<(Seq<char>, Seq<char>)>, key: Seq<char>, value: Seq<char>) -> bool {
    value.len() > 0 && exists|i: int|
        0 <= i < e.len() && #[trigger] e[i] == (key, value) && forall|j: int|
            0 <= j < i ==> (#[trigger] e[j]).0 != key
}

/// A variable has a value if and only if it is set, and then that is its value.
pub proof fn law_variables(e: Seq<(Seq<char>, Seq<char>)>, key: Seq<char>, value: Seq<char>)
    ensures
        value_in(e, key) == Some(value) <==> is_set(e, key, value),
        value_in(e, key) is None <==> forall|v: Seq<char>| !#[trigger] is_set(e, key, v),
    decreases e.len(),
{
    lemma_variable(e, key);
    if is_set(e, key, value) {
        lemma_set_once(e, key, value);
    }
    if let Some(v) = value_in(e, key) {
        assert(is_set(e, key, v));
    } else {
        assert forall|v: Seq<char>| !#[trigger] is_set(e, key, v) by {
            if is_set(e, key, v) {
                lemma_set_once(e, key, v);
            }
        }
    }
}

proof fn lemma_variable(e: Seq<(Seq<char>, Seq<char>)>, key: Seq<char>)
    ensures
        value_in(e, key) matches Some(v) ==> is_set(e, key, v),
    decreases e.len(),
{
    if e.len() > 0 {
        let rest = e.drop_first();
        lemma_variable(rest, key);
        if let Some(v) = value_in(e, key) {
            if e[0].0 == key {
                assert(e[0] == (key, v));
            } else {
                let i = choose|i: int|
                    0 <= i < rest.len() && #[trigger] rest[i] == (key, v) && forall|j: int|
                        0 <= j < i ==> (#[trigger] rest[j]).0 != key;
                assert(e[i + 1] == (key, v));
                assert forall|j: int| 0 <= j < i + 1 implies (#[trigger] e[j]).0 != key by {
                    if j > 0 {
                        assert(rest[j - 1].0 != key);
                    }
                }
            }
        }
    }
}

proof fn lemma_set_once(e: Seq<(Seq<char>, Seq<char>)>, key: Seq<char>, value: Seq<char>)
    requires
        is_set(e, key, value),
    ensures
        value_in(e, key) == Some(value),
    decreases e.len(),
{
    let i = choose|i: int|
        0 <= i < e.len() && #[trigger] e[i] == (key, value) && forall|j: int|
            0 <= j < i ==> (#[trigger] e[j]).0 != key;
    if i > 0 {
        let rest = e.drop_first();
        assert(e[0].0 != key);
        assert(rest[i - 1] == (key, value));
        assert forall|j: int| 0 <= j < i - 1 implies (#[trigger] rest[j]).0 != key by {
            assert(e[j + 1].0 != key);
        }
        assert(is_set(rest, key, value));
        lemma_set_once(rest, key, value);
    }
}

/// The settings with the names of their variables.
pub open spec fn settings(c: Config<Seq<char>>) -> Seq<(Seq<char>, Seq<char>)> {
    seq![
        ("MATRIX_HOMESERVER"@, c.homeserver),
        ("MATRIX_USER"@, c.user_id),
        ("MATRIX_ACCESS_TOKEN"@, c.access_token),
        ("MATRIX_DEVICE_ID"@, c.device_id),
        ("MATRIX_STORE_PATH"@, c.store_path),
        ("SURREAL_URL"@, c.surreal_url),
        ("SURREAL_USER"@, c.surreal_user),
        ("SURREAL_PASS"@, c.surreal_pass),
        ("SURREAL_NS"@, c.db_namespace),
        ("SURREAL_DB"@, c.db_name),
        ("HOOK_BIND_ADDR"@, c.bind_addr),
        ("HOOK_PUBLIC_BASE_URL"@, c.public_base_url),
        ("AS_TOKEN"@, c.as_token),
        ("SERVER_NAME"@, c.server_name),
    ]
}

/// Every setting is the value of its own variable where that is set; where it is not,
/// the setting is the same whatever else is in the environment.
pub proof fn law_settings_come_from_their_variables(
    e: Seq<(Seq<char>, Seq<char>)>,
    f: Seq<(Seq<char>, Seq<char>)>,
    i: int,
)
    requires
        0 <= i < 14,
    ensures
        ({
            let s = settings(config_of(e))[i];
            let t = settings(config_of(f))[i];
            &&& s.0 == t.0
            &&& value_in(e, s.0) matches Some(v) ==> s.1 == v
            &&& value_in(e, s.0) is None && value_in(f, s.0) is None ==> s.1 == t.1
        }),
{
}

/// What is required is what has no default: an environment that has all the required
/// variables is enough for a configuration without an empty setting, and no other is.
pub proof fn law_required_variables(e: Seq<(Seq<char>, Seq<char>)>)
    ensures
        (forall|n: int| 0 <= n < required().len() ==> value_in(e, #[trigger] required()[n]) is Some)
            <==> complete(config_of(e)),
        required().len() == 7,
{
    if complete(config_of(e)) {
        assert forall|n: int| 0 <= n < required().len() implies value_in(e, #[trigger] required()[n])
            is Some by {
            assert(required()[0] == "MATRIX_HOMESERVER"@ && required()[1] == "MATRIX_USER"@);
            assert(required()[2] == "MATRIX_ACCESS_TOKEN"@ && required()[3] == "MATRIX_DEVICE_ID"@);
            assert(required()[4] == "SURREAL_USER"@ && required()[5] == "SURREAL_PASS"@);
            assert(required()[6] == "AS_TOKEN"@);
        }
    } else if forall|n: int|
        0 <= n < required().len() ==> value_in(e, #[trigger] required()[n]) is Some {
        law_config_is_complete(e);
    }
}

/// Where the settings are not complete, there is a variable to report as missing.
pub proof fn law_some_variable_is_missing(e: Seq<(Seq<char>, Seq<char>)>)
    requires
        !complete(config_of(e)),
    ensures
        exists|key: Seq<char>| #[trigger] first_missing(e, key),
{
    law_required_variables(e);
    lemma_first_missing(e, 0);
}

proof fn lemma_first_missing(e: Seq<(Seq<char>, Seq<char>)>, n: int)
    requires
        0 <= n <= required().len(),
        forall|m: int| 0 <= m < n ==> value_in(e, #[trigger] required()[m]) is Some,
        !(forall|m: int| 0 <= m < required().len() ==> value_in(e, #[trigger] required()[m]) is Some),
    ensures
        exists|key: Seq<char>| #[trigger] first_missing(e, key),
    decreases required().len() - n,
{
    if n < required().len() {
        if value_in(e, required()[n]) is None {
            assert(first_missing(e, required()[n]));
        } else {
            lemma_first_missing(e, n + 1);
        }
    }
}

/// The variable that is reported as missing is required, not set, and the only one that
/// is reported; the settings are then not complete.
pub proof fn law_missing_variable(e: Seq<(Seq<char>, Seq<char>)>, key: Seq<char>, other: Seq<char>)
    requires
        first_missing(e, key),
    ensures
        value_in(e, key) is None && required().contains(key),
        !complete(config_of(e)),
        first_missing(e, other) ==> other == key,
{
    let n = choose|n: int|
        0 <= n < required().len() && #[trigger] required()[n] == key && value_in(e, key) is None
            && forall|m: int| 0 <= m < n ==> value_in(e, #[trigger] required()[m]) is Some;
    law_required_variables(e);
    if first_missing(e, other) {
        let m = choose|n: int|
            0 <= n < required().len() && #[trigger] required()[n] == other && value_in(e, other) is None
                && forall|m: int| 0 <= m < n ==> value_in(e, #[trigger] required()[m]) is Some;
        if m < n {
            assert(value_in(e, required()[m]) is Some);
        } else if n < m {
            assert(value_in(e, required()[n]) is Some);
        }
    }
}

} // verus!
