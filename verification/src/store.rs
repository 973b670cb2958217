//! The hook and note store, as the queries put to SurrealDB and the reading of
//! its rows.
//!
//! Every hook has two ids: the private id, which is the secret in its URL, and a
//! public id, which can be shared to let someone search the hook's notes. Notes
//! are readable by their id alone; a search covers every note, or the notes of
//! one hook where a scope is given. A temporary note has an expiry, past which no
//! read returns it and a sweep deletes it.
//!
//! A query is a fixed text with bound parameters. Only the namespace, the
//! database and numbers are written into a text, since `DEFINE` cannot bind
//! them; the two names are checked to be plain identifiers first.

use vstd::prelude::*;
use vstd::std_specs::convert::FromSpecImpl;
use crate::http::text_option;
use crate::id::{gen, spelled_in, ALPHABET};
use crate::query::{bare, Bind, Query, QueryModel, Value};
use crate::text::{
    ascii_letter, chars_of, decimal, decimal_text, digit, is_ascii_letter, is_digit, same,
};

verus! {

/// The namespace on the shared server.
pub const NAMESPACE: &'static str = "matrixHook";

/// The database of an in-memory store.
pub const MEMORY_DATABASE: &'static str = "hooks";

/// The vector dimension of an in-memory store.
pub const MEMORY_VECTOR_DIM: usize = 8;

/// The length of a public id.
pub const PUBLIC_ID_LEN: usize = 16;

/// Defines a namespace, whose name follows.
pub const DEFINE_NAMESPACE: &'static str = "DEFINE NAMESPACE IF NOT EXISTS ";

/// Defines a database, whose name follows.
pub const DEFINE_DATABASE: &'static str = "DEFINE DATABASE IF NOT EXISTS ";

/// The schema up to the dimension of the vector index.
pub const SCHEMA_HEAD: &'static str = "DEFINE TABLE IF NOT EXISTS hook SCHEMAFULL;
DEFINE FIELD IF NOT EXISTS hid ON hook TYPE string;
DEFINE FIELD IF NOT EXISTS public_id ON hook TYPE option<string>;
DEFINE FIELD IF NOT EXISTS name ON hook TYPE string;
DEFINE FIELD IF NOT EXISTS owner ON hook TYPE string;
DEFINE FIELD IF NOT EXISTS room_id ON hook TYPE string;
DEFINE FIELD IF NOT EXISTS sender ON hook TYPE string;
DEFINE FIELD IF NOT EXISTS device_id ON hook TYPE string;
DEFINE FIELD IF NOT EXISTS access_token ON hook TYPE string;
DEFINE FIELD IF NOT EXISTS created_at ON hook TYPE datetime;
DEFINE INDEX IF NOT EXISTS hook_hid ON hook COLUMNS hid UNIQUE;
DEFINE INDEX IF NOT EXISTS hook_public_id ON hook COLUMNS public_id UNIQUE;
DEFINE INDEX IF NOT EXISTS hook_owner ON hook COLUMNS owner;
DEFINE TABLE IF NOT EXISTS note SCHEMAFULL;
DEFINE FIELD IF NOT EXISTS nid ON note TYPE string;
DEFINE FIELD IF NOT EXISTS hook_id ON note TYPE string;
DEFINE FIELD IF NOT EXISTS content ON note TYPE string;
DEFINE FIELD IF NOT EXISTS embedding ON note TYPE option<array<float>>;
DEFINE FIELD IF NOT EXISTS expires_at ON note TYPE option<datetime>;
DEFINE FIELD IF NOT EXISTS created_at ON note TYPE datetime;
DEFINE INDEX IF NOT EXISTS note_nid ON note COLUMNS nid UNIQUE;
DEFINE INDEX IF NOT EXISTS note_hook ON note COLUMNS hook_id;
DEFINE INDEX IF NOT EXISTS note_vec ON note FIELDS embedding
    HNSW DIMENSION ";

/// The schema after the dimension of the vector index.
pub const SCHEMA_TAIL: &'static str = " DIST COSINE;";

/// Stores a hook.
pub const CREATE_HOOK: &'static str =
    "CREATE hook SET hid = $hid, public_id = $public_id, name = $name,
    owner = $owner, room_id = $room_id, sender = $sender,
    device_id = $device_id, access_token = $access_token,
    created_at = time::now()";

/// Replaces a hook's session.
pub const SET_SESSION: &'static str =
    "UPDATE hook SET device_id = $device_id, access_token = $access_token WHERE hid = $hid";

/// Lists all hooks, oldest first.
pub const ALL_HOOKS: &'static str =
    "SELECT hid, public_id, name, owner, room_id, sender, device_id, access_token, created_at
    FROM hook ORDER BY created_at";

/// Looks a hook up by its private id.
pub const GET_HOOK: &'static str =
    "SELECT hid, public_id, name, owner, room_id, sender, device_id, access_token
    FROM hook WHERE hid = $hid LIMIT 1";

/// Looks a hook up by its public id.
pub const GET_HOOK_BY_PUBLIC_ID: &'static str =
    "SELECT hid, public_id, name, owner, room_id, sender, device_id, access_token
    FROM hook WHERE public_id = $public_id LIMIT 1";

/// Lists the hooks of an owner, oldest first.
pub const LIST_BY_OWNER: &'static str =
    "SELECT hid, public_id, name, owner, room_id, sender, device_id, access_token, created_at
    FROM hook WHERE owner = $owner ORDER BY created_at";

/// Deletes a hook of an owner.
pub const DELETE_HOOK: &'static str = "DELETE hook WHERE hid = $hid AND owner = $owner";

/// Finds the hooks without a public id.
pub const HOOKS_WITHOUT_PUBLIC_ID: &'static str = "SELECT hid FROM hook WHERE public_id = NONE";

/// Gives a hook its public id.
pub const SET_PUBLIC_ID: &'static str = "UPDATE hook SET public_id = $public_id WHERE hid = $hid";

/// Stores a note that expires.
pub const CREATE_TEMPORARY_NOTE: &'static str =
    "CREATE note SET nid = $nid, hook_id = $hook_id, content = $content,
    embedding = $embedding, expires_at = time::now() + duration::from_secs($ttl_secs),
    created_at = time::now()";

/// Stores a note that does not expire.
pub const CREATE_PERSISTENT_NOTE: &'static str =
    "CREATE note SET nid = $nid, hook_id = $hook_id, content = $content,
    embedding = $embedding, expires_at = NONE, created_at = time::now()";

/// Looks a live note up.
pub const GET_NOTE: &'static str = "SELECT nid, hook_id, content, embedding FROM note
    WHERE nid = $nid AND (expires_at IS NONE OR expires_at > time::now())
    LIMIT 1";

/// Searches the live notes with an embedding; a scope may follow, and the nearest
/// neighbours do.
pub const SEARCH_NOTES: &'static str = "SELECT nid, hook_id, content, embedding,
    vector::similarity::cosine(embedding, $q) AS score
    FROM note
    WHERE (expires_at IS NONE OR expires_at > time::now())
    AND embedding IS NOT NONE";

/// Restricts a search to the notes of one hook.
pub const SEARCH_SCOPE: &'static str = " AND hook_id = $scope";

/// Deletes the expired notes, and returns them.
pub const SWEEP_NOTES: &'static str =
    "DELETE note WHERE expires_at IS NOT NONE AND expires_at < time::now() RETURN BEFORE";

/// Counts the live notes of a hook.
pub const COUNT_LIVE_NOTES: &'static str = "SELECT count() FROM note
    WHERE hook_id = $hook_id AND (expires_at IS NONE OR expires_at > time::now())
    GROUP ALL";

/// A webhook: an id that delivers posted messages into `room_id`, authored by the
/// per-hook virtual user `sender`. `S` is `String` in running code and
/// `Seq<char>` in its model.
#[derive(Debug, PartialEq, Eq)]
pub struct Hook<S = String> {
    /// The private id: the secret in the hook's URL.
    pub id: S,
    /// The public id: safe to share for searching the hook's notes.
    pub public_id: S,
    /// The name chosen by the creator.
    pub name: S,
    /// The user who created the hook.
    pub owner: S,
    /// The room the hook posts into.
    pub room_id: S,
    /// The localpart of the user that authors deliveries.
    pub sender: S,
    /// The device of that user's session (empty until provisioned).
    pub device_id: S,
    /// The access token of that user's session (empty until provisioned).
    pub access_token: S,
}

impl View for Hook {
    type V = Hook<Seq<char>>;

    open spec fn view(&self) -> Hook<Seq<char>> {
        Hook {
            id: self.id@,
            public_id: self.public_id@,
            name: self.name@,
            owner: self.owner@,
            room_id: self.room_id@,
            sender: self.sender@,
            device_id: self.device_id@,
            access_token: self.access_token@,
        }
    }
}

impl Clone for Hook {
    fn clone(&self) -> (r: Hook)
        ensures
            r == *self,
    {
        Hook {
            id: self.id.clone(),
            public_id: self.public_id.clone(),
            name: self.name.clone(),
            owner: self.owner.clone(),
            room_id: self.room_id.clone(),
            sender: self.sender.clone(),
            device_id: self.device_id.clone(),
            access_token: self.access_token.clone(),
        }
    }
}

/// The models of a list of hooks.
pub open spec fn hook_models(hooks: Seq<Hook>) -> Seq<Hook<Seq<char>>> {
    hooks.map_values(|h: Hook| h@)
}

/// A stored `hook` row. `public_id` is absent on rows older than that field.
#[derive(Debug, PartialEq, Eq)]
pub struct HookRow<S = String> {
    pub hid: S,
    pub public_id: Option<S>,
    pub name: S,
    pub owner: S,
    pub room_id: S,
    pub sender: S,
    pub device_id: S,
    pub access_token: S,
}

impl View for HookRow {
    type V = HookRow<Seq<char>>;

    open spec fn view(&self) -> HookRow<Seq<char>> {
        HookRow {
            hid: self.hid@,
            public_id: text_option(self.public_id),
            name: self.name@,
            owner: self.owner@,
            room_id: self.room_id@,
            sender: self.sender@,
            device_id: self.device_id@,
            access_token: self.access_token@,
        }
    }
}

/// The hook that a row holds; a missing public id reads as the empty text.
pub open spec fn hook_of_row(row: HookRow<Seq<char>>) -> Hook<Seq<char>> {
    Hook {
        id: row.hid,
        public_id: match row.public_id {
            Some(p) => p,
            None => Seq::empty(),
        },
        name: row.name,
        owner: row.owner,
        room_id: row.room_id,
        sender: row.sender,
        device_id: row.device_id,
        access_token: row.access_token,
    }
}

impl From<HookRow> for Hook {
    fn from(row: HookRow) -> (r: Hook)
        ensures
            r@ == hook_of_row(row@),
    {
        Hook {
            id: row.hid,
            public_id: match row.public_id {
                Some(p) => p,
                None => String::new(),
            },
            name: row.name,
            owner: row.owner,
            room_id: row.room_id,
            sender: row.sender,
            device_id: row.device_id,
            access_token: row.access_token,
        }
    }
}

impl FromSpecImpl<HookRow> for Hook {
    open spec fn obeys_from_spec() -> bool {
        false
    }

    open spec fn from_spec(row: HookRow) -> Hook {
        arbitrary()
    }
}

/// A note: a small text created under some hook. `E` is what an embedding is.
#[derive(Clone, Debug, PartialEq)]
pub struct Note<E, S = String> {
    /// The id, prefixed `t_` or `p_` for temporary or persistent.
    pub id: S,
    /// The hook the note was created under.
    pub hook_id: S,
    pub content: S,
    /// Absent while the note is not searchable.
    pub embedding: Option<E>,
}

impl<E> View for Note<E> {
    type V = Note<E, Seq<char>>;

    open spec fn view(&self) -> Note<E, Seq<char>> {
        Note {
            id: self.id@,
            hook_id: self.hook_id@,
            content: self.content@,
            embedding: self.embedding,
        }
    }
}

/// A search hit: a note and its similarity score, of type `R`.
#[derive(Clone, Debug, PartialEq)]
pub struct NoteHit<E, R, S = String> {
    pub note: Note<E, S>,
    pub score: R,
}

impl<E, R> View for NoteHit<E, R> {
    type V = NoteHit<E, R, Seq<char>>;

    open spec fn view(&self) -> NoteHit<E, R, Seq<char>> {
        NoteHit { note: self.note@, score: self.score }
    }
}

/// A stored `note` row.
#[derive(Debug, PartialEq)]
pub struct NoteRow<E, S = String> {
    pub nid: S,
    pub hook_id: S,
    pub content: S,
    pub embedding: Option<E>,
}

/// A `note` row found by a search.
#[derive(Debug, PartialEq)]
pub struct NoteHitRow<E, R, S = String> {
    pub nid: S,
    pub hook_id: S,
    pub content: S,
    pub embedding: Option<E>,
    pub score: R,
}

/// The note that a row holds.
pub open spec fn note_of_row<E, S>(row: NoteRow<E, S>) -> Note<E, S> {
    Note { id: row.nid, hook_id: row.hook_id, content: row.content, embedding: row.embedding }
}

impl<E> From<NoteRow<E>> for Note<E> {
    fn from(row: NoteRow<E>) -> (r: Note<E>) {
        Note {
            id: row.nid,
            hook_id: row.hook_id,
            content: row.content,
            embedding: row.embedding,
        }
    }
}

impl<E> FromSpecImpl<NoteRow<E>> for Note<E> {
    open spec fn obeys_from_spec() -> bool {
        true
    }

    open spec fn from_spec(row: NoteRow<E>) -> Note<E> {
        note_of_row(row)
    }
}

/// The hit that a row of a search holds.
pub open spec fn hit_of_row<E, R>(row: NoteHitRow<E, R>) -> NoteHit<E, R> {
    NoteHit {
        note: Note {
            id: row.nid,
            hook_id: row.hook_id,
            content: row.content,
            embedding: row.embedding,
        },
        score: row.score,
    }
}

impl<E, R> From<NoteHitRow<E, R>> for NoteHit<E, R> {
    fn from(row: NoteHitRow<E, R>) -> (r: NoteHit<E, R>) {
        NoteHit {
            note: Note {
                id: row.nid,
                hook_id: row.hook_id,
                content: row.content,
                embedding: row.embedding,
            },
            score: row.score,
        }
    }
}

impl<E, R> FromSpecImpl<NoteHitRow<E, R>> for NoteHit<E, R> {
    open spec fn obeys_from_spec() -> bool {
        true
    }

    open spec fn from_spec(row: NoteHitRow<E, R>) -> NoteHit<E, R> {
        hit_of_row(row)
    }
}

/// A connection's identity: what every query is put to.
#[derive(Clone, Debug, PartialEq, Eq)]
pub struct Store {
    pub namespace: String,
    pub database: String,
    /// The dimension of the vector index, which every stored embedding has.
    pub vector_dim: usize,
}

/// One step of opening a store, or of choosing what a session works on.
#[derive(Debug, PartialEq, Eq)]
pub enum OpenStep<S = String> {
    /// Connect to this address.
    Connect(S),
    /// Sign in as root with this name and password.
    SignIn(S, S),
    /// Run a statement.
    Run(S),
    /// Select a namespace.
    UseNamespace(S),
    /// Select a database.
    UseDatabase(S),
}

impl View for OpenStep {
    type V = OpenStep<Seq<char>>;

    open spec fn view(&self) -> OpenStep<Seq<char>> {
        match self {
            OpenStep::Connect(s) => OpenStep::Connect(s@),
            OpenStep::SignIn(u, p) => OpenStep::SignIn(u@, p@),
            OpenStep::Run(s) => OpenStep::Run(s@),
            OpenStep::UseNamespace(s) => OpenStep::UseNamespace(s@),
            OpenStep::UseDatabase(s) => OpenStep::UseDatabase(s@),
        }
    }
}

/// The models of a list of steps.
pub open spec fn step_models(steps: Seq<OpenStep>) -> Seq<OpenStep<Seq<char>>> {
    steps.map_values(|s: OpenStep| s@)
}

/// Why a store cannot be opened: a name that is no plain identifier.
#[derive(Clone, Copy, Debug, PartialEq, Eq, Structural)]
pub enum OpenError {
    InvalidNamespace,
    InvalidDatabase,
}

/// Whether `s` is a plain identifier, `[A-Za-z_][A-Za-z0-9_]*`.
pub open spec fn is_ident(s: Seq<char>) -> bool {
    &&& s.len() > 0
    &&& is_ascii_letter(s[0]) || s[0] == '_'
    &&& forall|i: int|
        0 <= i < s.len() ==> is_ascii_letter(#[trigger] s[i]) || is_digit(s[i]) || s[i] == '_'
}

/// Tests that `s` is a plain identifier, safe to write into a `DEFINE`
/// statement.
pub fn valid_ident(s: &str) -> (r: bool)
    ensures
        r == is_ident(s@),
{
    let v = chars_of(s);
    if v.len() == 0 || !(ascii_letter(v[0]) || v[0] == '_') {
        return false;
    }
    let mut i: usize = 0;
    while i < v.len()
        invariant
            i <= v@.len(),
            v@ == s@,
            forall|j: int|
                0 <= j < i ==> is_ascii_letter(#[trigger] v@[j]) || is_digit(v@[j]) || v@[j] == '_',
        decreases v@.len() - i,
    {
        if !(ascii_letter(v[i]) || digit(v[i]) || v[i] == '_') {
            return false;
        }
        i += 1;
    }
    true
}

/// The schema for a vector dimension.
pub open spec fn schema(vector_dim: usize) -> Seq<char> {
    SCHEMA_HEAD@ + decimal(vector_dim as nat) + SCHEMA_TAIL@
}

/// The steps that open a store: connect, sign in if there are credentials, define
/// and select the namespace, define and select the database, define the schema.
pub open spec fn open_steps(
    url: Seq<char>,
    namespace: Seq<char>,
    database: Seq<char>,
    auth: Option<(Seq<char>, Seq<char>)>,
    vector_dim: usize,
) -> Seq<OpenStep<Seq<char>>> {
    let sign_in = match auth {
        Some((user, pass)) => seq![OpenStep::SignIn(user, pass)],
        None => Seq::empty(),
    };
    seq![OpenStep::Connect(url)] + sign_in + seq![
        OpenStep::Run(DEFINE_NAMESPACE@ + namespace),
        OpenStep::UseNamespace(namespace),
        OpenStep::Run(DEFINE_DATABASE@ + database),
        OpenStep::UseDatabase(database),
        OpenStep::Run(schema(vector_dim)),
    ]
}

/// The query that creates a hook.
pub open spec fn create_hook_query(h: Hook<Seq<char>>) -> QueryModel<()> {
    bare(CREATE_HOOK@)
        .with_text("hid"@, h.id)
        .with_text("public_id"@, h.public_id)
        .with_text("name"@, h.name)
        .with_text("owner"@, h.owner)
        .with_text("room_id"@, h.room_id)
        .with_text("sender"@, h.sender)
        .with_text("device_id"@, h.device_id)
        .with_text("access_token"@, h.access_token)
}

/// The query that replaces a hook's session.
pub open spec fn set_session_query(
    id: Seq<char>,
    device_id: Seq<char>,
    access_token: Seq<char>,
) -> QueryModel<()> {
    bare(SET_SESSION@).with_text("hid"@, id).with_text("device_id"@, device_id).with_text(
        "access_token"@,
        access_token,
    )
}

/// The query that lists every hook.
pub open spec fn all_hooks_query() -> QueryModel<()> {
    bare(ALL_HOOKS@)
}

/// The query that looks a hook up by its private id.
pub open spec fn get_hook_query(id: Seq<char>) -> QueryModel<()> {
    bare(GET_HOOK@).with_text("hid"@, id)
}

/// The query that looks a hook up by its public id.
pub open spec fn get_by_public_id_query(public_id: Seq<char>) -> QueryModel<()> {
    bare(GET_HOOK_BY_PUBLIC_ID@).with_text("public_id"@, public_id)
}

/// The query that lists the hooks of an owner.
pub open spec fn list_query(owner: Seq<char>) -> QueryModel<()> {
    bare(LIST_BY_OWNER@).with_text("owner"@, owner)
}

/// The query that finds the hooks without a public id.
pub open spec fn without_public_id_query() -> QueryModel<()> {
    bare(HOOKS_WITHOUT_PUBLIC_ID@)
}

/// The query that looks a note up.
pub open spec fn get_note_query(id: Seq<char>) -> QueryModel<()> {
    bare(GET_NOTE@).with_text("nid"@, id)
}

/// The query that deletes the expired notes.
pub open spec fn sweep_query() -> QueryModel<()> {
    bare(SWEEP_NOTES@)
}

/// The query that counts the live notes of a hook.
pub open spec fn count_query(hook_id: Seq<char>) -> QueryModel<()> {
    bare(COUNT_LIVE_NOTES@).with_text("hook_id"@, hook_id)
}

/// The deletion of the hook `id` for `owner`, given what looking `id` up returned:
/// nothing to run where the hook is missing or someone else's.
pub open spec fn delete_plan(
    id: Seq<char>,
    owner: Seq<char>,
    existing: Option<Hook<Seq<char>>>,
) -> Option<QueryModel<()>> {
    match existing {
        Some(h) => if h.owner == owner {
            Some(delete_hook_query(id, owner))
        } else {
            None
        },
        None => None,
    }
}

/// The query that deletes a hook.
pub open spec fn delete_hook_query(id: Seq<char>, owner: Seq<char>) -> QueryModel<()> {
    bare(DELETE_HOOK@).with_text("hid"@, id).with_text("owner"@, owner)
}

/// The query that gives a hook its public id.
pub open spec fn public_id_query(hid: Seq<char>, public_id: Seq<char>) -> QueryModel<()> {
    bare(SET_PUBLIC_ID@).with_text("hid"@, hid).with_text("public_id"@, public_id)
}

/// Whether `q` gives the hook `hid` some public id of the usual form.
pub open spec fn is_backfill(q: QueryModel<()>, hid: Seq<char>) -> bool {
    exists|p: Seq<char>|
        q == #[trigger] public_id_query(hid, p) && p.len() == PUBLIC_ID_LEN && spelled_in(
            ALPHABET@,
            p,
        )
}

/// The query that creates a note: it expires `ttl_secs` from now, or never.
pub open spec fn create_note_query<E>(note: Note<E, Seq<char>>, ttl_secs: Option<u64>) -> QueryModel<
    E,
> {
    let text = match ttl_secs {
        Some(_) => CREATE_TEMPORARY_NOTE@,
        None => CREATE_PERSISTENT_NOTE@,
    };
    let q = bare(text)
        .with_text("nid"@, note.id)
        .with_text("hook_id"@, note.hook_id)
        .with_text("content"@, note.content)
        .bound(Bind { name: "embedding"@, value: Value::Embedding(note.embedding) });
    match ttl_secs {
        Some(t) => q.bound(Bind { name: "ttl_secs"@, value: Value::Number(t) }),
        None => q,
    }
}

/// How many candidates a search for `k` notes considers: four times `k`, and at
/// least 64.
pub open spec fn search_candidates(k: usize) -> nat {
    if k * 4 > 64 {
        (k * 4) as nat
    } else {
        64
    }
}

/// The query that searches for the `k` notes nearest to `embedding`, in one
/// hook's notes or in all.
pub open spec fn search_query<E>(embedding: E, k: usize, scope: Option<Seq<char>>) -> QueryModel<
    E,
> {
    let base = match scope {
        Some(_) => SEARCH_NOTES@ + SEARCH_SCOPE@,
        None => SEARCH_NOTES@,
    };
    let text = base + " AND embedding <|"@ + decimal(k as nat) + ","@ + decimal(
        search_candidates(k),
    ) + "|> $q ORDER BY score DESC"@;
    let q = bare(text).bound(Bind { name: "q"@, value: Value::Embedding(Some(embedding)) });
    match scope {
        Some(s) => q.with_text("scope"@, s),
        None => q,
    }
}

impl Store {
    /// Plans the opening of a store on the shared server at `url`, authenticated
    /// as root.
    pub fn connect(
        url: &str,
        namespace: &str,
        database: &str,
        user: &str,
        pass: &str,
        vector_dim: usize,
    ) -> (r: Result<(Store, Vec<OpenStep>), OpenError>)
        ensures
            match r {
                Ok((store, steps)) => {
                    &&& is_ident(namespace@) && is_ident(database@)
                    &&& store.namespace@ == namespace@ && store.database@ == database@
                    &&& store.vector_dim == vector_dim
                    &&& step_models(steps@) == open_steps(
                        url@,
                        namespace@,
                        database@,
                        Some((user@, pass@)),
                        vector_dim,
                    )
                },
                Err(OpenError::InvalidNamespace) => !is_ident(namespace@),
                Err(OpenError::InvalidDatabase) => is_ident(namespace@) && !is_ident(database@),
            },
    {
        Store::open(url, namespace, database, Some((user, pass)), vector_dim)
    }

    /// Plans the opening of an in-memory store.
    pub fn memory() -> (r: Result<(Store, Vec<OpenStep>), OpenError>)
        ensures
            r matches Ok((store, steps)) && {
                &&& store.namespace@ == NAMESPACE@ && store.database@ == MEMORY_DATABASE@
                &&& store.vector_dim == MEMORY_VECTOR_DIM
                &&& step_models(steps@) == open_steps(
                    "mem://"@,
                    NAMESPACE@,
                    MEMORY_DATABASE@,
                    None,
                    MEMORY_VECTOR_DIM,
                )
            },
    {
        proof {
            reveal_strlit("matrixHook");
            reveal_strlit("hooks");
        }
        Store::open("mem://", NAMESPACE, MEMORY_DATABASE, None, MEMORY_VECTOR_DIM)
    }

    /// Plans the opening of a store: refuses a namespace or database that is no
    /// plain identifier, the namespace first.
    pub fn open(
        url: &str,
        namespace: &str,
        database: &str,
        auth: Option<(&str, &str)>,
        vector_dim: usize,
    ) -> (r: Result<(Store, Vec<OpenStep>), OpenError>)
        ensures
            match r {
                Ok((store, steps)) => {
                    &&& is_ident(namespace@) && is_ident(database@)
                    &&& store.namespace@ == namespace@ && store.database@ == database@
                    &&& store.vector_dim == vector_dim
                    &&& step_models(steps@) == open_steps(
                        url@,
                        namespace@,
                        database@,
                        match auth {
                            Some((user, pass)) => Some((user@, pass@)),
                            None => None,
                        },
                        vector_dim,
                    )
                },
                Err(OpenError::InvalidNamespace) => !is_ident(namespace@),
                Err(OpenError::InvalidDatabase) => is_ident(namespace@) && !is_ident(database@),
            },
    {
        if !valid_ident(namespace) {
            return Err(OpenError::InvalidNamespace);
        }
        if !valid_ident(database) {
            return Err(OpenError::InvalidDatabase);
        }
        let mut steps: Vec<OpenStep> = Vec::new();
        steps.push(OpenStep::Connect(url.to_owned()));
        if let Some((user, pass)) = auth {
            steps.push(OpenStep::SignIn(user.to_owned(), pass.to_owned()));
        }
        steps.push(OpenStep::Run(DEFINE_NAMESPACE.to_owned().concat(namespace)));
        steps.push(OpenStep::UseNamespace(namespace.to_owned()));
        steps.push(OpenStep::Run(DEFINE_DATABASE.to_owned().concat(database)));
        steps.push(OpenStep::UseDatabase(database.to_owned()));
        let store = Store {
            namespace: namespace.to_owned(),
            database: database.to_owned(),
            vector_dim,
        };
        steps.push(OpenStep::Run(store.migrate()));
        proof {
            let auth_model = match auth {
                Some((user, pass)) => Some((user@, pass@)),
                None => None,
            };
            assert(step_models(steps@) =~= open_steps(
                url@,
                namespace@,
                database@,
                auth_model,
                vector_dim,
            ));
        }
        Ok((store, steps))
    }

    /// The steps that select the namespace and the database again, taken before
    /// every query: a session can lose its selection.
    pub fn select(&self) -> (r: Vec<OpenStep>)
        ensures
            step_models(r@) == seq![
                OpenStep::UseNamespace(self.namespace@),
                OpenStep::UseDatabase(self.database@),
            ],
    {
        let mut r: Vec<OpenStep> = Vec::new();
        r.push(OpenStep::UseNamespace(self.namespace.clone()));
        r.push(OpenStep::UseDatabase(self.database.clone()));
        assert(step_models(r@) =~= seq![
            OpenStep::UseNamespace(self.namespace@),
            OpenStep::UseDatabase(self.database@),
        ]);
        r
    }

    /// The statements that define the tables and indexes.
    pub fn migrate(&self) -> (r: String)
        ensures
            r@ == schema(self.vector_dim),
    {
        let dim = decimal_text(self.vector_dim as u128);
        SCHEMA_HEAD.to_owned().concat(dim.as_str()).concat(SCHEMA_TAIL)
    }

    /// Creates a hook owned by `owner` and bound to `room_id`: the query to run,
    /// and the hook that exists once it has succeeded.
    pub fn create_hook(
        &self,
        id: &str,
        public_id: &str,
        name: &str,
        owner: &str,
        room_id: &str,
        sender: &str,
        device_id: &str,
        access_token: &str,
    ) -> (r: (Query, Hook))
        ensures
            r.1@ == (Hook {
                id: id@,
                public_id: public_id@,
                name: name@,
                owner: owner@,
                room_id: room_id@,
                sender: sender@,
                device_id: device_id@,
                access_token: access_token@,
            }),
            r.0@ == create_hook_query(r.1@),
    {
        let query = Query::new(CREATE_HOOK)
            .bind_text("hid", id)
            .bind_text("public_id", public_id)
            .bind_text("name", name)
            .bind_text("owner", owner)
            .bind_text("room_id", room_id)
            .bind_text("sender", sender)
            .bind_text("device_id", device_id)
            .bind_text("access_token", access_token);
        let hook = Hook {
            id: id.to_owned(),
            public_id: public_id.to_owned(),
            name: name.to_owned(),
            owner: owner.to_owned(),
            room_id: room_id.to_owned(),
            sender: sender.to_owned(),
            device_id: device_id.to_owned(),
            access_token: access_token.to_owned(),
        };
        (query, hook)
    }

    /// Replaces a hook's session.
    pub fn set_session(&self, id: &str, device_id: &str, access_token: &str) -> (r: Query)
        ensures
            r@ == bare::<()>(SET_SESSION@).with_text("hid"@, id@).with_text(
                "device_id"@,
                device_id@,
            ).with_text("access_token"@, access_token@),
            r@ == set_session_query(id@, device_id@, access_token@),
    {
        Query::new(SET_SESSION).bind_text("hid", id).bind_text("device_id", device_id).bind_text(
            "access_token",
            access_token,
        )
    }

    /// Lists every hook, oldest first; [`hooks_from`] reads the rows.
    pub fn all_hooks(&self) -> (r: Query)
        ensures
            r@ == bare::<()>(ALL_HOOKS@),
            r@ == all_hooks_query(),
    {
        Query::new(ALL_HOOKS)
    }

    /// Looks up a hook by its private id; [`first_hook`] reads the rows.
    pub fn get_hook(&self, id: &str) -> (r: Query)
        ensures
            r@ == bare::<()>(GET_HOOK@).with_text("hid"@, id@),
            r@ == get_hook_query(id@),
    {
        Query::new(GET_HOOK).bind_text("hid", id)
    }

    /// Looks up a hook by its public id; [`first_hook`] reads the rows.
    pub fn get_hook_by_public_id(&self, public_id: &str) -> (r: Query)
        ensures
            r@ == bare::<()>(GET_HOOK_BY_PUBLIC_ID@).with_text("public_id"@, public_id@),
            r@ == get_by_public_id_query(public_id@),
    {
        Query::new(GET_HOOK_BY_PUBLIC_ID).bind_text("public_id", public_id)
    }

    /// Lists the hooks of `owner`, oldest first; [`hooks_from`] reads the rows.
    pub fn list_by_owner(&self, owner: &str) -> (r: Query)
        ensures
            r@ == bare::<()>(LIST_BY_OWNER@).with_text("owner"@, owner@),
            r@ == list_query(owner@),
    {
        Query::new(LIST_BY_OWNER).bind_text("owner", owner)
    }

    /// Deletes the hook `id` for `owner`, given what looking `id` up returned: the
    /// query to run, or nothing if the hook is missing or someone else's. A hook
    /// was deleted if and only if there is a query and it succeeded.
    pub fn delete_hook(&self, id: &str, owner: &str, existing: &Option<Hook>) -> (r: Option<Query>)
        ensures
            match r {
                Some(q) => (existing matches Some(h) && h.owner@ == owner@) && q@
                    == delete_hook_query(id@, owner@),
                None => !(existing matches Some(h) && h.owner@ == owner@),
            },
            (match r {
                Some(q) => Some(q@),
                None => None,
            }) == delete_plan(
                id@,
                owner@,
                match existing {
                    Some(h) => Some(h@),
                    None => None,
                },
            ),
    {
        match existing {
            Some(h) => if same(h.owner.as_str(), owner) {
                Some(Query::new(DELETE_HOOK).bind_text("hid", id).bind_text("owner", owner))
            } else {
                None
            },
            None => None,
        }
    }

    /// Finds the hooks without a public id; the rows hold their private ids.
    pub fn hooks_without_public_id(&self) -> (r: Query)
        ensures
            r@ == bare::<()>(HOOKS_WITHOUT_PUBLIC_ID@),
            r@ == without_public_id_query(),
    {
        Query::new(HOOKS_WITHOUT_PUBLIC_ID)
    }

    /// Gives the hook `hid` its public id.
    pub fn set_public_id(&self, hid: &str, public_id: &str) -> (r: Query)
        ensures
            r@ == public_id_query(hid@, public_id@),
    {
        Query::new(SET_PUBLIC_ID).bind_text("hid", hid).bind_text("public_id", public_id)
    }

    /// Assigns a fresh public id to each of the hooks `hids`, which have none: one
    /// query for each, in order. How many there are is how many get fixed up.
    pub fn backfill_public_ids(&self, hids: &Vec<String>) -> (r: Vec<Query>)
        ensures
            r@.len() == hids@.len(),
            forall|i: int|
                0 <= i < r@.len() ==> is_backfill(#[trigger] r@[i]@, hids@[i]@),
            backfill_queries(
                r@.map_values(|q: Query| q@),
                hids@.map_values(|h: String| h@),
            ),
    {
        let mut r: Vec<Query> = Vec::new();
        let mut i: usize = 0;
        while i < hids.len()
            invariant
                i <= hids@.len(),
                r@.len() == i,
                forall|j: int| 0 <= j < i ==> is_backfill(#[trigger] r@[j]@, hids@[j]@),
            decreases hids@.len() - i,
        {
            let public_id = gen(PUBLIC_ID_LEN);
            let q = self.set_public_id(hids[i].as_str(), public_id.as_str());
            assert(is_backfill(q@, hids@[i as int]@));
            r.push(q);
            i += 1;
        }
        let ghost queries = r@.map_values(|q: Query| q@);
        let ghost given = hids@.map_values(|h: String| h@);
        assert forall|i: int| 0 <= i < queries.len() implies is_backfill(
            #[trigger] queries[i],
            given[i],
        ) by {
            assert(is_backfill(r@[i]@, hids@[i]@));
        }
        r
    }

    /// Creates a note under `hook_id`: the query to run, and the note that exists
    /// once it has succeeded. `ttl_secs` is absent for a persistent note.
    pub fn create_note<E: Copy>(
        &self,
        id: &str,
        hook_id: &str,
        content: &str,
        embedding: Option<E>,
        ttl_secs: Option<u64>,
    ) -> (r: (Query<E>, Note<E>))
        ensures
            r.1@ == (Note { id: id@, hook_id: hook_id@, content: content@, embedding }),
            r.0@ == create_note_query(r.1@, ttl_secs),
    {
        let text = match ttl_secs {
            Some(_) => CREATE_TEMPORARY_NOTE,
            None => CREATE_PERSISTENT_NOTE,
        };
        let q = Query::new(text)
            .bind_text("nid", id)
            .bind_text("hook_id", hook_id)
            .bind_text("content", content)
            .bind("embedding", Value::Embedding(embedding));
        let q = match ttl_secs {
            Some(t) => q.bind("ttl_secs", Value::Number(t)),
            None => q,
        };
        let note = Note {
            id: id.to_owned(),
            hook_id: hook_id.to_owned(),
            content: content.to_owned(),
            embedding,
        };
        (q, note)
    }

    /// Looks up a note by its id alone, unless it has expired; [`first_note`]
    /// reads the rows.
    pub fn get_note(&self, id: &str) -> (r: Query)
        ensures
            r@ == bare::<()>(GET_NOTE@).with_text("nid"@, id@),
            r@ == get_note_query(id@),
    {
        Query::new(GET_NOTE).bind_text("nid", id)
    }

    /// Searches for the `k` notes nearest to `query_embedding`, best first, among
    /// the live notes with an embedding: those of the hook `scope_hook_id`, or all;
    /// [`hits_from`] reads the rows.
    pub fn search_notes<E>(&self, query_embedding: E, k: usize, scope_hook_id: Option<&str>) -> (r:
        Query<E>)
        requires
            k * 4 <= usize::MAX,
        ensures
            r@ == search_query(
                query_embedding,
                k,
                match scope_hook_id {
                    Some(s) => Some(s@),
                    None => None,
                },
            ),
    {
        let ef: usize = if k * 4 > 64 {
            k * 4
        } else {
            64
        };
        let base = match scope_hook_id {
            Some(_) => SEARCH_NOTES.to_owned().concat(SEARCH_SCOPE),
            None => SEARCH_NOTES.to_owned(),
        };
        let text = base
            .concat(" AND embedding <|")
            .concat(decimal_text(k as u128).as_str())
            .concat(",")
            .concat(decimal_text(ef as u128).as_str())
            .concat("|> $q ORDER BY score DESC");
        let q = Query::new(text.as_str()).bind("q", Value::Embedding(Some(query_embedding)));
        match scope_hook_id {
            Some(scope) => q.bind_text("scope", scope),
            None => q,
        }
    }

    /// Deletes every temporary note whose time has elapsed. There is one row for
    /// each deleted note; [`swept_from`] counts them.
    pub fn sweep_expired_notes(&self) -> (r: Query)
        ensures
            r@ == bare::<()>(SWEEP_NOTES@),
            r@ == sweep_query(),
    {
        Query::new(SWEEP_NOTES)
    }

    /// Counts the live notes under `hook_id`; [`count_from`] reads the rows.
    pub fn count_live_notes(&self, hook_id: &str) -> (r: Query)
        ensures
            r@ == bare::<()>(COUNT_LIVE_NOTES@).with_text("hook_id"@, hook_id@),
            r@ == count_query(hook_id@),
    {
        Query::new(COUNT_LIVE_NOTES).bind_text("hook_id", hook_id)
    }
}

/// The hook that the first row holds, if there is one.
pub open spec fn read_first(rows: Seq<HookRow<Seq<char>>>) -> Option<Hook<Seq<char>>> {
    if rows.len() == 0 {
        None
    } else {
        Some(hook_of_row(rows[0]))
    }
}

/// The models of a list of rows.
pub open spec fn row_models(rows: Seq<HookRow>) -> Seq<HookRow<Seq<char>>> {
    rows.map_values(|r: HookRow| r@)
}

/// The hooks that rows hold, in order.
pub open spec fn read_all(rows: Seq<HookRow<Seq<char>>>) -> Seq<Hook<Seq<char>>> {
    rows.map_values(|r: HookRow<Seq<char>>| hook_of_row(r))
}

/// The note that the first row holds, if there is one.
pub open spec fn read_note<E, S>(rows: Seq<NoteRow<E, S>>) -> Option<Note<E, S>> {
    if rows.len() == 0 {
        None
    } else {
        Some(note_of_row(rows[0]))
    }
}

/// The hits that the rows of a search hold, in order.
pub open spec fn hits_of<E, R>(rows: Seq<NoteHitRow<E, R>>) -> Seq<NoteHit<E, R>> {
    rows.map_values(|row: NoteHitRow<E, R>| hit_of_row(row))
}

/// Whether the queries give each of the hooks a public id of the usual form, in order.
pub open spec fn backfill_queries(queries: Seq<QueryModel<()>>, hids: Seq<Seq<char>>) -> bool {
    &&& queries.len() == hids.len()
    &&& forall|i: int| 0 <= i < queries.len() ==> is_backfill(#[trigger] queries[i], hids[i])
}

/// The number of notes that a sweep with these rows deleted.
pub open spec fn swept_in<R>(rows: Seq<R>) -> nat {
    rows.len()
}

/// The hooks that rows hold, in order.
pub open spec fn hooks_of_rows(rows: Seq<HookRow>) -> Seq<Hook<Seq<char>>> {
    rows.map_values(|r: HookRow| hook_of_row(r@))
}

/// Reads every row as a hook, in order.
pub fn hooks_from(rows: Vec<HookRow>) -> (r: Vec<Hook>)
    ensures
        hook_models(r@) == hooks_of_rows(rows@),
        hook_models(r@) == read_all(row_models(rows@)),
{
    let mut r: Vec<Hook> = Vec::new();
    let ghost all = rows@;
    for row in it: rows
        invariant
            it.seq() == all,
            hook_models(r@) == hooks_of_rows(all.take(it.index() as int)),
    {
        let ghost i = it.index() as int;
        assert(all.take(i + 1) =~= all.take(i).push(row));
        let ghost before = r@;
        r.push(Hook::from(row));
        assert(hook_models(r@) =~= hook_models(before).push(hook_of_row(row@)));
        assert(hooks_of_rows(all.take(i + 1)) =~= hooks_of_rows(all.take(i)).push(
            hook_of_row(row@),
        ));
    }
    assert(all.take(all.len() as int) =~= all);
    assert(hooks_of_rows(all) =~= read_all(row_models(all)));
    r
}

/// Reads the first row as a hook, if there is one.
pub fn first_hook(rows: Vec<HookRow>) -> (r: Option<Hook>)
    ensures
        match r {
            Some(h) => rows@.len() > 0 && h@ == hook_of_row(rows@[0]@),
            None => rows@.len() == 0,
        },
        (match r {
            Some(h) => Some(h@),
            None => None,
        }) == read_first(row_models(rows@)),
{
    let mut rows = rows;
    if rows.len() == 0 {
        None
    } else {
        Some(Hook::from(rows.remove(0)))
    }
}

/// Reads the first row as a note, if there is one.
pub fn first_note<E>(rows: Vec<NoteRow<E>>) -> (r: Option<Note<E>>)
    ensures
        r == (if rows@.len() == 0 {
            None
        } else {
            Some(note_of_row(rows@[0]))
        }),
        r == read_note(rows@),
{
    let mut rows = rows;
    if rows.len() == 0 {
        None
    } else {
        Some(Note::from(rows.remove(0)))
    }
}

/// Reads every row of a search as a hit, in order.
pub fn hits_from<E, R>(rows: Vec<NoteHitRow<E, R>>) -> (r: Vec<NoteHit<E, R>>)
    ensures
        r@ == rows@.map_values(|row: NoteHitRow<E, R>| hit_of_row(row)),
        r@ == hits_of(rows@),
{
    let mut r: Vec<NoteHit<E, R>> = Vec::new();
    let ghost all = rows@;
    for row in it: rows
        invariant
            it.seq() == all,
            r@ == all.take(it.index() as int).map_values(|w: NoteHitRow<E, R>| hit_of_row(w)),
    {
        let ghost i = it.index() as int;
        assert(all.take(i + 1) =~= all.take(i).push(row));
        r.push(NoteHit::from(row));
        assert(r@ =~= all.take(i + 1).map_values(|w: NoteHitRow<E, R>| hit_of_row(w)));
    }
    assert(all.take(all.len() as int) =~= all);
    r
}

/// The count in the rows of a counting query: zero where there is no row.
pub open spec fn count_in(counts: Seq<usize>) -> usize {
    if counts.len() == 0 {
        0
    } else {
        counts[0]
    }
}

/// The number of notes that a sweep deleted: it returned one row for each.
pub fn swept_from<R>(rows: &Vec<R>) -> (r: usize)
    ensures
        r == rows@.len(),
        r == swept_in(rows@),
{
    rows.len()
}

/// The count that a counting query returned: zero where nothing matched.
pub fn count_from(counts: &Vec<usize>) -> (r: usize)
    ensures
        r == count_in(counts@),
{
    if counts.len() == 0 {
        0
    } else {
        counts[0]
    }
}

} // verus!
