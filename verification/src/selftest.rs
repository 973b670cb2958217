//! The end-to-end self-test: a throwaway account asks the bot for a hook, posts to
//! it in both ways, and waits for the messages to arrive in its room.

use vstd::prelude::*;
use vstd::string::*;
use crate::admin::{identify, user_identifier};
use crate::command::{url_of, webhook_url};
use crate::http::{
    is_success, member, success, text_member, Body, Fields, HttpRequest, Json, Method, Reply,
};
use crate::bot::created_text;
use crate::store::Hook;
use crate::text::{
    chars_of, cut, decimal, decimal_text, digit, find, is_digit, lemma_find, lemma_find_is,
    lemma_not_found, lemma_span_is, lemma_trim_ends, position, span, strip_end, trim, trim_end,
    trimmed, Class,
};
use crate::web::attributed_text;

verus! {

/// The time between two looks at the collected messages, in milliseconds.
pub const POLL_MILLIS: u64 = 500;

/// How long the bot gets to join and exchange keys, in seconds.
pub const SETTLE_SECS: u64 = 3;

/// The time for each wait where none is given, in seconds.
pub const DEFAULT_TIMEOUT_SECS: u64 = 60;

/// What precedes the id in the bot's reply.
pub const ID_MARK: &'static str = "id: `";

/// The part of `body` between the first occurrence of `mark` and the next, or the
/// end.
pub open spec fn marked_part(body: Seq<char>, mark: Seq<char>) -> Option<Seq<char>> {
    match find(body, mark) {
        Some(n) => {
            let rest = body.skip(n as int + mark.len());
            Some(
                match find(rest, mark) {
                    Some(m) => rest.take(m as int),
                    None => rest,
                },
            )
        },
        None => None,
    }
}

/// The id in a reply of the bot: what stands in backquotes behind the first
/// [`ID_MARK`], without white space at its ends, unless that is nothing.
pub open spec fn uuid_in(body: Seq<char>) -> Option<Seq<char>> {
    match marked_part(body, ID_MARK@) {
        Some(part) => {
            let uuid = trim(part.take(span(part, Class::Except('`')) as int));
            if uuid.len() == 0 {
                None
            } else {
                Some(uuid)
            }
        },
        None => None,
    }
}

/// Extracts the hook id from a reply of the bot.
pub fn extract_uuid(body: &str) -> (r: Option<String>)
    ensures
        match r {
            Some(uuid) => uuid_in(body@) == Some(uuid@),
            None => uuid_in(body@) is None,
        },
{
    let mark_len = chars_of(ID_MARK).len();
    let n = match position(body, ID_MARK) {
        Some(n) => n,
        None => return None,
    };
    let len = chars_of(body).len();
    let rest = body.substring_char(n + mark_len, len);
    assert(rest@ =~= body@.skip(n as int + ID_MARK@.len()));
    let part = match position(rest, ID_MARK) {
        Some(m) => rest.substring_char(0, m),
        None => rest,
    };
    let (quoted, _) = cut(part, Class::Except('`'));
    let uuid = trimmed(quoted);
    if uuid.is_empty() {
        None
    } else {
        Some(uuid.to_owned())
    }
}

/// A token for a run: the time since the epoch in nanoseconds, in decimal.
pub fn nonce(nanos: u128) -> (r: String)
    ensures
        r@ == decimal(nanos as nat),
{
    decimal_text(nanos)
}

/// The localpart of the throwaway account of a run.
pub fn account_localpart(nonce: &str) -> (r: String)
    ensures
        r@ == "hooktest-"@ + nonce@,
{
    "hooktest-".to_owned().concat(nonce)
}

/// The number that decimal digits stand for.
pub open spec fn value(digits: Seq<char>) -> nat
    decreases digits.len(),
{
    if digits.len() == 0 {
        0
    } else {
        value(digits.drop_last()) * 10 + (digits.last() as nat - '0' as nat) as nat
    }
}

/// A text without a plus sign at its start.
pub open spec fn unsigned(text: Seq<char>) -> Seq<char> {
    if text.len() > 0 && text[0] == '+' {
        text.skip(1)
    } else {
        text
    }
}

/// The number that a text stands for: decimal digits, after a plus sign or not.
pub open spec fn number(text: Seq<char>) -> Option<nat> {
    let digits = unsigned(text);
    if digits.len() > 0 && forall|i: int| 0 <= i < digits.len() ==> is_digit(#[trigger] digits[i]) {
        Some(value(digits))
    } else {
        None
    }
}

proof fn lemma_value_grows(digits: Seq<char>, n: int)
    requires
        0 <= n <= digits.len(),
    ensures
        value(digits.take(n)) <= value(digits),
    decreases digits.len(),
{
    if n == digits.len() {
        assert(digits.take(n) =~= digits);
    } else {
        lemma_value_grows(digits.drop_last(), n);
        assert(digits.drop_last().take(n) =~= digits.take(n));
    }
}

/// Reads the time for each wait, in seconds: the number that the text stands for,
/// or [`DEFAULT_TIMEOUT_SECS`] if it stands for none, or for one above `u64::MAX`.
pub fn timeout_secs(text: &str) -> (r: u64)
    ensures
        r as nat == (match number(text@) {
            Some(n) => if n <= u64::MAX {
                n
            } else {
                DEFAULT_TIMEOUT_SECS as nat
            },
            None => DEFAULT_TIMEOUT_SECS as nat,
        }),
{
    let v = chars_of(text);
    let start: usize = if v.len() > 0 && v[0] == '+' {
        1
    } else {
        0
    };
    if start == v.len() {
        return DEFAULT_TIMEOUT_SECS;
    }
    let ghost digits = unsigned(text@);
    assert(digits =~= text@.skip(start as int));
    let mut total: u128 = 0;
    let mut i: usize = start;
    while i < v.len()
        invariant
            v@ == text@,
            start <= i <= v@.len(),
            start <= 1,
            digits == unsigned(text@),
            digits == text@.skip(start as int),
            digits.len() > 0,
            total <= u64::MAX,
            total == value(digits.take(i - start)),
            forall|j: int| 0 <= j < i - start ==> is_digit(#[trigger] digits[j]),
        decreases v@.len() - i,
    {
        let c = v[i];
        assert(digits[i - start] == c);
        if !digit(c) {
            assert(!is_digit(digits[i - start]));
            return DEFAULT_TIMEOUT_SECS;
        }
        total = total * 10 + (c as u128 - 48);
        proof {
            let n = i - start + 1;
            assert(digits.take(n).drop_last() =~= digits.take(n - 1));
            assert(digits.take(n).last() == c);
            lemma_value_grows(digits, n);
        }
        if total > u64::MAX as u128 {
            return DEFAULT_TIMEOUT_SECS;
        }
        i += 1;
    }
    assert(digits.take(i - start) =~= digits);
    total as u64
}

/// What a look at the collected messages shows.
#[derive(Debug, PartialEq, Eq)]
pub enum Poll<T> {
    /// What was waited for.
    Found(T),
    /// The time is up.
    TimedOut,
    /// Nothing yet: look again after [`POLL_MILLIS`].
    Again,
}

/// Whether a message that holds `probe` has been seen.
pub open spec fn seen_probe(seen: Seq<String>, probe: Seq<char>) -> bool {
    exists|i: int| 0 <= i < seen.len() && find((#[trigger] seen[i])@, probe) is Some
}

/// Looks for a message that holds `probe`. The time counts only where there is
/// none.
pub fn wait_for(seen: &Vec<String>, probe: &str, now: u128, deadline: u128) -> (r: Poll<()>)
    ensures
        r == (if seen_probe(seen@, probe@) {
            Poll::Found(())
        } else if now >= deadline {
            Poll::TimedOut
        } else {
            Poll::Again
        }),
{
    let mut i: usize = 0;
    while i < seen.len()
        invariant
            i <= seen@.len(),
            forall|j: int| 0 <= j < i ==> find((#[trigger] seen@[j])@, probe@) is None,
        decreases seen@.len() - i,
    {
        if position(seen[i].as_str(), probe).is_some() {
            assert(find(seen@[i as int]@, probe@) is Some);
            return Poll::Found(());
        }
        i += 1;
    }
    if now >= deadline {
        Poll::TimedOut
    } else {
        Poll::Again
    }
}

/// The first id in the messages that have been seen.
pub open spec fn first_uuid(seen: Seq<String>) -> Option<Seq<char>>
    decreases seen.len(),
{
    if seen.len() == 0 {
        None
    } else {
        match uuid_in(seen[0]@) {
            Some(uuid) => Some(uuid),
            None => first_uuid(seen.drop_first()),
        }
    }
}

/// Looks for the first message that holds a hook id, and extracts the id. The time
/// counts only where there is none.
pub fn wait_for_map(seen: &Vec<String>, now: u128, deadline: u128) -> (r: Poll<String>)
    ensures
        match r {
            Poll::Found(uuid) => first_uuid(seen@) == Some(uuid@),
            Poll::TimedOut => first_uuid(seen@) is None && now >= deadline,
            Poll::Again => first_uuid(seen@) is None && now < deadline,
        },
{
    let mut i: usize = 0;
    assert(seen@.skip(0) =~= seen@);
    while i < seen.len()
        invariant
            i <= seen@.len(),
            first_uuid(seen@.skip(i as int)) == first_uuid(seen@),
        decreases seen@.len() - i,
    {
        assert(seen@.skip(i as int)[0] == seen@[i as int]);
        if let Some(uuid) = extract_uuid(seen[i].as_str()) {
            return Poll::Found(uuid);
        }
        assert(seen@.skip(i as int).drop_first() =~= seen@.skip(i + 1));
        i += 1;
    }
    assert(seen@.skip(i as int) =~= Seq::empty());
    if now >= deadline {
        Poll::TimedOut
    } else {
        Poll::Again
    }
}

/// Where the checks stand. `S` is `String` in running code and `Seq<char>` in its
/// model.
#[derive(Debug, PartialEq, Eq)]
pub enum Phase<S = String> {
    FindingRoom,
    CreatingRoom,
    Settling,
    Asking,
    AwaitingId,
    Posting { url: S },
    AwaitingPost { url: S },
    Getting { url: S },
    AwaitingGet,
}

impl View for Phase {
    type V = Phase<Seq<char>>;

    open spec fn view(&self) -> Phase<Seq<char>> {
        match self {
            Phase::FindingRoom => Phase::FindingRoom,
            Phase::CreatingRoom => Phase::CreatingRoom,
            Phase::Settling => Phase::Settling,
            Phase::Asking => Phase::Asking,
            Phase::AwaitingId => Phase::AwaitingId,
            Phase::Posting { url } => Phase::Posting { url: url@ },
            Phase::AwaitingPost { url } => Phase::AwaitingPost { url: url@ },
            Phase::Getting { url } => Phase::Getting { url: url@ },
            Phase::AwaitingGet => Phase::AwaitingGet,
        }
    }
}

/// What the caller is to do.
#[derive(Debug, PartialEq, Eq)]
pub enum Action<S = String> {
    /// See whether there is a direct room with the bot.
    FindRoom,
    /// Create one.
    CreateRoom,
    /// Wait.
    Sleep { secs: u64 },
    /// Send a text to the bot.
    Say { text: S },
    /// Wait for a message with a hook id, with [`wait_for_map`].
    AwaitId,
    /// Send a request.
    Call { request: HttpRequest<S> },
    /// Wait for a message that holds a probe, with [`wait_for`].
    Await { probe: S },
}

impl View for Action {
    type V = Action<Seq<char>>;

    open spec fn view(&self) -> Action<Seq<char>> {
        match self {
            Action::FindRoom => Action::FindRoom,
            Action::CreateRoom => Action::CreateRoom,
            Action::Sleep { secs } => Action::Sleep { secs: *secs },
            Action::Say { text } => Action::Say { text: text@ },
            Action::AwaitId => Action::AwaitId,
            Action::Call { request } => Action::Call { request: request@ },
            Action::Await { probe } => Action::Await { probe: probe@ },
        }
    }
}

/// What came of an action.
#[derive(Debug, PartialEq, Eq)]
pub enum Event<S = String> {
    /// Whether the action succeeded, or what it looked for is there.
    Done(bool),
    /// The id that was waited for, unless the time was up.
    Id(Option<S>),
    /// The status code of the reply, unless there was none.
    Replied(Option<u16>),
}

impl View for Event {
    type V = Event<Seq<char>>;

    open spec fn view(&self) -> Event<Seq<char>> {
        match self {
            Event::Done(ok) => Event::Done(*ok),
            Event::Id(Some(id)) => Event::Id(Some(id@)),
            Event::Id(None) => Event::Id(None),
            Event::Replied(code) => Event::Replied(*code),
        }
    }
}

/// Why the checks fail.
#[derive(Clone, Copy, Debug, PartialEq, Eq, Structural)]
pub enum CheckError {
    /// The room could not be created.
    CreateRoom,
    /// The command could not be sent.
    Say,
    /// The bot did not reply with a hook id.
    NoReply,
    /// The POST got no reply.
    Post,
    /// The POST was answered with this status code.
    PostStatus(u16),
    /// The message of the POST never arrived.
    PostLost,
    /// The GET got no reply.
    Get,
    /// The GET was answered with this status code.
    GetStatus(u16),
    /// The message of the GET never arrived.
    GetLost,
}

/// What happens next: an action in a phase, or the outcome.
#[derive(Debug, PartialEq, Eq)]
pub enum Step<S = String> {
    Go(Phase<S>, Action<S>),
    End(Result<(), CheckError>),
}

impl View for Step {
    type V = Step<Seq<char>>;

    open spec fn view(&self) -> Step<Seq<char>> {
        match self {
            Step::Go(phase, action) => Step::Go(phase@, action@),
            Step::End(outcome) => Step::End(*outcome),
        }
    }
}

/// The message that is posted.
pub open spec fn post_probe(nonce: Seq<char>) -> Seq<char> {
    "post-probe-"@ + nonce
}

/// The message that is sent in the path.
pub open spec fn get_probe(nonce: Seq<char>) -> Seq<char> {
    "get-probe-"@ + nonce
}

/// A request without a token.
pub open spec fn plain_request(method: Method, url: Seq<char>, body: Body<Seq<char>>) -> HttpRequest<
    Seq<char>,
> {
    HttpRequest { method, url, bearer: None, body }
}

/// How the checks go on: find or create the room, let the bot settle, ask for a
/// hook, post a probe to it and wait for it, then the same with a probe in the
/// path.
pub open spec fn check_next(
    phase: Phase<Seq<char>>,
    event: Event<Seq<char>>,
    base: Seq<char>,
    nonce: Seq<char>,
) -> Option<Step<Seq<char>>> {
    match (phase, event) {
        (Phase::FindingRoom, Event::Done(found)) => Some(
            if found {
                Step::Go(Phase::Settling, Action::Sleep { secs: SETTLE_SECS })
            } else {
                Step::Go(Phase::CreatingRoom, Action::CreateRoom)
            },
        ),
        (Phase::CreatingRoom, Event::Done(ok)) => Some(
            if ok {
                Step::Go(Phase::Settling, Action::Sleep { secs: SETTLE_SECS })
            } else {
                Step::End(Err(CheckError::CreateRoom))
            },
        ),
        (Phase::Settling, Event::Done(_)) => Some(
            Step::Go(Phase::Asking, Action::Say { text: "new selftest-"@ + nonce }),
        ),
        (Phase::Asking, Event::Done(ok)) => Some(
            if ok {
                Step::Go(Phase::AwaitingId, Action::AwaitId)
            } else {
                Step::End(Err(CheckError::Say))
            },
        ),
        (Phase::AwaitingId, Event::Id(Some(id))) => {
            let url = url_of(base, id);
            Some(
                Step::Go(
                    Phase::Posting { url },
                    Action::Call {
                        request: plain_request(
                            Method::Post,
                            url,
                            Body::Text(post_probe(nonce)),
                        ),
                    },
                ),
            )
        },
        (Phase::AwaitingId, Event::Id(None)) => Some(Step::End(Err(CheckError::NoReply))),
        (Phase::Posting { url }, Event::Replied(Some(code))) => Some(
            if is_success(code) {
                Step::Go(
                    Phase::AwaitingPost { url },
                    Action::Await { probe: post_probe(nonce) },
                )
            } else {
                Step::End(Err(CheckError::PostStatus(code)))
            },
        ),
        (Phase::Posting { .. }, Event::Replied(None)) => Some(Step::End(Err(CheckError::Post))),
        (Phase::AwaitingPost { url }, Event::Done(arrived)) => Some(
            if arrived {
                let get_url = url + "/"@ + get_probe(nonce);
                Step::Go(
                    Phase::Getting { url: get_url },
                    Action::Call { request: plain_request(Method::Get, get_url, Body::Empty) },
                )
            } else {
                Step::End(Err(CheckError::PostLost))
            },
        ),
        (Phase::Getting { .. }, Event::Replied(Some(code))) => Some(
            if is_success(code) {
                Step::Go(Phase::AwaitingGet, Action::Await { probe: get_probe(nonce) })
            } else {
                Step::End(Err(CheckError::GetStatus(code)))
            },
        ),
        (Phase::Getting { .. }, Event::Replied(None)) => Some(Step::End(Err(CheckError::Get))),
        (Phase::AwaitingGet, Event::Done(arrived)) => Some(
            Step::End(
                if arrived {
                    Ok(())
                } else {
                    Err(CheckError::GetLost)
                },
            ),
        ),
        _ => None,
    }
}

/// Starts the checks; [`checking`] goes on.
pub fn run_checks() -> (r: Step)
    ensures
        r@ == Step::<Seq<char>>::Go(Phase::FindingRoom, Action::FindRoom),
{
    Step::Go(Phase::FindingRoom, Action::FindRoom)
}

/// Goes on with the checks; nothing if the event does not answer what was asked
/// for.
pub fn checking(phase: Phase, event: Event, test_base: &str, nonce: &str) -> (r: Option<Step>)
    ensures
        match r {
            Some(step) => check_next(phase@, event@, test_base@, nonce@) == Some(step@),
            None => check_next(phase@, event@, test_base@, nonce@) is None,
        },
{
    match (phase, event) {
        (Phase::FindingRoom, Event::Done(found)) => if found {
            Some(Step::Go(Phase::Settling, Action::Sleep { secs: SETTLE_SECS }))
        } else {
            Some(Step::Go(Phase::CreatingRoom, Action::CreateRoom))
        },
        (Phase::CreatingRoom, Event::Done(ok)) => if ok {
            Some(Step::Go(Phase::Settling, Action::Sleep { secs: SETTLE_SECS }))
        } else {
            Some(Step::End(Err(CheckError::CreateRoom)))
        },
        (Phase::Settling, Event::Done(_)) => Some(
            Step::Go(
                Phase::Asking,
                Action::Say { text: "new selftest-".to_owned().concat(nonce) },
            ),
        ),
        (Phase::Asking, Event::Done(ok)) => if ok {
            Some(Step::Go(Phase::AwaitingId, Action::AwaitId))
        } else {
            Some(Step::End(Err(CheckError::Say)))
        },
        (Phase::AwaitingId, Event::Id(Some(id))) => {
            let url = webhook_url(test_base, id.as_str());
            let request = HttpRequest {
                method: Method::Post,
                url: url.clone(),
                bearer: None,
                body: Body::Text("post-probe-".to_owned().concat(nonce)),
            };
            Some(Step::Go(Phase::Posting { url }, Action::Call { request }))
        },
        (Phase::AwaitingId, Event::Id(None)) => Some(Step::End(Err(CheckError::NoReply))),
        (Phase::Posting { url }, Event::Replied(Some(code))) => if success(code) {
            Some(
                Step::Go(
                    Phase::AwaitingPost { url },
                    Action::Await { probe: "post-probe-".to_owned().concat(nonce) },
                ),
            )
        } else {
            Some(Step::End(Err(CheckError::PostStatus(code))))
        },
        (Phase::Posting { .. }, Event::Replied(None)) => Some(Step::End(Err(CheckError::Post))),
        (Phase::AwaitingPost { url }, Event::Done(arrived)) => if arrived {
            let probe = "get-probe-".to_owned().concat(nonce);
            let get_url = url.concat("/").concat(probe.as_str());
            let request = HttpRequest {
                method: Method::Get,
                url: get_url.clone(),
                bearer: None,
                body: Body::Empty,
            };
            Some(Step::Go(Phase::Getting { url: get_url }, Action::Call { request }))
        } else {
            Some(Step::End(Err(CheckError::PostLost)))
        },
        (Phase::Getting { .. }, Event::Replied(Some(code))) => if success(code) {
            Some(
                Step::Go(
                    Phase::AwaitingGet,
                    Action::Await { probe: "get-probe-".to_owned().concat(nonce) },
                ),
            )
        } else {
            Some(Step::End(Err(CheckError::GetStatus(code))))
        },
        (Phase::Getting { .. }, Event::Replied(None)) => Some(Step::End(Err(CheckError::Get))),
        (Phase::AwaitingGet, Event::Done(arrived)) => if arrived {
            Some(Step::End(Ok(())))
        } else {
            Some(Step::End(Err(CheckError::GetLost)))
        },
        _ => None,
    }
}

/// The request that deactivates an account, with its password.
pub open spec fn deactivate_request(
    homeserver: Seq<char>,
    localpart: Seq<char>,
    password: Seq<char>,
    token: Seq<char>,
) -> HttpRequest<Seq<char>> {
    HttpRequest {
        method: Method::Post,
        url: trim_end(homeserver, Class::Only('/')) + "/_matrix/client/v3/account/deactivate"@,
        bearer: Some(token),
        body: Body::Json(
            Json::Object(
                member(
                    "auth"@,
                    Json::Object(
                        text_member(
                            "type"@,
                            "m.login.password"@,
                            member(
                                "identifier"@,
                                user_identifier(localpart),
                                text_member("password"@, password, Fields::End),
                            ),
                        ),
                    ),
                    member("erase"@, Json::Bool(true), Fields::End),
                ),
            ),
        ),
    }
}

/// Deactivates an account, with the token of a fresh login: the request to send.
pub fn deactivate(homeserver: &str, localpart: &str, password: &str, token: &str) -> (r: HttpRequest)
    ensures
        r@ == deactivate_request(homeserver@, localpart@, password@, token@),
{
    let auth = Fields::End
        .with("password", Json::text(password))
        .with("identifier", identify(localpart))
        .with("type", Json::text("m.login.password"));
    let fields = Fields::End.with("erase", Json::Bool(true)).with("auth", Json::Object(auth));
    HttpRequest {
        method: Method::Post,
        url: strip_end(homeserver, Class::Only('/')).to_owned().concat(
            "/_matrix/client/v3/account/deactivate",
        ),
        bearer: Some(token.to_owned()),
        body: Body::Json(Json::Object(fields)),
    }
}

/// Judges the reply to a deactivation.
pub fn deactivate_outcome(reply: &Reply) -> (r: Result<(), String>)
    ensures
        match r {
            Ok(_) => is_success(reply.code),
            Err(e) => !is_success(reply.code) && e@ == "deactivate returned "@ + reply.status@,
        },
{
    if success(reply.code) {
        Ok(())
    } else {
        Err("deactivate returned ".to_owned().concat(reply.status.as_str()))
    }
}

/// One run of the checks, with the events in the order in which they came back.
pub struct Run {
    pub base: Seq<char>,
    pub nonce: Seq<char>,
    pub events: Seq<Event<Seq<char>>>,
}

impl Run {
    /// The step that the run has reached after `n` events; nothing if it was over
    /// before, or an event did not answer what was asked for.
    pub open spec fn step(self, n: nat) -> Option<Step<Seq<char>>>
        decreases n,
    {
        if n == 0 {
            Some(Step::Go(Phase::FindingRoom, Action::FindRoom))
        } else if n > self.events.len() {
            None
        } else {
            match self.step((n - 1) as nat) {
                Some(Step::Go(phase, _)) => check_next(
                    phase,
                    self.events[n - 1],
                    self.base,
                    self.nonce,
                ),
                _ => None,
            }
        }
    }

    /// Whether the run asks for `action` after `n` events, and it succeeds.
    pub open spec fn did(self, n: nat, action: Action<Seq<char>>) -> bool {
        self.step(n) matches Some(Step::Go(_, a)) && a == action && self.events[n as int]
            == Event::<Seq<char>>::Done(true)
    }
}

spec fn run_ok(run: Run, n: nat) -> bool {
    match run.step(n) {
        Some(Step::Go(phase, action)) => match phase {
            Phase::FindingRoom => n == 0,
            Phase::CreatingRoom => n == 1,
            Phase::Settling => 1 <= n <= 2,
            Phase::Asking => 2 <= n <= 3,
            Phase::AwaitingId => 3 <= n <= 4,
            Phase::Posting { .. } => 4 <= n <= 5,
            Phase::AwaitingPost { .. } => 5 <= n <= 6 && action == (Action::Await {
                probe: post_probe(run.nonce),
            }),
            Phase::Getting { .. } => 6 <= n <= 7 && run.did(
                (n - 1) as nat,
                Action::Await { probe: post_probe(run.nonce) },
            ),
            Phase::AwaitingGet => 7 <= n <= 8 && action == (Action::Await {
                probe: get_probe(run.nonce),
            }) && run.did((n - 2) as nat, Action::Await { probe: post_probe(run.nonce) }),
        },
        Some(Step::End(outcome)) => n <= 9 && (outcome is Ok ==> n >= 3 && run.did(
            (n - 1) as nat,
            Action::Await { probe: get_probe(run.nonce) },
        ) && run.did((n - 3) as nat, Action::Await { probe: post_probe(run.nonce) })),
        None => true,
    }
}

proof fn lemma_run(run: Run, n: nat)
    ensures
        run_ok(run, n),
    decreases n,
{
    if n > 0 {
        lemma_run(run, (n - 1) as nat);
    }
}

/// The checks pass only if both probes arrived in the room, the posted one first;
/// and they end after nine events at the latest.
pub proof fn law_pass_means_both_arrived(run: Run, n: nat)
    ensures
        run.step(n) == Some(Step::<Seq<char>>::End(Ok(()))) ==> n >= 3 && run.did(
            (n - 3) as nat,
            Action::Await { probe: post_probe(run.nonce) },
        ) && run.did((n - 1) as nat, Action::Await { probe: get_probe(run.nonce) }),
        run.step(n) is Some && n >= 9 ==> run.step(n)->0 is End,
{
    lemma_run(run, n);
}

/// A probe that was delivered under a hook's name is recognized among the messages
/// that have been seen.
pub proof fn law_attributed_probe_is_recognized(
    seen: Seq<String>,
    i: int,
    name: Seq<char>,
    probe: Seq<char>,
)
    requires
        0 <= i < seen.len(),
        seen[i]@ == attributed_text(name, probe),
    ensures
        seen_probe(seen, probe),
{
    let text = attributed_text(name, probe);
    if find(text, probe) is None {
        lemma_not_found(text, probe);
        let at = text.len() - probe.len();
        assert(probe =~= text.skip(at).subrange(0, probe.len() as int));
        assert(!probe.is_prefix_of(text.skip(at)));
    }
}

/// The id that the bot's reply to a new hook carries is the one that is extracted
/// from it, whatever the id: it only has to be there, without a backquote and
/// without white space at its ends. A name that holds [`ID_MARK`] itself would come
/// before it.
pub proof fn law_reply_id_is_extracted(hook: Hook<Seq<char>>, base: Seq<char>)
    requires
        find(hook.name, ID_MARK@) is None,
        hook.id.len() > 0,
        !hook.id.contains('`'),
        trim(hook.id) == hook.id,
    ensures
        uuid_in(created_text(hook, base)) == Some(hook.id),
{
    let head = "✅ Created hook **"@;
    let mid = "**.\n\n- id: `"@;
    let body = created_text(hook, base);
    let tail = body.skip((head.len() + hook.name.len() + mid.len() + hook.id.len()) as int);
    reveal_strlit("id: `");
    reveal_strlit("✅ Created hook **");
    reveal_strlit("**.\n\n- id: `");
    reveal_strlit("`\n- public id: `");
    assert(body =~= head + hook.name + mid + hook.id + tail);
    assert(tail[0] == "`\n- public id: `"@[0]);
    assert(mid.skip(7) =~= ID_MARK@);
    lemma_first_mark(head, hook.name, mid, hook.id + tail);
    let n = (head.len() + hook.name.len() + 7) as int;
    assert(head + hook.name + mid + (hook.id + tail) =~= body);
    assert(body.skip(n + 5) =~= hook.id + tail);
    lemma_quoted(hook.id, tail);
}

/// The first mark is the one at the end of `mid`, if there is none in `name` and
/// the texts around `name` keep it apart.
proof fn lemma_first_mark(head: Seq<char>, name: Seq<char>, mid: Seq<char>, rest: Seq<char>)
    requires
        find(name, ID_MARK@) is None,
        head.len() > 0 && head.last() == '*',
        forall|i: int| 0 <= i < head.len() ==> #[trigger] head[i] != 'i',
        mid.len() == 12 && mid[0] == '*' && mid.skip(7) == ID_MARK@,
        forall|i: int| 0 <= i < 7 ==> #[trigger] mid[i] != 'i',
    ensures
        find(head + name + mid + rest, ID_MARK@) == Some((head.len() + name.len() + 7) as nat),
{
    let mark = ID_MARK@;
    reveal_strlit("id: `");
    let body = head + name + mid + rest;
    let h = head.len() as int;
    let l = name.len() as int;
    let n = h + l + 7;
    assert(body.skip(n).subrange(0, 5) =~= mid.skip(7));
    lemma_not_found(name, mark);
    assert forall|m: int| 0 <= m < n implies !mark.is_prefix_of(#[trigger] body.skip(m)) by {
        if mark.is_prefix_of(body.skip(m)) {
            assert forall|k: int| 0 <= k < 5 implies #[trigger] mark[k] == body[m + k] by {
                assert(mark[k] == body.skip(m).subrange(0, 5)[k]);
            }
            assert(mark[0] == 'i');
            if m < h {
                assert(body[m] == head[m]);
            } else if m + 5 <= h + l {
                assert(mark =~= name.skip(m - h).subrange(0, 5));
            } else if m < h + l {
                assert(body[h + l] == mid[0]);
                assert(mark[h + l - m] == body[m + (h + l - m)]);
            } else {
                assert(body[m] == mid[m - h - l]);
            }
        }
    }
    lemma_find_is(body, mark, n as nat);
}

/// An id up to a backquote is what is extracted.
proof fn lemma_quoted(id: Seq<char>, tail: Seq<char>)
    requires
        id.len() > 0,
        !id.contains('`'),
        trim(id) == id,
        tail.len() > 0 && tail[0] == '`',
    ensures
        ({
            let rest = id + tail;
            let part = match find(rest, ID_MARK@) {
                Some(m) => rest.take(m as int),
                None => rest,
            };
            trim(part.take(span(part, Class::Except('`')) as int)) == id
        }),
{
    let mark = ID_MARK@;
    reveal_strlit("id: `");
    lemma_trim_ends(id);
    let rest = id + tail;
    let part = match find(rest, mark) {
        Some(m) => rest.take(m as int),
        None => rest,
    };
    if let Some(m) = find(rest, mark) {
        lemma_find(rest, mark);
        let at = m as int;
        assert forall|k: int| 0 <= k < 5 implies #[trigger] mark[k] == rest[at + k] by {
            assert(mark[k] == rest.skip(at).subrange(0, 5)[k]);
        }
        assert(mark[0] == 'i' && mark[1] == 'd' && mark[2] == ':' && mark[3] == ' ' && mark[4]
            == '`');
        assert(rest[id.len() as int] == '`');
        // The backquote that ends a mark is not in the id, and the one behind the id
        // ends no mark: that would put a space at the end of the id.
        if at + 4 < id.len() {
            assert(id[at + 4] == '`');
        } else if at + 4 == id.len() {
            assert(rest[at + 3] == id[at + 3] == id.last());
        } else if at <= id.len() {
            assert(mark[id.len() - at] == '`');
        }
        assert(at > id.len());
    }
    assert forall|i: int| 0 <= i < id.len() implies Class::Except('`').has(#[trigger] part[i]) by {
        assert(part[i] == id[i]);
    }
    assert(part[id.len() as int] == '`');
    lemma_span_is(part, Class::Except('`'), id.len());
    assert(part.take(id.len() as int) =~= id);
}

impl Run {
    /// Whether the run asks for `action` after `n` events.
    pub open spec fn asks(self, n: nat, action: Action<Seq<char>>) -> bool {
        self.step(n) matches Some(Step::Go(_, a)) && a == action
    }

    /// Whether the run has ended with this outcome after `n` events.
    pub open spec fn ends(self, n: nat, outcome: Result<(), CheckError>) -> bool {
        self.step(n) == Some(Step::<Seq<char>>::End(outcome))
    }

    /// How many events it takes to have a room: one where there is one, and two where it
    /// has to be created.
    pub open spec fn room_after(self) -> nat {
        if self.events[0] == Event::<Seq<char>>::Done(true) {
            1
        } else {
            2
        }
    }
}

/// The checks start with a room: one that is there is used, and otherwise one is
/// created, which is the first thing that can fail.
pub proof fn law_checks_get_a_room(run: Run)
    requires
        run.events.len() >= 2,
        run.events[0] is Done,
    ensures
        run.asks(0, Action::FindRoom),
        run.events[0] == Event::<Seq<char>>::Done(false) ==> run.asks(1, Action::CreateRoom),
        run.events[0] == Event::<Seq<char>>::Done(false) && run.events[1] == Event::<
            Seq<char>,
        >::Done(false) ==> run.ends(2, Err(CheckError::CreateRoom)),
        run.room_after() == 2 ==> run.events[1] == Event::<Seq<char>>::Done(true) ==> run.asks(
            2,
            Action::Sleep { secs: 3 },
        ),
        run.room_after() == 1 ==> run.asks(1, Action::Sleep { secs: 3 }),
{
    reveal_with_fuel(Run::step, 3);
}

/// Once there is a room, the bot is asked for a hook that is named after the run, and
/// the id in its reply gives the URL; a probe is posted there and waited for, and then
/// another is sent in the path and waited for. Whatever goes wrong first is reported,
/// and if nothing does the checks pass.
pub proof fn law_checks_run(run: Run, s: nat, id: Seq<char>, post: u16, get: u16)
    requires
        run.asks(s, Action::Sleep { secs: 3 }),
        run.events.len() >= s + 7,
        run.events[s as int] is Done,
    ensures
        ({
            let e = |i: int| run.events[s + i];
            let yes = Event::<Seq<char>>::Done(true);
            let no = Event::<Seq<char>>::Done(false);
            let url = url_of(run.base, id);
            let asked = e(1) == yes;
            let made = asked && e(2) == Event::Id(Some(id));
            let posted = made && e(3) == Event::<Seq<char>>::Replied(Some(post));
            let seen = posted && is_success(post) && e(4) == yes;
            let got = seen && e(5) == Event::<Seq<char>>::Replied(Some(get));
            &&& run.asks(s + 1, Action::Say { text: "new selftest-"@ + run.nonce })
            &&& e(1) == no ==> run.ends(s + 2, Err(CheckError::Say))
            &&& asked ==> run.asks(s + 2, Action::AwaitId)
            &&& asked && e(2) == Event::<Seq<char>>::Id(None) ==> run.ends(
                s + 3,
                Err(CheckError::NoReply),
            )
            &&& made ==> run.asks(
                s + 3,
                Action::Call {
                    request: HttpRequest {
                        method: Method::Post,
                        url,
                        bearer: None,
                        body: Body::Text("post-probe-"@ + run.nonce),
                    },
                },
            )
            &&& made && e(3) == Event::<Seq<char>>::Replied(None) ==> run.ends(
                s + 4,
                Err(CheckError::Post),
            )
            &&& posted && !is_success(post) ==> run.ends(s + 4, Err(CheckError::PostStatus(post)))
            &&& posted && is_success(post) ==> run.asks(
                s + 4,
                Action::Await { probe: "post-probe-"@ + run.nonce },
            )
            &&& posted && is_success(post) && e(4) == no ==> run.ends(
                s + 5,
                Err(CheckError::PostLost),
            )
            &&& seen ==> run.asks(
                s + 5,
                Action::Call {
                    request: HttpRequest {
                        method: Method::Get,
                        url: url + "/"@ + ("get-probe-"@ + run.nonce),
                        bearer: None,
                        body: Body::Empty,
                    },
                },
            )
            &&& seen && e(5) == Event::<Seq<char>>::Replied(None) ==> run.ends(
                s + 6,
                Err(CheckError::Get),
            )
            &&& got && !is_success(get) ==> run.ends(s + 6, Err(CheckError::GetStatus(get)))
            &&& got && is_success(get) ==> run.asks(
                s + 6,
                Action::Await { probe: "get-probe-"@ + run.nonce },
            )
            &&& got && is_success(get) && e(6) == no ==> run.ends(s + 7, Err(CheckError::GetLost))
            &&& got && is_success(get) && e(6) == yes ==> run.ends(s + 7, Ok(()))
        }),
{
    lemma_run(run, s);
    lemma_run_sleeps(run, s);
    reveal_with_fuel(Run::step, 9);
}

proof fn lemma_run_sleeps(run: Run, n: nat)
    ensures
        run.step(n) matches Some(Step::Go(phase, Action::Sleep { .. })) ==> phase is Settling,
    decreases n,
{
    if n > 0 {
        lemma_run_sleeps(run, (n - 1) as nat);
    }
}

/// An id that is quoted right behind the first mark in a reply is the one that is
/// extracted, wherever the mark stands; without a mark there is none.
pub proof fn law_quoted_id_is_extracted(
    body: Seq<char>,
    n: nat,
    id: Seq<char>,
    tail: Seq<char>,
)
    requires
        id.len() > 0,
        !id.contains('`'),
        trim(id) == id,
    ensures
        find(body, "id: `"@) is None ==> uuid_in(body) is None,
        find(body, "id: `"@) == Some(n) && body.skip(n as int + 5) == id + seq!['`'] + tail
            ==> uuid_in(body) == Some(id),
{
    reveal_strlit("id: `");
    if find(body, "id: `"@) == Some(n) && body.skip(n as int + 5) == id + seq!['`'] + tail {
        let rest = seq!['`'] + tail;
        assert(id + seq!['`'] + tail =~= id + rest);
        lemma_quoted(id, rest);
    }
}

/// A number is read back from its decimal form, with a plus sign before it or not; the
/// form has no needless zero in front.
pub proof fn law_decimal_is_read_back(n: nat)
    ensures
        number(decimal(n)) == Some(n),
        number(seq!['+'] + decimal(n)) == Some(n),
        decimal(n)[0] == '0' ==> n == 0,
{
    lemma_decimal(n);
    let d = decimal(n);
    assert(unsigned(d) =~= d);
    assert(unsigned(seq!['+'] + d) =~= d);
}

proof fn lemma_decimal(n: nat)
    ensures
        decimal(n).len() > 0,
        forall|i: int| 0 <= i < decimal(n).len() ==> is_digit(#[trigger] decimal(n)[i]),
        value(decimal(n)) == n,
        decimal(n)[0] == '0' ==> n == 0,
    decreases n,
{
    if n < 10 {
        let d = decimal(n);
        assert(d.drop_last() =~= Seq::empty());
        reveal_with_fuel(value, 2);
        assert(d.last() as nat == '0' as nat + n);
    } else {
        lemma_decimal(n / 10);
        let d = decimal(n);
        assert(d.drop_last() =~= decimal(n / 10));
        assert(d.last() as nat == '0' as nat + n % 10);
        assert(d[0] == decimal(n / 10)[0]);
    }
}

/// What is not decimal digits, with a plus sign before them or not, is no number; each
/// further digit counts the number before it ten times.
pub proof fn law_numbers(digits: Seq<char>, d: char, text: Seq<char>, i: int)
    requires
        is_digit(d),
        forall|i: int| 0 <= i < digits.len() ==> is_digit(#[trigger] digits[i]),
        1 <= i < text.len() && !is_digit(text[i]),
    ensures
        number(digits.push(d)) == Some(
            (match number(digits) {
                Some(n) => 10 * n,
                None => 0,
            } + (d as nat - '0' as nat)) as nat,
        ),
        number(text) is None,
        number(Seq::empty()) is None,
        number(seq!['+']) is None,
{
    let more = digits.push(d);
    assert(more.drop_last() =~= digits);
    assert(unsigned(more) =~= more);
    assert(unsigned(digits) =~= digits);
    assert(value(more) == value(digits) * 10 + (d as nat - '0' as nat) as nat);
    assert forall|j: int| 0 <= j < more.len() implies is_digit(#[trigger] more[j]) by {
        if j < digits.len() {
            assert(is_digit(digits[j]));
        }
    }
    assert(number(more) == Some(value(more)));
    if digits.len() == 0 {
        assert(value(digits) == 0);
    } else {
        assert(number(digits) == Some(value(digits)));
    }
    let u = unsigned(text);
    if u.len() == text.len() {
        assert(!is_digit(u[i]));
    } else {
        assert(u[i - 1] == text[i]);
    }
    assert(unsigned(seq!['+']) =~= Seq::empty());
}

/// The first id in the messages is that of the first message that holds one.
pub proof fn law_first_id_counts(seen: Seq<String>, i: int)
    requires
        0 <= i < seen.len(),
        forall|j: int| 0 <= j < i ==> uuid_in((#[trigger] seen[j])@) is None,
    ensures
        uuid_in(seen[i]@) is Some ==> first_uuid(seen) == uuid_in(seen[i]@),
        i + 1 == seen.len() && uuid_in(seen[i]@) is None ==> first_uuid(seen) is None,
    decreases seen.len(),
{
    if i > 0 {
        let rest = seen.drop_first();
        assert(uuid_in(seen[0]@) is None);
        assert forall|j: int| 0 <= j < i - 1 implies uuid_in((#[trigger] rest[j])@) is None by {
            assert(uuid_in(seen[j + 1]@) is None);
        }
        law_first_id_counts(rest, i - 1);
    } else if seen.len() == 1 {
        assert(seen.drop_first() =~= Seq::empty());
        reveal_with_fuel(first_uuid, 2);
    }
}

/// A probe counts as seen if and only if one of the messages holds it.
pub proof fn law_only_seen_probes_count(seen: Seq<String>, probe: Seq<char>)
    ensures
        (forall|i: int| 0 <= i < seen.len() ==> find((#[trigger] seen[i])@, probe) is None)
            <==> !seen_probe(seen, probe),
{
}

} // verus!
