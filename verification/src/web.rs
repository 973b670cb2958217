//! The webhost: what each request is answered, and what is delivered.
//!
//! - `GET /` and `GET /health` report that the service is up.
//! - `GET /<id>/<message>` delivers a short message carried in the path.
//! - `POST /<id>` delivers a message carried in the body.
//! - `GET /onboard/<id>` gives the hook's usage instructions.
//!
//! The id is the only secret. Messages are delivered as plain text, prefixed with
//! the hook's name, so that a leaked URL cannot be used to post unattributed text.

use vstd::prelude::*;
use vstd::string::*;
use vstd::utf8::*;
use crate::clients::Action;
use crate::clients_laws::{law_never_plain_text, Delivery};
use crate::command::{onboard_url_of, url_of, webhook_url};
use crate::config::Config;
use crate::store::Hook;
use crate::text::{
    filled, find, lemma_filled_holds, strip_end, trim, trim_end, trimmed, Class,
};

verus! {

/// The longest message that is delivered, in bytes.
pub const MAX_MESSAGE_BYTES: usize = 4000;

/// How many messages are sent at a time.
pub const MAX_INFLIGHT_SENDS: usize = 8;

/// An answer: a status code and a plain text. `S` is `String` in running code and
/// `Seq<char>` in its model.
#[derive(Debug, PartialEq, Eq)]
pub struct Response<S = String> {
    pub code: u16,
    pub body: S,
}

impl View for Response {
    type V = Response<Seq<char>>;

    open spec fn view(&self) -> Response<Seq<char>> {
        Response { code: self.code, body: self.body@ }
    }
}

fn respond(code: u16, body: &str) -> (r: Response)
    ensures
        r@ == (Response { code, body: body@ }),
{
    Response { code, body: body.to_owned() }
}

/// What came of looking a hook up: nothing if that failed, and then the hook, if
/// there is one.
pub open spec fn lookup_model(lookup: Option<Option<Hook>>) -> Option<Option<Hook<Seq<char>>>> {
    match lookup {
        Some(Some(hook)) => Some(Some(hook@)),
        Some(None) => Some(None),
        None => None,
    }
}

/// The usage instructions of a hook.
pub open spec fn onboard_text(hook: Hook<Seq<char>>, base: Seq<char>) -> Seq<char> {
    let url = url_of(base, hook.id);
    "matrixHook — hook **"@ + hook.name
        + "**\n\nTrigger it (posts appear in the room where it was created, as **"@ + hook.name
        + "**, end-to-end encrypted):\n- POST a body:  curl -X POST "@ + url
        + " -d 'your message here'\n- or GET with a short message in the path:  curl "@ + url
        + "/your%20short%20message\n\nConstraints:\n- message must be non-empty and under 4000 bytes\n- anyone with this URL can post here — keep it secret\n"@
}

/// How to use the service.
pub open spec fn index_text(base: Seq<char>) -> Seq<char> {
    let base = trim_end(base, Class::Only('/'));
    "matrixHook\n\nPOST "@ + base + "/<uuid> with a body, or GET "@ + base + "/<uuid>/<message>\n"@
}

/// The answer where a hook cannot be looked up, or there is none.
pub open spec fn no_hook(lookup: Option<Option<Hook<Seq<char>>>>) -> Response<Seq<char>> {
    match lookup {
        Some(_) => Response { code: 404, body: "unknown hook\n"@ },
        None => Response { code: 500, body: "internal error\n"@ },
    }
}

/// The answer to a request for a hook's usage instructions.
pub open spec fn onboard_response(
    lookup: Option<Option<Hook<Seq<char>>>>,
    base: Seq<char>,
) -> Response<Seq<char>> {
    match lookup {
        Some(Some(hook)) => Response { code: 200, body: onboard_text(hook, base) },
        _ => no_hook(lookup),
    }
}

/// What every request is answered from: the base URL of the service.
#[derive(Debug)]
pub struct WebState {
    pub public_base_url: String,
}

impl WebState {
    /// The state for a configuration.
    pub fn new(cfg: &Config) -> (r: WebState)
        ensures
            r.public_base_url@ == cfg.public_base_url@,
    {
        WebState { public_base_url: cfg.public_base_url.clone() }
    }

    /// `GET /`: how to use the service.
    pub fn index(&self) -> (r: Response)
        ensures
            r@ == (Response { code: 200, body: index_text(self.public_base_url@) }),
            ({
                let base = trim_end(self.public_base_url@, Class::Only('/'));
                r@ == (Response {
                    code: 200,
                    body: "matrixHook\n\nPOST "@ + base + "/<uuid> with a body, or GET "@ + base
                        + "/<uuid>/<message>\n"@,
                })
            }),
    {
        let base = strip_end(self.public_base_url.as_str(), Class::Only('/'));
        let body = "matrixHook\n\nPOST "
            .to_owned()
            .concat(base)
            .concat("/<uuid> with a body, or GET ")
            .concat(base)
            .concat("/<uuid>/<message>\n");
        Response { code: 200, body }
    }

    /// `GET /onboard/<id>`: the hook's usage instructions.
    pub fn onboard(&self, lookup: &Option<Option<Hook>>) -> (r: Response)
        ensures
            r@ == onboard_response(lookup_model(*lookup), self.public_base_url@),
    {
        match lookup {
            Some(Some(hook)) => {
                let url = webhook_url(self.public_base_url.as_str(), hook.id.as_str());
                let url = url.as_str();
                let name = hook.name.as_str();
                let body = "matrixHook — hook **"
                    .to_owned()
                    .concat(name)
                    .concat("**\n\nTrigger it (posts appear in the room where it was created, as **")
                    .concat(name)
                    .concat("**, end-to-end encrypted):\n- POST a body:  curl -X POST ")
                    .concat(url)
                    .concat(
                        " -d 'your message here'\n- or GET with a short message in the path:  curl ",
                    )
                    .concat(url)
                    .concat(
                        "/your%20short%20message\n\nConstraints:\n- message must be non-empty and under 4000 bytes\n- anyone with this URL can post here — keep it secret\n",
                    );
                Response { code: 200, body }
            },
            Some(None) => respond(404, "unknown hook\n"),
            None => respond(500, "internal error\n"),
        }
    }
}

/// `GET /health`: that the service is up.
pub fn health() -> (r: Response)
    ensures
        r@ == (Response { code: 200, body: "ok\n"@ }),
{
    respond(200, "ok\n")
}

/// `GET /<id>` without a message: how to send one.
pub fn get_no_message() -> (r: Response)
    ensures
        r@ == (Response {
            code: 400,
            body: "provide a message: GET /<uuid>/<message> or POST /<uuid> with a body\n(or fetch /onboard/<uuid> for full usage instructions)\n"@,
        }),
{
    respond(
        400,
        "provide a message: GET /<uuid>/<message> or POST /<uuid> with a body\n(or fetch /onboard/<uuid> for full usage instructions)\n",
    )
}

/// The answer to a message that is refused, if it is: one that holds nothing but
/// white space, and one that without white space at its ends is too long.
pub open spec fn refusal(raw: Seq<char>) -> Option<Response<Seq<char>>> {
    if trim(raw).len() == 0 {
        Some(Response { code: 400, body: "empty message\n"@ })
    } else if encode_utf8(trim(raw)).len() > MAX_MESSAGE_BYTES {
        Some(Response { code: 413, body: "message too large (max 4000 bytes)\n"@ })
    } else {
        None
    }
}

/// Takes a raw message: the message to deliver, without white space at its ends,
/// or the answer that refuses it.
pub fn accept<'a>(raw: &'a str) -> (r: Result<&'a str, Response>)
    ensures
        match r {
            Ok(message) => refusal(raw@) is None && message@ == trim(raw@),
            Err(answer) => refusal(raw@) == Some(answer@),
        },
{
    let message = trimmed(raw);
    if message.is_empty() {
        return Err(respond(400, "empty message\n"));
    }
    if message.as_bytes().len() > MAX_MESSAGE_BYTES {
        return Err(respond(413, "message too large (max 4000 bytes)\n"));
    }
    Ok(message)
}

/// Takes what came of looking the hook up: the hook to deliver for, or the answer
/// where there is none.
pub fn recipient(lookup: Option<Option<Hook>>) -> (r: Result<Hook, Response>)
    ensures
        match r {
            Ok(hook) => lookup == Some(Some(hook)),
            Err(answer) => !(lookup matches Some(Some(_))) && answer@ == no_hook(
                lookup_model(lookup),
            ),
        },
{
    match lookup {
        Some(Some(hook)) => Ok(hook),
        Some(None) => Err(respond(404, "unknown hook\n")),
        None => Err(respond(500, "internal error\n")),
    }
}

/// The text that is delivered for a message: the hook's name, a colon and a space,
/// the message.
pub open spec fn attributed_text(name: Seq<char>, message: Seq<char>) -> Seq<char> {
    name + ": "@ + message
}

/// Prefixes a message with the name of the hook that it is delivered for.
pub fn attributed(hook: &Hook, message: &str) -> (r: String)
    ensures
        r@ == attributed_text(hook.name@, message@),
{
    hook.name.as_str().to_owned().concat(": ").concat(message)
}

/// What is delivered for a raw message and what came of looking its hook up: the hook
/// and the text, or the answer that ends the request without a delivery.
pub open spec fn prepared(raw: Seq<char>, lookup: Option<Option<Hook<Seq<char>>>>) -> Result<
    (Hook<Seq<char>>, Seq<char>),
    Response<Seq<char>>,
> {
    match refusal(raw) {
        Some(response) => Err(response),
        None => match lookup {
            Some(Some(hook)) => Ok((hook, attributed_text(hook.name, trim(raw)))),
            _ => Err(no_hook(lookup)),
        },
    }
}

/// Takes a raw message and what came of looking its hook up: the hook and the text
/// to deliver for it, or the answer that ends the request without a delivery.
pub fn prepare(raw: &str, lookup: Option<Option<Hook>>) -> (r: Result<(Hook, String), Response>)
    ensures
        match r {
            Ok((hook, text)) => {
                &&& refusal(raw@) is None
                &&& lookup == Some(Some(hook))
                &&& text@ == attributed_text(hook.name@, trim(raw@))
            },
            Err(answer) => match refusal(raw@) {
                Some(response) => answer@ == response,
                None => !(lookup matches Some(Some(_))) && answer@ == no_hook(
                    lookup_model(lookup),
                ),
            },
        },
        prepared(raw@, lookup_model(lookup)) == (match r {
            Ok((hook, text)) => Ok((hook@, text@)),
            Err(answer) => Err(answer@),
        }),
{
    let message = match accept(raw) {
        Ok(message) => message,
        Err(response) => return Err(response),
    };
    match recipient(lookup) {
        Ok(hook) => {
            let text = attributed(&hook, message);
            Ok((hook, text))
        },
        Err(response) => Err(response),
    }
}

/// The answer after a delivery.
pub open spec fn delivery_response(sent: bool) -> Response<Seq<char>> {
    if sent {
        Response { code: 200, body: "delivered\n"@ }
    } else {
        Response { code: 502, body: "delivery failed\n"@ }
    }
}

/// Answers after a delivery, given whether it succeeded.
pub fn delivered(sent: bool) -> (r: Response)
    ensures
        r@ == delivery_response(sent),
{
    if sent {
        respond(200, "delivered\n")
    } else {
        respond(502, "delivery failed\n")
    }
}

/// The answer to a message as a whole: for what was sent to the service, what came
/// of looking the hook up, and whether the delivery succeeded.
pub open spec fn answer(
    raw: Seq<char>,
    lookup: Option<Option<Hook<Seq<char>>>>,
    sent: bool,
) -> Response<Seq<char>> {
    match refusal(raw) {
        Some(response) => response,
        None => match lookup {
            Some(Some(_)) => delivery_response(sent),
            _ => no_hook(lookup),
        },
    }
}

/// Answers a message as a whole: refuses it, or reports a missing hook, or how the
/// delivery went.
pub fn deliver(raw: &str, lookup: Option<Option<Hook>>, sent: bool) -> (r: Response)
    ensures
        r@ == answer(raw@, lookup_model(lookup), sent),
{
    match prepare(raw, lookup) {
        Err(response) => response,
        Ok(_) => delivered(sent),
    }
}

/// Every accepted message is delivered under the hook's name: whatever a delivery
/// of its text sends starts with the name and ends with the message, without white
/// space at its ends, and goes into the hook's room.
pub proof fn law_deliveries_are_attributed(
    raw: Seq<char>,
    d: Delivery,
    n: nat,
    room_id: Seq<char>,
    body: Seq<char>,
)
    requires
        refusal(raw) is None,
        d.body == attributed_text(d.hook.name, trim(raw)),
        d.asked(n) == Some(Action::Send { room_id, body }),
    ensures
        room_id == d.hook.room_id,
        d.hook.name.is_prefix_of(body),
        trim(raw).is_suffix_of(body),
        body == d.hook.name + ": "@ + trim(raw),
{
    law_never_plain_text(d, n, room_id, body);
    assert(d.hook.name =~= body.subrange(0, d.hook.name.len() as int));
    assert(trim(raw) =~= body.skip(body.len() - trim(raw).len()));
}

/// A message is answered with success if and only if it is neither empty nor too
/// long, its hook exists, and its delivery succeeded; each reason to fail has a
/// status code of its own, the earlier ones first.
pub proof fn law_status_codes(raw: Seq<char>, lookup: Option<Option<Hook<Seq<char>>>>, sent: bool)
    ensures
        ({
            let code = answer(raw, lookup, sent).code;
            let empty = trim(raw).len() == 0;
            let long = encode_utf8(trim(raw)).len() > MAX_MESSAGE_BYTES;
            let known = lookup is Some && lookup->0 is Some;
            &&& code == 400 <==> empty
            &&& code == 413 <==> !empty && long
            &&& code == 500 <==> !empty && !long && lookup is None
            &&& code == 404 <==> !empty && !long && lookup == Some(None::<Hook<Seq<char>>>)
            &&& code == 502 <==> !empty && !long && known && !sent
            &&& code == 200 <==> !empty && !long && known && sent
        }),
{
}

/// What is delivered is the whole message, for every message that is not refused and
/// every hook that is found: the hook is that one, and the text is its name, a colon, a
/// space and the message without white space at its ends. Nothing is delivered in any
/// other case, and the answer is then the one that is given as a whole.
pub proof fn law_whole_messages_are_delivered(
    raw: Seq<char>,
    lookup: Option<Option<Hook<Seq<char>>>>,
    sent: bool,
)
    ensures
        ({
            let m = trim(raw);
            let accepted = m.len() > 0 && encode_utf8(m).len() <= 4000;
            match prepared(raw, lookup) {
                Ok((hook, text)) => {
                    &&& accepted && lookup == Some(Some(hook))
                    &&& text.len() == hook.name.len() + 2 + m.len()
                    &&& text.take(hook.name.len() as int) == hook.name
                    &&& text[hook.name.len() as int] == ':'
                    &&& text[hook.name.len() as int + 1] == ' '
                    &&& text.skip(hook.name.len() as int + 2) == m
                    &&& answer(raw, lookup, sent).code == (if sent {
                        200u16
                    } else {
                        502
                    })
                },
                Err(response) => {
                    &&& !(accepted && lookup is Some && lookup->0 is Some)
                    &&& answer(raw, lookup, sent) == response
                },
            }
        }),
{
    reveal_strlit(": ");
    if let Ok((hook, text)) = prepared(raw, lookup) {
        let n = hook.name.len() as int;
        assert(text.take(n) =~= hook.name);
        assert(text.skip(n + 2) =~= trim(raw));
    }
}

/// The answers to messages go by their codes: two with the same code are the same,
/// whatever was sent and whichever hook it was for.
pub proof fn law_answers_go_by_their_codes(
    raw: Seq<char>,
    lookup: Option<Option<Hook<Seq<char>>>>,
    sent: bool,
    other: Seq<char>,
    other_lookup: Option<Option<Hook<Seq<char>>>>,
    other_sent: bool,
)
    ensures
        answer(raw, lookup, sent).code == answer(other, other_lookup, other_sent).code ==> answer(
            raw,
            lookup,
            sent,
        ) == answer(other, other_lookup, other_sent),
{
}

/// Instructions are given for every hook that is found; a hook that is not there, and a
/// look-up that failed, are answered as they are for a message.
pub proof fn law_instructions_are_given(
    lookup: Option<Option<Hook<Seq<char>>>>,
    base: Seq<char>,
    raw: Seq<char>,
)
    ensures
        lookup matches Some(Some(hook)) ==> onboard_response(lookup, base) == (Response {
            code: 200,
            body: onboard_text(hook, base),
        }),
        lookup == Some(None::<Hook<Seq<char>>>) ==> onboard_response(lookup, base).code == 404,
        lookup is None ==> onboard_response(lookup, base).code == 500,
        !(lookup matches Some(Some(_))) && refusal(raw) is None ==> onboard_response(lookup, base)
            == answer(raw, lookup, true),
{
}

/// Whether these pieces are the wording of the instructions for a hook.
pub open spec fn onboard_wording(p: Seq<Seq<char>>) -> bool {
    forall|hook: Hook<Seq<char>>, base: Seq<char>|
        #[trigger] onboard_text(hook, base) == filled(
            p,
            seq![hook.name, hook.name, url_of(base, hook.id), url_of(base, hook.id)],
        )
}

/// Whether these pieces are the wording of the front page.
pub open spec fn index_wording(p: Seq<Seq<char>>) -> bool {
    forall|base: Seq<char>|
        #[trigger] index_text(base) == filled(
            p,
            seq![trim_end(base, Class::Only('/')), trim_end(base, Class::Only('/'))],
        )
}

/// The instructions have one wording for all hooks, and the front page for all bases.
pub proof fn law_pages_have_one_wording()
    ensures
        exists|p: Seq<Seq<char>>| #[trigger] onboard_wording(p),
        exists|p: Seq<Seq<char>>| #[trigger] index_wording(p),
{
    let p = onboard_pieces();
    assert forall|hook: Hook<Seq<char>>, base: Seq<char>|
        #[trigger] onboard_text(hook, base) == filled(
            p,
            seq![hook.name, hook.name, url_of(base, hook.id), url_of(base, hook.id)],
        ) by {
        lemma_onboard_filled(hook, base);
    }
    assert(onboard_wording(p));
    let q = seq![
        "matrixHook\n\nPOST "@,
        "/<uuid> with a body, or GET "@,
        "/<uuid>/<message>\n"@,
    ];
    assert forall|base: Seq<char>|
        #[trigger] index_text(base) == filled(
            q,
            seq![trim_end(base, Class::Only('/')), trim_end(base, Class::Only('/'))],
        ) by {
        let b = trim_end(base, Class::Only('/'));
        assert(seq![b, b].drop_last() =~= seq![b]);
        assert(seq![b].drop_last() =~= Seq::empty());
        reveal_with_fuel(filled, 3);
    }
    assert(index_wording(q));
}

spec fn onboard_pieces() -> Seq<Seq<char>> {
    seq![
        "matrixHook — hook **"@,
        "**\n\nTrigger it (posts appear in the room where it was created, as **"@,
        "**, end-to-end encrypted):\n- POST a body:  curl -X POST "@,
        " -d 'your message here'\n- or GET with a short message in the path:  curl "@,
        "/your%20short%20message\n\nConstraints:\n- message must be non-empty and under 4000 bytes\n- anyone with this URL can post here — keep it secret\n"@,
    ]
}

proof fn lemma_onboard_filled(hook: Hook<Seq<char>>, base: Seq<char>)
    ensures
        onboard_text(hook, base) == filled(
            onboard_pieces(),
            seq![hook.name, hook.name, url_of(base, hook.id), url_of(base, hook.id)],
        ),
{
    let g = seq![hook.name, hook.name, url_of(base, hook.id), url_of(base, hook.id)];
    assert(g.drop_last() =~= g.take(3));
    assert(g.take(3).drop_last() =~= g.take(2));
    assert(g.take(2).drop_last() =~= g.take(1));
    assert(g.take(1).drop_last() =~= Seq::empty());
    reveal_with_fuel(filled, 5);
}

/// The instructions for a hook hold its name and its URL, and the announcement of the
/// hook links to them: where they are is the base, `onboard` and the id.
pub proof fn law_instructions_are_complete(hook: Hook<Seq<char>>, base: Seq<char>)
    ensures
        find(onboard_text(hook, base), hook.name) is Some,
        find(onboard_text(hook, base), url_of(base, hook.id)) is Some,
        onboard_url_of(base, hook.id) == url_of(base, "onboard/"@ + hook.id),
{
    let g = seq![hook.name, hook.name, url_of(base, hook.id), url_of(base, hook.id)];
    lemma_onboard_filled(hook, base);
    lemma_filled_holds(onboard_pieces(), g, 0);
    lemma_filled_holds(onboard_pieces(), g, 2);
    reveal_strlit("/");
    reveal_strlit("onboard/");
    reveal_strlit("/onboard/");
    assert(onboard_url_of(base, hook.id) =~= url_of(base, "onboard/"@ + hook.id));
}

} // verus!
