//! Note embeddings from an Ollama server.

use vstd::prelude::*;
use crate::http::{
    is_success, member, single, success, text_member, Body, Fields, HttpRequest, Items, Json, Method,
    Reply,
};
use crate::text::{strip_end, trim_end, Class};

verus! {

/// The request for the embedding of one text.
pub open spec fn embed_request(ollama_url: Seq<char>, model: Seq<char>, text: Seq<char>) -> HttpRequest<
    Seq<char>,
> {
    HttpRequest {
        method: Method::Post,
        url: trim_end(ollama_url, Class::Only('/')) + "/api/embed"@,
        bearer: None,
        body: Body::Json(
            Json::Object(
                text_member(
                    "model"@,
                    model,
                    member(
                        "input"@,
                        Json::List(single(Json::Text(text))),
                        Fields::End,
                    ),
                ),
            ),
        ),
    }
}

/// Asks the Ollama server for the embedding of `text` under `model`; the reply is
/// judged by [`embed_reply`], and what it holds is read by [`first_embedding`].
pub fn embed(ollama_url: &str, model: &str, text: &str) -> (r: HttpRequest)
    ensures
        r@ == embed_request(ollama_url@, model@, text@),
{
    let input = Json::List(Items::one(Json::text(text)));
    let fields = Fields::End.with("input", input).with("model", Json::text(model));
    HttpRequest {
        method: Method::Post,
        url: strip_end(ollama_url, Class::Only('/')).to_owned().concat("/api/embed"),
        bearer: None,
        body: Body::Json(Json::Object(fields)),
    }
}

/// Accepts a reply that reports success, and turns any other into an error text.
pub fn embed_reply(reply: &Reply) -> (r: Result<(), String>)
    ensures
        match r {
            Ok(_) => is_success(reply.code),
            Err(e) => !is_success(reply.code) && e@ == "ollama embed request failed: "@
                + reply.status@ + " "@ + reply.body@,
        },
{
    if success(reply.code) {
        Ok(())
    } else {
        Err(
            "ollama embed request failed: ".to_owned().concat(reply.status.as_str()).concat(
                " ",
            ).concat(reply.body.as_str()),
        )
    }
}

/// The first of the embeddings that a reply holds; a reply without any is an
/// error.
pub fn first_embedding<E>(embeddings: Vec<E>) -> (r: Result<E, &'static str>)
    ensures
        match r {
            Ok(e) => embeddings@.len() > 0 && e == embeddings@[0],
            Err(text) => embeddings@.len() == 0 && text@ == "ollama returned no embeddings"@,
        },
{
    let mut embeddings = embeddings;
    if embeddings.len() == 0 {
        Err("ollama returned no embeddings")
    } else {
        Ok(embeddings.swap_remove(0))
    }
}

} // verus!
