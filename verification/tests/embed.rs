use hook_core::embed::{embed, embed_reply, first_embedding};
use hook_core::http::{Body, Fields, Items, Json, Method, Reply};

#[test]
fn asks_for_one_text() {
    let r = embed("http://o:11434//", "m", "hello");
    assert_eq!(r.method, Method::Post);
    assert_eq!(r.url, "http://o:11434/api/embed");
    assert_eq!(r.bearer, None);
    let input = Json::List(Items::one(Json::text("hello")));
    assert_eq!(
        r.body,
        Body::Json(Json::Object(Fields::End.with("input", input).with("model", Json::text("m"))))
    );
}

#[test]
fn failures_are_reported() {
    let bad = Reply { code: 500, status: "500 Internal Server Error".into(), body: "oops".into() };
    assert_eq!(
        embed_reply(&bad),
        Err("ollama embed request failed: 500 Internal Server Error oops".into())
    );
    let ok = Reply { code: 200, status: "200 OK".into(), body: "{}".into() };
    assert_eq!(embed_reply(&ok), Ok(()));
}

#[test]
fn the_first_embedding_counts() {
    assert_eq!(first_embedding(vec![vec![1.0f32, 2.0], vec![3.0]]), Ok(vec![1.0, 2.0]));
    assert_eq!(first_embedding(Vec::<Vec<f32>>::new()), Err("ollama returned no embeddings"));
}
