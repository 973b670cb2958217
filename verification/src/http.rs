//! HTTP requests and replies as plain values, and percent-encoding.

use vstd::prelude::*;
use vstd::string::*;
use vstd::utf8::*;
use crate::text::{is_ascii_letter, is_digit};

verus! {

/// A request method.
#[derive(Clone, Copy, Debug, PartialEq, Eq, Structural)]
pub enum Method {
    Get,
    Post,
    Put,
}

/// A JSON value. `S` is `String` in running code and `Seq<char>` in its model.
#[derive(Debug, PartialEq, Eq)]
pub enum Json<S = String> {
    Bool(bool),
    Text(S),
    List(Items<S>),
    Object(Fields<S>),
}

/// The elements of a JSON array.
#[derive(Debug, PartialEq, Eq)]
pub enum Items<S = String> {
    End,
    Item(Box<Json<S>>, Box<Items<S>>),
}

/// The members of a JSON object, in order.
#[derive(Debug, PartialEq, Eq)]
pub enum Fields<S = String> {
    End,
    Field(S, Box<Json<S>>, Box<Fields<S>>),
}

impl Json {
    /// The value with every text replaced by its view.
    pub open spec fn model(self) -> Json<Seq<char>>
        decreases self,
    {
        match self {
            Json::Bool(b) => Json::Bool(b),
            Json::Text(t) => Json::Text(t@),
            Json::List(items) => Json::List(items.model()),
            Json::Object(fields) => Json::Object(fields.model()),
        }
    }

    /// A JSON text.
    pub fn text(s: &str) -> (r: Json)
        ensures
            r.model() == Json::Text(s@),
    {
        Json::Text(s.to_owned())
    }
}

impl Items {
    /// The elements with every text replaced by its view.
    pub open spec fn model(self) -> Items<Seq<char>>
        decreases self,
    {
        match self {
            Items::End => Items::End,
            Items::Item(first, rest) => Items::Item(
                Box::new(first.model()),
                Box::new(rest.model()),
            ),
        }
    }
}

impl Items {
    /// A single element.
    pub fn one(item: Json) -> (r: Items)
        ensures
            r.model() == single(item.model()),
    {
        proof {
            reveal_with_fuel(Items::model, 2);
        }
        Items::Item(Box::new(item), Box::new(Items::End))
    }
}

/// The array elements with `item` alone.
pub open spec fn single(item: Json<Seq<char>>) -> Items<Seq<char>> {
    Items::Item(Box::new(item), Box::new(Items::End))
}

impl Fields {
    /// The members with every text replaced by its view.
    pub open spec fn model(self) -> Fields<Seq<char>>
        decreases self,
    {
        match self {
            Fields::End => Fields::End,
            Fields::Field(name, value, rest) => Fields::Field(
                name@,
                Box::new(value.model()),
                Box::new(rest.model()),
            ),
        }
    }

    /// These members with one more in front.
    pub fn with(self, name: &str, value: Json) -> (r: Fields)
        ensures
            r.model() == member(name@, value.model(), self.model()),
    {
        Fields::Field(name.to_owned(), Box::new(value), Box::new(self))
    }
}

/// The members `rest` with the member `name` in front.
pub open spec fn member(
    name: Seq<char>,
    value: Json<Seq<char>>,
    rest: Fields<Seq<char>>,
) -> Fields<Seq<char>> {
    Fields::Field(name, Box::new(value), Box::new(rest))
}

/// The member `name` with a text in front of `rest`.
pub open spec fn text_member(name: Seq<char>, value: Seq<char>, rest: Fields<Seq<char>>) -> Fields<
    Seq<char>,
> {
    member(name, Json::Text(value), rest)
}

/// The value of the member `name`, the first of that name.
pub open spec fn field_of(fields: Fields<Seq<char>>, name: Seq<char>) -> Option<Json<Seq<char>>>
    decreases fields,
{
    match fields {
        Fields::End => None,
        Fields::Field(n, value, rest) => if n == name {
            Some(*value)
        } else {
            field_of(*rest, name)
        },
    }
}

/// The names of the members, in order.
pub open spec fn names_of(fields: Fields<Seq<char>>) -> Seq<Seq<char>>
    decreases fields,
{
    match fields {
        Fields::End => Seq::empty(),
        Fields::Field(n, _, rest) => seq![n] + names_of(*rest),
    }
}

/// A member that was put in front is the first, and is what is found under its name; the
/// others are found as before.
pub proof fn law_members_are_found(
    name: Seq<char>,
    value: Json<Seq<char>>,
    rest: Fields<Seq<char>>,
    other: Seq<char>,
)
    ensures
        field_of(member(name, value, rest), name) == Some(value),
        other != name ==> field_of(member(name, value, rest), other) == field_of(rest, other),
        names_of(member(name, value, rest)) == seq![name] + names_of(rest),
        field_of(text_member(name, other, rest), name) == Some(Json::Text(other)),
        names_of(text_member(name, other, rest)) == seq![name] + names_of(rest),
        names_of(Fields::End) == Seq::<Seq<char>>::empty(),
        field_of(Fields::End, name) is None,
{
}

/// What a request carries.
#[derive(Debug, PartialEq, Eq)]
pub enum Body<S = String> {
    Empty,
    Json(Json<S>),
    Text(S),
}

impl View for Body {
    type V = Body<Seq<char>>;

    open spec fn view(&self) -> Body<Seq<char>> {
        match self {
            Body::Empty => Body::Empty,
            Body::Json(j) => Body::Json(j.model()),
            Body::Text(t) => Body::Text(t@),
        }
    }
}

/// A request to be sent: its method, URL, bearer token and body.
#[derive(Debug, PartialEq, Eq)]
pub struct HttpRequest<S = String> {
    pub method: Method,
    pub url: S,
    pub bearer: Option<S>,
    pub body: Body<S>,
}

impl View for HttpRequest {
    type V = HttpRequest<Seq<char>>;

    open spec fn view(&self) -> HttpRequest<Seq<char>> {
        HttpRequest {
            method: self.method,
            url: self.url@,
            bearer: text_option(self.bearer),
            body: self.body@,
        }
    }
}

/// The view of an optional text.
pub open spec fn text_option(s: Option<String>) -> Option<Seq<char>> {
    match s {
        Some(t) => Some(t@),
        None => None,
    }
}

/// A reply: the status code, the status as it is shown (such as `404 Not
/// Found`), and the body.
#[derive(Clone, Debug, PartialEq, Eq)]
pub struct Reply {
    pub code: u16,
    pub status: String,
    pub body: String,
}

/// Whether a status code reports success.
pub open spec fn is_success(code: u16) -> bool {
    200 <= code < 300
}

/// Whether a status code reports success.
pub fn success(code: u16) -> (r: bool)
    ensures
        r == is_success(code),
{
    200 <= code && code < 300
}

/// Success is the whole of the two hundreds.
pub proof fn law_success_codes(code: u16)
    ensures
        is_success(code) <==> code / 100 == 2,
{
}

/// How a failed call is reported: `<what> failed (<status>): <body>`.
pub open spec fn failure_text(what: Seq<char>, status: Seq<char>, body: Seq<char>) -> Seq<char> {
    what + " failed ("@ + status + "): "@ + body
}

/// Accepts a reply that reports success, and turns any other into an error text.
pub fn check(what: &str, reply: &Reply) -> (r: Result<(), String>)
    ensures
        match r {
            Ok(_) => is_success(reply.code),
            Err(e) => !is_success(reply.code) && e@ == failure_text(
                what@,
                reply.status@,
                reply.body@,
            ),
        },
{
    if success(reply.code) {
        Ok(())
    } else {
        Err(
            what.to_owned().concat(" failed (").concat(reply.status.as_str()).concat(
                "): ",
            ).concat(reply.body.as_str()),
        )
    }
}

/// Whether a byte stands for itself in a path or query component.
pub open spec fn is_unreserved(b: u8) -> bool {
    ||| is_ascii_letter(b as char)
    ||| is_digit(b as char)
    ||| b == '-' as u8
    ||| b == '_' as u8
    ||| b == '.' as u8
    ||| b == '~' as u8
}

/// An uppercase hexadecimal digit.
pub open spec fn hex_upper(n: u8) -> char {
    if n < 10 {
        ('0' as u8 + n) as char
    } else {
        ('A' as u8 + n - 10) as char
    }
}

/// One byte in percent-encoding: itself, or `%` and two hexadecimal digits.
pub open spec fn escaped(b: u8) -> Seq<char> {
    if is_unreserved(b) {
        seq![b as char]
    } else {
        seq!['%', hex_upper(b / 16), hex_upper(b % 16)]
    }
}

/// The percent-encoding of bytes.
pub open spec fn percent(bytes: Seq<u8>) -> Seq<char>
    decreases bytes.len(),
{
    if bytes.len() == 0 {
        Seq::empty()
    } else {
        escaped(bytes[0]) + percent(bytes.drop_first())
    }
}

/// The percent-encoding of a text: that of its UTF-8 bytes.
pub open spec fn encoded(s: Seq<char>) -> Seq<char> {
    percent(encode_utf8(s))
}

fn hex_digit_upper(n: u8) -> (r: char)
    requires
        n < 16,
    ensures
        r == hex_upper(n),
{
    if n < 10 {
        (48 + n) as char
    } else {
        (55 + n) as char
    }
}

/// Percent-encodes a path or query component.
pub fn enc(s: &str) -> (r: String)
    ensures
        r@ == encoded(s@),
{
    let bytes = s.as_bytes();
    let mut r = String::new();
    let mut i: usize = 0;
    assert(bytes@.skip(0) =~= bytes@);
    assert(r@ + percent(bytes@) =~= percent(bytes@));
    while i < bytes.len()
        invariant
            i <= bytes@.len(),
            r@ + percent(bytes@.skip(i as int)) == percent(bytes@),
        decreases bytes@.len() - i,
    {
        let b = bytes[i];
        let ghost before = r@;
        let c = b as char;
        if (c >= 'A' && c <= 'Z') || (c >= 'a' && c <= 'z') || (c >= '0' && c <= '9') || c == '-'
            || c == '_' || c == '.' || c == '~' {
            r.push(c);
            assert(r@ =~= before + escaped(b));
        } else {
            r.push('%');
            r.push(hex_digit_upper(b / 16));
            r.push(hex_digit_upper(b % 16));
            assert(r@ =~= before + escaped(b));
        }
        let ghost left = bytes@.skip(i as int);
        assert(left.drop_first() =~= bytes@.skip(i + 1));
        assert(before + (escaped(b) + percent(left.drop_first())) =~= r@ + percent(
            left.drop_first(),
        ));
        i += 1;
    }
    assert(bytes@.skip(i as int) =~= Seq::empty());
    assert(r@ + percent(Seq::empty()) =~= r@);
    r
}

/// Whether `c` can stand in a percent-encoded text.
pub open spec fn is_encoded_char(c: char) -> bool {
    is_ascii_letter(c) || is_digit(c) || c == '-' || c == '_' || c == '.' || c == '~' || c == '%'
}

/// An encoded component holds no character that has a meaning in a URL: none of
/// `/ ? # & = @ : !`, and no white space.
pub proof fn law_encoded_is_inert(s: Seq<char>)
    ensures
        forall|i: int| 0 <= i < encoded(s).len() ==> is_encoded_char(#[trigger] encoded(s)[i]),
{
    lemma_percent_chars(encode_utf8(s));
}

proof fn lemma_percent_chars(b: Seq<u8>)
    ensures
        forall|i: int| 0 <= i < percent(b).len() ==> is_encoded_char(#[trigger] percent(b)[i]),
    decreases b.len(),
{
    if b.len() > 0 {
        lemma_percent_chars(b.drop_first());
        let n = escaped(b[0]).len();
        assert forall|i: int| 0 <= i < percent(b).len() implies is_encoded_char(
            #[trigger] percent(b)[i],
        ) by {
            if i >= n {
                assert(percent(b)[i] == percent(b.drop_first())[i - n]);
            }
        }
    }
}

/// The value of a hexadecimal digit.
pub open spec fn hex_value(c: char) -> u8 {
    if '0' <= c <= '9' {
        (c as u32 - '0' as u32) as u8
    } else if 'A' <= c <= 'F' {
        (c as u32 - 'A' as u32 + 10) as u8
    } else {
        (c as u32 - 'a' as u32 + 10) as u8
    }
}

/// The bytes that a percent-encoded text stands for.
pub open spec fn decoded(s: Seq<char>) -> Seq<u8>
    decreases s.len(),
{
    if s.len() == 0 {
        Seq::empty()
    } else if s[0] == '%' && s.len() >= 3 {
        seq![(hex_value(s[1]) * 16 + hex_value(s[2])) as u8] + decoded(s.skip(3))
    } else {
        seq![s[0] as u8] + decoded(s.drop_first())
    }
}

/// An encoded text stands for the text that was encoded: whoever decodes it gets its
/// UTF-8 bytes back. Letters, digits and `- _ . ~` stand for themselves.
pub proof fn law_encoding_is_decoded(s: Seq<char>)
    ensures
        decoded(encoded(s)) == encode_utf8(s),
{
    lemma_percent_decodes(encode_utf8(s));
}

proof fn lemma_percent_decodes(b: Seq<u8>)
    ensures
        decoded(percent(b)) == b,
    decreases b.len(),
{
    if b.len() > 0 {
        let rest = b.drop_first();
        lemma_percent_decodes(rest);
        let p = percent(b);
        let x = b[0];
        let n = escaped(x).len() as int;
        assert(p.skip(n) =~= percent(rest));
        assert(p[0] == escaped(x)[0]);
        if is_unreserved(x) {
            assert(p.drop_first() =~= p.skip(1));
            assert(p[0] == x as char);
            assert(p[0] != '%');
            assert((x as char) as u8 == x);
        } else {
            assert(p[1] == escaped(x)[1] && p[2] == escaped(x)[2]);
            assert(hex_value(hex_upper(x / 16)) == x / 16);
            assert(hex_value(hex_upper(x % 16)) == x % 16);
            assert((x / 16) * 16 + x % 16 == x);
        }
        assert(seq![x] + rest =~= b);
    }
}

/// Different texts have different encodings.
pub proof fn law_encoding_is_injective(a: Seq<char>, b: Seq<char>)
    ensures
        encoded(a) == encoded(b) ==> a == b,
{
    if encoded(a) == encoded(b) {
        lemma_percent_injective(encode_utf8(a), encode_utf8(b));
        encode_utf8_decode_utf8(a);
        encode_utf8_decode_utf8(b);
    }
}

proof fn lemma_percent_injective(a: Seq<u8>, b: Seq<u8>)
    requires
        percent(a) == percent(b),
    ensures
        a == b,
    decreases a.len(),
{
    assert(a.len() > 0 ==> percent(a).len() >= escaped(a[0]).len() >= 1);
    assert(b.len() > 0 ==> percent(b).len() >= escaped(b[0]).len() >= 1);
    if a.len() == 0 || b.len() == 0 {
        assert(a =~= b);
    } else {
        let pa = percent(a);
        let pb = percent(b);
        assert(pa[0] == escaped(a[0])[0]);
        assert(pb[0] == escaped(b[0])[0]);
        if !is_unreserved(a[0]) {
            assert(pa[1] == escaped(a[0])[1] && pa[2] == escaped(a[0])[2]);
            assert(pb[1] == escaped(b[0])[1] && pb[2] == escaped(b[0])[2]);
            assert(a[0] / 16 == b[0] / 16 && a[0] % 16 == b[0] % 16);
        }
        assert(a[0] == b[0]);
        let n = escaped(a[0]).len() as int;
        assert(pa.skip(n) =~= percent(a.drop_first()));
        assert(pb.skip(n) =~= percent(b.drop_first()));
        lemma_percent_injective(a.drop_first(), b.drop_first());
        assert(a =~= seq![a[0]] + a.drop_first());
        assert(b =~= seq![b[0]] + b.drop_first());
    }
}

} // verus!
