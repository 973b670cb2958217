//! A minimal Matrix application service client, as the requests it sends and the
//! judgement of their replies.
//!
//! It acts on behalf of the per-hook virtual users: every request carries the
//! service's token, and names the user it masquerades as in the query parameter
//! `user_id`.

use vstd::prelude::*;
use crate::admin::{identify, user_identifier};
use crate::http::{
    enc, encoded, failure_text, is_success, member, success, text_member, Body, Fields, HttpRequest,
    Json, Method, Reply,
};
use crate::id::{gen, spelled_in, ALPHABET};
use crate::text::{law_trimming, same, strip_end, trim_end, Class};

verus! {

/// The length of a transaction id.
pub const TRANSACTION_ID_LEN: usize = 20;

/// An application service on a homeserver. `S` is `String` in running code and
/// `Seq<char>` in its model.
#[derive(Debug, PartialEq, Eq)]
pub struct AppService<S = String> {
    /// The base of the client-server API, without a trailing slash.
    pub homeserver: S,
    pub as_token: S,
    /// The domain part of user ids.
    pub server_name: S,
}

impl View for AppService {
    type V = AppService<Seq<char>>;

    open spec fn view(&self) -> AppService<Seq<char>> {
        AppService {
            homeserver: self.homeserver@,
            as_token: self.as_token@,
            server_name: self.server_name@,
        }
    }
}

impl Clone for AppService {
    fn clone(&self) -> (r: AppService)
        ensures
            r == *self,
    {
        AppService {
            homeserver: self.homeserver.clone(),
            as_token: self.as_token.clone(),
            server_name: self.server_name.clone(),
        }
    }
}

impl AppService<Seq<char>> {
    /// The service on a homeserver, given the base of its API.
    pub open spec fn on(
        homeserver: Seq<char>,
        as_token: Seq<char>,
        server_name: Seq<char>,
    ) -> AppService<Seq<char>> {
        AppService {
            homeserver: trim_end(homeserver, Class::Only('/')),
            as_token,
            server_name,
        }
    }

    /// The full id of the virtual user with this localpart.
    pub open spec fn mxid(self, localpart: Seq<char>) -> Seq<char> {
        "@"@ + localpart + ":"@ + self.server_name
    }

    /// A request with the service's token and a JSON object.
    pub open spec fn call(self, method: Method, path: Seq<char>, fields: Fields<Seq<char>>) -> HttpRequest<
        Seq<char>,
    > {
        HttpRequest {
            method,
            url: self.homeserver + path,
            bearer: Some(self.as_token),
            body: Body::Json(Json::Object(fields)),
        }
    }

    /// The request that registers a virtual user.
    pub open spec fn registration(self, localpart: Seq<char>) -> HttpRequest<Seq<char>> {
        self.call(
            Method::Post,
            "/_matrix/client/v3/register"@,
            text_member(
                "type"@,
                "m.login.application_service"@,
                text_member("username"@, localpart, Fields::End),
            ),
        )
    }

    /// The request that logs a virtual user in.
    pub open spec fn session(self, localpart: Seq<char>) -> HttpRequest<Seq<char>> {
        self.call(
            Method::Post,
            "/_matrix/client/v3/login"@,
            text_member(
                "type"@,
                "m.login.application_service"@,
                member("identifier"@, user_identifier(localpart), Fields::End),
            ),
        )
    }

    /// The request that sets a virtual user's display name.
    pub open spec fn naming(self, localpart: Seq<char>, name: Seq<char>) -> HttpRequest<Seq<char>> {
        let user = encoded(self.mxid(localpart));
        self.call(
            Method::Put,
            "/_matrix/client/v3/profile/"@ + user + "/displayname?user_id="@ + user,
            text_member("displayname"@, name, Fields::End),
        )
    }

    /// The request that makes a virtual user join a room.
    pub open spec fn joining(self, localpart: Seq<char>, room_id: Seq<char>) -> HttpRequest<
        Seq<char>,
    > {
        self.call(
            Method::Post,
            "/_matrix/client/v3/rooms/"@ + encoded(room_id) + "/join?user_id="@ + encoded(
                self.mxid(localpart),
            ),
            Fields::End,
        )
    }

    /// The request that sends a text as a virtual user, under a transaction id.
    pub open spec fn sending(
        self,
        localpart: Seq<char>,
        room_id: Seq<char>,
        body: Seq<char>,
        txn: Seq<char>,
    ) -> HttpRequest<Seq<char>> {
        self.call(
            Method::Put,
            "/_matrix/client/v3/rooms/"@ + encoded(room_id) + "/send/m.room.message/"@ + encoded(
                txn,
            ) + "?user_id="@ + encoded(self.mxid(localpart)),
            text_member("msgtype"@, "m.text"@, text_member("body"@, body, Fields::End)),
        )
    }
}

impl AppService {
    /// Builds a client. `homeserver` is the client-server API base, `server_name`
    /// the domain part of user ids.
    pub fn new(homeserver: &str, as_token: &str, server_name: &str) -> (r: AppService)
        ensures
            r@ == (AppService {
                homeserver: trim_end(homeserver@, Class::Only('/')),
                as_token: as_token@,
                server_name: server_name@,
            }),
            r@ == AppService::<Seq<char>>::on(homeserver@, as_token@, server_name@),
    {
        AppService {
            homeserver: strip_end(homeserver, Class::Only('/')).to_owned(),
            as_token: as_token.to_owned(),
            server_name: server_name.to_owned(),
        }
    }

    /// The full id of the virtual user with this localpart.
    pub fn user_id(&self, localpart: &str) -> (r: String)
        ensures
            r@ == self@.mxid(localpart@),
    {
        "@".to_owned().concat(localpart).concat(":").concat(self.server_name.as_str())
    }

    fn request(&self, method: Method, path: &str, fields: Fields) -> (r: HttpRequest)
        ensures
            r@ == self@.call(method, path@, fields.model()),
    {
        HttpRequest {
            method,
            url: self.homeserver.as_str().to_owned().concat(path),
            bearer: Some(self.as_token.clone()),
            body: Body::Json(Json::Object(fields)),
        }
    }

    /// Registers a virtual user; [`register_outcome`] judges the reply.
    pub fn register(&self, localpart: &str) -> (r: HttpRequest)
        ensures
            r@ == self@.registration(localpart@),
    {
        let fields = Fields::End.with("username", Json::text(localpart)).with(
            "type",
            Json::text("m.login.application_service"),
        );
        self.request(Method::Post, "/_matrix/client/v3/register", fields)
    }

    /// Logs a virtual user in, to mint a device and its access token.
    pub fn login(&self, localpart: &str) -> (r: HttpRequest)
        ensures
            r@ == self@.session(localpart@),
    {
        let fields = Fields::End.with("identifier", identify(localpart)).with(
            "type",
            Json::text("m.login.application_service"),
        );
        self.request(Method::Post, "/_matrix/client/v3/login", fields)
    }

    /// Sets a virtual user's display name. The reply is judged by
    /// [`crate::http::check`] under the name `set_displayname`.
    pub fn set_displayname(&self, localpart: &str, name: &str) -> (r: HttpRequest)
        ensures
            r@ == self@.naming(localpart@, name@),
    {
        let user = enc(self.user_id(localpart).as_str());
        let path = "/_matrix/client/v3/profile/"
            .to_owned()
            .concat(user.as_str())
            .concat("/displayname?user_id=")
            .concat(user.as_str());
        let fields = Fields::End.with("displayname", Json::text(name));
        self.request(Method::Put, path.as_str(), fields)
    }

    /// Makes a virtual user join a room. The reply is judged by
    /// [`crate::http::check`] under the name `join_room`.
    pub fn join_room(&self, localpart: &str, room_id: &str) -> (r: HttpRequest)
        ensures
            r@ == self@.joining(localpart@, room_id@),
    {
        let user = enc(self.user_id(localpart).as_str());
        let path = "/_matrix/client/v3/rooms/"
            .to_owned()
            .concat(enc(room_id).as_str())
            .concat("/join?user_id=")
            .concat(user.as_str());
        self.request(Method::Post, path.as_str(), Fields::End)
    }

    /// Sends a text as a virtual user under a fresh transaction id. The reply is
    /// judged by [`crate::http::check`] under the name `send_text`.
    pub fn send_text(&self, localpart: &str, room_id: &str, body: &str) -> (r: HttpRequest)
        ensures
            exists|txn: Seq<char>|
                txn.len() == TRANSACTION_ID_LEN && spelled_in(ALPHABET@, txn) && r@
                    == #[trigger] self@.sending(localpart@, room_id@, body@, txn),
    {
        let txn = gen(TRANSACTION_ID_LEN);
        self.send_text_with(localpart, room_id, body, txn.as_str())
    }

    /// Sends a text as a virtual user under the transaction id `txn`.
    pub fn send_text_with(&self, localpart: &str, room_id: &str, body: &str, txn: &str) -> (r:
        HttpRequest)
        ensures
            r@ == self@.sending(localpart@, room_id@, body@, txn@),
    {
        let user = enc(self.user_id(localpart).as_str());
        let path = "/_matrix/client/v3/rooms/"
            .to_owned()
            .concat(enc(room_id).as_str())
            .concat("/send/m.room.message/")
            .concat(enc(txn).as_str())
            .concat("?user_id=")
            .concat(user.as_str());
        let fields = Fields::End.with("body", Json::text(body)).with(
            "msgtype",
            Json::text("m.text"),
        );
        self.request(Method::Put, path.as_str(), fields)
    }
}

/// Whether a virtual user is registered after this reply: it was registered, or
/// had been before.
pub open spec fn is_registered(code: u16, errcode: Option<Seq<char>>) -> bool {
    is_success(code) || errcode == Some("M_USER_IN_USE"@)
}

/// Judges the reply to a registration, given the error code that its body holds,
/// if it holds one: a user that exists already counts as a success.
pub fn register_outcome(localpart: &str, reply: &Reply, errcode: &Option<String>) -> (r: Result<
    (),
    String,
>)
    ensures
        match r {
            Ok(_) => is_registered(reply.code, crate::http::text_option(*errcode)),
            Err(e) => !is_registered(reply.code, crate::http::text_option(*errcode)) && e@
                == failure_text("register "@ + localpart@, reply.status@, reply.body@),
        },
{
    if success(reply.code) {
        return Ok(());
    }
    if let Some(code) = errcode {
        if same(code.as_str(), "M_USER_IN_USE") {
            return Ok(());
        }
    }
    crate::http::check("register ".to_owned().concat(localpart).as_str(), reply)
}

/// Every request authenticates with the service's token, and those that act for a
/// virtual user name it, encoded, as the last part of their address.
pub proof fn law_requests_masquerade(
    a: AppService<Seq<char>>,
    localpart: Seq<char>,
    room_id: Seq<char>,
    text: Seq<char>,
    txn: Seq<char>,
)
    ensures
        ({
            let as_user = "?user_id="@ + encoded(a.mxid(localpart));
            let naming = a.naming(localpart, text);
            let joining = a.joining(localpart, room_id);
            let sending = a.sending(localpart, room_id, text, txn);
            &&& a.registration(localpart).bearer == Some(a.as_token)
            &&& a.session(localpart).bearer == Some(a.as_token)
            &&& naming.bearer == Some(a.as_token) && as_user.is_suffix_of(naming.url)
            &&& joining.bearer == Some(a.as_token) && as_user.is_suffix_of(joining.url)
            &&& sending.bearer == Some(a.as_token) && as_user.is_suffix_of(sending.url)
        }),
{
    let as_user = "?user_id="@ + encoded(a.mxid(localpart));
    let naming = a.naming(localpart, text).url;
    let joining = a.joining(localpart, room_id).url;
    let sending = a.sending(localpart, room_id, text, txn).url;
    reveal_strlit("?user_id=");
    reveal_strlit("/displayname?user_id=");
    reveal_strlit("/join?user_id=");
    assert("/displayname?user_id="@ =~= "/displayname?user_id="@.take(12) + "?user_id="@);
    assert("/join?user_id="@ =~= "/join?user_id="@.take(5) + "?user_id="@);
    assert(as_user =~= naming.skip(naming.len() - as_user.len()));
    assert(as_user =~= joining.skip(joining.len() - as_user.len()));
    assert(as_user =~= sending.skip(sending.len() - as_user.len()));
}

/// A service keeps its token and its server name as they are given, and the base of the
/// API but for slashes at its end.
pub proof fn law_services_keep_what_they_are_given(
    homeserver: Seq<char>,
    as_token: Seq<char>,
    server_name: Seq<char>,
)
    ensures
        ({
            let a = AppService::<Seq<char>>::on(homeserver, as_token, server_name);
            &&& a.as_token == as_token && a.server_name == server_name
            &&& a.homeserver.is_prefix_of(homeserver)
            &&& a.homeserver.len() > 0 ==> a.homeserver.last() != '/'
            &&& forall|i: int|
                a.homeserver.len() <= i < homeserver.len() ==> #[trigger] homeserver[i] == '/'
        }),
{
    law_trimming(homeserver, Class::Only('/'));
    let a = AppService::<Seq<char>>::on(homeserver, as_token, server_name).homeserver;
    assert(a =~= homeserver.subrange(0, a.len() as int));
    assert forall|i: int| a.len() <= i < homeserver.len() implies #[trigger] homeserver[i] == '/' by {
        assert(Class::Only('/').has(homeserver[i]));
    }
}

} // verus!
