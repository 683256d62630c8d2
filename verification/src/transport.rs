//! The web socket connector of the transport: what it is made of and the
//! request with which it opens a connection.
use vstd::prelude::*;

use headers::HeaderMapExt;
use std::sync::Arc;

verus! {

/// What can go wrong while connecting.
#[derive(Debug)]
#[non_exhaustive]
pub enum Error {
    /// The web socket failed.
    Tungstenite(tungstenite::Error),
    /// The resolved bearer token cannot stand in an `Authorization` header.
    InvalidBearerToken(headers::authorization::InvalidBearerToken),
    /// An error raised by JavaScript, rendered as JSON.
    Js(String),
}

/// The characters `Js error: `, with which the message of a JavaScript
/// error begins.
pub open spec fn js_error_prefix() -> Seq<char> {
    seq!['J', 's', ' ', 'e', 'r', 'r', 'o', 'r', ':', ' ']
}

/// The text `InvalidBearerToken`, with which an invalid token displays.
pub open spec fn invalid_bearer_token_text() -> Seq<char> {
    seq![
        'I', 'n', 'v', 'a', 'l', 'i', 'd', 'B', 'e', 'a', 'r', 'e', 'r', 'T', 'o', 'k', 'e', 'n',
    ]
}

/// The text `unknown`, which stands for a JavaScript value that cannot be
/// rendered as JSON.
pub open spec fn unknown_js_text() -> Seq<char> {
    seq!['u', 'n', 'k', 'n', 'o', 'w', 'n']
}

impl Error {
    /// The error for a JavaScript value, from what rendering it as JSON gave:
    /// the JSON text, or `unknown` where the value could not be rendered.
    pub fn from_js_json(json: Option<String>) -> (e: Self)
        ensures
            match json {
                Some(text) => e == Error::Js(text),
                None => e matches Error::Js(text) && text@ == unknown_js_text() && text@ == seq![
                    'u',
                    'n',
                    'k',
                    'n',
                    'o',
                    'w',
                    'n',
                ],
            },
    {
        match json {
            Some(text) => Error::Js(text),
            None => {
                let unknown = "unknown";
                proof {
                    reveal_strlit("unknown");
                }
                Error::Js(String::from_str(unknown))
            },
        }
    }

    /// The error's message: that of the web socket error, the name
    /// `InvalidBearerToken`, or `Js error: ` followed by the JavaScript
    /// error. The web socket error's text is not stated.
    pub fn message(&self) -> (text: String)
        ensures
            match self {
                Error::Js(js) => text@ == js_error_prefix() + js@ && text@ == seq![
                    'J',
                    's',
                    ' ',
                    'e',
                    'r',
                    'r',
                    'o',
                    'r',
                    ':',
                    ' ',
                ] + js@,
                Error::InvalidBearerToken(_) => text@ == invalid_bearer_token_text(),
                Error::Tungstenite(_) => true,
            },
    {
        match self {
            Error::Tungstenite(e) => display_tungstenite_error(e),
            Error::InvalidBearerToken(e) => display_invalid_bearer_token(e),
            Error::Js(js) => {
                let prefix = "Js error: ";
                proof {
                    reveal_strlit("Js error: ");
                }
                let mut text = String::from_str(prefix);
                text.append(js.as_str());
                text
            },
        }
    }
}

/// `ToString::to_string` of a `tungstenite::Error`: its `Display` text,
/// which this library does not restate.
#[verifier::external_body]
fn display_tungstenite_error(e: &tungstenite::Error) -> String {
    e.to_string()
}

/// `ToString::to_string` of an `InvalidBearerToken`: its `Display` text,
/// which is the type's name (`headers`' `error_type!` writes
/// `stringify!($name)`).
#[verifier::external_body]
fn display_invalid_bearer_token(e: &headers::authorization::InvalidBearerToken) -> (text: String)
    ensures
        text@ == invalid_bearer_token_text(),
{
    e.to_string()
}

/// Whether `c` can stand in an HTTP header value: a tab, or any character
/// from the space on but DEL. A character beyond ASCII is encoded in UTF-8 by
/// bytes from 0x80 on, all of which a header value accepts.
pub open spec fn is_header_value_char(c: char) -> bool {
    c == '\t' || (32 <= (c as int) && (c as int) != 127)
}

/// Whether `Bearer <token>` is a valid header value, that is, whether every
/// character of the token can stand in one.
pub open spec fn bearer_token_is_valid(token: Seq<char>) -> bool {
    forall|i: int| 0 <= i < token.len() ==> #[trigger] is_header_value_char(token[i])
}

/// The characters `Bearer `, with which an `Authorization` header value for a
/// bearer token begins.
pub open spec fn bearer_prefix() -> Seq<char> {
    seq!['B', 'e', 'a', 'r', 'e', 'r', ' ']
}

/// The request that opens a connection, as plain values: a GET request for
/// `uri` with an empty body, carrying the header
/// `authorization: Bearer <bearer_token>` where there is a token, and no
/// other header.
pub struct ConnectRequest {
    pub uri: http::Uri,
    pub bearer_token: Option<String>,
}

impl ConnectRequest {
    /// The value of the request's `Authorization` header, if it has one.
    pub open spec fn authorization(&self) -> Option<Seq<char>> {
        match self.bearer_token {
            Some(token) => Some(bearer_prefix() + token@),
            None => None,
        }
    }

    /// Whether the request can be sent: it has no token, or its token can
    /// stand in the header.
    pub open spec fn is_valid(&self) -> bool {
        match self.bearer_token {
            Some(token) => bearer_token_is_valid(token@),
            None => true,
        }
    }

    /// The `http` request that this request describes: the opening request
    /// for its `uri`, with its `Authorization` header if it has a token.
    ///
    /// It fails with `InvalidBearerToken` exactly when the token cannot
    /// stand in the header, and in no other case.
    pub fn into_http_request(self) -> (res: Result<http::Request<()>, Error>)
        ensures
            res is Ok <==> self.is_valid(),
            res matches Ok(request) ==> request == opening_request(self.uri, self.authorization()),
            res matches Ok(request) ==> request == opening_request(
                self.uri,
                match self.bearer_token {
                    Some(token) => Some(bearer_prefix() + token@),
                    None => None,
                },
            ),
            res is Err ==> res matches Err(Error::InvalidBearerToken(_)),
    {
        match self.bearer_token {
            Some(token) => match bearer_get_request(self.uri, token.as_str()) {
                Ok(request) => Ok(request),
                Err(e) => Err(Error::InvalidBearerToken(e)),
            },
            None => Ok(get_request(self.uri)),
        }
    }
}

/// The request that `http::Request::get(uri)` followed by `Builder::body(())`
/// builds, with, where `authorization` is given, the one header
/// `authorization: <authorization>` put into its fresh header map by
/// `HeaderMapExt::typed_insert`: a GET request for `uri` with an empty body
/// and no other header. Building it is deterministic.
pub uninterp spec fn opening_request(uri: http::Uri, authorization: Option<Seq<char>>) -> http::Request<()>;

/// The `Authorization` header of a request that carries a token is
/// `Bearer ` followed by the whole token, and a request without a token has
/// no such header.
pub proof fn lemma_authorization_carries_whole_token(request: ConnectRequest)
    ensures
        request.bearer_token matches Some(token) ==> request.authorization() == Some(
            seq!['B', 'e', 'a', 'r', 'e', 'r', ' '] + token@,
        ),
        request.bearer_token matches Some(token) ==> request.authorization()->0.len() == 7
            + token@.len() && request.authorization()->0.subrange(7, 7 + token@.len() as int)
            == token@,
        request.bearer_token is None ==> request.authorization() is None,
        request.is_valid() == match request.bearer_token {
            Some(token) => bearer_token_is_valid(token@),
            None => true,
        },
{
    if let Some(token) = request.bearer_token {
        let a = seq!['B', 'e', 'a', 'r', 'e', 'r', ' '] + token@;
        assert(bearer_prefix() =~= seq!['B', 'e', 'a', 'r', 'e', 'r', ' ']);
        assert(a.subrange(7, 7 + token@.len() as int) =~= token@);
    }
}

/// Which tokens can stand in the header: a token of visible ASCII
/// characters, spaces and tabs can; one with a line break, another control
/// character below the space, or DEL cannot; and valid tokens stay valid
/// when joined.
pub proof fn lemma_bearer_token_validity(token: Seq<char>, other: Seq<char>)
    ensures
        (forall|i: int|
            0 <= i < token.len() ==> (token[i] == '\t' || (' ' <= #[trigger] token[i] && token[i]
                <= '~'))) ==> bearer_token_is_valid(token),
        (exists|i: int|
            0 <= i < token.len() && ((#[trigger] token[i] as int) < 32 && token[i] != '\t'))
            ==> !bearer_token_is_valid(token),
        (exists|i: int| 0 <= i < token.len() && #[trigger] token[i] == '\u{7f}')
            ==> !bearer_token_is_valid(token),
        bearer_token_is_valid(token) && bearer_token_is_valid(other) ==> bearer_token_is_valid(
            token + other,
        ),
        bearer_token_is_valid(Seq::<char>::empty()),
{
    if exists|i: int|
        0 <= i < token.len() && ((#[trigger] token[i] as int) < 32 && token[i] != '\t') {
        let i = choose|i: int|
            0 <= i < token.len() && ((#[trigger] token[i] as int) < 32 && token[i] != '\t');
        assert(!is_header_value_char(token[i]));
    }
    if exists|i: int| 0 <= i < token.len() && #[trigger] token[i] == '\u{7f}' {
        let i = choose|i: int| 0 <= i < token.len() && #[trigger] token[i] == '\u{7f}';
        assert(!is_header_value_char(token[i]));
    }
    if bearer_token_is_valid(token) && bearer_token_is_valid(other) {
        let joined = token + other;
        assert forall|i: int| 0 <= i < joined.len() implies #[trigger] is_header_value_char(
            joined[i],
        ) by {
            if i < token.len() {
                assert(joined[i] == token[i]);
            } else {
                assert(joined[i] == other[i - token.len()]);
            }
        }
    }
}

/// `http::Request::get(dst)` followed by `Builder::body(())`: a GET request
/// for `dst` with no headers and an empty body. Built from a `Uri`, neither
/// step can fail (the `Uri` and `Method` conversions are infallible), so the
/// `expect` never fires.
#[verifier::external_body]
fn get_request(dst: http::Uri) -> (request: http::Request<()>)
    ensures
        request == opening_request(dst, None),
{
    http::Request::get(dst).body(()).expect("a GET request for a Uri always builds")
}

/// `headers::Authorization::bearer(token)`, then a fresh GET request for
/// `dst` as in [`get_request`], into whose headers
/// `HeaderMapExt::typed_insert` puts the `Authorization` header.
///
/// It fails exactly when `Bearer <token>` is no valid header value; else it
/// returns the GET request for `dst` whose one header is
/// `authorization: Bearer <token>`. The header map that receives the header
/// is the fresh one of the new request, so the insertion cannot overflow it.
#[verifier::external_body]
fn bearer_get_request(dst: http::Uri, token: &str) -> (res: Result<
    http::Request<()>,
    headers::authorization::InvalidBearerToken,
>)
    ensures
        res is Ok <==> bearer_token_is_valid(token@),
        res matches Ok(request) ==> request == opening_request(
            dst,
            Some(bearer_prefix() + token@),
        ),
{
    let authorization = headers::Authorization::bearer(token)?;
    let mut request = http::Request::get(dst).body(()).expect(
        "a GET request for a Uri always builds",
    );
    request.headers_mut().typed_insert(authorization);
    Ok(request)
}

/// A source of bearer tokens: asked once for every connection.
pub trait ResolveBearerToken: Send + Sync {
    /// Whether the source may be asked for a token.
    spec fn can_resolve(&self) -> bool;

    /// Whether `token` is one that the source can hand out.
    spec fn resolves_to(&self, token: String) -> bool;

    fn resolve(&self) -> (token: String)
        requires
            self.can_resolve(),
        ensures
            self.resolves_to(token),
    ;
}

impl<F: Fn() -> String + Send + Sync> ResolveBearerToken for F {
    open spec fn can_resolve(&self) -> bool {
        call_requires(*self, ())
    }

    open spec fn resolves_to(&self, token: String) -> bool {
        call_ensures(*self, (), token)
    }

    fn resolve(&self) -> (token: String) {
        (self)()
    }
}

/// The closure of a connector, behind a pointer that all clones of the
/// connector share.
pub struct TokenResolver {
    resolver: Box<dyn ResolveBearerToken>,
}

impl TokenResolver {
    /// Whether the closure may be called.
    pub closed spec fn can_resolve(&self) -> bool {
        self.resolver.can_resolve()
    }

    /// Whether `token` is one that the closure can return.
    pub closed spec fn resolves_to(&self, token: String) -> bool {
        self.resolver.resolves_to(token)
    }

    /// A token from the closure.
    fn resolve(&self) -> (token: String)
        requires
            self.can_resolve(),
        ensures
            self.resolves_to(token),
    {
        self.resolver.resolve()
    }
}

/// `Box::new` of the closure, seen as a token source: calling through the
/// box calls the closure.
#[verifier::external_body]
fn box_resolver<F: Fn() -> String + Send + Sync + 'static>(resolver: F) -> (boxed: TokenResolver)
    ensures
        boxed.can_resolve() == call_requires(resolver, ()),
        forall|token: String| boxed.resolves_to(token) == call_ensures(resolver, (), token),
{
    TokenResolver { resolver: Box::new(resolver) }
}

/// Connects to web sockets, with a bearer token in the opening request where
/// it was made with a token resolver.
pub struct WsConnector {
    resolve_bearer_token: Option<Arc<TokenResolver>>,
}

impl Clone for WsConnector {
    /// A connector that shares the token resolver of this one.
    fn clone(&self) -> (copy: Self)
        ensures
            copy.has_bearer_resolver() == self.has_bearer_resolver(),
            forall|token: String| copy.resolves_to(token) == self.resolves_to(token),
    {
        proof {
            use_type_invariant(self);
        }
        match &self.resolve_bearer_token {
            Some(resolver) => WsConnector { resolve_bearer_token: Some(resolver.clone()) },
            None => WsConnector { resolve_bearer_token: None },
        }
    }
}

impl Default for WsConnector {
    fn default() -> (connector: Self)
        ensures
            !connector.has_bearer_resolver(),
    {
        WsConnector { resolve_bearer_token: None }
    }
}

impl WsConnector {
    /// The resolver may always be called.
    #[verifier::type_invariant]
    spec fn resolver_callable(self) -> bool {
        match self.resolve_bearer_token {
            Some(resolver) => resolver.can_resolve(),
            None => true,
        }
    }

    /// Whether the connector was made with a token resolver.
    pub closed spec fn has_bearer_resolver(&self) -> bool {
        self.resolve_bearer_token is Some
    }

    /// Whether `token` is one that the connector's resolver can hand out.
    pub closed spec fn resolves_to(&self, token: String) -> bool {
        match self.resolve_bearer_token {
            Some(resolver) => resolver.resolves_to(token),
            None => false,
        }
    }

    /// A connector that sends no bearer token.
    pub fn new() -> (connector: Self)
        ensures
            !connector.has_bearer_resolver(),
    {
        Self::default()
    }

    /// A connector that calls `resolve_token` for a bearer token each time
    /// it connects.
    pub fn with_bearer_resolver(resolve_token: impl Fn() -> String + Send + Sync + 'static) -> (connector: Self)
        requires
            call_requires(resolve_token, ()),
        ensures
            connector.has_bearer_resolver(),
            forall|token: String| connector.resolves_to(token) == call_ensures(resolve_token, (), token),
    {
        WsConnector { resolve_bearer_token: Some(Arc::new(box_resolver(resolve_token))) }
    }

    /// The request with which the connector opens a connection to `dst`: a
    /// GET request for `dst`, carrying a token that the resolver returns when
    /// called now, or no token where there is no resolver.
    pub fn connect_request(&self, dst: http::Uri) -> (request: ConnectRequest)
        ensures
            request.uri == dst,
            request.bearer_token is Some <==> self.has_bearer_resolver(),
            request.bearer_token matches Some(token) ==> self.resolves_to(token),
    {
        proof {
            use_type_invariant(self);
        }
        match &self.resolve_bearer_token {
            Some(resolver) => {
                let token = resolver.resolve();
                ConnectRequest { uri: dst, bearer_token: Some(token) }
            },
            None => ConnectRequest { uri: dst, bearer_token: None },
        }
    }
}

/// What the server learns of a web socket connection: nothing beyond its
/// existence.
#[derive(Clone)]
#[non_exhaustive]
pub struct WsConnectionInfo {}

impl Default for WsConnectionInfo {
    fn default() -> (info: Self)
        ensures
            info == (WsConnectionInfo {}),
    {
        WsConnectionInfo {}
    }
}

} // verus!
