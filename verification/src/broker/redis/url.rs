//! Where a Redis broker is.

use vstd::prelude::*;
use vstd::string::*;

use crate::error::BrokerError;
use crate::text::{int_text, nat_text, opt_text, unsigned_text};

verus! {

/// The client of the `redis` crate, carried as it comes.
#[verifier::external_type_specification]
#[verifier::external_body]
pub struct ExRedisClient(::redis::Client);

/// The parts of a Redis URL.
#[derive(Debug, PartialEq, Eq)]
pub struct RedisUrl {
    pub scheme: String,
    pub username: String,
    pub host: Option<String>,
    pub port: Option<u16>,
    pub path: String,
}

/// The model of a [`RedisUrl`].
pub struct UrlView {
    pub scheme: Seq<char>,
    pub username: Seq<char>,
    pub host: Option<Seq<char>>,
    pub port: Option<u16>,
    pub path: Seq<char>,
}

impl View for RedisUrl {
    type V = UrlView;

    open spec fn view(&self) -> UrlView {
        UrlView {
            scheme: self.scheme@,
            username: self.username@,
            host: opt_text(self.host),
            port: self.port,
            path: self.path@,
        }
    }
}

/// What a text is as a Redis URL, if it is one.
pub uninterp spec fn redis_url_of(text: Seq<char>) -> Option<UrlView>;

/// The model of an optional URL.
pub open spec fn opt_url(url: Option<RedisUrl>) -> Option<UrlView> {
    match url {
        Some(u) => Some(u@),
        None => None,
    }
}

/// Calls `redis::parse_redis_url` and takes the URL apart.
///
/// Trusted: the parts are a function of the text alone, and there are none where the text is
/// no Redis URL.
#[verifier::external_body]
fn parse_url(text: &str) -> (r: Option<RedisUrl>)
    ensures
        opt_url(r) == redis_url_of(text@),
{
    ::redis::parse_redis_url(text).map(|url| RedisUrl {
        scheme: url.scheme().to_string(),
        username: url.username().to_string(),
        host: url.host_str().map(|host| host.to_string()),
        port: url.port(),
        path: url.path().to_string(),
    })
}

/// The client that `redis::Client::open` makes for a text, if it makes one.
pub uninterp spec fn client_for(text: Seq<char>) -> Option<::redis::Client>;

/// Whether a URL is that of a server that is reached over TCP without encryption.
pub open spec fn plain_tcp(url: Option<UrlView>) -> bool {
    url matches Some(u) && (u.scheme == "redis"@ || u.scheme == "valkey"@)
}

/// Calls `redis::Client::open`.
///
/// Trusted: a client comes only for a Redis URL, and is a function of the text alone. For a
/// server that is reached over TCP without encryption, the text alone decides whether a client
/// comes. For the other schemes that also depends on what the `redis` crate was built with and
/// for, so nothing is said of when one comes.
#[verifier::external_body]
fn open_client(text: &str) -> (r: Result<::redis::Client, ::redis::RedisError>)
    ensures
        r is Ok ==> redis_url_of(text@) is Some,
        r matches Ok(client) ==> client_for(text@) == Some(client),
        plain_tcp(redis_url_of(text@)) ==> (r is Ok <==> client_for(text@) is Some),
{
    ::redis::Client::open(text)
}

/// Whether something can be shown of what a text is as a URL: a URL has a host and a port.
pub open spec fn showable(url: Option<UrlView>) -> bool {
    url matches Some(u) ==> u.host is Some && u.port is Some
}

/// What may be shown of a URL: everything but the password and the query. Of a text that is
/// no URL it is nothing.
pub open spec fn shown(url: Option<UrlView>) -> Seq<char> {
    match url {
        Some(u) => u.scheme + "://"@ + u.username + ":***@"@ + u.host->0 + ":"@ + nat_text(
            u.port->0 as int,
        ) + "/"@ + u.path,
        None => Seq::empty(),
    }
}

/// A URL, taken apart, in a form that may be shown.
pub fn show(url: &Option<RedisUrl>) -> (r: Option<String>)
    ensures
        match r {
            Some(text) => showable(opt_url(*url)) && text@ == shown(opt_url(*url)),
            None => !showable(opt_url(*url)),
        },
{
    match url {
        Some(url) => match (&url.host, url.port) {
            (Some(host), Some(port)) => {
                let port = unsigned_text(port as u64);
                Some(
                    url.scheme.clone().concat("://").concat(url.username.as_str()).concat(
                        ":***@",
                    ).concat(host.as_str()).concat(":").concat(port.as_str()).concat("/").concat(
                        url.path.as_str(),
                    ),
                )
            },
            _ => None,
        },
        None => {
            proof {
                reveal_strlit("");
                assert(""@ =~= Seq::<char>::empty());
            }
            Some("".to_owned())
        },
    }
}

/// A broker URL in a form that may be shown.
pub fn safe_url(broker_url: &str) -> (r: String)
    requires
        showable(redis_url_of(broker_url@)),
    ensures
        r@ == shown(redis_url_of(broker_url@)),
{
    match show(&parse_url(broker_url)) {
        Some(text) => text,
        None => {
            assert(false);
            "".to_owned()
        },
    }
}

/// A broker URL in a form that may be shown, if there is one.
pub fn try_safe_url(broker_url: &str) -> (r: Option<String>)
    ensures
        match r {
            Some(text) => showable(redis_url_of(broker_url@)) && text@ == shown(
                redis_url_of(broker_url@),
            ),
            None => !showable(redis_url_of(broker_url@)),
        },
{
    if show(&parse_url(broker_url)).is_some() {
        Some(safe_url(broker_url))
    } else {
        None
    }
}

/// What becomes of opening a client for a URL, given what came of it. A failure is an error
/// that holds what may be shown of the URL; it is absent where nothing can be shown.
pub fn connected<C, E>(url: &Option<RedisUrl>, opened: Result<C, E>) -> (r: Result<
    C,
    Option<BrokerError>,
>)
    ensures
        match opened {
            Ok(client) => r == Ok::<C, Option<BrokerError>>(client),
            Err(_) => if showable(opt_url(*url)) {
                r matches Err(Some(BrokerError::InvalidBrokerUrl(text))) && text@ == shown(
                    opt_url(*url),
                )
            } else {
                r matches Err(None)
            },
        },
{
    match opened {
        Ok(client) => Ok(client),
        Err(_) => match show(url) {
            Some(text) => Err(Some(BrokerError::InvalidBrokerUrl(text))),
            None => Err(None),
        },
    }
}

/// Opens a client for a broker URL. A failure is an error that holds what may be shown of the
/// URL; it is absent where nothing can be shown. A text that is no Redis URL always fails, and
/// a URL of a server that is reached over TCP without encryption fails only where no client
/// can be made for it.
pub fn connect(uri: &str) -> (r: Result<::redis::Client, Option<BrokerError>>)
    ensures
        match r {
            Ok(client) => redis_url_of(uri@) is Some && client_for(uri@) == Some(client),
            Err(Some(BrokerError::InvalidBrokerUrl(text))) => showable(redis_url_of(uri@))
                && text@ == shown(redis_url_of(uri@)),
            Err(Some(_)) => false,
            Err(None) => !showable(redis_url_of(uri@)),
        },
        plain_tcp(redis_url_of(uri@)) ==> (r is Ok <==> client_for(uri@) is Some),
{
    let opened = open_client(uri);
    connected(&parse_url(uri), opened)
}

/// What is shown of a URL names its scheme, user, host, port and path, in this order, each whole
/// and in its place, with stars where the password was. It can be shown if and only if the host
/// and the port are there. Of a text that is no URL nothing is shown.
pub proof fn shown_names_the_server(url: UrlView)
    ensures
        showable(None),
        shown(None).len() == 0,
        showable(Some(url)) <==> url.host is Some && url.port is Some,
        showable(Some(url)) ==> {
            let login = url.scheme + "://"@ + url.username + ":***@"@;
            let server = url.host->0 + ":"@ + int_text(url.port->0 as int);
            let text = shown(Some(url));
            &&& text.len() == login.len() + server.len() + 1 + url.path.len()
            &&& text.take(login.len() as int) == login
            &&& text.subrange(login.len() as int, (login.len() + server.len()) as int) == server
            &&& text[(login.len() + server.len()) as int] == '/'
            &&& text.skip((login.len() + server.len() + 1) as int) == url.path
        },
{
    if showable(Some(url)) {
        reveal_strlit("/");
        let login = url.scheme + "://"@ + url.username + ":***@"@;
        let server = url.host->0 + ":"@ + int_text(url.port->0 as int);
        let text = shown(Some(url));
        assert(text =~= login + server + "/"@ + url.path);
        assert(text.take(login.len() as int) =~= login);
        assert(text.subrange(login.len() as int, (login.len() + server.len()) as int) =~= server);
        assert(text.skip((login.len() + server.len() + 1) as int) =~= url.path);
    }
}

} // verus!
