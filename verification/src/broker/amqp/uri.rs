//! Where an AMQP broker is, and how to log in.

use std::str::FromStr;

use lapin::uri::{AMQPScheme, AMQPUri, SASLMechanism};
use vstd::prelude::*;
use vstd::string::*;

use crate::error::BrokerError;
use crate::text::{int_text, nat_text, unsigned_text};

verus! {

/// The scheme of an AMQP URI.
#[derive(Clone, Copy, Debug, PartialEq, Eq)]
pub enum Scheme {
    AMQP,
    AMQPS,
}

/// How to log in.
#[derive(Clone, Copy, Debug, PartialEq, Eq)]
pub enum AuthMechanism {
    AMQPlain,
    External,
    Plain,
    RabbitCrDemo,
}

/// The parts of an AMQP URI.
#[derive(Debug, PartialEq, Eq)]
pub struct BrokerUri {
    pub scheme: Scheme,
    pub username: String,
    pub password: String,
    pub host: String,
    pub port: u16,
    pub vhost: String,
    pub frame_max: Option<u32>,
    pub channel_max: Option<u16>,
    /// The time between two heartbeats in seconds.
    pub heartbeat: Option<u16>,
    /// How long to wait for the connection, in milliseconds.
    pub connection_timeout: Option<u64>,
    pub auth_mechanism: Option<AuthMechanism>,
}

/// The model of a [`BrokerUri`].
pub struct UriView {
    pub scheme: Scheme,
    pub username: Seq<char>,
    pub password: Seq<char>,
    pub host: Seq<char>,
    pub port: u16,
    pub vhost: Seq<char>,
    pub frame_max: Option<u32>,
    pub channel_max: Option<u16>,
    pub heartbeat: Option<u16>,
    pub connection_timeout: Option<u64>,
    pub auth_mechanism: Option<AuthMechanism>,
}

impl View for BrokerUri {
    type V = UriView;

    open spec fn view(&self) -> UriView {
        UriView {
            scheme: self.scheme,
            username: self.username@,
            password: self.password@,
            host: self.host@,
            port: self.port,
            vhost: self.vhost@,
            frame_max: self.frame_max,
            channel_max: self.channel_max,
            heartbeat: self.heartbeat,
            connection_timeout: self.connection_timeout,
            auth_mechanism: self.auth_mechanism,
        }
    }
}

impl Clone for BrokerUri {
    fn clone(&self) -> (r: Self)
        ensures
            r@ == self@,
    {
        BrokerUri {
            scheme: self.scheme,
            username: self.username.clone(),
            password: self.password.clone(),
            host: self.host.clone(),
            port: self.port,
            vhost: self.vhost.clone(),
            frame_max: self.frame_max,
            channel_max: self.channel_max,
            heartbeat: self.heartbeat,
            connection_timeout: self.connection_timeout,
            auth_mechanism: self.auth_mechanism,
        }
    }
}

/// What a text is as an AMQP URI, if it is one.
pub uninterp spec fn uri_of(text: Seq<char>) -> Option<UriView>;

/// The model of an optional URI.
pub open spec fn opt_uri(uri: Option<BrokerUri>) -> Option<UriView> {
    match uri {
        Some(u) => Some(u@),
        None => None,
    }
}

/// Calls `AMQPUri::from_str` and takes the URI apart.
///
/// Trusted: the parts are a function of the text alone, and there are none where the text is
/// no AMQP URI.
#[verifier::external_body]
fn parse_uri(text: &str) -> (r: Option<BrokerUri>)
    ensures
        opt_uri(r) == uri_of(text@),
{
    AMQPUri::from_str(text).ok().map(|uri| BrokerUri {
        scheme: match uri.scheme { AMQPScheme::AMQP => Scheme::AMQP, AMQPScheme::AMQPS => Scheme::AMQPS },
        username: uri.authority.userinfo.username, password: uri.authority.userinfo.password,
        host: uri.authority.host, port: uri.authority.port, vhost: uri.vhost,
        frame_max: uri.query.frame_max, channel_max: uri.query.channel_max,
        heartbeat: uri.query.heartbeat, connection_timeout: uri.query.connection_timeout,
        auth_mechanism: uri.query.auth_mechanism.map(|mechanism| match mechanism {
            SASLMechanism::AMQPlain => AuthMechanism::AMQPlain,
            SASLMechanism::External => AuthMechanism::External,
            SASLMechanism::Plain => AuthMechanism::Plain,
            SASLMechanism::RabbitCrDemo => AuthMechanism::RabbitCrDemo,
        }),
    })
}

/// The name of a scheme.
pub open spec fn scheme_name(scheme: Scheme) -> Seq<char> {
    match scheme {
        Scheme::AMQP => "amqp"@,
        Scheme::AMQPS => "amqps"@,
    }
}

/// What may be shown of a URI: everything but the password and the query.
pub open spec fn shown(uri: UriView) -> Seq<char> {
    scheme_name(uri.scheme) + "://"@ + uri.username + ":***@"@ + uri.host + ":"@ + nat_text(
        uri.port as int,
    ) + "/"@ + uri.vhost
}

/// A URI in a form that may be shown.
pub fn safe_url(uri: &BrokerUri) -> (r: String)
    ensures
        r@ == shown(uri@),
{
    let scheme = match uri.scheme {
        Scheme::AMQP => "amqp",
        Scheme::AMQPS => "amqps",
    };
    let port = unsigned_text(uri.port as u64);
    scheme.to_owned().concat("://").concat(uri.username.as_str()).concat(":***@").concat(
        uri.host.as_str(),
    ).concat(":").concat(port.as_str()).concat("/").concat(uri.vhost.as_str())
}

/// What is shown of a URI says nothing about its password: another password gives the same
/// text.
pub proof fn shown_hides_the_password(uri: UriView, password: Seq<char>)
    ensures
        shown(UriView { password, ..uri }) == shown(uri),
{
}

impl BrokerUri {
    /// The URI to connect to first.
    pub open spec fn for_connection(uri: UriView, heartbeat: Option<u16>, timeout: u32) -> UriView {
        UriView { heartbeat, connection_timeout: Some((timeout * 1000) as u64), ..uri }
    }

    /// The URI to connect to again. The number is handed on as the time to wait unscaled.
    pub open spec fn for_reconnection(uri: UriView, timeout: u32) -> UriView {
        UriView { connection_timeout: Some(timeout as u64), ..uri }
    }

    /// Reads the URI to connect to from a text, with the heartbeat in seconds that is asked
    /// for and the time to wait in seconds. A text that is no AMQP URI is an error that holds
    /// the text.
    pub fn connecting(text: &str, heartbeat: Option<u16>, connection_timeout: u32) -> (r: Result<
        BrokerUri,
        BrokerError,
    >)
        ensures
            match uri_of(text@) {
                Some(uri) => r matches Ok(out) && out@ == Self::for_connection(
                    uri,
                    heartbeat,
                    connection_timeout,
                ),
                None => r matches Err(BrokerError::InvalidBrokerUrl(url)) && url@ == text@,
            },
    {
        match parse_uri(text) {
            Some(uri) => Ok(uri.with_connection(heartbeat, connection_timeout)),
            None => Err(BrokerError::InvalidBrokerUrl(text.to_owned())),
        }
    }

    /// The URI with the heartbeat in seconds that is asked for and the time to wait in
    /// seconds.
    pub fn with_connection(self, heartbeat: Option<u16>, connection_timeout: u32) -> (r: BrokerUri)
        ensures
            r@ == Self::for_connection(self@, heartbeat, connection_timeout),
    {
        BrokerUri {
            heartbeat,
            connection_timeout: Some(connection_timeout as u64 * 1000),
            ..self
        }
    }

    /// The URI to connect to again. The number given is handed on unscaled as the time to
    /// wait, which the connection counts in milliseconds.
    pub fn with_reconnection(self, connection_timeout: u32) -> (r: BrokerUri)
        ensures
            r@ == Self::for_reconnection(self@, connection_timeout),
    {
        BrokerUri { connection_timeout: Some(connection_timeout as u64), ..self }
    }
}

/// However often a broker connects, what is shown of its URI stays the same.
pub proof fn connecting_shows_the_same(uri: UriView, heartbeat: Option<u16>, timeout: u32)
    ensures
        shown(BrokerUri::for_connection(uri, heartbeat, timeout)) == shown(uri),
        shown(BrokerUri::for_reconnection(uri, timeout)) == shown(uri),
{
}

/// Connecting sets the heartbeat that is asked for and the time to wait, which is the seconds
/// given in milliseconds. Connecting again sets the number given alone. Everything else of the
/// URI is as it was, so that the same server is reached with the same credentials.
pub proof fn connecting_keeps_the_server(uri: UriView, heartbeat: Option<u16>, timeout: u32)
    ensures
        ({
            let first = BrokerUri::for_connection(uri, heartbeat, timeout);
            let again = BrokerUri::for_reconnection(uri, timeout);
            &&& first.heartbeat == heartbeat
            &&& first.connection_timeout matches Some(ms) && ms == timeout * 1000
            &&& again.heartbeat == uri.heartbeat
            &&& again.connection_timeout matches Some(n) && n == timeout
            &&& first.scheme == uri.scheme && again.scheme == uri.scheme
            &&& first.username == uri.username && again.username == uri.username
            &&& first.password == uri.password && again.password == uri.password
            &&& first.host == uri.host && again.host == uri.host
            &&& first.port == uri.port && again.port == uri.port
            &&& first.vhost == uri.vhost && again.vhost == uri.vhost
            &&& first.frame_max == uri.frame_max && again.frame_max == uri.frame_max
            &&& first.channel_max == uri.channel_max && again.channel_max == uri.channel_max
            &&& first.auth_mechanism == uri.auth_mechanism && again.auth_mechanism
                == uri.auth_mechanism
        }),
{
}

/// What is shown of a URI names the scheme, the user, the host, the port and the virtual host, in
/// this order, each whole and in its place, with stars where the password was.
pub proof fn shown_names_the_server(uri: UriView)
    ensures
        ({
            let scheme = if uri.scheme is AMQP {
                "amqp://"@
            } else {
                "amqps://"@
            };
            let login = scheme + uri.username + ":***@"@;
            let server = uri.host + ":"@ + int_text(uri.port as int);
            let text = shown(uri);
            &&& text.len() == login.len() + server.len() + 1 + uri.vhost.len()
            &&& text.take(login.len() as int) == login
            &&& text.subrange(login.len() as int, (login.len() + server.len()) as int) == server
            &&& text[(login.len() + server.len()) as int] == '/'
            &&& text.skip((login.len() + server.len() + 1) as int) == uri.vhost
        }),
{
    reveal_strlit("amqp");
    reveal_strlit("amqps");
    reveal_strlit("://");
    reveal_strlit("amqp://");
    reveal_strlit("amqps://");
    reveal_strlit("/");
    assert("amqp"@ + "://"@ =~= "amqp://"@);
    assert("amqps"@ + "://"@ =~= "amqps://"@);
    let scheme = if uri.scheme is AMQP {
        "amqp://"@
    } else {
        "amqps://"@
    };
    let login = scheme + uri.username + ":***@"@;
    let server = uri.host + ":"@ + int_text(uri.port as int);
    let text = shown(uri);
    assert(text =~= login + server + "/"@ + uri.vhost);
    assert(text.take(login.len() as int) =~= login);
    assert(text.subrange(login.len() as int, (login.len() + server.len()) as int) =~= server);
    assert(text.skip((login.len() + server.len() + 1) as int) =~= uri.vhost);
}

} // verus!
