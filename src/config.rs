//! Client configuration: server address, timeouts, security and compression.

use vstd::prelude::*;
use std::str::FromStr;
use std::time::Duration;
use tonic::transport::Uri;
use crate::error::Error;

verus! {

#[verifier::external_type_specification]
#[verifier::external_body]
pub struct ExUri(Uri);

/// The duration of `secs` whole seconds.
pub uninterp spec fn seconds(secs: u64) -> Duration;

/// Relies on `Duration::from_secs`: a duration of whole seconds, which depends on
/// the count alone.
pub assume_specification[ Duration::from_secs ](secs: u64) -> (r: Duration)
    ensures
        r == seconds(secs),
;

/// Relies on `Duration`'s `Clone`, a plain copy.
pub assume_specification[ <Duration as Clone>::clone ](d: &Duration) -> (r: Duration)
    ensures
        r == *d,
;

/// The scheme that an address names, if any.
pub uninterp spec fn scheme_of(uri: Uri) -> Option<Seq<char>>;

/// Whether a text parses as an address.
pub uninterp spec fn parses_as_uri(s: Seq<char>) -> bool;

/// The address that a text parses to.
pub uninterp spec fn uri_of(s: Seq<char>) -> Uri;

/// The text of an address.
pub uninterp spec fn uri_text(uri: Uri) -> Seq<char>;

/// The characters of an optional text.
pub open spec fn scheme_view(scheme: Option<&str>) -> Option<Seq<char>> {
    match scheme {
        Some(s) => Some(s@),
        None => None,
    }
}

/// Relies on `http::Uri::scheme_str`: the scheme of the address, if it names one,
/// which depends on the address alone.
pub assume_specification[ Uri::scheme_str ](uri: &Uri) -> (r: Option<&str>)
    ensures
        scheme_view(r) == scheme_of(*uri),
;

/// Relies on `http::Uri`'s `Default`: the address `/`, which never fails.
pub assume_specification[ <Uri as core::default::Default>::default ]() -> Uri;

/// Relies on `http::Uri`'s `Clone`.
pub assume_specification[ <Uri as Clone>::clone ](uri: &Uri) -> Uri;

/// Relies on `http::Uri`'s `FromStr`: parses an address, keeping the parser's
/// message where it fails; the outcome depends on the text alone.
#[verifier::external_body]
pub(crate) fn parse_uri(s: &str) -> (r: Result<Uri, String>)
    ensures
        r is Ok <==> parses_as_uri(s@),
        r matches Ok(u) ==> u == uri_of(s@),
{
    Uri::from_str(s).map_err(|e| e.to_string())
}

/// Relies on `http::Uri`'s `Display` (through `ToString`): the text of an address,
/// which depends on the address alone.
#[verifier::external_body]
pub(crate) fn uri_to_string(uri: &Uri) -> (r: String)
    ensures
        r@ == uri_text(*uri),
{
    uri.to_string()
}

/// Compression applied to outbound messages and accepted on inbound ones.
#[derive(Clone, Copy, Debug, PartialEq, Eq, Structural)]
pub enum CompressionEncoding {
    Gzip,
    Zstd,
}

/// A value that stands for a timeout: a `Duration`, or whole seconds.
pub trait AsTimeout: Sized {
    /// The duration this value stands for.
    spec fn as_duration(&self) -> Duration;

    fn timeout(self) -> (r: Duration)
        ensures
            r == self.as_duration(),
    ;
}

impl AsTimeout for Duration {
    open spec fn as_duration(&self) -> Duration {
        *self
    }

    fn timeout(self) -> (r: Duration) {
        self
    }
}

impl AsTimeout for u64 {
    open spec fn as_duration(&self) -> Duration {
        seconds(*self)
    }

    fn timeout(self) -> (r: Duration) {
        Duration::from_secs(self)
    }
}

/// How to reach a server, and the settings of the connection.
#[derive(Clone, Debug)]
pub struct InferenceServerClientConfig {
    /// Server address to connect to.
    pub uri: Uri,
    /// Timeout of each request.
    pub timeout: Duration,
    /// Whether to use a secure connection where the address names no scheme.
    pub tls: bool,
    /// Timeout of establishing the connection.
    pub connect_timeout: Duration,
    /// Whether to keep an idle connection alive.
    pub keep_alive_while_idle: bool,
    /// How long an idle connection stays open.
    pub keep_alive_timeout: Duration,
    /// Compression of messages, if any.
    pub compression: Option<CompressionEncoding>,
}

/// Whether `c` carries the default settings: 30 s per request, 5 s to connect,
/// keep-alive on for 20 s, TLS off, no compression.
pub open spec fn default_settings(c: InferenceServerClientConfig) -> bool {
    &&& c.timeout == seconds(30)
    &&& c.connect_timeout == seconds(5)
    &&& c.keep_alive_while_idle
    &&& c.keep_alive_timeout == seconds(20)
    &&& !c.tls
    &&& c.compression is None
}

impl InferenceServerClientConfig {
    /// The configuration with default settings for the server at `uri`.
    pub fn with_uri(uri: Uri) -> (r: Self)
        ensures
            r.uri == uri,
            default_settings(r),
    {
        InferenceServerClientConfig {
            uri,
            timeout: Duration::from_secs(30),
            tls: false,
            connect_timeout: Duration::from_secs(5),
            keep_alive_while_idle: true,
            keep_alive_timeout: Duration::from_secs(20),
            compression: None,
        }
    }

    /// The configuration with default settings for the server at `uri`; fails
    /// where the address does not parse.
    pub fn from_uri(uri: &str) -> (r: Result<Self, Error>)
        ensures
            r is Ok <==> parses_as_uri(uri@),
            r matches Ok(c) ==> default_settings(c) && c.uri == uri_of(uri@),
            r matches Err(e) ==> e is InvalidUri,
    {
        match parse_uri(uri) {
            Ok(u) => Ok(Self::with_uri(u)),
            Err(msg) => Err(Error::InvalidUri(msg)),
        }
    }

    pub fn timeout<T: AsTimeout>(self, timeout: T) -> (r: Self)
        ensures
            r == (Self { timeout: timeout.as_duration(), ..self }),
    {
        let mut c = self;
        c.set_timeout(timeout);
        c
    }

    pub fn tls(self, tls: bool) -> (r: Self)
        ensures
            r == (Self { tls, ..self }),
    {
        let mut c = self;
        c.set_tls(tls);
        c
    }

    pub fn connection_timeout<T: AsTimeout>(self, timeout: T) -> (r: Self)
        ensures
            r == (Self { connect_timeout: timeout.as_duration(), ..self }),
    {
        let mut c = self;
        c.set_connection_timeout(timeout);
        c
    }

    pub fn keep_alive_while_idle(self, keep_alive_while_idle: bool) -> (r: Self)
        ensures
            r == (Self { keep_alive_while_idle, ..self }),
    {
        let mut c = self;
        c.set_keep_alive_while_idle(keep_alive_while_idle);
        c
    }

    pub fn keep_alive_timeout<T: AsTimeout>(self, keep_alive_timeout: T) -> (r: Self)
        ensures
            r == (Self { keep_alive_timeout: keep_alive_timeout.as_duration(), ..self }),
    {
        let mut c = self;
        c.set_keep_alive_timeout(keep_alive_timeout);
        c
    }

    pub fn compression(self, compression: Option<CompressionEncoding>) -> (r: Self)
        ensures
            r == (Self { compression, ..self }),
    {
        let mut c = self;
        c.set_compression(compression);
        c
    }

    pub fn set_timeout<T: AsTimeout>(&mut self, timeout: T)
        ensures
            *final(self) == (Self { timeout: timeout.as_duration(), ..*old(self) }),
    {
        self.timeout = timeout.timeout();
    }

    pub fn set_tls(&mut self, tls: bool)
        ensures
            *final(self) == (Self { tls, ..*old(self) }),
    {
        self.tls = tls;
    }

    pub fn set_connection_timeout<T: AsTimeout>(&mut self, timeout: T)
        ensures
            *final(self) == (Self { connect_timeout: timeout.as_duration(), ..*old(self) }),
    {
        self.connect_timeout = timeout.timeout();
    }

    pub fn set_keep_alive_while_idle(&mut self, keep_alive_while_idle: bool)
        ensures
            *final(self) == (Self { keep_alive_while_idle, ..*old(self) }),
    {
        self.keep_alive_while_idle = keep_alive_while_idle;
    }

    pub fn set_keep_alive_timeout<T: AsTimeout>(&mut self, keep_alive_timeout: T)
        ensures
            *final(self) == (Self { keep_alive_timeout: keep_alive_timeout.as_duration(), ..*old(self) }),
    {
        self.keep_alive_timeout = keep_alive_timeout.timeout();
    }

    pub fn set_compression(&mut self, compression: Option<CompressionEncoding>)
        ensures
            *final(self) == (Self { compression, ..*old(self) }),
    {
        self.compression = compression;
    }
}

impl Default for InferenceServerClientConfig {
    /// Default settings for a server on the local machine, port 8001.
    fn default() -> (r: Self)
        ensures
            default_settings(r),
            parses_as_uri("localhost:8001"@) ==> r.uri == uri_of("localhost:8001"@),
    {
        let uri = match parse_uri("localhost:8001") {
            Ok(u) => u,
            Err(_) => Uri::default(),
        };
        Self::with_uri(uri)
    }
}

} // verus!
