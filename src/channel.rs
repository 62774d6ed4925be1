//! The connection pool: when to connect, reuse, discard and retry.

use vstd::prelude::*;
use vstd::string::*;
use std::time::Duration;
use tonic::transport::Uri;
use crate::config::{
    parse_uri, parses_as_uri, scheme_of, scheme_view, uri_of, uri_text, uri_to_string,
    InferenceServerClientConfig,
};
use crate::error::{is_invalid_argument, is_transient, is_transient_error, Code, Error, Status};

verus! {

/// What `str::to_lowercase` makes of a string.
pub uninterp spec fn lower_of(s: Seq<char>) -> Seq<char>;

/// Relies on `str::to_lowercase`: the result depends on the characters alone.
#[verifier::external_body]
fn lowercase(s: &str) -> (r: String)
    ensures
        r@ == lower_of(s@),
{
    s.to_lowercase()
}

/// Whether to secure a connection: the address's scheme decides where it names
/// one, in any case of letters, else the configured default does.
pub open spec fn tls_for_scheme(scheme: Option<Seq<char>>, default_tls: bool) -> Option<bool> {
    match scheme {
        None => Some(default_tls),
        Some(s) => if lower_of(s) == "https"@ {
            Some(true)
        } else if lower_of(s) == "http"@ {
            Some(false)
        } else {
            None
        },
    }
}

/// Decides whether a connection is secured; an unknown scheme is an invalid
/// argument.
pub fn scheme_tls(scheme: Option<&str>, default_tls: bool) -> (r: Result<bool, Error>)
    ensures
        r matches Ok(b) ==> tls_for_scheme(scheme_view(scheme), default_tls) == Some(b),
        r matches Err(e) ==> tls_for_scheme(scheme_view(scheme), default_tls) is None
            && is_invalid_argument(e),
{
    match scheme {
        None => Ok(default_tls),
        Some(s) => {
            let lower = lowercase(s);
            let https = String::from_str("https");
            let http = String::from_str("http");
            if lower == https {
                Ok(true)
            } else if lower == http {
                Ok(false)
            } else {
                let message = String::from_str("Invalid scheme `").concat(lower.as_str()).concat(
                    "`.",
                );
                Err(Error::ResponseError { status: Status::new(Code::InvalidArgument, message) })
            }
        },
    }
}

/// What a call through the pool does next.
pub enum Action<T> {
    /// Establish a connection and report it.
    Connect,
    /// Run the operation over the cached connection and report its outcome.
    Invoke,
    /// Return this outcome to the caller.
    Finish(Result<T, Error>),
}

/// What happened since the last action.
pub enum Event<C, T> {
    Connected(C),
    ConnectFailed(Error),
    Completed(Result<T, Error>),
}

/// The state of one call: whether it may retry, and whether it has.
#[derive(Clone, Copy, Debug, PartialEq, Eq, Structural)]
pub struct Call {
    pub allow_retry: bool,
    pub retried: bool,
}

/// The first action of a call: reuse a cached connection, else connect.
pub open spec fn first_action<C, T>(cache: Option<C>) -> Action<T> {
    if cache is Some {
        Action::Invoke
    } else {
        Action::Connect
    }
}

/// The cached connection, the call's state and the next action after an event.
/// A transient failure of a first attempt drops the cached connection; where the
/// call allows it, one more attempt follows over a fresh connection. Any other
/// failure is returned as it is and leaves the cache alone.
pub open spec fn next_state<C, T>(cache: Option<C>, call: Call, ev: Event<C, T>) -> (
    Option<C>,
    Call,
    Action<T>,
) {
    match ev {
        Event::Connected(c) => (Some(c), call, Action::Invoke),
        Event::ConnectFailed(e) => (cache, call, Action::Finish(Err(e))),
        Event::Completed(Ok(v)) => (cache, call, Action::Finish(Ok(v))),
        Event::Completed(Err(e)) => if !call.retried && is_transient_error(e) {
            if call.allow_retry {
                (None, Call { retried: true, ..call }, Action::Connect)
            } else {
                (None, call, Action::Finish(Err(e)))
            }
        } else {
            (cache, call, Action::Finish(Err(e)))
        },
    }
}

/// A lazily established connection to one server, reused until a transient
/// failure discards it.
pub struct ChannelPool<C> {
    channel: Option<C>,
    uri: Uri,
    tls: bool,
    timeout: Duration,
    connection_timeout: Duration,
    keep_alive_while_idle: bool,
    keep_alive_timeout: Duration,
}

impl<C> ChannelPool<C> {
    /// The cached connection.
    pub closed spec fn cached(&self) -> Option<C> {
        self.channel
    }

    pub closed spec fn spec_uri(&self) -> Uri {
        self.uri
    }

    pub closed spec fn spec_tls(&self) -> bool {
        self.tls
    }

    pub closed spec fn spec_timeout(&self) -> Duration {
        self.timeout
    }

    pub closed spec fn spec_connection_timeout(&self) -> Duration {
        self.connection_timeout
    }

    pub closed spec fn spec_keep_alive_while_idle(&self) -> bool {
        self.keep_alive_while_idle
    }

    pub closed spec fn spec_keep_alive_timeout(&self) -> Duration {
        self.keep_alive_timeout
    }

    /// Whether two pools hold the same connection settings.
    pub open spec fn same_settings(&self, other: &Self) -> bool {
        &&& self.spec_uri() == other.spec_uri()
        &&& self.spec_tls() == other.spec_tls()
        &&& self.spec_timeout() == other.spec_timeout()
        &&& self.spec_connection_timeout() == other.spec_connection_timeout()
        &&& self.spec_keep_alive_while_idle() == other.spec_keep_alive_while_idle()
        &&& self.spec_keep_alive_timeout() == other.spec_keep_alive_timeout()
    }

    /// A pool with no connection yet.
    pub fn new(
        uri: Uri,
        tls: bool,
        timeout: Duration,
        connection_timeout: Duration,
        keep_alive_while_idle: bool,
        keep_alive_timeout: Duration,
    ) -> (r: Self)
        ensures
            r.cached() is None,
            r.spec_uri() == uri,
            r.spec_tls() == tls,
            r.spec_timeout() == timeout,
            r.spec_connection_timeout() == connection_timeout,
            r.spec_keep_alive_while_idle() == keep_alive_while_idle,
            r.spec_keep_alive_timeout() == keep_alive_timeout,
    {
        ChannelPool {
            channel: None,
            uri,
            tls,
            timeout,
            connection_timeout,
            keep_alive_while_idle,
            keep_alive_timeout,
        }
    }

    /// A pool with the connection settings of `config`.
    pub fn from_config(config: InferenceServerClientConfig) -> (r: Self)
        ensures
            r.cached() is None,
            r.spec_uri() == config.uri,
            r.spec_tls() == config.tls,
            r.spec_timeout() == config.timeout,
            r.spec_connection_timeout() == config.connect_timeout,
            r.spec_keep_alive_while_idle() == config.keep_alive_while_idle,
            r.spec_keep_alive_timeout() == config.keep_alive_timeout,
    {
        Self::new(
            config.uri,
            config.tls,
            config.timeout,
            config.connect_timeout,
            config.keep_alive_while_idle,
            config.keep_alive_timeout,
        )
    }

    pub fn uri(&self) -> (r: &Uri)
        ensures
            *r == self.spec_uri(),
    {
        &self.uri
    }

    pub fn tls(&self) -> (r: bool)
        ensures
            r == self.spec_tls(),
    {
        self.tls
    }

    pub fn timeout(&self) -> (r: Duration)
        ensures
            r == self.spec_timeout(),
    {
        self.timeout
    }

    pub fn connection_timeout(&self) -> (r: Duration)
        ensures
            r == self.spec_connection_timeout(),
    {
        self.connection_timeout
    }

    pub fn keep_alive_while_idle(&self) -> (r: bool)
        ensures
            r == self.spec_keep_alive_while_idle(),
    {
        self.keep_alive_while_idle
    }

    pub fn keep_alive_timeout(&self) -> (r: Duration)
        ensures
            r == self.spec_keep_alive_timeout(),
    {
        self.keep_alive_timeout
    }

    /// Whether to secure a new connection, by the address's scheme or else the
    /// configured default.
    pub fn connection_tls(&self) -> (r: Result<bool, Error>)
        ensures
            r matches Ok(b) ==> tls_for_scheme(scheme_of(self.spec_uri()), self.spec_tls()) == Some(b),
            r matches Err(e) ==> tls_for_scheme(scheme_of(self.spec_uri()), self.spec_tls()) is None
                && is_invalid_argument(e),
    {
        scheme_tls(self.uri.scheme_str(), self.tls)
    }

    /// The address to connect to where the pool's own address names no scheme:
    /// that address read as plain `http`. `None` where the pool's address names a
    /// scheme and is used as it is.
    pub fn endpoint_uri(&self) -> (r: Result<Option<Uri>, Error>)
        ensures
            scheme_of(self.spec_uri()) is Some ==> r matches Ok(None),
            scheme_of(self.spec_uri()) is None ==> ({
                let text = "http://"@ + uri_text(self.spec_uri());
                &&& r is Ok <==> parses_as_uri(text)
                &&& r matches Ok(u) ==> u == Some(uri_of(text))
                &&& r matches Err(e) ==> e is InvalidUri
            }),
    {
        if self.uri.scheme_str().is_some() {
            return Ok(None);
        }
        let text = String::from_str("http://").concat(uri_to_string(&self.uri).as_str());
        match parse_uri(text.as_str()) {
            Ok(u) => Ok(Some(u)),
            Err(msg) => Err(Error::InvalidUri(msg)),
        }
    }

    /// The cached connection, if any.
    pub fn get_channel(&self) -> (r: Option<&C>)
        ensures
            r is Some <==> self.cached() is Some,
            r matches Some(c) ==> self.cached() == Some(*c),
    {
        self.channel.as_ref()
    }

    /// Discards the cached connection.
    pub fn drop_channel(&mut self)
        ensures
            final(self).cached() is None,
            final(self).same_settings(old(self)),
    {
        self.channel = None;
    }

    /// Starts a call: reuse the cached connection, or connect first.
    pub fn begin<T>(&self, allow_retry: bool) -> (r: (Call, Action<T>))
        ensures
            r.0 == (Call { allow_retry, retried: false }),
            r.1 == first_action::<C, T>(self.cached()),
    {
        let call = Call { allow_retry, retried: false };
        if self.channel.is_some() {
            (call, Action::Invoke)
        } else {
            (call, Action::Connect)
        }
    }

    /// Takes in what happened and says what to do next.
    pub fn step<T>(&mut self, call: &mut Call, ev: Event<C, T>) -> (r: Action<T>)
        ensures
            (final(self).cached(), *final(call), r) == next_state(old(self).cached(), *old(call), ev),
            final(self).same_settings(old(self)),
    {
        match ev {
            Event::Connected(c) => {
                self.channel = Some(c);
                Action::Invoke
            },
            Event::ConnectFailed(e) => Action::Finish(Err(e)),
            Event::Completed(Ok(v)) => Action::Finish(Ok(v)),
            Event::Completed(Err(e)) => {
                if !call.retried && e.is_transient() {
                    self.channel = None;
                    if call.allow_retry {
                        call.retried = true;
                        Action::Connect
                    } else {
                        Action::Finish(Err(e))
                    }
                } else {
                    Action::Finish(Err(e))
                }
            },
        }
    }
}

/// With retry allowed, a first attempt that fails transiently drops the cached
/// connection and connects again; the second attempt's success is returned and
/// its connection stays cached, while its failure is returned with no third
/// attempt.
pub proof fn lemma_transient_failure_retried<C, T>(
    cache: Option<C>,
    status: Status,
    c: C,
    v: T,
    e2: Error,
)
    requires
        is_transient(status.code),
    ensures
        ({
            let s1 = next_state(
                cache,
                Call { allow_retry: true, retried: false },
                Event::<C, T>::Completed(Err(Error::ResponseError { status })),
            );
            let s2 = next_state(s1.0, s1.1, Event::<C, T>::Connected(c));
            let ok = next_state(s2.0, s2.1, Event::<C, T>::Completed(Ok(v)));
            let failed = next_state(s2.0, s2.1, Event::<C, T>::Completed(Err(e2)));
            &&& s1.0 is None
            &&& s1.2 == Action::<T>::Connect
            &&& s2.0 == Some(c)
            &&& s2.2 == Action::<T>::Invoke
            &&& ok.0 == Some(c)
            &&& ok.2 == Action::<T>::Finish(Ok(v))
            &&& failed.2 == Action::<T>::Finish(Err(e2))
        }),
{
}

/// With retry not allowed, a transient failure is returned as it is and leaves
/// the pool without a connection.
pub proof fn lemma_transient_failure_not_retried<C, T>(cache: Option<C>, status: Status)
    requires
        is_transient(status.code),
    ensures
        next_state(
            cache,
            Call { allow_retry: false, retried: false },
            Event::<C, T>::Completed(Err(Error::ResponseError { status })),
        ) == (
            None::<C>,
            Call { allow_retry: false, retried: false },
            Action::<T>::Finish(Err(Error::ResponseError { status })),
        ),
{
}

/// A failure that is not transient is returned at once, with no reconnection and
/// the cached connection left as it was.
pub proof fn lemma_lasting_failure_returned<C, T>(cache: Option<C>, call: Call, e: Error)
    requires
        !is_transient_error(e),
    ensures
        next_state(cache, call, Event::<C, T>::Completed(Err(e))) == (
            cache,
            call,
            Action::<T>::Finish(Err(e)),
        ),
{
}

} // verus!
