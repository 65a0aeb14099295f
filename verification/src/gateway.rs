//! The client side of the gateway's OpenAI-compatible API: what is requested,
//! where, with which authorization, and how an answer is read.
//!
//! A non-success status from the gateway is not an error: it is part of the
//! relayed response. Streaming answers (profile switches, cache downloads) are
//! decoded from SSE.

use crate::gateway::sse::is_event_stream;
use crate::json::{quote, quoted};
use crate::text::{
    concat, debug, debug_text, occurs, same_text, text_option, trim_end, trimmed_end,
};
use vstd::prelude::*;

pub mod progress;
pub mod sse;

verus! {

/// Default bound on a single health probe, in seconds: a gateway that accepts
/// the connection but never answers must still read as unreachable.
pub const HEALTH_PROBE_TIMEOUT: u64 = 2;

/// TCP connect timeout applied to every request, in seconds.
pub const CONNECT_TIMEOUT: u64 = 5;

/// Default whole-request timeout for buffered operations, in seconds. For
/// streaming operations it bounds the header phase only.
pub const REQUEST_TIMEOUT: u64 = 30;

/// A gateway request failure. Sources are carried as their texts.
#[derive(Debug)]
#[non_exhaustive]
pub enum GatewayError {
    /// The HTTP client could not be built.
    Build(String),
    /// The request could not be sent or no response arrived.
    Transport(String),
    /// The response body could not be read to completion.
    ReadBody(String),
    /// The gateway answered a streaming-only request with a non-success
    /// status. The body is bounded and control-escaped.
    Status {
        /// The gateway's status code.
        status: u16,
        /// The gateway's error body.
        body: String,
    },
    /// A gateway event stream carried a block that could not be decoded, or
    /// one that grew past its size bound without terminating.
    Malformed {
        /// What was wrong with the block.
        message: String,
        /// The decode failure, when the block was undecodable.
        source: Option<String>,
    },
}

/// The decimal digits of `n`, with no leading zero.
pub open spec fn decimal(n: int) -> Seq<char>
    decreases n,
{
    if n < 10 {
        seq![crate::text::hex_digit(n)]
    } else {
        decimal(n / 10).push(crate::text::hex_digit(n % 10))
    }
}

/// The decimal digits of `n`.
pub fn render_decimal(n: u128) -> (text: String)
    ensures
        text@ == decimal(n as int),
    decreases n,
{
    let last = crate::text::digit((n % 10) as u8);
    if n < 10 {
        let mut text = String::new();
        text.push(last);
        assert(text@ == seq![crate::text::hex_digit(n as int)]);
        text
    } else {
        let mut text = render_decimal(n / 10);
        text.push(last);
        text
    }
}

impl GatewayError {
    /// What the error says.
    pub open spec fn text(&self) -> Seq<char> {
        match *self {
            GatewayError::Build(_) => "build gateway http client"@,
            GatewayError::Transport(_) => "gateway transport error"@,
            GatewayError::ReadBody(_) => "read gateway response body"@,
            GatewayError::Status { status, body } => "gateway answered status "@ + decimal(
                status as int,
            ) + ": "@ + body@,
            GatewayError::Malformed { message, .. } => "malformed gateway event: "@ + message@,
        }
    }

    /// What the error says.
    pub fn to_string(&self) -> (text: String)
        ensures
            text@ == self.text(),
    {
        match self {
            GatewayError::Build(_) => "build gateway http client".to_owned(),
            GatewayError::Transport(_) => "gateway transport error".to_owned(),
            GatewayError::ReadBody(_) => "read gateway response body".to_owned(),
            GatewayError::Status { status, body } => {
                let mut text = "gateway answered status ".to_owned();
                let digits = render_decimal(*status as u128);
                text.push_str(digits.as_str());
                text.push_str(": ");
                text.push_str(body.as_str());
                text
            },
            GatewayError::Malformed { message, .. } => concat(
                "malformed gateway event: ",
                message.as_str(),
            ),
        }
    }
}

/// The error of a progress block that exceeds its size bound.
pub fn oversized_block() -> (error: GatewayError)
    ensures
        error matches GatewayError::Malformed { message, source } && message@
            == "progress event block exceeds the 1048576-byte limit"@ && source is None,
{
    GatewayError::Malformed {
        message: "progress event block exceeds the 1048576-byte limit".to_owned(),
        source: None,
    }
}

/// The error of a progress block that is not valid JSON.
pub fn undecodable_block(source: String) -> (error: GatewayError)
    ensures
        error matches GatewayError::Malformed { message, source: s } && message@
            == "progress event was not valid JSON"@ && s == Some(source),
{
    GatewayError::Malformed {
        message: "progress event was not valid JSON".to_owned(),
        source: Some(source),
    }
}

/// Whether a status code reports success.
pub open spec fn success(status: u16) -> bool {
    200 <= status < 300
}

/// Whether a status code reports success.
pub fn is_success(status: u16) -> (yes: bool)
    ensures
        yes == success(status),
{
    200 <= status && status < 300
}

/// One event of the gateway cache API: a download progress sample, or the
/// terminal state of a cache-ensure call.
#[derive(Debug, Clone, PartialEq, Eq)]
#[non_exhaustive]
pub enum CacheEvent {
    /// A progress sample from a running download.
    Downloading {
        /// Cumulative bytes downloaded so far.
        bytes: u64,
        /// Total bytes expected, where the upstream server said.
        total: Option<u64>,
    },
    /// The blob is cached and ready at `path` on the gateway host.
    Ready {
        /// Local path of the cached blob.
        path: String,
    },
    /// The download failed.
    Error {
        /// The gateway's description of the failure.
        message: String,
    },
}

/// One event of the gateway's switch-profile stream: a stage marker as the
/// switch proceeds, then exactly one terminal event.
#[derive(Debug, Clone, PartialEq, Eq)]
#[non_exhaustive]
pub enum SwitchEvent {
    /// A phase of the switch is beginning.
    Stage {
        /// The gateway's name for the phase.
        stage: String,
    },
    /// Terminal: the switch committed and `profile` is live.
    Ready {
        /// The now-active profile name.
        profile: String,
    },
    /// Terminal: the switch failed.
    Error {
        /// The gateway's description of the failure.
        message: String,
    },
}

/// The routes that the client requests.
#[derive(Clone, Copy, Debug, PartialEq, Eq, Structural)]
pub enum Route {
    /// The liveness probe.
    Health,
    /// The model catalog.
    Models,
    /// The profile list.
    Profiles,
    /// The live status, which carries the active profile's name.
    Status,
    /// The profile switch.
    SwitchProfile,
    /// The cache-ensure request.
    Cache,
    /// The progress subscription.
    Progress,
}

/// The method of a request.
#[derive(Clone, Copy, Debug, PartialEq, Eq, Structural)]
pub enum Verb {
    /// `GET`.
    Get,
    /// `POST`.
    Post,
}

/// What a request's wait is bounded on.
#[derive(Clone, Copy, Debug, PartialEq, Eq, Structural)]
pub enum Bound {
    /// The whole request, in seconds.
    Whole(u64),
    /// The wait for the response headers, in seconds; the body stays
    /// open-ended.
    Headers(u64),
}

impl Route {
    /// The path of the route.
    pub open spec fn path_text(self) -> Seq<char> {
        match self {
            Route::Health => "/health"@,
            Route::Models => "/v1/models"@,
            Route::Profiles => "/admin/profiles"@,
            Route::Status => "/admin/status"@,
            Route::SwitchProfile => "/admin/switch-profile"@,
            Route::Cache => "/v1/cache"@,
            Route::Progress => "/admin/progress"@,
        }
    }

    /// Whether the route's answer may stream.
    pub open spec fn streams(self) -> bool {
        self == Route::SwitchProfile || self == Route::Cache || self == Route::Progress
    }

    /// The method of the route: only a switch and a cache request post a body.
    pub open spec fn method(self) -> Verb {
        if self == Route::SwitchProfile || self == Route::Cache {
            Verb::Post
        } else {
            Verb::Get
        }
    }

    /// The method of the route.
    pub fn verb(self) -> (verb: Verb)
        ensures
            verb == self.method(),
    {
        match self {
            Route::SwitchProfile | Route::Cache => Verb::Post,
            _ => Verb::Get,
        }
    }

    /// The path of the route.
    pub fn path(self) -> (path: &'static str)
        ensures
            path@ == self.path_text(),
    {
        match self {
            Route::Health => "/health",
            Route::Models => "/v1/models",
            Route::Profiles => "/admin/profiles",
            Route::Status => "/admin/status",
            Route::SwitchProfile => "/admin/switch-profile",
            Route::Cache => "/v1/cache",
            Route::Progress => "/admin/progress",
        }
    }
}

/// The gateway as the client addresses it: a base URL, a bearer key, and the
/// request bounds. An empty API key sends no `Authorization` header at all,
/// for gateways running with authentication disabled.
pub struct GatewayClient {
    base_url: String,
    api_key: String,
    request_timeout: u64,
    health_timeout: u64,
}

/// `Authorization` for a bearer key: none for an empty key.
pub open spec fn bearer(api_key: Seq<char>) -> Option<Seq<char>> {
    if api_key.len() == 0 {
        None
    } else {
        Some("Bearer "@ + api_key)
    }
}

/// A request as it is to be sent.
pub struct GatewayRequest {
    /// The URL.
    pub url: String,
    /// The `Authorization` header.
    pub authorization: Option<String>,
    /// Whether the request carries a body, which is JSON.
    pub json: bool,
    /// The bound on the wait.
    pub bound: Bound,
}

impl Clone for GatewayClient {
    fn clone(&self) -> (copy: GatewayClient)
        ensures
            copy.base() == self.base(),
            copy.key() == self.key(),
            copy.request_bound() == self.request_bound(),
            copy.health_bound() == self.health_bound(),
    {
        GatewayClient {
            base_url: self.base_url.clone(),
            api_key: self.api_key.clone(),
            request_timeout: self.request_timeout,
            health_timeout: self.health_timeout,
        }
    }
}

/// How an answer is handed to the caller.
#[derive(Clone, Copy, Debug, PartialEq, Eq, Structural)]
pub enum Relay {
    /// As a stream of SSE payloads.
    Stream,
    /// Buffered, status and body.
    Buffered,
}

impl GatewayClient {
    /// The base URL, without a trailing slash.
    pub closed spec fn base(&self) -> Seq<char> {
        self.base_url@
    }

    /// The bearer key.
    pub closed spec fn key(&self) -> Seq<char> {
        self.api_key@
    }

    /// The bound on requests, in seconds.
    pub closed spec fn request_bound(&self) -> u64 {
        self.request_timeout
    }

    /// The bound on the health probe, in seconds.
    pub closed spec fn health_bound(&self) -> u64 {
        self.health_timeout
    }

    /// Builds a client for `base_url` authenticating with `api_key`.
    ///
    /// A trailing slash on `base_url` is trimmed so route joins stay clean. An
    /// empty `api_key` disables authentication.
    pub fn new(base_url: &str, api_key: &str) -> (client: GatewayClient)
        ensures
            client.base() == trimmed_end(base_url@, '/'),
            client.key() == api_key@,
            client.request_bound() == REQUEST_TIMEOUT,
            client.health_bound() == HEALTH_PROBE_TIMEOUT,
    {
        GatewayClient {
            base_url: trim_end(base_url, '/'),
            api_key: api_key.to_owned(),
            request_timeout: REQUEST_TIMEOUT,
            health_timeout: HEALTH_PROBE_TIMEOUT,
        }
    }

    /// The gateway's base URL as configured, trailing slash trimmed.
    #[must_use]
    pub fn base_url(&self) -> (url: &str)
        ensures
            url@ == self.base(),
    {
        self.base_url.as_str()
    }

    /// The bearer key.
    #[must_use]
    pub fn api_key(&self) -> (key: &str)
        ensures
            key@ == self.key(),
    {
        self.api_key.as_str()
    }

    /// What a log shows of the client: the bearer key is never written.
    #[must_use]
    pub fn describe(&self) -> (text: String)
        ensures
            text@ == "GatewayClient { base_url: "@ + debug_text(self.base())
                + ", api_key: \"<redacted>\", .. }"@,
    {
        let quoted = debug(self.base_url.as_str());
        let mut text = concat("GatewayClient { base_url: ", quoted.as_str());
        text.push_str(", api_key: \"<redacted>\", .. }");
        text
    }

    /// The client with other bounds on requests and on the health probe, in
    /// seconds.
    pub fn with_timeouts(self, request: u64, health: u64) -> (client: GatewayClient)
        ensures
            client.base() == self.base(),
            client.key() == self.key(),
            client.request_bound() == request,
            client.health_bound() == health,
    {
        GatewayClient { request_timeout: request, health_timeout: health, ..self }
    }

    /// The `Authorization` header: the bearer key, unless the client was built
    /// with an empty API key.
    pub fn authorize(&self) -> (header: Option<String>)
        ensures
            text_option(header) == bearer(self.key()),
    {
        if self.api_key.as_str().is_empty() {
            None
        } else {
            Some(concat("Bearer ", self.api_key.as_str()))
        }
    }

    /// Whether a request is the one of a route: under the route's path, with
    /// the bearer key but for the health probe, with a body exactly where the
    /// route posts one, and bounded whole unless its answer may stream.
    pub open spec fn asks(&self, route: Route, request: GatewayRequest) -> bool {
        &&& request.url@ == self.base() + route.path_text()
        &&& request.json == (route.method() == Verb::Post)
        &&& route == Route::Health ==> request.authorization is None && request.bound
            == Bound::Whole(self.health_bound())
        &&& route != Route::Health ==> text_option(request.authorization) == bearer(self.key())
            && request.bound == if route.streams() {
            Bound::Headers(self.request_bound())
        } else {
            Bound::Whole(self.request_bound())
        }
    }

    /// The request of a route.
    ///
    /// The health probe never carries the API key and is capped at the probe
    /// bound. A streaming answer may legitimately run for minutes, so only its
    /// header phase is bounded.
    pub fn request(&self, route: Route) -> (request: GatewayRequest)
        ensures
            self.asks(route, request),
    {
        let url = concat(self.base_url.as_str(), route.path());
        match route {
            Route::Health => GatewayRequest {
                url,
                authorization: None,
                json: false,
                bound: Bound::Whole(self.health_timeout),
            },
            Route::Models | Route::Profiles | Route::Status => GatewayRequest {
                url,
                authorization: self.authorize(),
                json: false,
                bound: Bound::Whole(self.request_timeout),
            },
            Route::SwitchProfile | Route::Cache => GatewayRequest {
                url,
                authorization: self.authorize(),
                json: true,
                bound: Bound::Headers(self.request_timeout),
            },
            Route::Progress => GatewayRequest {
                url,
                authorization: self.authorize(),
                json: false,
                bound: Bound::Headers(self.request_timeout),
            },
        }
    }

    /// Probes the gateway's liveness endpoint. [`reads_reachable`] reads the
    /// answer.
    pub fn health(&self) -> (request: GatewayRequest)
        ensures
            self.asks(Route::Health, request),
    {
        self.request(Route::Health)
    }

    /// Fetches the gateway's model catalog.
    pub fn list_models(&self) -> (request: GatewayRequest)
        ensures
            self.asks(Route::Models, request),
    {
        self.request(Route::Models)
    }

    /// Fetches the gateway's profile list.
    pub fn list_profiles(&self) -> (request: GatewayRequest)
        ensures
            self.asks(Route::Profiles, request),
    {
        self.request(Route::Profiles)
    }

    /// Fetches the gateway's live status, which carries the active profile's
    /// name.
    pub fn profile_status(&self) -> (request: GatewayRequest)
        ensures
            self.asks(Route::Status, request),
    {
        self.request(Route::Status)
    }

    /// Posts a profile switch to `name`: the request and its body. [`relay`]
    /// says how the answer is handed on.
    pub fn switch_profile(&self, name: &str) -> (call: (GatewayRequest, String))
        ensures
            self.asks(Route::SwitchProfile, call.0),
            call.1@ == one_field("name"@, name@),
    {
        (self.request(Route::SwitchProfile), one_field_object("name", name))
    }

    /// Posts a request to make the blob at `source` available locally: the
    /// request and its body. [`relay`] says how the answer is handed on.
    pub fn cache_ensure(&self, source: &str) -> (call: (GatewayRequest, String))
        ensures
            self.asks(Route::Cache, call.0),
            call.1@ == one_field("source"@, source@),
    {
        (self.request(Route::Cache), one_field_object("source", source))
    }

    /// Subscribes to the gateway's progress event stream.
    /// [`progress::subscribe`] reads the answer.
    pub fn subscribe_progress(&self) -> (request: GatewayRequest)
        ensures
            self.asks(Route::Progress, request),
    {
        self.request(Route::Progress)
    }

    /// The request that forwards `path_and_query` to the gateway, with or
    /// without a JSON body. Only the wait for the response headers is bounded:
    /// a forwarded download legitimately streams for minutes.
    pub fn forward(&self, path_and_query: &str, has_body: bool) -> (request: GatewayRequest)
        ensures
            request.url@ == self.base() + path_and_query@,
            text_option(request.authorization) == bearer(self.key()),
            request.json == has_body,
            request.bound == Bound::Headers(self.request_bound()),
    {
        GatewayRequest {
            url: concat(self.base_url.as_str(), path_and_query),
            authorization: self.authorize(),
            json: has_body,
            bound: Bound::Headers(self.request_timeout),
        }
    }

    /// The handshake of the gateway's authenticated Realtime transcription
    /// socket: browser query parameters and handshake headers never cross.
    pub fn connect_realtime(&self) -> (handshake: Result<GatewayRequest, GatewayError>)
        ensures
            match realtime_outcome(self.base()) {
                Ok(url) => {
                    &&& handshake matches Ok(request)
                    &&& request.url@ == url
                    &&& text_option(request.authorization) == bearer(self.key())
                    &&& !request.json
                    &&& request.bound == Bound::Headers(self.request_bound())
                },
                Err(fault) => handshake matches Err(GatewayError::Transport(source)) && source@
                    == fault.text(),
            },
    {
        match realtime_url(self.base_url.as_str()) {
            Ok(url) => Ok(
                GatewayRequest {
                    url,
                    authorization: self.authorize(),
                    json: false,
                    bound: Bound::Headers(self.request_timeout),
                },
            ),
            Err(error) => Err(GatewayError::Transport(error.to_string())),
        }
    }
}

/// Whether a health probe reads reachable: only a success status does; no
/// answer at all, as on a transport failure or a timeout, does not.
pub fn reads_reachable(answer: Option<u16>) -> (reachable: bool)
    ensures
        reachable == (answer matches Some(status) && success(status)),
{
    match answer {
        Some(status) => is_success(status),
        None => false,
    }
}

/// One item of a switch-profile stream, from a payload that may not decode: a
/// malformed payload is skipped and degrades one progress update, never the
/// switch; a transport failure passes through.
pub fn switch_events(item: Result<Option<SwitchEvent>, GatewayError>) -> (event: Option<
    Result<SwitchEvent, GatewayError>,
>)
    ensures
        event == match item {
            Ok(Some(decoded)) => Some(Ok::<SwitchEvent, GatewayError>(decoded)),
            Ok(None) => None,
            Err(error) => Some(Err::<SwitchEvent, GatewayError>(error)),
        },
{
    match item {
        Ok(Some(decoded)) => Some(Ok(decoded)),
        Ok(None) => None,
        Err(error) => Some(Err(error)),
    }
}

/// The JSON object that holds one text.
pub open spec fn one_field(name: Seq<char>, value: Seq<char>) -> Seq<char> {
    "{\""@ + name + "\":"@ + quoted(value) + "}"@
}

/// The JSON object with the one field `name`, where the name needs no escape.
fn one_field_object(name: &str, value: &str) -> (body: String)
    ensures
        body@ == one_field(name@, value@),
{
    let mut body = "{\"".to_owned();
    body.push_str(name);
    body.push_str("\":");
    let literal = quote(value);
    body.push_str(literal.as_str());
    body.push_str("}");
    body
}

/// How the answer to a profile switch or a cache-ensure request is handed on:
/// as a stream where it succeeded with an SSE body, else buffered. A
/// non-success or non-streaming answer is not an error.
pub fn relay(status: u16, content_type: Option<&str>) -> (relay: Relay)
    ensures
        relay == Relay::Stream <==> success(status) && (content_type matches Some(value) && occurs(
            value@,
            0,
            "text/event-stream"@,
        )),
{
    if is_success(status) && is_event_stream(content_type) {
        Relay::Stream
    } else {
        Relay::Buffered
    }
}

/// The scheme and the path of a URL text, or why it does not parse, as the
/// `url` crate reads it.
pub uninterp spec fn url_parts(url: Seq<char>) -> Result<(Seq<char>, Seq<char>), Seq<char>>;

/// A URL text with another scheme, as the `url` crate writes it.
pub uninterp spec fn with_scheme(url: Seq<char>, scheme: Seq<char>) -> Option<Seq<char>>;

/// A URL text with another path, as the `url` crate writes it.
pub uninterp spec fn with_path(url: Seq<char>, path: Seq<char>) -> Option<Seq<char>>;

/// A URL text with another query, or with none, as the `url` crate writes it.
pub uninterp spec fn with_query(url: Seq<char>, query: Option<Seq<char>>) -> Option<Seq<char>>;

/// A URL text with another fragment, or with none, as the `url` crate writes
/// it.
pub uninterp spec fn with_fragment(url: Seq<char>, fragment: Option<Seq<char>>) -> Option<Seq<char>>;

/// The parts of a URL over plain values.
pub open spec fn parts_model(parts: Result<(String, String), String>) -> Result<
    (Seq<char>, Seq<char>),
    Seq<char>,
> {
    match parts {
        Ok((scheme, path)) => Ok((scheme@, path@)),
        Err(why) => Err(why@),
    }
}

/// `url::Url::parse` reads a URL text; `scheme` and `path` give two of its
/// parts. Claimed: whether it parses, the parts, and the error depend on the
/// text alone.
#[verifier::external_body]
fn read_url(url: &str) -> (parts: Result<(String, String), String>)
    ensures
        parts_model(parts) == url_parts(url@),
{
    match url::Url::parse(url) {
        Ok(parsed) => Ok((parsed.scheme().to_owned(), parsed.path().to_owned())),
        Err(error) => Err(error.to_string()),
    }
}

/// A part of a URL over plain values.
pub open spec fn part_text(part: Option<&str>) -> Option<Seq<char>> {
    match part {
        Some(text) => Some(text@),
        None => None,
    }
}

/// How many characters a text may hold where a part of a URL is replaced.
///
/// The `url` crate keeps positions in 32 bits and panics where a replaced part
/// would end past them. A character gives at most twelve bytes
/// percent-encoded, and a character of a host less than two hundred, so texts
/// of this length stay within. No longer URL can be requested: the handshake's
/// request holds one of 65534 bytes at most.
pub const MAX_URL_TEXT: usize = 0x100_0000;

/// Whether a text is short enough to be, or to be put into, a URL.
pub open spec fn short(text: Seq<char>) -> bool {
    text.len() <= MAX_URL_TEXT
}

fn is_short(text: &str) -> (fits: bool)
    ensures
        fits == short(text@),
{
    text.unicode_len() <= MAX_URL_TEXT
}

/// `url::Url::set_scheme` replaces the scheme of a parsed URL. Claimed: the
/// outcome depends on the two texts alone; there is none where the URL does
/// not parse or the scheme cannot be set.
#[verifier::external_body]
fn set_scheme(url: &str, scheme: &str) -> (text: Option<String>)
    requires
        short(url@),
        short(scheme@),
    ensures
        text_option(text) == with_scheme(url@, scheme@),
{
    let mut parsed = url::Url::parse(url).ok()?;
    parsed.set_scheme(scheme).ok()?;
    Some(parsed.as_str().to_owned())
}

/// `url::Url::set_path` replaces the path of a parsed URL. Claimed: the
/// outcome depends on the two texts alone; there is none where the URL does
/// not parse.
#[verifier::external_body]
fn set_path(url: &str, path: &str) -> (text: Option<String>)
    requires
        short(url@),
        short(path@),
    ensures
        text_option(text) == with_path(url@, path@),
{
    let mut parsed = url::Url::parse(url).ok()?;
    parsed.set_path(path);
    Some(parsed.as_str().to_owned())
}

/// `url::Url::set_query` replaces or removes the query of a parsed URL; where
/// it removes the query it only shortens the URL. Claimed: the outcome depends
/// on the arguments alone; there is none where the URL does not parse.
#[verifier::external_body]
fn set_query(url: &str, query: Option<&str>) -> (text: Option<String>)
    requires
        query matches Some(q) ==> short(url@) && short(q@),
    ensures
        text_option(text) == with_query(url@, part_text(query)),
{
    let mut parsed = url::Url::parse(url).ok()?;
    parsed.set_query(query);
    Some(parsed.as_str().to_owned())
}

/// `url::Url::set_fragment` replaces or removes the fragment of a parsed URL;
/// where it removes the fragment it only shortens the URL. Claimed: the outcome
/// depends on the arguments alone; there is none where the URL does not parse.
#[verifier::external_body]
fn set_fragment(url: &str, fragment: Option<&str>) -> (text: Option<String>)
    requires
        fragment matches Some(f) ==> short(url@) && short(f@),
    ensures
        text_option(text) == with_fragment(url@, part_text(fragment)),
{
    let mut parsed = url::Url::parse(url).ok()?;
    parsed.set_fragment(fragment);
    Some(parsed.as_str().to_owned())
}

/// A text that a part of a URL can be replaced in, or why it cannot: there is
/// none, or it is too long.
pub open spec fn replaceable(text: Option<Seq<char>>) -> Result<Seq<char>, SocketUrlFault> {
    match text {
        None => Err(SocketUrlFault::Unconvertible),
        Some(url) => if short(url) {
            Ok(url)
        } else {
            Err(SocketUrlFault::TooLong)
        },
    }
}

/// A URL text without its fragment and its query, as the `url` crate writes
/// it.
pub open spec fn bare(url: Seq<char>) -> Option<Seq<char>> {
    match with_fragment(url, None) {
        None => None,
        Some(a) => with_query(a, None),
    }
}

/// A URL text with another scheme and path, with `query` in place of its own
/// query, and without a fragment.
pub open spec fn rewritten(
    url: Seq<char>,
    scheme: Seq<char>,
    path: Seq<char>,
    query: Seq<char>,
) -> Result<Seq<char>, SocketUrlFault> {
    if !(short(scheme) && short(path) && short(query)) {
        Err(SocketUrlFault::TooLong)
    } else {
        match replaceable(bare(url)) {
            Err(fault) => Err(fault),
            Ok(a) => match replaceable(with_scheme(a, scheme)) {
                Err(fault) => Err(fault),
                Ok(b) => match replaceable(with_path(b, path)) {
                    Err(fault) => Err(fault),
                    Ok(c) => match with_query(c, Some(query)) {
                        None => Err(SocketUrlFault::Unconvertible),
                        Some(d) => Ok(d),
                    },
                },
            },
        }
    }
}

/// A text or a fault over plain values.
pub open spec fn url_outcome(outcome: Result<String, SocketUrlError>) -> Result<
    Seq<char>,
    SocketUrlFault,
> {
    match outcome {
        Ok(text) => Ok(text@),
        Err(error) => Err(error@),
    }
}

fn replaceable_text(text: Option<String>) -> (outcome: Result<String, SocketUrlError>)
    ensures
        url_outcome(outcome) == replaceable(text_option(text)),
{
    match text {
        None => Err(SocketUrlError::Unconvertible),
        Some(url) => if is_short(url.as_str()) {
            Ok(url)
        } else {
            Err(SocketUrlError::TooLong)
        },
    }
}

/// Drops the fragment and the query of a URL text, however long they are.
fn bare_url(url: &str) -> (text: Option<String>)
    ensures
        text_option(text) == bare(url@),
{
    match set_fragment(url, None) {
        None => None,
        Some(a) => set_query(a.as_str(), None),
    }
}

/// Rewrites a URL text: the fragment and the query are removed, the scheme and
/// the path are replaced, and `query` is set.
fn rewrite_url(url: &str, scheme: &str, path: &str, query: &str) -> (text: Result<
    String,
    SocketUrlError,
>)
    ensures
        url_outcome(text) == rewritten(url@, scheme@, path@, query@),
{
    if !(is_short(scheme) && is_short(path) && is_short(query)) {
        return Err(SocketUrlError::TooLong);
    }
    let a = match replaceable_text(bare_url(url)) {
        Ok(a) => a,
        Err(error) => return Err(error),
    };
    let b = match replaceable_text(set_scheme(a.as_str(), scheme)) {
        Ok(b) => b,
        Err(error) => return Err(error),
    };
    let c = match replaceable_text(set_path(b.as_str(), path)) {
        Ok(c) => c,
        Err(error) => return Err(error),
    };
    match set_query(c.as_str(), Some(query)) {
        None => Err(SocketUrlError::Unconvertible),
        Some(d) => Ok(d),
    }
}

/// Why no WebSocket URL could be made.
#[derive(Debug)]
pub enum SocketUrlError {
    /// The base URL does not parse, and why.
    Unparsable(String),
    /// The base URL's scheme cannot carry a WebSocket.
    Scheme(String),
    /// The base URL's scheme cannot be converted.
    Unconvertible,
    /// The base URL, its query and its fragment apart, is too long for its
    /// parts to be replaced.
    TooLong,
}

/// The WebSocket scheme for an HTTP one.
pub open spec fn socket_scheme(scheme: Seq<char>) -> Option<Seq<char>> {
    if scheme == "http"@ {
        Some("ws"@)
    } else if scheme == "https"@ {
        Some("wss"@)
    } else {
        None
    }
}

/// The path of the Realtime route under a base path.
pub open spec fn realtime_path(path: Seq<char>) -> Seq<char> {
    trimmed_end(path, '/') + "/v1/realtime"@
}

/// The WebSocket scheme and the Realtime path for the scheme and the path of
/// the base URL.
pub fn socket_target(scheme: &str, path: &str) -> (target: Option<(String, String)>)
    ensures
        target is Some <==> socket_scheme(scheme@) is Some,
        target matches Some(t) ==> t.0@ == socket_scheme(scheme@)->0 && t.1@ == realtime_path(path@),
{
    let socket = if same_text(scheme, "http") {
        "ws"
    } else if same_text(scheme, "https") {
        "wss"
    } else {
        return None;
    };
    let trimmed = trim_end(path, '/');
    Some((socket.to_owned(), concat(trimmed.as_str(), "/v1/realtime")))
}

/// What the Realtime URL of a base URL is.
pub open spec fn realtime_outcome(base: Seq<char>) -> Result<Seq<char>, SocketUrlFault> {
    match url_parts(base) {
        Err(why) => Err(SocketUrlFault::Unparsable(why)),
        Ok((scheme, path)) => match socket_scheme(scheme) {
            None => Err(SocketUrlFault::Scheme(scheme)),
            Some(socket) => rewritten(
                base,
                socket,
                realtime_path(path),
                "intent=transcription"@,
            ),
        },
    }
}

/// [`SocketUrlError`] over plain values.
pub enum SocketUrlFault {
    Unparsable(Seq<char>),
    Scheme(Seq<char>),
    Unconvertible,
    TooLong,
}

impl SocketUrlFault {
    /// What the fault says.
    pub open spec fn text(self) -> Seq<char> {
        match self {
            SocketUrlFault::Unparsable(why) => why,
            SocketUrlFault::Scheme(scheme) => "gateway URL scheme "@ + debug_text(scheme)
                + " cannot carry a WebSocket"@,
            SocketUrlFault::Unconvertible =>
                "gateway URL scheme cannot be converted to WebSocket"@,
            SocketUrlFault::TooLong => "gateway URL is too long"@,
        }
    }
}

impl SocketUrlError {
    /// What the error says.
    pub fn to_string(&self) -> (text: String)
        ensures
            text@ == self@.text(),
    {
        match self {
            SocketUrlError::Unparsable(why) => why.clone(),
            SocketUrlError::Scheme(scheme) => {
                let quoted = debug(scheme.as_str());
                let mut text = concat("gateway URL scheme ", quoted.as_str());
                text.push_str(" cannot carry a WebSocket");
                text
            },
            SocketUrlError::Unconvertible =>
                "gateway URL scheme cannot be converted to WebSocket".to_owned(),
            SocketUrlError::TooLong => "gateway URL is too long".to_owned(),
        }
    }
}

impl View for SocketUrlError {
    type V = SocketUrlFault;

    open spec fn view(&self) -> SocketUrlFault {
        match *self {
            SocketUrlError::Unparsable(why) => SocketUrlFault::Unparsable(why@),
            SocketUrlError::Scheme(s) => SocketUrlFault::Scheme(s@),
            SocketUrlError::Unconvertible => SocketUrlFault::Unconvertible,
            SocketUrlError::TooLong => SocketUrlFault::TooLong,
        }
    }
}

/// The URL of the gateway's Realtime transcription socket.
///
/// The target is fixed to `/v1/realtime?intent=transcription` under the base
/// path; the base URL's own query and fragment never cross.
pub fn realtime_url(base_url: &str) -> (url: Result<String, SocketUrlError>)
    ensures
        url_outcome(url) == realtime_outcome(base_url@),
{
    match read_url(base_url) {
        Err(why) => Err(SocketUrlError::Unparsable(why)),
        Ok((scheme, path)) => match socket_target(scheme.as_str(), path.as_str()) {
            None => Err(SocketUrlError::Scheme(scheme)),
            Some((socket, target)) => rewrite_url(
                base_url,
                socket.as_str(),
                target.as_str(),
                "intent=transcription",
            ),
        },
    }
}

/// A number is rendered in decimal digits, without a leading zero, and two
/// numbers are never rendered alike.
pub proof fn law_decimal_digits_tell_numbers_apart(n: int, m: int)
    requires
        0 <= n,
        0 <= m,
    ensures
        decimal(n).len() > 0,
        forall|i: int|
            0 <= i < decimal(n).len() ==> 0x30 <= (#[trigger] decimal(n)[i]) as u32 <= 0x39,
        decimal(n).last() as u32 == 0x30 + n % 10,
        decimal(n)[0] == '0' ==> n == 0,
        decimal(n) == decimal(m) ==> n == m,
    decreases n,
{
    if n >= 10 {
        law_decimal_digits_tell_numbers_apart(n / 10, m / 10);
        assert(decimal(n).drop_last() =~= decimal(n / 10));
        assert(decimal(n)[0] == decimal(n / 10)[0]);
        assert forall|i: int| 0 <= i < decimal(n).len() implies 0x30 <= (#[trigger] decimal(
            n,
        )[i]) as u32 <= 0x39 by {
            if i < decimal(n).len() - 1 {
                assert(decimal(n)[i] == decimal(n / 10)[i]);
            }
        }
    }
    if m >= 10 {
        assert(decimal(m).drop_last() =~= decimal(m / 10));
        assert(decimal(m / 10).len() > 0) by {
            if m / 10 >= 10 {
                assert(decimal(m / 10).len() >= 1);
            }
        }
    }
    assert(decimal(m).last() as u32 == 0x30 + m % 10);
    if decimal(n) == decimal(m) {
        assert(n % 10 == m % 10);
        if n < 10 && m >= 10 {
            assert(decimal(n).len() == 1);
            assert(decimal(m).len() >= 2);
        }
        if n >= 10 && m < 10 {
            assert(decimal(m).len() == 1);
            assert(decimal(n).len() >= 2);
        }
        if n >= 10 && m >= 10 {
            assert(decimal(n / 10) == decimal(m / 10));
        }
    }
}

/// What an error says; a refusal names the status and the body, and a
/// malformed event what was wrong.
pub proof fn law_errors_say_what_failed(error: GatewayError)
    ensures
        error is Build ==> error.text() == "build gateway http client"@,
        error is Transport ==> error.text() == "gateway transport error"@,
        error is ReadBody ==> error.text() == "read gateway response body"@,
        error matches GatewayError::Status { status, body } ==> error.text()
            == "gateway answered status "@ + decimal(status as int) + ": "@ + body@,
        error matches GatewayError::Malformed { message, .. } ==> error.text()
            == "malformed gateway event: "@ + message@,
{
}

/// A status is a success exactly in the two hundreds.
pub proof fn law_success_is_the_two_hundreds(status: u16)
    ensures
        success(status) <==> status / 100 == 2,
{
}

/// A request goes to its route under the base URL. The probe alone is sent
/// without the key and bounded by the probe's bound; every other request
/// carries the key wherever there is one. Only what posts carries a body, and
/// only what may stream is bounded on its headers.
pub proof fn law_requests_address_their_routes(
    client: GatewayClient,
    route: Route,
    request: GatewayRequest,
)
    requires
        client.asks(route, request),
    ensures
        request.url@ == client.base() + match route {
            Route::Health => "/health"@,
            Route::Models => "/v1/models"@,
            Route::Profiles => "/admin/profiles"@,
            Route::Status => "/admin/status"@,
            Route::SwitchProfile => "/admin/switch-profile"@,
            Route::Cache => "/v1/cache"@,
            Route::Progress => "/admin/progress"@,
        },
        route == Route::Health ==> request.authorization is None,
        route != Route::Health && client.key().len() == 0 ==> request.authorization is None,
        route != Route::Health && client.key().len() > 0 ==> (request.authorization matches Some(
            header,
        ) && header@ == "Bearer "@ + client.key()),
        request.json <==> route == Route::SwitchProfile || route == Route::Cache,
        request.bound is Headers <==> route == Route::SwitchProfile || route == Route::Cache
            || route == Route::Progress,
        request.bound matches Bound::Headers(seconds) ==> seconds == client.request_bound(),
        request.bound matches Bound::Whole(seconds) ==> seconds == if route == Route::Health {
            client.health_bound()
        } else {
            client.request_bound()
        },
        route.method() == Verb::Post <==> route == Route::SwitchProfile || route == Route::Cache,
{
}

/// The defaults, in seconds: a probe is given up well before a request is.
pub proof fn law_default_bounds()
    ensures
        HEALTH_PROBE_TIMEOUT == 2,
        CONNECT_TIMEOUT == 5,
        REQUEST_TIMEOUT == 30,
{
}

/// The body of a post is an object of one field that holds the text.
pub proof fn law_a_body_holds_its_field(name: Seq<char>, value: Seq<char>)
    ensures
        one_field(name, value) == seq!['{', '"'] + name + seq!['"', ':'] + quoted(value) + seq!['}'],
{
    reveal_strlit("{\"");
    reveal_strlit("\":");
    reveal_strlit("}");
    assert("{\""@ =~= seq!['{', '"']);
    assert("\":"@ =~= seq!['"', ':']);
    assert("}"@ =~= seq!['}']);
}

/// The Realtime URL of a base: none where the base does not parse, with that
/// reason, or where its scheme is neither `http` nor `https`; else the base
/// without its fragment and query, with `ws` for `http` and `wss` for `https`,
/// the Realtime path behind its own path, and the one fixed query.
pub proof fn law_the_socket_url_is_the_base_rewritten(base: Seq<char>, url: Seq<char>)
    ensures
        url_parts(base) matches Err(why) ==> realtime_outcome(base) == Err::<
            Seq<char>,
            SocketUrlFault,
        >(SocketUrlFault::Unparsable(why)),
        url_parts(base) matches Ok((scheme, path)) ==> {
            &&& scheme != "http"@ && scheme != "https"@ ==> realtime_outcome(base) == Err::<
                Seq<char>,
                SocketUrlFault,
            >(SocketUrlFault::Scheme(scheme))
            &&& realtime_outcome(base) == Ok::<Seq<char>, SocketUrlFault>(url) ==> {
                let socket = if scheme == "http"@ {
                    "ws"@
                } else {
                    "wss"@
                };
                &&& scheme == "http"@ || scheme == "https"@
                &&& with_fragment(base, None) matches Some(a)
                &&& with_query(a, None) matches Some(b)
                &&& with_scheme(b, socket) matches Some(c)
                &&& with_path(c, trimmed_end(path, '/') + "/v1/realtime"@) matches Some(d)
                &&& with_query(d, Some("intent=transcription"@)) == Some(url)
            }
            &&& (scheme == "http"@ || scheme == "https"@) && realtime_outcome(base) is Err
                ==> realtime_outcome(base)->Err_0 is Unconvertible || realtime_outcome(
                base,
            )->Err_0 is TooLong
        },
{
}

/// A base whose rewriting the `url` crate can do, and whose texts stay within
/// the bound, is never refused.
pub proof fn law_a_short_base_is_rewritten(
    base: Seq<char>,
    scheme: Seq<char>,
    path: Seq<char>,
    texts: Seq<Seq<char>>,
)
    requires
        url_parts(base) == Ok::<(Seq<char>, Seq<char>), Seq<char>>((scheme, path)),
        scheme == "http"@ || scheme == "https"@,
        texts.len() == 5,
        forall|i: int| 0 <= i < 5 ==> (#[trigger] texts[i]).len() <= 0x100_0000,
        path.len() <= 0x100_0000 - 12,
        with_fragment(base, None) == Some(texts[0]),
        with_query(texts[0], None) == Some(texts[1]),
        with_scheme(
            texts[1],
            if scheme == "http"@ {
                "ws"@
            } else {
                "wss"@
            },
        ) == Some(texts[2]),
        with_path(texts[2], trimmed_end(path, '/') + "/v1/realtime"@) == Some(texts[3]),
        with_query(texts[3], Some("intent=transcription"@)) == Some(texts[4]),
    ensures
        realtime_outcome(base) == Ok::<Seq<char>, SocketUrlFault>(texts[4]),
{
    reveal_strlit("/v1/realtime");
    reveal_strlit("intent=transcription");
    reveal_strlit("ws");
    reveal_strlit("wss");
    reveal_strlit("http");
    reveal_strlit("https");
    crate::text::law_trimming_takes_the_end_alone(path, '/');
    assert(texts[1].len() <= 0x100_0000 && texts[2].len() <= 0x100_0000 && texts[3].len()
        <= 0x100_0000);
    assert("http"@ != "https"@) by {
        assert("http"@.len() != "https"@.len());
    }
}

/// What a refused Realtime URL says.
pub proof fn law_socket_faults_say_why(fault: SocketUrlFault)
    ensures
        fault matches SocketUrlFault::Unparsable(why) ==> fault.text() == why,
        fault matches SocketUrlFault::Scheme(scheme) ==> fault.text() == "gateway URL scheme "@
            + debug_text(scheme) + " cannot carry a WebSocket"@,
        fault is Unconvertible ==> fault.text()
            == "gateway URL scheme cannot be converted to WebSocket"@,
        fault is TooLong ==> fault.text() == "gateway URL is too long"@,
{
}

} // verus!
