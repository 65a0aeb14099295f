//! Replaceable gateway endpoint and credential state.
//!
//! Every gateway-dependent path loads one immutable snapshot holding the
//! client, base URL, bearer, and generation. A replacement builds the complete
//! next snapshot before it is published, so that URL and bearer never tear.
//! Explicitly configured endpoints carry no local identity and grant no
//! shutdown authority.

use crate::gateway::{
    decimal, render_decimal, GatewayClient, GatewayError, HEALTH_PROBE_TIMEOUT, REQUEST_TIMEOUT,
};
use crate::text::{concat, trimmed_end};
use vstd::prelude::*;

verus! {

/// A local gateway boot that was proven to be the one that the connection
/// file names.
#[derive(Debug, PartialEq, Eq)]
pub struct ValidatedConnection {
    /// The loopback port.
    pub port: u16,
    /// The bearer key.
    pub api_key: String,
    /// When the gateway booted, in seconds.
    pub epoch: u64,
    /// When the gateway booted, as text.
    pub started_at: String,
}

/// [`ValidatedConnection`] over plain values.
pub struct ConnectionModel {
    pub port: u16,
    pub api_key: Seq<char>,
    pub epoch: u64,
    pub started_at: Seq<char>,
}

impl View for ValidatedConnection {
    type V = ConnectionModel;

    open spec fn view(&self) -> ConnectionModel {
        ConnectionModel {
            port: self.port,
            api_key: self.api_key@,
            epoch: self.epoch,
            started_at: self.started_at@,
        }
    }
}

impl Clone for ValidatedConnection {
    fn clone(&self) -> (copy: ValidatedConnection)
        ensures
            copy@ == self@,
    {
        ValidatedConnection {
            port: self.port,
            api_key: self.api_key.clone(),
            epoch: self.epoch,
            started_at: self.started_at.clone(),
        }
    }
}

/// The identity of a snapshot over plain values.
pub open spec fn identity_model(identity: Option<ValidatedConnection>) -> Option<ConnectionModel> {
    match identity {
        Some(c) => Some(c@),
        None => None,
    }
}

/// One immutable generation of the gateway's client credentials.
pub struct GatewaySnapshot {
    client: GatewayClient,
    base_url: String,
    api_key: String,
    generation: u64,
    identity: Option<ValidatedConnection>,
}

/// [`GatewaySnapshot`] over plain values.
pub struct SnapshotModel {
    /// The base URL, without a trailing slash.
    pub base_url: Seq<char>,
    /// The bearer key.
    pub api_key: Seq<char>,
    /// The client's bound on requests, in seconds.
    pub request_bound: u64,
    /// The client's bound on the health probe, in seconds.
    pub health_bound: u64,
    /// The generation assigned before the snapshot was published.
    pub generation: u64,
    /// The proven local boot, none for an explicitly configured endpoint.
    pub identity: Option<ConnectionModel>,
}

impl View for GatewaySnapshot {
    type V = SnapshotModel;

    closed spec fn view(&self) -> SnapshotModel {
        SnapshotModel {
            base_url: self.base_url@,
            api_key: self.api_key@,
            request_bound: self.client.request_bound(),
            health_bound: self.client.health_bound(),
            generation: self.generation,
            identity: identity_model(self.identity),
        }
    }
}

/// The snapshot of an endpoint and credential pair, with the default bounds.
pub open spec fn built(
    base_url: Seq<char>,
    api_key: Seq<char>,
    generation: u64,
    identity: Option<ConnectionModel>,
) -> SnapshotModel {
    SnapshotModel {
        base_url: trimmed_end(base_url, '/'),
        api_key,
        request_bound: REQUEST_TIMEOUT,
        health_bound: HEALTH_PROBE_TIMEOUT,
        generation,
        identity,
    }
}

fn clone_identity(identity: &Option<ValidatedConnection>) -> (copy: Option<ValidatedConnection>)
    ensures
        identity_model(copy) == identity_model(*identity),
{
    match identity {
        Some(c) => Some(c.clone()),
        None => None,
    }
}

impl Clone for GatewaySnapshot {
    fn clone(&self) -> (copy: GatewaySnapshot)
        ensures
            copy@ == self@,
    {
        proof {
            use_type_invariant(self);
        }
        GatewaySnapshot {
            client: self.client.clone(),
            base_url: self.base_url.clone(),
            api_key: self.api_key.clone(),
            generation: self.generation,
            identity: clone_identity(&self.identity),
        }
    }
}

impl GatewaySnapshot {
    /// The URL and the bearer are those of the client: they never tear.
    #[verifier::type_invariant]
    spec fn coherent(self) -> bool {
        self.client.base() == self.base_url@ && self.client.key() == self.api_key@
    }

    /// The client in this generation.
    #[must_use]
    pub fn client(&self) -> (client: &GatewayClient)
        ensures
            client.base() == self@.base_url,
            client.key() == self@.api_key,
            client.request_bound() == self@.request_bound,
            client.health_bound() == self@.health_bound,
    {
        proof {
            use_type_invariant(self);
        }
        &self.client
    }

    /// The gateway base URL in this generation.
    #[must_use]
    pub fn base_url(&self) -> (url: &str)
        ensures
            url@ == self@.base_url,
    {
        self.base_url.as_str()
    }

    /// The gateway bearer in this generation.
    #[must_use]
    pub fn api_key(&self) -> (key: &str)
        ensures
            key@ == self@.api_key,
    {
        self.api_key.as_str()
    }

    /// This snapshot's monotonic generation.
    #[must_use]
    pub fn generation(&self) -> (generation: u64)
        ensures
            generation == self@.generation,
    {
        self.generation
    }

    /// The proven local boot, where there is one.
    #[must_use]
    pub fn identity(&self) -> (identity: Option<ValidatedConnection>)
        ensures
            identity_model(identity) == self@.identity,
    {
        clone_identity(&self.identity)
    }

    fn with_generation(self, generation: u64) -> (snapshot: GatewaySnapshot)
        ensures
            snapshot@ == (SnapshotModel { generation, ..self@ }),
    {
        proof {
            use_type_invariant(&self);
        }
        GatewaySnapshot {
            client: self.client,
            base_url: self.base_url,
            api_key: self.api_key,
            generation,
            identity: self.identity,
        }
    }
}

/// Builds the client before publication so URL and bearer never tear.
pub fn build_snapshot(
    base_url: &str,
    api_key: &str,
    generation: u64,
    identity: Option<ValidatedConnection>,
) -> (snapshot: GatewaySnapshot)
    ensures
        snapshot@ == built(base_url@, api_key@, generation, identity_model(identity)),
{
    let client = GatewayClient::new(base_url, api_key);
    let base_url = client.base_url().to_owned();
    GatewaySnapshot { client, base_url, api_key: api_key.to_owned(), generation, identity }
}

/// A failure to publish a replacement gateway generation.
#[derive(Debug)]
#[non_exhaustive]
pub enum GatewayPublicationError {
    /// The replacement client could not be built.
    Build(GatewayError),
    /// The binding has permanently revoked replacement publication.
    PublicationClosed,
}

impl GatewayPublicationError {
    /// What the error says.
    pub open spec fn text(&self) -> Seq<char> {
        match *self {
            GatewayPublicationError::Build(error) => error.text(),
            GatewayPublicationError::PublicationClosed =>
                "gateway replacement publication is permanently closed"@,
        }
    }

    /// What the error says.
    pub fn to_string(&self) -> (text: String)
        ensures
            text@ == self.text(),
    {
        match self {
            GatewayPublicationError::Build(error) => error.to_string(),
            GatewayPublicationError::PublicationClosed =>
                "gateway replacement publication is permanently closed".to_owned(),
        }
    }
}

/// The current gateway snapshot, the generation that consumers were last
/// notified of, and the state of replacement publication.
pub struct GatewayBinding {
    current: GatewaySnapshot,
    changed: u64,
    next_generation: u64,
    closed: bool,
}

/// [`GatewayBinding`] over plain values.
pub struct BindingModel {
    /// The current snapshot.
    pub current: SnapshotModel,
    /// The generation that consumers were last notified of.
    pub changed: u64,
    /// The generation of the next publication.
    pub next_generation: u64,
    /// Whether publication was permanently revoked.
    pub closed: bool,
}

/// The generation after `generation`: the counter saturates.
pub open spec fn next_after(generation: u64) -> u64 {
    if generation == u64::MAX {
        u64::MAX
    } else {
        (generation + 1) as u64
    }
}

/// The binding after it published `snapshot`.
pub open spec fn published(m: BindingModel, snapshot: SnapshotModel) -> BindingModel {
    BindingModel {
        current: SnapshotModel { generation: m.next_generation, ..snapshot },
        changed: m.next_generation,
        next_generation: next_after(m.next_generation),
        closed: m.closed,
    }
}

/// The generations of a binding fit together: consumers were notified of the
/// current one, and the next one is its successor.
pub open spec fn in_sequence(m: BindingModel) -> bool {
    &&& m.changed == m.current.generation
    &&& m.next_generation == next_after(m.current.generation)
}

/// The loopback URL of a local gateway.
pub open spec fn sidecar_url(port: u16) -> Seq<char> {
    "http://127.0.0.1:"@ + decimal(port as int)
}

/// The snapshot that a local gateway's replacement publishes.
pub open spec fn sidecar_snapshot(connection: ConnectionModel) -> SnapshotModel {
    built(sidecar_url(connection.port), connection.api_key, 0, Some(connection))
}

impl View for GatewayBinding {
    type V = BindingModel;

    closed spec fn view(&self) -> BindingModel {
        BindingModel {
            current: self.current@,
            changed: self.changed,
            next_generation: self.next_generation,
            closed: self.closed,
        }
    }
}

/// How far a cancellable replacement came before it was decided.
#[derive(Clone, Copy, Debug, PartialEq, Eq, Structural)]
pub enum Race {
    /// It was cancelled before it began.
    CancelledAtStart,
    /// Its cancellation scope had already ended.
    ScopeEnded,
    /// It holds the publication lock, and cancellation reads so.
    Locked {
        /// Whether the caller has cancelled.
        cancelled: bool,
    },
}

impl GatewayBinding {
    /// The generations fit together.
    #[verifier::type_invariant]
    spec fn sequenced(self) -> bool {
        in_sequence(self@)
    }

    /// Builds generation zero from one endpoint and credential pair.
    pub fn new(base_url: &str, api_key: &str) -> (binding: GatewayBinding)
        ensures
            binding@ == initial(built(base_url@, api_key@, 0, None)),
    {
        Self::new_with_identity(base_url, api_key, None)
    }

    /// Builds generation zero with an optional validated local identity.
    pub fn new_with_identity(
        base_url: &str,
        api_key: &str,
        identity: Option<ValidatedConnection>,
    ) -> (binding: GatewayBinding)
        ensures
            binding@ == initial(built(base_url@, api_key@, 0, identity_model(identity))),
    {
        GatewayBinding {
            current: build_snapshot(base_url, api_key, 0, identity),
            changed: 0,
            next_generation: 1,
            closed: false,
        }
    }

    /// Builds a binding around a client that carries its own timeouts.
    #[must_use]
    pub fn from_client(client: GatewayClient) -> (binding: GatewayBinding)
        ensures
            binding@ == initial(
                (SnapshotModel {
                    base_url: client.base(),
                    api_key: client.key(),
                    request_bound: client.request_bound(),
                    health_bound: client.health_bound(),
                    generation: 0,
                    identity: None,
                }),
            ),
    {
        let base_url = client.base_url().to_owned();
        let api_key = client.api_key().to_owned();
        GatewayBinding {
            current: GatewaySnapshot { client, base_url, api_key, generation: 0, identity: None },
            changed: 0,
            next_generation: 1,
            closed: false,
        }
    }

    /// Loads one endpoint and credential generation.
    #[must_use]
    pub fn snapshot(&self) -> (snapshot: GatewaySnapshot)
        ensures
            snapshot@ == self@.current,
            in_sequence(self@),
    {
        proof {
            use_type_invariant(self);
        }
        self.current.clone()
    }

    /// The generation that consumers were last notified of.
    #[must_use]
    pub fn changed(&self) -> (generation: u64)
        ensures
            generation == self@.changed,
            in_sequence(self@),
    {
        proof {
            use_type_invariant(self);
        }
        self.changed
    }

    /// The currently published generation.
    #[must_use]
    pub fn generation(&self) -> (generation: u64)
        ensures
            generation == self@.current.generation,
            in_sequence(self@),
    {
        proof {
            use_type_invariant(self);
        }
        self.current.generation
    }

    /// Builds and publishes a replacement.
    pub fn replace(&mut self, base_url: &str, api_key: &str) -> (outcome: Result<
        (),
        GatewayPublicationError,
    >)
        ensures
            publishes(
                old(self)@,
                built(base_url@, api_key@, 0, None),
                final(self)@,
                outcome,
            ),
    {
        self.replace_with_identity(base_url, api_key, None)
    }

    /// Builds and publishes a complete replacement generation.
    pub fn replace_with_identity(
        &mut self,
        base_url: &str,
        api_key: &str,
        identity: Option<ValidatedConnection>,
    ) -> (outcome: Result<(), GatewayPublicationError>)
        ensures
            publishes(
                old(self)@,
                built(base_url@, api_key@, 0, identity_model(identity)),
                final(self)@,
                outcome,
            ),
    {
        let snapshot = build_snapshot(base_url, api_key, 0, identity);
        self.publish_snapshot(snapshot)
    }

    /// Publishes a snapshot under the next generation, unless publication is
    /// closed.
    pub fn publish_snapshot(&mut self, snapshot: GatewaySnapshot) -> (outcome: Result<
        (),
        GatewayPublicationError,
    >)
        ensures
            publishes(old(self)@, snapshot@, final(self)@, outcome),
            in_sequence(final(self)@),
    {
        proof {
            use_type_invariant(&*self);
        }
        if self.closed {
            return Err(GatewayPublicationError::PublicationClosed);
        }
        let generation: u64 = self.next_generation;
        *self = GatewayBinding {
            current: snapshot.with_generation(generation),
            changed: generation,
            next_generation: generation.saturating_add(1),
            closed: self.closed,
        };
        Ok(())
    }

    /// Replaces the local gateway's port and bearer.
    pub fn replace_sidecar(&mut self, connection: &ValidatedConnection) -> (outcome: Result<
        (),
        GatewayPublicationError,
    >)
        ensures
            publishes(old(self)@, sidecar_snapshot(connection@), final(self)@, outcome),
    {
        let url = sidecar_base_url(connection);
        self.replace_with_identity(
            url.as_str(),
            connection.api_key.as_str(),
            Some(connection.clone()),
        )
    }

    /// Permanently revokes replacement publication.
    pub fn close_publication(&mut self)
        ensures
            final(self)@ == (BindingModel { closed: true, ..old(self)@ }),
    {
        proof {
            use_type_invariant(&*self);
        }
        self.closed = true;
    }

    /// Whether replacement publication has been permanently revoked.
    #[must_use]
    pub fn publication_closed(&self) -> (closed: bool)
        ensures
            closed == self@.closed,
    {
        self.closed
    }

    /// Replaces the local gateway unless caller cancellation wins. Where it
    /// does, nothing is published: `Ok(false)`, unless the cancellation came
    /// before the lock was tried and publication is closed.
    pub fn replace_sidecar_cancellable(&mut self, connection: &ValidatedConnection, race: Race) -> (outcome:
        Result<bool, GatewayPublicationError>)
        ensures
            match race {
                Race::CancelledAtStart | Race::ScopeEnded => {
                    &&& final(self)@ == old(self)@
                    &&& old(self)@.closed ==> outcome is Err
                        && outcome->Err_0 is PublicationClosed
                    &&& !old(self)@.closed ==> outcome == Ok::<bool, GatewayPublicationError>(false)
                },
                Race::Locked { cancelled: true } => {
                    &&& final(self)@ == old(self)@
                    &&& outcome == Ok::<bool, GatewayPublicationError>(false)
                },
                Race::Locked { cancelled: false } => {
                    &&& old(self)@.closed ==> outcome is Err
                        && outcome->Err_0 is PublicationClosed && final(self)@ == old(self)@
                    &&& !old(self)@.closed ==> outcome == Ok::<bool, GatewayPublicationError>(true)
                        && final(self)@ == published(old(self)@, sidecar_snapshot(connection@))
                },
            },
    {
        match race {
            Race::CancelledAtStart | Race::ScopeEnded => {
                if self.closed {
                    Err(GatewayPublicationError::PublicationClosed)
                } else {
                    Ok(false)
                }
            },
            Race::Locked { cancelled } => {
                if cancelled {
                    return Ok(false);
                }
                match self.replace_sidecar(connection) {
                    Ok(()) => Ok(true),
                    Err(error) => Err(error),
                }
            },
        }
    }

    /// What a cancellable replacement is answered after it waited because
    /// another publisher owned the publication lock: `Ok(false)` where it was
    /// cancelled, and nothing yet, so that it tries the lock again, where it
    /// was not.
    pub fn waited(cancelled: bool) -> (answer: Option<Result<bool, GatewayPublicationError>>)
        ensures
            answer == if cancelled {
                Some(Ok::<bool, GatewayPublicationError>(false))
            } else {
                None
            },
    {
        if cancelled {
            Some(Ok(false))
        } else {
            None
        }
    }

    /// The validated local gateway that shutdown may be requested of: none
    /// where the current gateway came from explicit configuration and grants
    /// no local shutdown authority.
    pub fn shutdown_target(&self) -> (target: Option<ValidatedConnection>)
        ensures
            identity_model(target) == self@.current.identity,
    {
        self.current.identity()
    }
}

/// The loopback URL of a validated local gateway.
pub fn sidecar_base_url(connection: &ValidatedConnection) -> (url: String)
    ensures
        url@ == sidecar_url(connection@.port),
{
    let digits = render_decimal(connection.port as u128);
    concat("http://127.0.0.1:", digits.as_str())
}

/// A binding at generation zero.
pub open spec fn initial(snapshot: SnapshotModel) -> BindingModel {
    BindingModel { current: snapshot, changed: 0, next_generation: 1, closed: false }
}

/// What a publication of `snapshot` does: it is published under the next
/// generation, or refused with nothing changed where publication is closed.
pub open spec fn publishes(
    before: BindingModel,
    snapshot: SnapshotModel,
    after: BindingModel,
    outcome: Result<(), GatewayPublicationError>,
) -> bool {
    if before.closed {
        outcome is Err && outcome->Err_0 is PublicationClosed && after == before
    } else {
        outcome is Ok && after == published(before, snapshot)
    }
}

/// Generations are monotonic: publication makes a later generation current,
/// notifies consumers of it, and keeps the generations in sequence, until the
/// counter saturates.
pub proof fn law_generations_advance(m: BindingModel, snapshot: SnapshotModel)
    requires
        in_sequence(m),
    ensures
        in_sequence(published(m, snapshot)),
        published(m, snapshot).changed == published(m, snapshot).current.generation,
        published(m, snapshot).current.generation == next_after(m.current.generation),
        m.current.generation < u64::MAX ==> m.current.generation < published(
            m,
            snapshot,
        ).current.generation,
{
}

/// A binding starts with its generations in sequence.
pub proof fn law_starts_in_sequence(snapshot: SnapshotModel)
    requires
        snapshot.generation == 0,
    ensures
        in_sequence(initial(snapshot)),
        !initial(snapshot).closed,
{
}

/// Closing is permanent: a closed binding refuses every publication, keeps the
/// snapshot, the generation, and the notification it had, and stays closed.
pub proof fn law_closed_is_permanent(
    m: BindingModel,
    snapshot: SnapshotModel,
    after: BindingModel,
    outcome: Result<(), GatewayPublicationError>,
)
    requires
        m.closed,
        publishes(m, snapshot, after, outcome),
    ensures
        outcome is Err,
        after == m,
        after.closed,
{
}

/// A snapshot is built from the pair that was given: the base URL but for its
/// trailing slashes, the key itself, the default bounds, and the identity that
/// was proven, where one was.
pub proof fn law_a_snapshot_is_what_was_given(
    base_url: Seq<char>,
    api_key: Seq<char>,
    generation: u64,
    identity: Option<ConnectionModel>,
)
    ensures
        built(base_url, api_key, generation, identity).base_url == trimmed_end(base_url, '/'),
        built(base_url, api_key, generation, identity).api_key == api_key,
        built(base_url, api_key, generation, identity).generation == generation,
        built(base_url, api_key, generation, identity).identity == identity,
        built(base_url, api_key, generation, identity).request_bound == 30,
        built(base_url, api_key, generation, identity).health_bound == 2,
{
}

/// Publication replaces the endpoint whole: what is current afterwards is the
/// snapshot that was published, under its new generation, and publication
/// stays as open as it was.
pub proof fn law_publication_replaces_the_endpoint(m: BindingModel, snapshot: SnapshotModel)
    ensures
        published(m, snapshot).current.base_url == snapshot.base_url,
        published(m, snapshot).current.api_key == snapshot.api_key,
        published(m, snapshot).current.request_bound == snapshot.request_bound,
        published(m, snapshot).current.health_bound == snapshot.health_bound,
        published(m, snapshot).current.identity == snapshot.identity,
        published(m, snapshot).current.generation == m.next_generation,
        published(m, snapshot).closed == m.closed,
        m.next_generation < u64::MAX ==> published(m, snapshot).next_generation
            == m.next_generation + 1,
{
}

/// An open binding publishes and a closed one does not: an attempt succeeds
/// exactly where publication is open, and one that does not changes nothing.
pub proof fn law_only_an_open_binding_publishes(
    before: BindingModel,
    snapshot: SnapshotModel,
    after: BindingModel,
    outcome: Result<(), GatewayPublicationError>,
)
    requires
        publishes(before, snapshot, after, outcome),
    ensures
        outcome is Ok <==> !before.closed,
        outcome is Err ==> outcome->Err_0 is PublicationClosed && after == before,
        outcome is Ok ==> after.current.base_url == snapshot.base_url && after.current.api_key
            == snapshot.api_key && after.current.identity == snapshot.identity && after.changed
            == before.next_generation && after.current.generation == before.next_generation,
{
}

/// A local gateway is reached on the loopback address at its port, with its
/// own key, and its snapshot carries the whole proven boot.
pub proof fn law_a_local_gateway_is_on_the_loopback(connection: ConnectionModel)
    ensures
        sidecar_url(connection.port) == "http://127.0.0.1:"@ + decimal(connection.port as int),
        sidecar_snapshot(connection).api_key == connection.api_key,
        sidecar_snapshot(connection).identity == Some(connection),
        sidecar_snapshot(connection).base_url == sidecar_url(connection.port),
        sidecar_snapshot(connection).generation == 0,
{
    let url = sidecar_url(connection.port);
    crate::gateway::law_decimal_digits_tell_numbers_apart(connection.port as int, 0);
    let digits = decimal(connection.port as int);
    assert(url.last() == digits.last());
    assert(digits[digits.len() - 1] as u32 >= 0x30);
    assert(url.last() != '/');
}

/// A binding starts at generation zero with what it was given.
pub proof fn law_a_binding_starts_with_what_was_given(snapshot: SnapshotModel)
    ensures
        initial(snapshot).current == snapshot,
        initial(snapshot).changed == 0,
        initial(snapshot).next_generation == 1,
        !initial(snapshot).closed,
{
}

/// What a failed publication says.
pub proof fn law_publication_errors_say_why(error: GatewayPublicationError)
    ensures
        error matches GatewayPublicationError::Build(why) ==> error.text() == why.text(),
        error is PublicationClosed ==> error.text()
            == "gateway replacement publication is permanently closed"@,
{
}

} // verus!
