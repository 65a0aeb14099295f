//! Gateway endpoint resolution: a live gateway discovery file in the run
//! directory first, explicit `[gateway]` config second.
//!
//! A stale file is condemned with its reason and explicit config takes over;
//! with no live file and no explicit config there is nothing to connect to.

use crate::binding::{
    identity_model, sidecar_base_url, sidecar_url, ConnectionModel, ValidatedConnection,
};
use crate::status::StatusBarUpdate;
use crate::text::concat;
use vstd::prelude::*;

verus! {

/// The gateway settings of the workshop's configuration.
#[derive(Debug, Clone, PartialEq, Eq)]
pub struct GatewayConfig {
    /// The base URL; empty where it is unset.
    pub base_url: String,
    /// The bearer key.
    pub api_key: String,
}

/// Why a gateway discovery file was condemned: a wrong key, a dead pid, and a
/// foreign image are different problems for the operator.
#[derive(Debug, Clone, Copy, PartialEq, Eq, Structural)]
#[non_exhaustive]
pub enum StaleReason {
    /// The file was not valid.
    Invalid,
    /// The recorded process is dead.
    ProcessDead,
    /// The recorded pid belongs to another program.
    ImageMismatch,
    /// The recorded gateway does not answer.
    HealthFailed,
    /// The file's key was rejected.
    KeyRejected,
    /// Any other reason.
    Other,
}

/// What discovery found.
#[derive(Debug)]
pub enum Discovery {
    /// There is no run directory to look in.
    Skipped,
    /// A live file, and whether the gateway it names could be validated.
    Attached(Result<ValidatedConnection, StaleReason>),
    /// A file that was condemned and removed.
    Stale(StaleReason),
    /// The file could not be read or removed.
    Failed,
    /// There is no file.
    Absent,
}

/// Which source won gateway endpoint resolution.
#[derive(Debug, Clone, Copy, PartialEq, Eq, Structural)]
#[non_exhaustive]
pub enum GatewaySource {
    /// A live gateway discovery file in the run directory.
    GatewayDiscoveryFile,
    /// Explicit `[gateway]` settings from the configuration.
    Config,
}

/// The gateway endpoint that state construction connects to, and how it was
/// found.
#[derive(Debug, PartialEq, Eq)]
pub struct ResolvedGateway {
    base_url: String,
    api_key: String,
    identity: Option<ValidatedConnection>,
    source: GatewaySource,
    stale: Option<StaleReason>,
}

/// [`ResolvedGateway`] over plain values.
pub struct ResolvedModel {
    pub base_url: Seq<char>,
    pub api_key: Seq<char>,
    pub identity: Option<ConnectionModel>,
    pub source: GatewaySource,
    pub stale: Option<StaleReason>,
}

impl View for ResolvedGateway {
    type V = ResolvedModel;

    closed spec fn view(&self) -> ResolvedModel {
        ResolvedModel {
            base_url: self.base_url@,
            api_key: self.api_key@,
            identity: identity_model(self.identity),
            source: self.source,
            stale: self.stale,
        }
    }
}

/// The endpoint that a validated local gateway published.
pub open spec fn attached(connection: ConnectionModel) -> ResolvedModel {
    ResolvedModel {
        base_url: sidecar_url(connection.port),
        api_key: connection.api_key,
        identity: Some(connection),
        source: GatewaySource::GatewayDiscoveryFile,
        stale: None,
    }
}

/// The endpoint that explicit config names, with the reason for which a file
/// was condemned on the way.
pub open spec fn configured(config: GatewayConfig, stale: Option<StaleReason>) -> ResolvedModel {
    ResolvedModel {
        base_url: config.base_url@,
        api_key: config.api_key@,
        identity: None,
        source: GatewaySource::Config,
        stale,
    }
}

/// The reason for which discovery condemned a file.
pub open spec fn condemned(discovery: Discovery) -> Option<StaleReason> {
    match discovery {
        Discovery::Attached(Err(reason)) => Some(reason),
        Discovery::Stale(reason) => Some(reason),
        _ => None,
    }
}

/// What a stale reason means, as a clause.
pub open spec fn clause_text(reason: StaleReason) -> Seq<char> {
    match reason {
        StaleReason::Invalid => "the file was not valid"@,
        StaleReason::ProcessDead => "the recorded gateway process is dead"@,
        StaleReason::ImageMismatch => "the recorded pid belongs to another program"@,
        StaleReason::HealthFailed => "the recorded gateway does not answer"@,
        StaleReason::KeyRejected => "the file's key was rejected"@,
        StaleReason::Other => "the file is stale"@,
    }
}

/// Renders a stale reason as a user-facing clause.
pub fn stale_clause(reason: StaleReason) -> (clause: &'static str)
    ensures
        clause@ == clause_text(reason),
{
    match reason {
        StaleReason::Invalid => "the file was not valid",
        StaleReason::ProcessDead => "the recorded gateway process is dead",
        StaleReason::ImageMismatch => "the recorded pid belongs to another program",
        StaleReason::HealthFailed => "the recorded gateway does not answer",
        StaleReason::KeyRejected => "the file's key was rejected",
        StaleReason::Other => "the file is stale",
    }
}

/// The name of a source, for the status bar and the log.
pub open spec fn label_text(source: GatewaySource) -> Seq<char> {
    match source {
        GatewaySource::GatewayDiscoveryFile => "gateway discovery file"@,
        GatewaySource::Config => "workshop.toml"@,
    }
}

impl ResolvedGateway {
    /// The endpoint that explicit config names, with no discovery.
    #[must_use]
    pub fn from_config(config: &GatewayConfig) -> (gateway: ResolvedGateway)
        ensures
            gateway@ == configured(*config, None),
    {
        ResolvedGateway {
            base_url: config.base_url.clone(),
            api_key: config.api_key.clone(),
            identity: None,
            source: GatewaySource::Config,
            stale: None,
        }
    }

    /// The endpoint that a validated local gateway boot published.
    #[must_use]
    pub fn from_validated(identity: ValidatedConnection) -> (gateway: ResolvedGateway)
        ensures
            gateway@ == attached(identity@),
    {
        ResolvedGateway {
            base_url: sidecar_base_url(&identity),
            api_key: identity.api_key.clone(),
            identity: Some(identity),
            source: GatewaySource::GatewayDiscoveryFile,
            stale: None,
        }
    }

    /// The resolved base URL.
    #[must_use]
    pub fn base_url(&self) -> (url: &str)
        ensures
            url@ == self@.base_url,
    {
        self.base_url.as_str()
    }

    /// The resolved bearer key.
    #[must_use]
    pub fn api_key(&self) -> (key: &str)
        ensures
            key@ == self@.api_key,
    {
        self.api_key.as_str()
    }

    /// The validated local gateway boot, when discovery won.
    #[must_use]
    pub fn identity(&self) -> (identity: Option<&ValidatedConnection>)
        ensures
            identity is Some <==> self@.identity is Some,
            identity matches Some(c) ==> self@.identity == Some(c@),
    {
        match &self.identity {
            Some(c) => Some(c),
            None => None,
        }
    }

    /// Which source won the resolution.
    #[must_use]
    pub fn source(&self) -> (source: GatewaySource)
        ensures
            source == self@.source,
    {
        self.source
    }

    /// Why a gateway discovery file was condemned on the way to the config
    /// fallback, when one was.
    #[must_use]
    pub fn stale(&self) -> (stale: Option<StaleReason>)
        ensures
            stale == self@.stale,
    {
        self.stale
    }

    /// The winning source rendered for the status bar and the log.
    #[must_use]
    pub fn source_label(&self) -> (label: &'static str)
        ensures
            label@ == label_text(self@.source),
    {
        match self.source {
            GatewaySource::GatewayDiscoveryFile => "gateway discovery file",
            GatewaySource::Config => "workshop.toml",
        }
    }
}

/// Gateway endpoint resolution found nothing to connect to.
#[derive(Debug, Clone, PartialEq, Eq)]
#[non_exhaustive]
pub struct ResolveError {
    detail: String,
    stale: Option<StaleReason>,
}

/// The rendered suffix of a resolution failure.
pub open spec fn detail_text(stale: Option<StaleReason>) -> Seq<char> {
    (match stale {
        Some(reason) => " (removed a stale gateway discovery file: "@ + clause_text(reason) + ")"@,
        None => ""@,
    })
        + "; start promptforge-gateway or set [gateway] base_url and api_key in workshop.toml"@
}

impl ResolveError {
    /// Why the file was condemned.
    pub closed spec fn reason(&self) -> Option<StaleReason> {
        self.stale
    }

    /// The rendered suffix.
    pub closed spec fn suffix(&self) -> Seq<char> {
        self.detail@
    }

    /// The failure with the stale-file note rendered in, when a file was
    /// condemned on the way.
    pub fn new(stale: Option<StaleReason>) -> (error: ResolveError)
        ensures
            error.reason() == stale,
            error.suffix() == detail_text(stale),
    {
        let mut detail = match stale {
            Some(reason) => {
                let mut note = concat(
                    " (removed a stale gateway discovery file: ",
                    stale_clause(reason),
                );
                note.push_str(")");
                note
            },
            None => "".to_owned(),
        };
        detail.push_str(
            "; start promptforge-gateway or set [gateway] base_url and api_key in workshop.toml",
        );
        ResolveError { detail, stale }
    }

    /// Why the gateway discovery file was condemned, when one was.
    #[must_use]
    pub fn stale(&self) -> (stale: Option<StaleReason>)
        ensures
            stale == self.reason(),
    {
        self.stale
    }

    /// What the error says.
    pub fn to_string(&self) -> (text: String)
        ensures
            text@ == "no gateway configured or running"@ + self.suffix(),
    {
        concat("no gateway configured or running", self.detail.as_str())
    }
}

/// Whether the config names a gateway itself: a non-empty `base_url` is
/// explicit, an empty one is not.
pub fn is_explicit(config: &GatewayConfig) -> (explicit: bool)
    ensures
        explicit == (config.base_url@.len() > 0),
{
    !config.base_url.as_str().is_empty()
}

/// Resolves the gateway endpoint from what discovery found and the loaded
/// config: a live gateway wins, explicit config is the fallback, and a read
/// failure never fails startup on its own.
pub fn resolve_with(discovery: Discovery, config: &GatewayConfig) -> (outcome: Result<
    ResolvedGateway,
    ResolveError,
>)
    ensures
        match discovery {
            Discovery::Attached(Ok(connection)) => outcome matches Ok(gateway) && gateway@
                == attached(connection@),
            _ => if config.base_url@.len() > 0 {
                outcome matches Ok(gateway) && gateway@ == configured(*config, condemned(discovery))
            } else {
                outcome matches Err(error) && error.reason() == condemned(discovery)
                    && error.suffix() == detail_text(condemned(discovery))
            },
        },
{
    let stale = match discovery {
        Discovery::Attached(Ok(identity)) => {
            return Ok(ResolvedGateway::from_validated(identity));
        },
        Discovery::Attached(Err(reason)) => Some(reason),
        Discovery::Stale(reason) => Some(reason),
        Discovery::Skipped | Discovery::Failed | Discovery::Absent => None,
    };
    if is_explicit(config) {
        return Ok(
            ResolvedGateway {
                base_url: config.base_url.clone(),
                api_key: config.api_key.clone(),
                identity: None,
                source: GatewaySource::Config,
                stale,
            },
        );
    }
    Err(ResolveError::new(stale))
}

/// The lines that report a resolution: a condemned file's reason, and the
/// winning source.
pub fn report(gateway: &ResolvedGateway) -> (lines: Vec<StatusBarUpdate>)
    ensures
        lines@.len() == if gateway@.stale is Some {
            2int
        } else {
            1int
        },
        gateway@.stale matches Some(reason) ==> lines@[0].informs(
            "Stale gateway discovery file"@,
            clause_text(reason) + "; attaching from workshop.toml"@,
        ),
        lines@.last().informs(
            "Connecting to gateway"@,
            "base URL "@ + gateway@.base_url + " ("@ + label_text(gateway@.source) + ")"@,
        ),
{
    let mut lines: Vec<StatusBarUpdate> = Vec::new();
    match gateway.stale() {
        Some(reason) => {
            let description = concat(stale_clause(reason), "; attaching from workshop.toml");
            lines.push(
                StatusBarUpdate::informing("Stale gateway discovery file", description.as_str()),
            );
        },
        None => {},
    }
    let mut description = concat("base URL ", gateway.base_url());
    description.push_str(" (");
    description.push_str(gateway.source_label());
    description.push_str(")");
    lines.push(StatusBarUpdate::informing("Connecting to gateway", description.as_str()));
    lines
}

/// A condemned file is never attached to: an endpoint from a discovery file
/// carries no stale reason and always a validated identity, and one from the
/// configuration carries none.
pub proof fn law_source_tells_identity(
    config: GatewayConfig,
    connection: ConnectionModel,
    stale: Option<StaleReason>,
)
    ensures
        attached(connection).identity == Some(connection),
        attached(connection).stale is None,
        attached(connection).source == GatewaySource::GatewayDiscoveryFile,
        configured(config, stale).identity is None,
        configured(config, stale).source == GatewaySource::Config,
{
}

/// A live local gateway is attached to as it published itself; explicit config
/// is attached to as it is written, without any identity, and with the reason
/// for which a file was condemned on the way.
pub proof fn law_endpoints_are_what_was_found(
    config: GatewayConfig,
    connection: ConnectionModel,
    stale: Option<StaleReason>,
)
    ensures
        attached(connection).base_url == "http://127.0.0.1:"@ + crate::gateway::decimal(
            connection.port as int,
        ),
        attached(connection).api_key == connection.api_key,
        attached(connection).source == GatewaySource::GatewayDiscoveryFile,
        configured(config, stale).base_url == config.base_url@,
        configured(config, stale).api_key == config.api_key@,
        configured(config, stale).identity is None,
        configured(config, stale).source == GatewaySource::Config,
        configured(config, stale).stale == stale,
{
}

/// A file is condemned exactly where discovery condemned it or could not
/// validate the gateway that it names, and for that reason.
pub proof fn law_only_a_stale_file_is_condemned(discovery: Discovery, reason: StaleReason)
    ensures
        condemned(discovery) == Some(reason) <==> {
            ||| discovery == Discovery::Stale(reason)
            ||| discovery == Discovery::Attached(Err(reason))
        },
        discovery is Skipped || discovery is Failed || discovery is Absent ==> condemned(
            discovery,
        ) is None,
        discovery matches Discovery::Attached(Ok(_)) ==> condemned(discovery) is None,
{
}

/// Every reason reads differently, and so does every source; what cannot be
/// resolved says which file was removed, where one was, and what to do.
pub proof fn law_reasons_are_told_apart(a: StaleReason, b: StaleReason, stale: Option<StaleReason>)
    ensures
        clause_text(a) == clause_text(b) ==> a == b,
        a == StaleReason::Invalid ==> clause_text(a) == "the file was not valid"@,
        a == StaleReason::ProcessDead ==> clause_text(a) == "the recorded gateway process is dead"@,
        a == StaleReason::ImageMismatch ==> clause_text(a)
            == "the recorded pid belongs to another program"@,
        a == StaleReason::HealthFailed ==> clause_text(a) == "the recorded gateway does not answer"@,
        a == StaleReason::KeyRejected ==> clause_text(a) == "the file's key was rejected"@,
        a == StaleReason::Other ==> clause_text(a) == "the file is stale"@,
        label_text(GatewaySource::GatewayDiscoveryFile) == "gateway discovery file"@,
        label_text(GatewaySource::Config) == "workshop.toml"@,
        stale is None ==> detail_text(stale)
            == "; start promptforge-gateway or set [gateway] base_url and api_key in workshop.toml"@,
        stale matches Some(reason) ==> detail_text(stale)
            == " (removed a stale gateway discovery file: "@ + clause_text(reason) + ")"@
            + "; start promptforge-gateway or set [gateway] base_url and api_key in workshop.toml"@,
{
    reveal_strlit("the file was not valid");
    reveal_strlit("the recorded gateway process is dead");
    reveal_strlit("the recorded pid belongs to another program");
    reveal_strlit("the recorded gateway does not answer");
    reveal_strlit("the file's key was rejected");
    reveal_strlit("the file is stale");
    reveal_strlit("");
    let tail = "; start promptforge-gateway or set [gateway] base_url and api_key in workshop.toml"@;
    assert(""@ + tail =~= tail);
    if a != b {
        assert(clause_text(a).len() != clause_text(b).len() || clause_text(a)[21] != clause_text(
            b,
        )[21]);
    }
}

} // verus!
