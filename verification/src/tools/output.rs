//! Tool output with mandatory trust, and the narrow model-safe tool error.

use vstd::prelude::*;

verus! {

/// Whether a tool's output is trusted or must be treated as untrusted data.
#[derive(Debug, Clone, Copy, PartialEq, Eq, Structural)]
#[non_exhaustive]
pub enum OutputTrust {
    /// The output was produced by trusted, first-party code.
    Trusted,
    /// The output contains attacker-influenceable external data.
    Untrusted,
}

/// The result of a successful tool call, carrying its text and trust.
///
/// Trust travels with the value, so that it cannot be forgotten.
#[derive(Debug, Clone, PartialEq, Eq)]
#[non_exhaustive]
pub struct ToolOutput {
    text: String,
    trust: OutputTrust,
}

impl ToolOutput {
    /// The text of the output.
    pub closed spec fn content(&self) -> Seq<char> {
        self.text@
    }

    /// The trust of the output.
    pub closed spec fn trusted_as(&self) -> OutputTrust {
        self.trust
    }

    /// Builds a trusted output whose text is appended to the model verbatim.
    #[must_use]
    pub fn trusted(text: &str) -> (output: ToolOutput)
        ensures
            output.content() == text@,
            output.trusted_as() == OutputTrust::Trusted,
    {
        ToolOutput { text: text.to_owned(), trust: OutputTrust::Trusted }
    }

    /// Builds an untrusted output that is nonce-wrapped before reaching a
    /// model.
    #[must_use]
    pub fn untrusted(text: &str) -> (output: ToolOutput)
        ensures
            output.content() == text@,
            output.trusted_as() == OutputTrust::Untrusted,
    {
        ToolOutput { text: text.to_owned(), trust: OutputTrust::Untrusted }
    }

    /// Borrows the output text.
    #[must_use]
    pub fn text(&self) -> (text: &str)
        ensures
            text@ == self.content(),
    {
        self.text.as_str()
    }

    /// Returns whether the output is trusted or untrusted.
    #[must_use]
    pub fn trust(&self) -> (trust: OutputTrust)
        ensures
            trust == self.trusted_as(),
    {
        self.trust
    }
}

/// A stable, matchable classification of a [`ToolError`].
#[derive(Debug, Clone, Copy, PartialEq, Eq, Structural)]
#[non_exhaustive]
pub enum ToolErrorKind {
    /// The model supplied arguments the tool could not accept.
    InvalidArguments,
    /// The tool's backend refused or failed the request.
    Backend,
    /// The request failed at the transport layer (network, timeout).
    Transport,
    /// The run was cancelled before or during the call.
    Cancelled,
    /// Any other tool failure.
    Other,
}

/// A narrow, model-safe error from a tool call.
///
/// The message is caller-facing and safe to hand back to the model; the text
/// of any underlying cause is kept apart from it.
#[derive(Debug)]
#[non_exhaustive]
pub struct ToolError {
    kind: ToolErrorKind,
    message: String,
    source: Option<String>,
}

impl ToolError {
    /// The classification.
    pub closed spec fn kind_of(&self) -> ToolErrorKind {
        self.kind
    }

    /// The message.
    pub closed spec fn message_text(&self) -> Seq<char> {
        self.message@
    }

    /// The cause.
    pub closed spec fn source_text(&self) -> Option<Seq<char>> {
        crate::text::text_option(self.source)
    }

    /// Builds a model-safe error carrying only a message (kind `Other`).
    #[must_use]
    pub fn message(text: &str) -> (error: ToolError)
        ensures
            error.kind_of() == ToolErrorKind::Other,
            error.message_text() == text@,
            error.source_text() is None,
    {
        ToolError { kind: ToolErrorKind::Other, message: text.to_owned(), source: None }
    }

    /// Builds a model-safe backend error with `source` as a hidden cause.
    #[must_use]
    pub fn with_source(text: &str, source: &str) -> (error: ToolError)
        ensures
            error.kind_of() == ToolErrorKind::Backend,
            error.message_text() == text@,
            error.source_text() == Some(source@),
    {
        ToolError {
            kind: ToolErrorKind::Backend,
            message: text.to_owned(),
            source: Some(source.to_owned()),
        }
    }

    /// Sets the classification, returning the updated error.
    #[must_use]
    pub fn with_kind(self, kind: ToolErrorKind) -> (error: ToolError)
        ensures
            error.kind_of() == kind,
            error.message_text() == self.message_text(),
            error.source_text() == self.source_text(),
    {
        ToolError { kind, message: self.message, source: self.source }
    }

    /// Returns the stable classification of this error.
    #[must_use]
    pub fn kind(&self) -> (kind: ToolErrorKind)
        ensures
            kind == self.kind_of(),
    {
        self.kind
    }

    /// Returns whether the failure was a cancellation.
    #[must_use]
    pub fn is_cancelled(&self) -> (yes: bool)
        ensures
            yes == (self.kind_of() == ToolErrorKind::Cancelled),
    {
        self.kind == ToolErrorKind::Cancelled
    }

    /// Returns whether retrying the same call could plausibly succeed.
    #[must_use]
    pub fn is_retryable(&self) -> (yes: bool)
        ensures
            yes == (self.kind_of() == ToolErrorKind::Transport),
    {
        self.kind == ToolErrorKind::Transport
    }

    /// The cause, where there is one.
    #[must_use]
    pub fn source(&self) -> (source: Option<&str>)
        ensures
            source is Some <==> self.source_text() is Some,
            source matches Some(s) ==> self.source_text() == Some(s@),
    {
        match &self.source {
            Some(s) => Some(s.as_str()),
            None => None,
        }
    }

    /// What the error says: the message, and nothing of the cause.
    pub fn to_string(&self) -> (text: String)
        ensures
            text@ == self.message_text(),
    {
        self.message.clone()
    }
}

} // verus!
