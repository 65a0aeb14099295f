//! Stable tool identity and its validation errors.

use crate::text::{chars_of, control, is_control, same_text};
use vstd::prelude::*;

verus! {

/// The stable identity of a live tool: structural over the server and the tool
/// name. The wire name used in a model request is deliberately not identity.
#[derive(Debug, PartialEq, Eq, Hash, PartialOrd, Ord)]
#[non_exhaustive]
pub struct ToolId {
    server: String,
    name: String,
}

/// [`ToolId`] over plain values.
pub struct ToolIdModel {
    pub server: Seq<char>,
    pub name: Seq<char>,
}

impl View for ToolId {
    type V = ToolIdModel;

    closed spec fn view(&self) -> ToolIdModel {
        ToolIdModel { server: self.server@, name: self.name@ }
    }
}

/// A stable, matchable classification of a [`ToolIdError`].
#[derive(Debug, Clone, Copy, PartialEq, Eq, Structural)]
#[non_exhaustive]
pub enum ToolIdErrorKind {
    /// A component was empty.
    Empty,
    /// A component contained the `/` namespace separator.
    Separator,
    /// A component contained a control character.
    Control,
}

/// The reason a [`ToolId`] (or a validated wire name) could not be built.
#[derive(Debug, Clone, PartialEq, Eq)]
#[non_exhaustive]
pub struct ToolIdError {
    field: &'static str,
    kind: ToolIdErrorKind,
    reason: &'static str,
}

/// What is wrong with an identifier.
pub struct IdentifierFault {
    pub kind: ToolIdErrorKind,
    pub reason: Seq<char>,
}

/// What is wrong with an identity-shaped component, if anything is: it is
/// empty, or holds a `/`, or holds a control character, looked for in that
/// order.
pub open spec fn identifier_fault(value: Seq<char>) -> Option<IdentifierFault> {
    if value.len() == 0 {
        Some(IdentifierFault { kind: ToolIdErrorKind::Empty, reason: "must not be empty"@ })
    } else if value.contains('/') {
        Some(
            IdentifierFault {
                kind: ToolIdErrorKind::Separator,
                reason: "must not contain the '/' separator"@,
            },
        )
    } else if exists|i: int| 0 <= i < value.len() && control(#[trigger] value[i]) {
        Some(
            IdentifierFault {
                kind: ToolIdErrorKind::Control,
                reason: "must not contain a control character"@,
            },
        )
    } else {
        None
    }
}

impl ToolIdError {
    /// Which component was rejected.
    pub closed spec fn field_text(&self) -> Seq<char> {
        self.field@
    }

    /// Why it was rejected.
    pub closed spec fn reason_text(&self) -> Seq<char> {
        self.reason@
    }

    /// The classification.
    pub closed spec fn kind_of(&self) -> ToolIdErrorKind {
        self.kind
    }

    /// Returns the stable classification of this error.
    #[must_use]
    pub fn kind(&self) -> (kind: ToolIdErrorKind)
        ensures
            kind == self.kind_of(),
    {
        self.kind
    }

    /// Returns which component was rejected (`server`, `name`, or `wire name`).
    #[must_use]
    pub fn field(&self) -> (field: &str)
        ensures
            field@ == self.field_text(),
    {
        self.field
    }

    /// The human-readable reason, reused when a wire-name rejection is
    /// reported as a catalog error.
    pub fn reason(&self) -> (reason: &'static str)
        ensures
            reason@ == self.reason_text(),
    {
        self.reason
    }

    /// What the error says.
    pub fn to_string(&self) -> (text: String)
        ensures
            text@ == "invalid tool "@ + self.field_text() + ": "@ + self.reason_text(),
    {
        let mut text = "invalid tool ".to_owned();
        text.push_str(self.field);
        text.push_str(": ");
        text.push_str(self.reason);
        text
    }
}

/// Validates one identity-shaped component (server, name, or wire name).
///
/// A component must be non-empty and free of the `/` namespace separator and
/// any control character, the C1 controls included.
pub fn validate_identifier(field: &'static str, value: &str) -> (outcome: Result<(), ToolIdError>)
    ensures
        match identifier_fault(value@) {
            Some(fault) => outcome matches Err(e) && e.field_text() == field@ && e.kind_of()
                == fault.kind && e.reason_text() == fault.reason,
            None => outcome is Ok,
        },
{
    let chars = chars_of(value);
    if chars.len() == 0 {
        return Err(
            ToolIdError { field, kind: ToolIdErrorKind::Empty, reason: "must not be empty" },
        );
    }
    for i in 0..chars.len()
        invariant
            chars@ == value@,
            value@.len() > 0,
            forall|k: int| 0 <= k < i ==> #[trigger] value@[k] != '/',
    {
        if chars[i] == '/' {
            assert(value@[i as int] == '/');
            assert(value@.contains('/'));
            return Err(
                ToolIdError {
                    field,
                    kind: ToolIdErrorKind::Separator,
                    reason: "must not contain the '/' separator",
                },
            );
        }
    }
    assert(!value@.contains('/'));
    for i in 0..chars.len()
        invariant
            chars@ == value@,
            value@.len() > 0,
            !value@.contains('/'),
            forall|k: int| 0 <= k < i ==> !control(#[trigger] value@[k]),
    {
        if is_control(chars[i]) {
            assert(control(value@[i as int]));
            return Err(
                ToolIdError {
                    field,
                    kind: ToolIdErrorKind::Control,
                    reason: "must not contain a control character",
                },
            );
        }
    }
    Ok(())
}

impl Clone for ToolId {
    fn clone(&self) -> (copy: ToolId)
        ensures
            copy@ == self@,
    {
        ToolId { server: self.server.clone(), name: self.name.clone() }
    }
}

impl ToolId {
    /// Builds an identity from its server and stable tool name. A component
    /// that is empty or contains the `/` namespace separator or a control
    /// character is rejected, the server first.
    pub fn new(server: &str, name: &str) -> (outcome: Result<ToolId, ToolIdError>)
        ensures
            match (identifier_fault(server@), identifier_fault(name@)) {
                (Some(fault), _) => outcome matches Err(e) && e.field_text() == "server"@
                    && e.kind_of() == fault.kind && e.reason_text() == fault.reason,
                (None, Some(fault)) => outcome matches Err(e) && e.field_text() == "name"@
                    && e.kind_of() == fault.kind && e.reason_text() == fault.reason,
                (None, None) => outcome matches Ok(id) && id@ == (ToolIdModel {
                    server: server@,
                    name: name@,
                }),
            },
    {
        match Self::validate("server", server) {
            Err(error) => {
                return Err(error);
            },
            Ok(()) => {},
        }
        match Self::validate("name", name) {
            Err(error) => {
                return Err(error);
            },
            Ok(()) => {},
        }
        Ok(ToolId { server: server.to_owned(), name: name.to_owned() })
    }

    /// Builds an identity from components already known to be valid.
    #[must_use]
    pub fn from_validated(server: &str, name: &str) -> (id: ToolId)
        ensures
            id@ == (ToolIdModel { server: server@, name: name@ }),
    {
        ToolId { server: server.to_owned(), name: name.to_owned() }
    }

    /// Validates one identity component, naming the field in any error.
    pub fn validate(field: &'static str, value: &str) -> (outcome: Result<(), ToolIdError>)
        ensures
            match identifier_fault(value@) {
                Some(fault) => outcome matches Err(e) && e.field_text() == field@ && e.kind_of()
                    == fault.kind && e.reason_text() == fault.reason,
                None => outcome is Ok,
            },
    {
        validate_identifier(field, value)
    }

    /// Returns the server that owns this identity namespace.
    #[must_use]
    pub fn server(&self) -> (server: &str)
        ensures
            server@ == self@.server,
    {
        self.server.as_str()
    }

    /// Returns the stable name within the publisher's namespace.
    #[must_use]
    pub fn name(&self) -> (name: &str)
        ensures
            name@ == self@.name,
    {
        self.name.as_str()
    }

    /// Whether two identities are the same.
    pub fn same(&self, other: &ToolId) -> (same: bool)
        ensures
            same == (self@ == other@),
    {
        same_text(self.server.as_str(), other.server.as_str()) && same_text(
            self.name.as_str(),
            other.name.as_str(),
        )
    }
}

/// An identifier is sound exactly where it is not empty, holds no `/`, and
/// holds no control character. Of several faults the first in that order is
/// told.
pub proof fn law_sound_identifiers(value: Seq<char>)
    ensures
        identifier_fault(value) is None <==> value.len() > 0 && forall|i: int|
            0 <= i < value.len() ==> {
                let c = (#[trigger] value[i]) as u32;
                c >= 0x20 && !(0x7f <= c <= 0x9f) && value[i] != '/'
            },
        identifier_fault(value) matches Some(fault) ==> {
            &&& fault.kind == ToolIdErrorKind::Empty <==> value.len() == 0
            &&& fault.kind == ToolIdErrorKind::Separator <==> exists|i: int|
                0 <= i < value.len() && #[trigger] value[i] == '/'
            &&& fault.kind == ToolIdErrorKind::Empty ==> fault.reason == "must not be empty"@
            &&& fault.kind == ToolIdErrorKind::Separator ==> fault.reason
                == "must not contain the '/' separator"@
            &&& fault.kind == ToolIdErrorKind::Control ==> fault.reason
                == "must not contain a control character"@
        },
{
    if value.len() > 0 {
        if value.contains('/') {
            let i = choose|i: int| 0 <= i < value.len() && value[i] == '/';
            assert(value[i] == '/');
        } else if exists|i: int| 0 <= i < value.len() && control(#[trigger] value[i]) {
            let i = choose|i: int| 0 <= i < value.len() && control(#[trigger] value[i]);
            let c = value[i] as u32;
            assert(c < 0x20 || 0x7f <= c <= 0x9f);
        } else {
            assert forall|i: int| 0 <= i < value.len() implies {
                let c = (#[trigger] value[i]) as u32;
                c >= 0x20 && !(0x7f <= c <= 0x9f) && value[i] != '/'
            } by {
                assert(!control(value[i]));
                assert(value[i] == '/' ==> value.contains('/'));
            }
        }
    }
}

} // verus!
