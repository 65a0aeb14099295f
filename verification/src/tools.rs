//! The runtime-agnostic tool contract: stable identity, trusted output, the
//! model-safe error, and the caller-provided catalog.
//!
//! Stable identity ([`ToolId`]) is separate from the wire name used by the
//! current model transport.

mod ids;
mod output;
mod registry;

pub use ids::{
    identifier_fault, validate_identifier, IdentifierFault, ToolId, ToolIdError, ToolIdErrorKind,
    ToolIdModel,
};
pub use output::{OutputTrust, ToolError, ToolErrorKind, ToolOutput};
pub use registry::{
    law_lookup_is_unambiguous, legal, refused, repeats, tool_models, ToolCatalog, ToolCatalogError,
    ToolCatalogErrorKind, ToolDescriptor, ToolModel,
};
