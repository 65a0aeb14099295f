//! The caller-provided [`ToolCatalog`] and its construction error.

use super::ids::{identifier_fault, validate_identifier, ToolId, ToolIdModel};
use crate::json::{Json, JsonModel};
use crate::text::{concat, debug, debug_text};
use vstd::prelude::*;

verus! {

/// What a tool says of itself: its identity, its transport name, the
/// description supplied to the model, and the JSON Schema of its parameters.
#[derive(Debug, PartialEq, Eq)]
pub struct ToolDescriptor {
    /// The stable live identity, the catalog key.
    pub id: ToolId,
    /// The name used by the current model transport.
    pub wire_name: String,
    /// A one-sentence description supplied to the model.
    pub description: String,
    /// The JSON Schema describing the parameters.
    pub parameters_schema: Json,
    /// Whether the output is structured JSON rather than plain text.
    pub structured_output: bool,
}

/// [`ToolDescriptor`] over plain values.
pub struct ToolModel {
    pub id: ToolIdModel,
    pub wire_name: Seq<char>,
    pub description: Seq<char>,
    pub parameters_schema: JsonModel,
    pub structured_output: bool,
}

impl View for ToolDescriptor {
    type V = ToolModel;

    open spec fn view(&self) -> ToolModel {
        ToolModel {
            id: self.id@,
            wire_name: self.wire_name@,
            description: self.description@,
            parameters_schema: self.parameters_schema@,
            structured_output: self.structured_output,
        }
    }
}

impl ToolDescriptor {
    /// A tool whose output is plain text.
    pub fn new(id: ToolId, wire_name: &str, description: &str, parameters_schema: Json) -> (tool:
        ToolDescriptor)
        ensures
            tool@ == (ToolModel {
                id: id@,
                wire_name: wire_name@,
                description: description@,
                parameters_schema: parameters_schema@,
                structured_output: false,
            }),
    {
        ToolDescriptor {
            id,
            wire_name: wire_name.to_owned(),
            description: description.to_owned(),
            parameters_schema,
            structured_output: false,
        }
    }
}

/// The tools over plain values.
pub open spec fn tool_models(tools: Seq<ToolDescriptor>) -> Seq<ToolModel> {
    Seq::new(tools.len(), |i: int| tools[i]@)
}

/// The identity at `i` stands in the list before `i` too.
pub open spec fn repeats(tools: Seq<ToolModel>, i: int) -> bool {
    exists|k: int| 0 <= k < i && (#[trigger] tools[k]).id == tools[i].id
}

/// The tool at `i` cannot be catalogued: its wire name is illegal, or its
/// identity is taken.
pub open spec fn refused(tools: Seq<ToolModel>, i: int) -> bool {
    identifier_fault(tools[i].wire_name) is Some || repeats(tools, i)
}

/// Every tool can be catalogued.
pub open spec fn legal(tools: Seq<ToolModel>) -> bool {
    forall|i: int| 0 <= i < tools.len() ==> !#[trigger] refused(tools, i)
}

/// The caller-provided catalog of tools that a run may bind.
///
/// Construction rejects a repeated [`ToolId`] or a transport-illegal wire
/// name, so the lookup trusts the invariant without rescanning.
#[derive(Debug)]
#[non_exhaustive]
pub struct ToolCatalog {
    tools: Vec<ToolDescriptor>,
}

impl View for ToolCatalog {
    type V = Seq<ToolModel>;

    closed spec fn view(&self) -> Seq<ToolModel> {
        tool_models(self.tools@)
    }
}

/// A stable, matchable classification of a [`ToolCatalogError`].
#[derive(Debug, Clone, Copy, PartialEq, Eq, Structural)]
#[non_exhaustive]
pub enum ToolCatalogErrorKind {
    /// Two supplied tools shared a stable [`ToolId`].
    DuplicateId,
    /// A supplied tool's wire name was not transport-legal.
    InvalidWireName,
}

/// A [`ToolCatalog`] could not be built from the supplied tools.
#[derive(Debug, PartialEq, Eq)]
#[non_exhaustive]
pub enum ToolCatalogError {
    /// The same stable identity was supplied by more than one tool.
    DuplicateId {
        /// The stable identity supplied more than once.
        id: ToolId,
    },
    /// A tool's transport wire name was not a legal identifier.
    InvalidWireName {
        /// The rejected wire name.
        wire_name: String,
        /// Why it was rejected.
        reason: &'static str,
    },
}

impl ToolCatalogError {
    /// The classification.
    pub open spec fn kind_of(&self) -> ToolCatalogErrorKind {
        match *self {
            ToolCatalogError::DuplicateId { .. } => ToolCatalogErrorKind::DuplicateId,
            ToolCatalogError::InvalidWireName { .. } => ToolCatalogErrorKind::InvalidWireName,
        }
    }

    /// What the error says.
    pub open spec fn text(&self) -> Seq<char> {
        match *self {
            ToolCatalogError::DuplicateId { id } =>
                "duplicate tool identity ToolId { server: "@ + debug_text(id@.server) + ", name: "@
                    + debug_text(id@.name) + " } in the tool catalog"@,
            ToolCatalogError::InvalidWireName { wire_name, reason } => "invalid tool wire name "@
                + debug_text(wire_name@) + ": "@ + reason@,
        }
    }

    /// Returns the stable classification of this error.
    #[must_use]
    pub fn kind(&self) -> (kind: ToolCatalogErrorKind)
        ensures
            kind == self.kind_of(),
    {
        match self {
            ToolCatalogError::DuplicateId { .. } => ToolCatalogErrorKind::DuplicateId,
            ToolCatalogError::InvalidWireName { .. } => ToolCatalogErrorKind::InvalidWireName,
        }
    }

    /// Returns the duplicated identity when this is a
    /// [`Self::DuplicateId`].
    #[must_use]
    pub fn duplicate_id(&self) -> (found: Option<&ToolId>)
        ensures
            match *self {
                ToolCatalogError::DuplicateId { id } => found == Some(&id),
                ToolCatalogError::InvalidWireName { .. } => found is None,
            },
    {
        match self {
            ToolCatalogError::DuplicateId { id } => Some(id),
            ToolCatalogError::InvalidWireName { .. } => None,
        }
    }

    /// What the error says.
    pub fn to_string(&self) -> (text: String)
        ensures
            text@ == self.text(),
    {
        match self {
            ToolCatalogError::DuplicateId { id } => {
                let server = debug(id.server());
                let name = debug(id.name());
                let mut text = concat(
                    "duplicate tool identity ToolId { server: ",
                    server.as_str(),
                );
                text.push_str(", name: ");
                text.push_str(name.as_str());
                text.push_str(" } in the tool catalog");
                text
            },
            ToolCatalogError::InvalidWireName { wire_name, reason } => {
                let quoted = debug(wire_name.as_str());
                let mut text = concat("invalid tool wire name ", quoted.as_str());
                text.push_str(": ");
                text.push_str(reason);
                text
            },
        }
    }
}

impl ToolCatalog {
    /// Every tool was legal when it was catalogued.
    #[verifier::type_invariant]
    spec fn well_formed(self) -> bool {
        legal(tool_models(self.tools@))
    }

    /// Builds a catalog from tools in supplied order. The first tool whose
    /// wire name is empty or carries a `/` separator or a control character,
    /// or whose identity an earlier tool already has, is rejected.
    pub fn new(tools: Vec<ToolDescriptor>) -> (outcome: Result<ToolCatalog, ToolCatalogError>)
        ensures
            match outcome {
                Ok(catalog) => legal(tool_models(tools@)) && catalog@ == tool_models(tools@),
                Err(error) => exists|i: int|
                    0 <= i < tools@.len() && #[trigger] refused(tool_models(tools@), i) && (forall|
                        k: int,
                    |
                        0 <= k < i ==> !#[trigger] refused(tool_models(tools@), k)) && (
                    match identifier_fault(tools@[i]@.wire_name) {
                        Some(fault) => error matches ToolCatalogError::InvalidWireName {
                            wire_name,
                            reason,
                        } && wire_name@ == tools@[i]@.wire_name && reason@ == fault.reason,
                        None => error matches ToolCatalogError::DuplicateId { id } && id@
                            == tools@[i]@.id,
                    }),
            },
    {
        let ghost plain = tool_models(tools@);
        for index in 0..tools.len()
            invariant
                plain == tool_models(tools@),
                forall|k: int| 0 <= k < index ==> !#[trigger] refused(plain, k),
        {
            assert(plain[index as int] == tools@[index as int]@);
            match validate_identifier("wire name", tools[index].wire_name.as_str()) {
                Err(error) => {
                    assert(refused(plain, index as int));
                    return Err(
                        ToolCatalogError::InvalidWireName {
                            wire_name: tools[index].wire_name.clone(),
                            reason: error.reason(),
                        },
                    );
                },
                Ok(()) => {},
            }
            for prior in 0..index
                invariant
                    index < tools@.len(),
                    plain == tool_models(tools@),
                    identifier_fault(tools@[index as int]@.wire_name) is None,
                    forall|k: int| 0 <= k < index ==> !#[trigger] refused(plain, k),
                    forall|k: int|
                        0 <= k < prior ==> (#[trigger] plain[k]).id != plain[index as int].id,
            {
                if tools[prior].id.same(&tools[index].id) {
                    assert(plain[prior as int].id == plain[index as int].id);
                    assert(refused(plain, index as int));
                    return Err(ToolCatalogError::DuplicateId { id: tools[index].id.clone() });
                }
            }
            assert(!refused(plain, index as int));
        }
        Ok(ToolCatalog { tools })
    }

    /// Returns the tool for `id`, if one is in the catalog: the one tool there
    /// with that identity.
    #[must_use]
    pub fn get(&self, id: &ToolId) -> (found: Option<&ToolDescriptor>)
        ensures
            match found {
                Some(tool) => tool@.id == id@ && self@.contains(tool@),
                None => forall|i: int| 0 <= i < self@.len() ==> (#[trigger] self@[i]).id != id@,
            },
            forall|i: int|
                0 <= i < self@.len() && (#[trigger] self@[i]).id == id@ ==> (found matches Some(tool)
                    && tool@ == self@[i]),
            legal(self@),
    {
        proof {
            use_type_invariant(self);
        }
        for i in 0..self.tools.len()
            invariant
                legal(self@),
                forall|k: int| 0 <= k < i ==> (#[trigger] self@[k]).id != id@,
        {
            if self.tools[i].id.same(id) {
                assert(self@[i as int] == self.tools@[i as int]@);
                assert forall|k: int|
                    0 <= k < self@.len() && (#[trigger] self@[k]).id == id@ implies self@[k]
                    == self@[i as int] by {
                    law_lookup_is_unambiguous(self@, k, i as int);
                }
                return Some(&self.tools[i]);
            }
        }
        None
    }

    /// Returns the catalog's tools in supplied order.
    #[must_use]
    pub fn tools(&self) -> (tools: &Vec<ToolDescriptor>)
        ensures
            tool_models(tools@) == self@,
            legal(self@),
    {
        proof {
            use_type_invariant(self);
        }
        &self.tools
    }
}

/// Lookups are never ambiguous: at most one tool of a catalog has an identity.
pub proof fn law_lookup_is_unambiguous(catalog: Seq<ToolModel>, i: int, k: int)
    requires
        legal(catalog),
        0 <= i < catalog.len(),
        0 <= k < catalog.len(),
        catalog[i].id == catalog[k].id,
    ensures
        i == k,
{
    if i < k {
        assert(repeats(catalog, k));
        assert(refused(catalog, k));
    } else if k < i {
        assert(repeats(catalog, i));
        assert(refused(catalog, i));
    }
}

/// Tools can be catalogued exactly where every wire name is sound and no two
/// of them, at whatever two places, share an identity.
pub proof fn law_legal_tools(tools: Seq<ToolModel>)
    ensures
        legal(tools) <==> {
            &&& forall|i: int|
                0 <= i < tools.len() ==> identifier_fault((#[trigger] tools[i]).wire_name) is None
            &&& forall|i: int, k: int|
                0 <= i < tools.len() && 0 <= k < tools.len() && i != k ==> (#[trigger] tools[i]).id
                    != (#[trigger] tools[k]).id
        },
{
    if legal(tools) {
        assert forall|i: int| 0 <= i < tools.len() implies identifier_fault(
            (#[trigger] tools[i]).wire_name,
        ) is None by {
            assert(!refused(tools, i));
        }
        assert forall|i: int, k: int|
            0 <= i < tools.len() && 0 <= k < tools.len() && i != k implies (#[trigger] tools[i]).id
            != (#[trigger] tools[k]).id by {
            if tools[i].id == tools[k].id {
                law_lookup_is_unambiguous(tools, i, k);
            }
        }
    } else {
        let i = choose|i: int| 0 <= i < tools.len() && #[trigger] refused(tools, i);
        if identifier_fault(tools[i].wire_name) is None {
            let k = choose|k: int| 0 <= k < i && (#[trigger] tools[k]).id == tools[i].id;
            assert(tools[k].id == tools[i].id && k != i);
        }
    }
}

/// What a refused catalog says: the identity that was supplied twice, or the
/// wire name and what is wrong with it.
pub proof fn law_a_refused_tool_is_named(id: ToolId, wire_name: String, reason: &'static str)
    ensures
        (ToolCatalogError::DuplicateId { id }).text()
            == "duplicate tool identity ToolId { server: "@ + debug_text(id@.server)
            + ", name: "@ + debug_text(id@.name) + " } in the tool catalog"@,
        (ToolCatalogError::DuplicateId { id }).kind_of() == ToolCatalogErrorKind::DuplicateId,
        (ToolCatalogError::InvalidWireName { wire_name, reason }).text()
            == "invalid tool wire name "@ + debug_text(wire_name@) + ": "@ + reason@,
        (ToolCatalogError::InvalidWireName { wire_name, reason }).kind_of()
            == ToolCatalogErrorKind::InvalidWireName,
{
}

/// A tool is seen as it describes itself, and a list of tools in order.
pub proof fn law_a_tool_is_seen_as_described(tools: Seq<ToolDescriptor>, i: int)
    ensures
        tool_models(tools).len() == tools.len(),
        0 <= i < tools.len() ==> {
            &&& tool_models(tools)[i].id == tools[i].id@
            &&& tool_models(tools)[i].wire_name == tools[i].wire_name@
            &&& tool_models(tools)[i].description == tools[i].description@
            &&& tool_models(tools)[i].parameters_schema == tools[i].parameters_schema@
            &&& tool_models(tools)[i].structured_output == tools[i].structured_output
        },
{
}

} // verus!
