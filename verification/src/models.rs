//! Host-facing model vocabulary: stable identity, catalog, and descriptor.

use crate::text::{chars_of, control, is_control, same_text};
use vstd::prelude::*;

verus! {

/// Stable identity of one catalogued model: a namespace and the caller-facing
/// model name.
#[derive(Debug, PartialEq, Eq, Hash, PartialOrd, Ord)]
#[non_exhaustive]
pub struct ModelId {
    server: String,
    name: String,
}

/// An identity over plain values: the namespace and the name.
pub struct IdModel {
    pub server: Seq<char>,
    pub name: Seq<char>,
}

impl View for ModelId {
    type V = IdModel;

    closed spec fn view(&self) -> IdModel {
        IdModel { server: self.server@, name: self.name@ }
    }
}

/// The record separator that the model picker uses to delimit encoded
/// identities; inside a component it would let an id corrupt that encoding.
pub const PICKER_SEPARATOR: char = '\u{001e}';

/// What is wrong with an identity component.
pub enum ComponentFault {
    Empty,
    Control,
}

/// A component holds a control character, the picker separator included.
pub open spec fn holds_control(value: Seq<char>) -> bool {
    exists|i: int|
        0 <= i < value.len() && (control(#[trigger] value[i]) || value[i] == PICKER_SEPARATOR)
}

/// What is wrong with an identity component, if anything is.
pub open spec fn component_fault(value: Seq<char>) -> Option<ComponentFault> {
    if value.len() == 0 {
        Some(ComponentFault::Empty)
    } else if holds_control(value) {
        Some(ComponentFault::Control)
    } else {
        None
    }
}

/// The reason text of a fault.
pub open spec fn fault_reason(fault: ComponentFault) -> Seq<char> {
    match fault {
        ComponentFault::Empty => "must not be empty"@,
        ComponentFault::Control => "must not contain a control character"@,
    }
}

/// The reason a [`ModelId`] could not be built from its components.
#[derive(Debug, Clone, PartialEq, Eq)]
#[non_exhaustive]
pub struct ModelIdError {
    field: &'static str,
    reason: &'static str,
}

impl ModelIdError {
    /// Which component was rejected.
    pub closed spec fn field(&self) -> Seq<char> {
        self.field@
    }

    /// Why it was rejected.
    pub closed spec fn reason(&self) -> Seq<char> {
        self.reason@
    }

    /// What the error says.
    pub fn to_string(&self) -> (text: String)
        ensures
            text@ == "invalid model id: "@ + self.field() + " "@ + self.reason(),
    {
        let mut text = "invalid model id: ".to_owned();
        text.push_str(self.field);
        text.push_str(" ");
        text.push_str(self.reason);
        text
    }
}

impl Clone for ModelId {
    fn clone(&self) -> (copy: ModelId)
        ensures
            copy@ == self@,
    {
        ModelId { server: self.server.clone(), name: self.name.clone() }
    }
}

impl ModelId {
    /// The gateway identity namespace.
    pub const GATEWAY: &'static str = "gateway";

    /// Builds an identity from its server namespace and model name. A
    /// component that is empty or contains a control character is rejected,
    /// the server first.
    pub fn new(server: &str, name: &str) -> (outcome: Result<ModelId, ModelIdError>)
        ensures
            match (component_fault(server@), component_fault(name@)) {
                (Some(fault), _) => outcome matches Err(e) && e.field() == "server"@ && e.reason()
                    == fault_reason(fault),
                (None, Some(fault)) => outcome matches Err(e) && e.field() == "name"@ && e.reason()
                    == fault_reason(fault),
                (None, None) => outcome matches Ok(id) && id@ == (IdModel {
                    server: server@,
                    name: name@,
                }),
            },
    {
        match Self::validate("server", server) {
            Err(error) => {
                return Err(error);
            },
            Ok(()) => {},
        }
        match Self::validate("name", name) {
            Err(error) => {
                return Err(error);
            },
            Ok(()) => {},
        }
        Ok(ModelId { server: server.to_owned(), name: name.to_owned() })
    }

    /// Builds a gateway-namespaced identity from a caller-facing model name.
    pub fn gateway(name: &str) -> (outcome: Result<ModelId, ModelIdError>)
        ensures
            match component_fault(name@) {
                Some(fault) => outcome matches Err(e) && e.field() == "name"@ && e.reason()
                    == fault_reason(fault),
                None => outcome matches Ok(id) && id@ == (IdModel {
                    server: "gateway"@,
                    name: name@,
                }),
            },
    {
        proof {
            reveal_strlit("gateway");
            assert forall|i: int| 0 <= i < "gateway"@.len() implies !(control(
                #[trigger] "gateway"@[i],
            ) || "gateway"@[i] == PICKER_SEPARATOR) by {}
        }
        Self::new(Self::GATEWAY, name)
    }

    /// Builds an identity from components already known to be valid.
    pub fn from_validated(server: &str, name: &str) -> (id: ModelId)
        ensures
            id@ == (IdModel { server: server@, name: name@ }),
    {
        ModelId { server: server.to_owned(), name: name.to_owned() }
    }

    /// Validates one identity component, naming the field in any error.
    ///
    /// Rejection is by Unicode scalar, not raw byte: every control character
    /// is refused, the C1 controls included.
    pub fn validate(field: &'static str, value: &str) -> (outcome: Result<(), ModelIdError>)
        ensures
            match component_fault(value@) {
                Some(fault) => outcome matches Err(e) && e.field() == field@ && e.reason()
                    == fault_reason(fault),
                None => outcome is Ok,
            },
    {
        let chars = chars_of(value);
        if chars.len() == 0 {
            return Err(ModelIdError { field, reason: "must not be empty" });
        }
        for i in 0..chars.len()
            invariant
                chars@ == value@,
                value@.len() > 0,
                forall|k: int|
                    0 <= k < i ==> !(control(#[trigger] value@[k]) || value@[k]
                        == PICKER_SEPARATOR),
        {
            if is_control(chars[i]) || chars[i] == PICKER_SEPARATOR {
                assert(control(value@[i as int]) || value@[i as int] == PICKER_SEPARATOR);
                return Err(
                    ModelIdError { field, reason: "must not contain a control character" },
                );
            }
        }
        Ok(())
    }

    /// Returns the identity namespace.
    #[must_use]
    pub fn server(&self) -> (server: &str)
        ensures
            server@ == self@.server,
    {
        self.server.as_str()
    }

    /// Returns the caller-facing model name.
    #[must_use]
    pub fn name(&self) -> (name: &str)
        ensures
            name@ == self@.name,
    {
        self.name.as_str()
    }

    /// Whether two identities are the same.
    pub fn same(&self, other: &ModelId) -> (same: bool)
        ensures
            same == (self@ == other@),
    {
        same_text(self.server.as_str(), other.server.as_str()) && same_text(
            self.name.as_str(),
            other.name.as_str(),
        )
    }
}

/// The reason a [`ModelCatalog`] could not be built from its descriptors.
#[derive(Debug, Clone, PartialEq, Eq)]
#[non_exhaustive]
pub enum ModelCatalogError {
    /// Two descriptors shared one stable [`ModelId`], which would make lookups
    /// ambiguous.
    DuplicateId {
        /// The repeated identity's server namespace.
        server: String,
        /// The repeated identity's model name.
        name: String,
    },
}

impl ModelCatalogError {
    /// What the error says.
    pub open spec fn text(&self) -> Seq<char> {
        match *self {
            ModelCatalogError::DuplicateId { server, name } =>
                "duplicate model identity in catalog: "@ + server@ + "/"@ + name@,
        }
    }

    /// What the error says.
    pub fn to_string(&self) -> (text: String)
        ensures
            text@ == self.text(),
    {
        match self {
            ModelCatalogError::DuplicateId { server, name } => {
                let mut text = "duplicate model identity in catalog: ".to_owned();
                text.push_str(server.as_str());
                text.push_str("/");
                text.push_str(name.as_str());
                text
            },
        }
    }
}

/// Whether a catalogued model can emit thinking tokens.
#[derive(Debug, Clone, Copy, PartialEq, Eq, Structural)]
#[non_exhaustive]
pub enum ThinkingMode {
    /// The backend never emits thinking tokens.
    Never,
    /// The backend always emits thinking tokens.
    Always,
    /// The client may turn thinking on or off per request.
    Switchable,
}

/// One catalogued model with live-resolution metadata.
#[derive(Debug, PartialEq, Eq)]
#[non_exhaustive]
pub struct ModelDescriptor {
    id: ModelId,
    description: String,
    context: u32,
    thinking: ThinkingMode,
}

/// [`ModelDescriptor`] over plain values.
pub struct DescriptorModel {
    pub id: IdModel,
    pub description: Seq<char>,
    pub context: u32,
    pub thinking: ThinkingMode,
}

impl View for ModelDescriptor {
    type V = DescriptorModel;

    closed spec fn view(&self) -> DescriptorModel {
        DescriptorModel {
            id: self.id@,
            description: self.description@,
            context: self.context,
            thinking: self.thinking,
        }
    }
}

impl ModelDescriptor {
    /// The context window is never empty.
    #[verifier::type_invariant]
    spec fn well_formed(self) -> bool {
        self.context > 0
    }

    /// Builds a descriptor from its identity and catalog fields. The context
    /// window, in tokens, is not zero.
    #[must_use]
    pub fn new(id: ModelId, description: &str, context: u32, thinking: ThinkingMode) -> (model:
        ModelDescriptor)
        requires
            context > 0,
        ensures
            model@ == (DescriptorModel { id: id@, description: description@, context, thinking }),
    {
        ModelDescriptor { id, description: description.to_owned(), context, thinking }
    }

    /// Returns the stable identity.
    #[must_use]
    pub fn id(&self) -> (id: &ModelId)
        ensures
            id@ == self@.id,
    {
        &self.id
    }

    /// Returns the prose used for semantic resolve.
    #[must_use]
    pub fn description(&self) -> (description: &str)
        ensures
            description@ == self@.description,
    {
        self.description.as_str()
    }

    /// Returns the context window size in tokens (always non-zero).
    #[must_use]
    pub fn context(&self) -> (context: u32)
        ensures
            context == self@.context,
            context > 0,
    {
        proof {
            use_type_invariant(self);
        }
        self.context
    }

    /// Returns the thinking capability.
    #[must_use]
    pub fn thinking(&self) -> (thinking: ThinkingMode)
        ensures
            thinking == self@.thinking,
    {
        self.thinking
    }
}

impl Clone for ModelDescriptor {
    fn clone(&self) -> (copy: ModelDescriptor)
        ensures
            copy@ == self@,
    {
        proof {
            use_type_invariant(self);
        }
        ModelDescriptor {
            id: self.id.clone(),
            description: self.description.clone(),
            context: self.context,
            thinking: self.thinking,
        }
    }
}

/// The descriptors over plain values.
pub open spec fn descriptor_models(models: Seq<ModelDescriptor>) -> Seq<DescriptorModel> {
    Seq::new(models.len(), |i: int| models[i]@)
}

/// The identity at `i` stands in the list before `i` too.
pub open spec fn repeats(models: Seq<DescriptorModel>, i: int) -> bool {
    exists|k: int| 0 <= k < i && (#[trigger] models[k]).id == models[i].id
}

/// No identity stands in the list twice.
pub open spec fn distinct_ids(models: Seq<DescriptorModel>) -> bool {
    forall|i: int| 0 <= i < models.len() ==> !#[trigger] repeats(models, i)
}

/// Complete live model set for one bind pass.
#[derive(Debug, PartialEq)]
#[non_exhaustive]
pub struct ModelCatalog {
    models: Vec<ModelDescriptor>,
}

impl View for ModelCatalog {
    type V = Seq<DescriptorModel>;

    closed spec fn view(&self) -> Seq<DescriptorModel> {
        descriptor_models(self.models@)
    }
}

impl Default for ModelCatalog {
    fn default() -> (catalog: ModelCatalog)
        ensures
            catalog@.len() == 0,
    {
        ModelCatalog::empty()
    }
}

impl ModelCatalog {
    /// No identity is catalogued twice.
    #[verifier::type_invariant]
    spec fn well_formed(self) -> bool {
        distinct_ids(descriptor_models(self.models@))
    }

    /// Builds a catalog from descriptors in host order. The first descriptor
    /// whose identity an earlier one already has is rejected.
    pub fn new(models: Vec<ModelDescriptor>) -> (outcome: Result<ModelCatalog, ModelCatalogError>)
        ensures
            match outcome {
                Ok(catalog) => distinct_ids(descriptor_models(models@)) && catalog@
                    == descriptor_models(models@),
                Err(ModelCatalogError::DuplicateId { server, name }) => exists|i: int|
                    0 <= i < models@.len() && #[trigger] repeats(descriptor_models(models@), i) && (
                    forall|k: int| 0 <= k < i ==> !#[trigger] repeats(descriptor_models(models@), k))
                        && models@[i]@.id == (IdModel { server: server@, name: name@ }),
            },
    {
        let ghost plain = descriptor_models(models@);
        for index in 0..models.len()
            invariant
                plain == descriptor_models(models@),
                forall|k: int| 0 <= k < index ==> !#[trigger] repeats(plain, k),
        {
            for prior in 0..index
                invariant
                    index < models@.len(),
                    plain == descriptor_models(models@),
                    forall|k: int| 0 <= k < index ==> !#[trigger] repeats(plain, k),
                    forall|k: int| 0 <= k < prior ==> (#[trigger] plain[k]).id != plain[index
                        as int].id,
            {
                if models[prior].id().same(models[index].id()) {
                    assert(plain[prior as int].id == plain[index as int].id);
                    assert(repeats(plain, index as int));
                    return Err(
                        ModelCatalogError::DuplicateId {
                            server: models[index].id().server().to_owned(),
                            name: models[index].id().name().to_owned(),
                        },
                    );
                }
            }
        }
        Ok(ModelCatalog { models })
    }

    /// Builds a catalog from descriptors already known to be collision-free.
    pub fn from_validated(models: Vec<ModelDescriptor>) -> (catalog: ModelCatalog)
        requires
            distinct_ids(descriptor_models(models@)),
        ensures
            catalog@ == descriptor_models(models@),
    {
        ModelCatalog { models }
    }

    /// An empty catalog.
    #[must_use]
    pub fn empty() -> (catalog: ModelCatalog)
        ensures
            catalog@.len() == 0,
    {
        Self::from_validated(Vec::new())
    }

    /// Returns every descriptor.
    #[must_use]
    pub fn models(&self) -> (models: &Vec<ModelDescriptor>)
        ensures
            descriptor_models(models@) == self@,
            distinct_ids(self@),
    {
        proof {
            use_type_invariant(self);
        }
        &self.models
    }

    /// Returns whether the catalog has no entries.
    #[must_use]
    pub fn is_empty(&self) -> (empty: bool)
        ensures
            empty == (self@.len() == 0),
    {
        self.models.len() == 0
    }

    /// Looks up a descriptor by stable identity: the one descriptor of the
    /// catalog that has it.
    #[must_use]
    pub fn get(&self, id: &ModelId) -> (found: Option<&ModelDescriptor>)
        ensures
            match found {
                Some(model) => model@.id == id@ && self@.contains(model@),
                None => forall|i: int| 0 <= i < self@.len() ==> (#[trigger] self@[i]).id != id@,
            },
            forall|i: int|
                0 <= i < self@.len() && (#[trigger] self@[i]).id == id@ ==> (found matches Some(model)
                    && model@ == self@[i]),
            distinct_ids(self@),
    {
        proof {
            use_type_invariant(self);
        }
        for i in 0..self.models.len()
            invariant
                distinct_ids(self@),
                forall|k: int| 0 <= k < i ==> (#[trigger] self@[k]).id != id@,
        {
            if self.models[i].id().same(id) {
                assert(self@[i as int] == self.models@[i as int]@);
                assert forall|k: int|
                    0 <= k < self@.len() && (#[trigger] self@[k]).id == id@ implies self@[k]
                    == self@[i as int] by {
                    law_lookup_is_unambiguous(self@, k, i as int);
                }
                return Some(&self.models[i]);
            }
        }
        None
    }

    /// Returns whether the catalog contains a descriptor with `id`.
    #[must_use]
    pub fn contains(&self, id: &ModelId) -> (found: bool)
        ensures
            found == exists|i: int| 0 <= i < self@.len() && (#[trigger] self@[i]).id == id@,
    {
        self.get(id).is_some()
    }
}

/// Lookups are never ambiguous: at most one descriptor of a catalog has an
/// identity.
pub proof fn law_lookup_is_unambiguous(catalog: Seq<DescriptorModel>, i: int, k: int)
    requires
        distinct_ids(catalog),
        0 <= i < catalog.len(),
        0 <= k < catalog.len(),
        catalog[i].id == catalog[k].id,
    ensures
        i == k,
{
    if i < k {
        assert(repeats(catalog, k));
    } else if k < i {
        assert(repeats(catalog, i));
    }
}

/// A component is sound exactly where it is not empty and none of its
/// characters is a control; an empty one is told from one that holds a
/// control.
pub proof fn law_sound_components(value: Seq<char>)
    ensures
        component_fault(value) is None <==> value.len() > 0 && forall|i: int|
            0 <= i < value.len() ==> {
                let c = (#[trigger] value[i]) as u32;
                c >= 0x20 && !(0x7f <= c <= 0x9f)
            },
        component_fault(value) == Some(ComponentFault::Empty) <==> value.len() == 0,
        fault_reason(ComponentFault::Empty) == "must not be empty"@,
        fault_reason(ComponentFault::Control) == "must not contain a control character"@,
{
    if value.len() > 0 && !(component_fault(value) is None) {
        let i = choose|i: int|
            0 <= i < value.len() && (control(#[trigger] value[i]) || value[i] == PICKER_SEPARATOR);
        let c = value[i] as u32;
        assert(c < 0x20 || 0x7f <= c <= 0x9f);
    }
    if component_fault(value) is None {
        assert forall|i: int| 0 <= i < value.len() implies {
            let c = (#[trigger] value[i]) as u32;
            c >= 0x20 && !(0x7f <= c <= 0x9f)
        } by {
            assert(!control(value[i]));
        }
    }
}

/// Identities are distinct exactly where no two descriptors, at whatever two
/// places, share one.
pub proof fn law_distinct_identities(models: Seq<DescriptorModel>)
    ensures
        distinct_ids(models) <==> forall|i: int, k: int|
            0 <= i < models.len() && 0 <= k < models.len() && i != k ==> (#[trigger] models[i]).id
                != (#[trigger] models[k]).id,
{
    if distinct_ids(models) {
        assert forall|i: int, k: int|
            0 <= i < models.len() && 0 <= k < models.len() && i != k implies (
        #[trigger] models[i]).id != (#[trigger] models[k]).id by {
            if models[i].id == models[k].id {
                law_lookup_is_unambiguous(models, i, k);
            }
        }
    } else {
        let i = choose|i: int| 0 <= i < models.len() && #[trigger] repeats(models, i);
        let k = choose|k: int| 0 <= k < i && (#[trigger] models[k]).id == models[i].id;
        assert(models[k].id == models[i].id && k != i);
    }
}

/// A repeated identity is reported by its namespace and its name.
pub proof fn law_a_duplicate_is_named(server: String, name: String)
    ensures
        (ModelCatalogError::DuplicateId { server, name }).text()
            == "duplicate model identity in catalog: "@ + server@ + "/"@ + name@,
        ModelId::GATEWAY@ == "gateway"@,
{
}

/// A descriptor is seen as it was built.
pub proof fn law_a_list_is_seen_in_order(models: Seq<ModelDescriptor>, i: int)
    ensures
        descriptor_models(models).len() == models.len(),
        0 <= i < models.len() ==> descriptor_models(models)[i] == models[i]@,
{
}

} // verus!
