//! What an agent program has in scope: every catalog tool by its wire name,
//! and every catalog model by its name.

use super::error::{
    fault_model, from_lua, program_error, program_failure, AgentError, ErrorModel, LuaFault,
};
use crate::events::Measured;
use crate::json::{Json, JsonModel};
use crate::models::{DescriptorModel, IdModel, ModelCatalog, ModelId};
use crate::text::{concat, debug, debug_text, same_text, text_option, texts};
use crate::tools::{ToolCatalog, ToolId, ToolIdModel, ToolModel};
use vstd::prelude::*;

verus! {

/// How the output of a tool is handed to the program.
#[derive(Debug, Clone, Copy, PartialEq, Eq, Structural)]
#[non_exhaustive]
pub enum ToolOutputKind {
    /// As plain text.
    Plain,
    /// As a decoded JSON value.
    Structured,
}

/// One tool under the alias that the program calls it by.
#[derive(Debug, PartialEq, Eq)]
pub struct ToolBinding {
    /// The alias.
    pub alias: String,
    /// The description.
    pub description: String,
    /// The tool's identity.
    pub id: ToolId,
    /// A description for the model that replaces the tool's own.
    pub model_description: Option<String>,
    /// What the tool says of itself.
    pub tool_description: String,
    /// The JSON Schema of the tool's parameters.
    pub parameters: Json,
    /// Aliases that conflict with this one.
    pub conflicts: Vec<String>,
    /// How the output is handed out.
    pub output_kind: ToolOutputKind,
}

/// [`ToolBinding`] over plain values.
#[verifier::ext_equal]
pub struct BindingModel {
    pub alias: Seq<char>,
    pub description: Seq<char>,
    pub id: ToolIdModel,
    pub model_description: Option<Seq<char>>,
    pub tool_description: Seq<char>,
    pub parameters: JsonModel,
    pub conflicts: Seq<Seq<char>>,
    pub output_kind: ToolOutputKind,
}

impl View for ToolBinding {
    type V = BindingModel;

    open spec fn view(&self) -> BindingModel {
        BindingModel {
            alias: self.alias@,
            description: self.description@,
            id: self.id@,
            model_description: text_option(self.model_description),
            tool_description: self.tool_description@,
            parameters: self.parameters@,
            conflicts: texts(self.conflicts@),
            output_kind: self.output_kind,
        }
    }
}

/// The bindings over plain values.
pub open spec fn bindings(list: Seq<ToolBinding>) -> Seq<BindingModel> {
    Seq::new(list.len(), |i: int| list[i]@)
}

/// The aliases of the bindings.
pub open spec fn aliases(list: Seq<BindingModel>) -> Seq<Seq<char>> {
    Seq::new(list.len(), |i: int| list[i].alias)
}

/// The tools that an agent registers: the bindings, and the aliases that are
/// in scope from the start.
#[derive(Debug, PartialEq, Eq)]
pub struct ToolSet {
    /// The bindings.
    pub bindings: Vec<ToolBinding>,
    /// The aliases in scope.
    pub always: Vec<String>,
}

/// The plain binding of a tool: its wire name is its alias.
pub open spec fn bound(tool: ToolModel) -> BindingModel {
    BindingModel {
        alias: tool.wire_name,
        description: tool.description,
        id: tool.id,
        model_description: None,
        tool_description: tool.description,
        parameters: tool.parameters_schema,
        conflicts: Seq::empty(),
        output_kind: ToolOutputKind::Plain,
    }
}

/// Registers every catalog tool by its wire name, with no semantic resolution:
/// one plain binding per tool, every alias in scope.
pub fn agent_tool_set(catalog: &ToolCatalog) -> (set: ToolSet)
    ensures
        bindings(set.bindings@) == Seq::new(catalog@.len(), |i: int| bound(catalog@[i])),
        texts(set.always@) == aliases(bindings(set.bindings@)),
{
    let tools = catalog.tools();
    let mut list: Vec<ToolBinding> = Vec::new();
    let mut always: Vec<String> = Vec::new();
    for i in 0..tools.len()
        invariant
            list@.len() == i,
            always@.len() == i,
            forall|k: int| 0 <= k < i ==> (#[trigger] list@[k])@ == bound(tools@[k]@),
            forall|k: int| 0 <= k < i ==> (#[trigger] always@[k])@ == tools@[k].wire_name@,
    {
        let tool = &tools[i];
        let binding = ToolBinding {
            alias: tool.wire_name.clone(),
            description: tool.description.clone(),
            id: tool.id.clone(),
            model_description: None,
            tool_description: tool.description.clone(),
            parameters: tool.parameters_schema.copy(),
            conflicts: Vec::new(),
            output_kind: ToolOutputKind::Plain,
        };
        assert(binding@ =~= bound(tools@[i as int]@));
        list.push(binding);
        always.push(tool.wire_name.clone());
    }
    assert(bindings(list@) =~= Seq::new(catalog@.len(), |i: int| bound(catalog@[i])));
    assert(texts(always@) =~= aliases(bindings(list@)));
    ToolSet { bindings: list, always }
}

/// The first binding of `alias`, from `i` on.
pub open spec fn found_from(list: Seq<BindingModel>, alias: Seq<char>, i: int) -> Option<int>
    decreases list.len() - i,
{
    if i < 0 || i >= list.len() {
        None
    } else if list[i].alias == alias {
        Some(i)
    } else {
        found_from(list, alias, i + 1)
    }
}

/// The binding that `alias` names: on a collision the first wins.
pub open spec fn found(list: Seq<BindingModel>, alias: Seq<char>) -> Option<int> {
    found_from(list, alias, 0)
}

/// The aliases, each quoted, with a comma between two.
pub open spec fn quoted_list(names: Seq<Seq<char>>) -> Seq<char>
    decreases names.len(),
{
    if names.len() == 0 {
        Seq::empty()
    } else if names.len() == 1 {
        debug_text(names[0])
    } else {
        quoted_list(names.drop_last()) + ", "@ + debug_text(names.last())
    }
}

/// The failure of an alias that is not in scope.
pub open spec fn unregistered(list: Seq<BindingModel>, alias: Seq<char>) -> ErrorModel {
    program_failure(
        "tool alias "@ + debug_text(alias) + " is not registered with this agent; in scope: ["@
            + quoted_list(aliases(list)) + "]"@,
    )
}

fn quote_aliases(list: &Vec<ToolBinding>) -> (text: String)
    ensures
        text@ == quoted_list(aliases(bindings(list@))),
{
    let ghost names = aliases(bindings(list@));
    let mut text = "".to_owned();
    proof {
        reveal_strlit("");
    }
    assert(text@ == quoted_list(names.take(0)));
    for i in 0..list.len()
        invariant
            names == aliases(bindings(list@)),
            text@ == quoted_list(names.take(i as int)),
    {
        assert(names.take(i + 1).drop_last() == names.take(i as int));
        assert(names.take(i + 1).last() == list@[i as int].alias@);
        let one = debug(list[i].alias.as_str());
        if i > 0 {
            text.push_str(", ");
        } else {
            assert(quoted_list(names.take(0)) == Seq::<char>::empty());
        }
        text.push_str(one.as_str());
        assert(text@ == quoted_list(names.take(i + 1)));
    }
    assert(names.take(names.len() as int) == names);
    text
}

/// Finds the binding of `alias` among those in scope.
pub fn find_binding(effective: &Vec<ToolBinding>, alias: &str) -> (outcome: Result<
    usize,
    AgentError,
>)
    ensures
        match found(bindings(effective@), alias@) {
            Some(i) => outcome matches Ok(k) && k == i && k < effective@.len(),
            None => outcome matches Err(error) && error@ == unregistered(
                bindings(effective@),
                alias@,
            ),
        },
{
    let ghost list = bindings(effective@);
    for i in 0..effective.len()
        invariant
            list == bindings(effective@),
            found(list, alias@) == found_from(list, alias@, i as int),
    {
        if same_text(effective[i].alias.as_str(), alias) {
            return Ok(i);
        }
    }
    let quoted = debug(alias);
    let in_scope = quote_aliases(effective);
    let mut message = concat("tool alias ", quoted.as_str());
    message.push_str(" is not registered with this agent; in scope: [");
    message.push_str(in_scope.as_str());
    message.push_str("]");
    Err(program_error(message))
}

/// Where a script reports from, and under which model turn.
#[derive(Debug, Clone, Copy, PartialEq, Eq, Structural)]
pub struct ScriptReport {
    /// The fanout chain.
    pub chain_id: u32,
    /// The nesting depth.
    pub depth: u32,
    /// The model turn.
    pub turn: u32,
}

/// Resolves one `tool_call`: which binding to dispatch, and what the dispatch
/// reports under. Agents have no fanout chains and no nesting.
pub fn resolve_tool_call(effective: &Vec<ToolBinding>, alias: &str, turns: u32) -> (outcome: Result<
    (usize, ScriptReport),
    AgentError,
>)
    ensures
        match found(bindings(effective@), alias@) {
            Some(i) => outcome == Ok::<(usize, ScriptReport), AgentError>(
                (i as usize, ScriptReport { chain_id: 0, depth: 0, turn: turns }),
            ) && 0 <= i < effective@.len(),
            None => outcome matches Err(error) && error@ == unregistered(
                bindings(effective@),
                alias@,
            ),
        },
{
    match find_binding(effective, alias) {
        Ok(i) => Ok((i, ScriptReport { chain_id: 0, depth: 0, turn: turns })),
        Err(error) => Err(error),
    }
}

/// One tool as it is advertised to the model.
#[derive(Debug, PartialEq, Eq)]
pub struct ToolSchema {
    /// The name the model calls.
    pub name: String,
    /// What the tool does.
    pub description: String,
    /// The JSON Schema of the parameters.
    pub parameters: Json,
}

/// [`ToolSchema`] over plain values.
pub struct SchemaModel {
    pub name: Seq<char>,
    pub description: Seq<char>,
    pub parameters: JsonModel,
}

impl View for ToolSchema {
    type V = SchemaModel;

    open spec fn view(&self) -> SchemaModel {
        SchemaModel {
            name: self.name@,
            description: self.description@,
            parameters: self.parameters@,
        }
    }
}

/// The schemas over plain values.
pub open spec fn schemas(list: Seq<ToolSchema>) -> Seq<SchemaModel> {
    Seq::new(list.len(), |i: int| list[i]@)
}

/// How a binding is advertised: under its alias, with the description for the
/// model where it has one.
pub open spec fn schema_of(binding: BindingModel) -> SchemaModel {
    SchemaModel {
        name: binding.alias,
        description: match binding.model_description {
            Some(own) => own,
            None => binding.tool_description,
        },
        parameters: binding.parameters,
    }
}

/// The failure of a tool whose schema the model client refuses.
pub open spec fn unadvertisable(alias: Seq<char>, source: Seq<char>) -> ErrorModel {
    ErrorModel::Program {
        message: "tool alias "@ + debug_text(alias) + " cannot be advertised to the model"@,
        source: Some(source),
    }
}

/// How one alias is advertised.
pub open spec fn advertise(
    list: Seq<BindingModel>,
    refusals: Seq<Option<Seq<char>>>,
    alias: Seq<char>,
) -> Result<SchemaModel, ErrorModel> {
    match found(list, alias) {
        None => Err(unregistered(list, alias)),
        Some(i) => match refusals[i] {
            Some(source) => Err(unadvertisable(alias, source)),
            None => Ok(schema_of(list[i])),
        },
    }
}

/// What one round advertises: exactly the aliases asked for, in the author's
/// order; the first that cannot be advertised fails the round.
pub open spec fn advertised(
    list: Seq<BindingModel>,
    refusals: Seq<Option<Seq<char>>>,
    tools: Seq<Seq<char>>,
) -> Result<Seq<SchemaModel>, ErrorModel>
    decreases tools.len(),
{
    if tools.len() == 0 {
        Ok(Seq::empty())
    } else {
        match advertised(list, refusals, tools.drop_last()) {
            Err(error) => Err(error),
            Ok(before) => match advertise(list, refusals, tools.last()) {
                Err(error) => Err(error),
                Ok(schema) => Ok(before.push(schema)),
            },
        }
    }
}

/// A failure stays the round's failure, whatever is asked for behind it.
proof fn lemma_first_failure_stays(
    list: Seq<BindingModel>,
    refusals: Seq<Option<Seq<char>>>,
    tools: Seq<Seq<char>>,
    n: int,
)
    requires
        0 <= n <= tools.len(),
        advertised(list, refusals, tools.take(n)) is Err,
    ensures
        advertised(list, refusals, tools) == advertised(list, refusals, tools.take(n)),
    decreases tools.len(),
{
    if n == tools.len() {
        assert(tools.take(n) == tools);
    } else {
        assert(tools.drop_last().take(n) == tools.take(n));
        lemma_first_failure_stays(list, refusals, tools.drop_last(), n);
    }
}

/// What the refusals say, over plain values.
pub open spec fn refusal_texts(refusals: Seq<Option<String>>) -> Seq<Option<Seq<char>>> {
    Seq::new(refusals.len(), |i: int| text_option(refusals[i]))
}

/// The outcome of advertising, over plain values.
pub open spec fn schema_outcome(outcome: Result<Vec<ToolSchema>, AgentError>) -> Result<
    Seq<SchemaModel>,
    ErrorModel,
> {
    match outcome {
        Ok(list) => Ok(schemas(list@)),
        Err(error) => Err(error@),
    }
}

/// Builds the advertised tool schemas of one chat round: exactly the aliases
/// in `tools`, resolved against the agent's effective scope, in the author's
/// order. `refusals` holds, for each binding in scope, why the model client
/// refuses its schema, where it does.
pub fn advertised_schemas(
    effective: &Vec<ToolBinding>,
    refusals: &Vec<Option<String>>,
    tools: &Vec<String>,
) -> (outcome: Result<Vec<ToolSchema>, AgentError>)
    requires
        refusals@.len() == effective@.len(),
    ensures
        schema_outcome(outcome) == advertised(
            bindings(effective@),
            refusal_texts(refusals@),
            texts(tools@),
        ),
{
    let ghost list = bindings(effective@);
    let ghost why = refusal_texts(refusals@);
    let ghost names = texts(tools@);
    let mut built: Vec<ToolSchema> = Vec::new();
    assert(schemas(built@) =~= Seq::empty());
    assert(names.take(0).len() == 0);
    for i in 0..tools.len()
        invariant
            refusals@.len() == effective@.len(),
            list == bindings(effective@),
            why == refusal_texts(refusals@),
            names == texts(tools@),
            advertised(list, why, names.take(i as int)) == Ok::<Seq<SchemaModel>, ErrorModel>(
                schemas(built@),
            ),
    {
        let ghost before = schemas(built@);
        let alias = tools[i].as_str();
        assert(names.take(i + 1).drop_last() == names.take(i as int));
        assert(names.take(i + 1).last() == alias@);
        let at: usize = match find_binding(effective, alias) {
            Ok(k) => k,
            Err(error) => {
                proof {
                    lemma_first_failure_stays(list, why, names, i + 1);
                }
                return Err(error);
            },
        };
        match &refusals[at] {
            Some(source) => {
                let quoted = debug(alias);
                let mut message = concat("tool alias ", quoted.as_str());
                message.push_str(" cannot be advertised to the model");
                proof {
                    lemma_first_failure_stays(list, why, names, i + 1);
                }
                return Err(AgentError::Program { message, source: Some(source.clone()) });
            },
            None => {},
        }
        let binding = &effective[at];
        let description = match &binding.model_description {
            Some(own) => own.clone(),
            None => binding.tool_description.clone(),
        };
        let schema = ToolSchema {
            name: binding.alias.clone(),
            description,
            parameters: binding.parameters.copy(),
        };
        assert(schema@ == schema_of(list[at as int]));
        built.push(schema);
        assert(schemas(built@) =~= before.push(schema@));
    }
    assert(names.take(names.len() as int) == names);
    Ok(built)
}

/// How a model is called.
#[derive(Debug, Clone, Copy, PartialEq, Eq, Structural)]
pub struct ModelInvocation {
    /// The sampling temperature.
    pub temperature: Option<Measured>,
    /// The most tokens to generate.
    pub max_tokens: Option<u32>,
    /// Whether to think.
    pub thinking: Option<bool>,
}

/// One model under the name that the program selects it by.
#[derive(Debug, PartialEq, Eq)]
pub struct ModelBinding {
    /// The name.
    pub name: String,
    /// The description.
    pub description: String,
    /// The model's identity.
    pub id: ModelId,
    /// How the model is called.
    pub invocation: ModelInvocation,
    /// The context window in tokens.
    pub context: u32,
}

/// [`ModelBinding`] over plain values.
pub struct ModelBindingModel {
    pub name: Seq<char>,
    pub description: Seq<char>,
    pub id: IdModel,
    pub invocation: ModelInvocation,
    pub context: u32,
}

impl View for ModelBinding {
    type V = ModelBindingModel;

    open spec fn view(&self) -> ModelBindingModel {
        ModelBindingModel {
            name: self.name@,
            description: self.description@,
            id: self.id@,
            invocation: self.invocation,
            context: self.context,
        }
    }
}

/// The models that an agent can select, and its prompt-wide default.
#[derive(Debug, PartialEq, Eq)]
pub struct ModelSet {
    /// The bindings.
    pub bindings: Vec<ModelBinding>,
    /// The name of the default.
    pub default: Option<String>,
}

/// The bindings over plain values.
pub open spec fn model_bindings(list: Seq<ModelBinding>) -> Seq<ModelBindingModel> {
    Seq::new(list.len(), |i: int| list[i]@)
}

/// The binding of a catalog model: under its catalog name, without overrides.
pub open spec fn model_bound(model: DescriptorModel) -> ModelBindingModel {
    ModelBindingModel {
        name: model.id.name,
        description: model.description,
        id: model.id,
        invocation: ModelInvocation { temperature: None, max_tokens: None, thinking: None },
        context: model.context,
    }
}

/// Registers every catalog model by its catalog name, with the default
/// invocation and no prompt-wide default, so a bare `models.infer` requires a
/// prior selection.
pub fn agent_model_set(catalog: &ModelCatalog) -> (set: ModelSet)
    ensures
        model_bindings(set.bindings@) == Seq::new(
            catalog@.len(),
            |i: int| model_bound(catalog@[i]),
        ),
        set.default is None,
{
    let models = catalog.models();
    let ghost plain = catalog@;
    let mut list: Vec<ModelBinding> = Vec::new();
    for i in 0..models.len()
        invariant
            plain.len() == models@.len(),
            forall|k: int| 0 <= k < models@.len() ==> (#[trigger] models@[k])@ == plain[k],
            list@.len() == i,
            forall|k: int| 0 <= k < i ==> (#[trigger] list@[k])@ == model_bound(plain[k]),
    {
        let descriptor = &models[i];
        list.push(
            ModelBinding {
                name: descriptor.id().name().to_owned(),
                description: descriptor.description().to_owned(),
                id: descriptor.id().clone(),
                invocation: ModelInvocation { temperature: None, max_tokens: None, thinking: None },
                context: descriptor.context(),
            },
        );
    }
    assert(model_bindings(list@) =~= Seq::new(plain.len(), |i: int| model_bound(plain[i])));
    ModelSet { bindings: list, default: None }
}

/// How a model round's binding was looked up.
#[derive(Debug)]
pub enum BindingLookup {
    /// The handle carries its frozen binding.
    Frozen(ModelBinding),
    /// By name, and what the lookup found.
    Named {
        /// The name.
        name: String,
        /// What was found, or why the lookup failed.
        found: Result<Option<ModelBinding>, String>,
    },
    /// The program's `models.use` selection, or why it could not be read.
    Selected(Result<Option<ModelBinding>, LuaFault>),
}

/// What a model round's lookup yields; `unselected` is the failure of a round
/// without a selection.
pub open spec fn chosen(lookup: BindingLookup, unselected: Seq<char>) -> Result<
    ModelBinding,
    ErrorModel,
> {
    match lookup {
        BindingLookup::Frozen(binding) => Ok(binding),
        BindingLookup::Named { name, found } => match found {
            Err(why) => Err(ErrorModel::Program { message: why@, source: Some(why@) }),
            Ok(Some(binding)) => Ok(binding),
            Ok(None) => Err(
                program_failure(
                    "model "@ + debug_text(name@) + " is not in this agent's catalog"@,
                ),
            ),
        },
        BindingLookup::Selected(selected) => match selected {
            Err(fault) => Err(fault_model(fault)),
            Ok(Some(binding)) => Ok(binding),
            Ok(None) => Err(program_failure(unselected)),
        },
    }
}

/// The outcome of choosing a binding, over plain values.
pub open spec fn choice(outcome: Result<ModelBinding, AgentError>) -> Result<
    ModelBinding,
    ErrorModel,
> {
    match outcome {
        Ok(binding) => Ok(binding),
        Err(error) => Err(error@),
    }
}

fn choose_binding(lookup: BindingLookup, unselected: &str) -> (outcome: Result<
    ModelBinding,
    AgentError,
>)
    ensures
        choice(outcome) == chosen(lookup, unselected@),
{
    match lookup {
        BindingLookup::Frozen(binding) => Ok(binding),
        BindingLookup::Named { name, found } => match found {
            Err(why) => Err(AgentError::Program { message: why.clone(), source: Some(why) }),
            Ok(Some(binding)) => Ok(binding),
            Ok(None) => {
                let quoted = debug(name.as_str());
                let mut message = concat("model ", quoted.as_str());
                message.push_str(" is not in this agent's catalog");
                Err(program_error(message))
            },
        },
        BindingLookup::Selected(selected) => match selected {
            Err(fault) => Err(from_lua(fault)),
            Ok(Some(binding)) => Ok(binding),
            Ok(None) => Err(program_error(unselected.to_owned())),
        },
    }
}

/// The binding of one `models.infer` round: the handle's frozen binding, else
/// the program's selection.
pub fn infer_binding(lookup: BindingLookup) -> (outcome: Result<ModelBinding, AgentError>)
    ensures
        choice(outcome) == chosen(
            lookup,
            "no model is selected: call models.use(...) before models.infer"@,
        ),
{
    choose_binding(lookup, "no model is selected: call models.use(...) before models.infer")
}

/// The binding of one `models.chat` round: the named catalog model, else the
/// program's selection.
pub fn chat_binding(lookup: BindingLookup) -> (outcome: Result<ModelBinding, AgentError>)
    ensures
        choice(outcome) == chosen(
            lookup,
            "no model is selected: pass opts.model or call models.use(...) before models.chat"@,
        ),
{
    choose_binding(
        lookup,
        "no model is selected: pass opts.model or call models.use(...) before models.chat",
    )
}

/// The advertised set is exactly what the program asked for, in its order:
/// a round that can be advertised has one schema per alias, under that alias.
pub proof fn law_nothing_is_added(
    list: Seq<BindingModel>,
    refusals: Seq<Option<Seq<char>>>,
    tools: Seq<Seq<char>>,
)
    ensures
        advertised(list, refusals, tools) matches Ok(built) ==> {
            &&& built.len() == tools.len()
            &&& forall|i: int| 0 <= i < tools.len() ==> (#[trigger] built[i]).name == tools[i]
        },
    decreases tools.len(),
{
    if tools.len() > 0 {
        law_nothing_is_added(list, refusals, tools.drop_last());
        lemma_found(list, tools.last(), 0);
        if advertised(list, refusals, tools) is Ok {
            let built = advertised(list, refusals, tools)->Ok_0;
            let before = advertised(list, refusals, tools.drop_last())->Ok_0;
            assert forall|i: int| 0 <= i < tools.len() implies (#[trigger] built[i]).name
                == tools[i] by {
                if i < before.len() {
                    assert(built[i] == before[i]);
                    assert(tools.drop_last()[i] == tools[i]);
                }
            }
        }
    }
}

proof fn lemma_found(list: Seq<BindingModel>, alias: Seq<char>, i: int)
    requires
        0 <= i,
    ensures
        found_from(list, alias, i) matches Some(k) ==> {
            &&& i <= k < list.len()
            &&& list[k].alias == alias
            &&& forall|j: int| i <= j < k ==> (#[trigger] list[j]).alias != alias
        },
        found_from(list, alias, i) is None ==> forall|j: int|
            i <= j < list.len() ==> (#[trigger] list[j]).alias != alias,
    decreases list.len() - i,
{
    if i < list.len() && list[i].alias != alias {
        lemma_found(list, alias, i + 1);
    }
}

/// On a collision the first binding wins the alias lookup, and an alias that
/// no binding has is found nowhere.
pub proof fn law_first_binding_wins(list: Seq<BindingModel>, alias: Seq<char>)
    ensures
        found(list, alias) matches Some(k) ==> {
            &&& 0 <= k < list.len()
            &&& list[k].alias == alias
            &&& forall|j: int| 0 <= j < k ==> (#[trigger] list[j]).alias != alias
        },
        found(list, alias) is None ==> forall|j: int|
            0 <= j < list.len() ==> (#[trigger] list[j]).alias != alias,
{
    lemma_found(list, alias, 0);
}

/// The whole catalog is reachable: an agent's own tool set finds every wire
/// name of its catalog.
pub proof fn law_every_tool_is_in_scope(catalog: Seq<ToolModel>, i: int)
    requires
        0 <= i < catalog.len(),
    ensures
        found(Seq::new(catalog.len(), |k: int| bound(catalog[k])), catalog[i].wire_name) is Some,
{
    let list = Seq::new(catalog.len(), |k: int| bound(catalog[k]));
    lemma_found(list, catalog[i].wire_name, 0);
    assert(list[i].alias == catalog[i].wire_name);
}

/// A lookup that found a binding yields exactly that binding: the frozen one,
/// the named one, or the selected one. It fails only where nothing was found
/// or the lookup itself failed, and then with that failure.
pub proof fn law_a_found_binding_is_chosen(
    lookup: BindingLookup,
    unselected: Seq<char>,
    binding: ModelBinding,
)
    ensures
        chosen(lookup, unselected) == Ok::<ModelBinding, ErrorModel>(binding) <==> {
            ||| lookup == BindingLookup::Frozen(binding)
            ||| (lookup matches BindingLookup::Named { found, .. } && found == Ok::<
                Option<ModelBinding>,
                String,
            >(Some(binding)))
            ||| lookup == BindingLookup::Selected(Ok(Some(binding)))
        },
        chosen(lookup, unselected) is Err <==> {
            ||| (lookup matches BindingLookup::Named { found, .. } && !(found matches Ok(Some(_))))
            ||| (lookup matches BindingLookup::Selected(selected) && !(selected matches Ok(
                Some(_),
            )))
        },
        lookup matches BindingLookup::Named { name, found } ==> {
            &&& found matches Err(why) ==> chosen(lookup, unselected) == Err::<
                ModelBinding,
                ErrorModel,
            >(ErrorModel::Program { message: why@, source: Some(why@) })
            &&& found matches Ok(None) ==> chosen(lookup, unselected) == Err::<
                ModelBinding,
                ErrorModel,
            >(
                ErrorModel::Program {
                    message: "model "@ + debug_text(name@) + " is not in this agent's catalog"@,
                    source: None,
                },
            )
        },
        lookup matches BindingLookup::Selected(selected) ==> {
            &&& selected matches Err(fault) ==> chosen(lookup, unselected) == Err::<
                ModelBinding,
                ErrorModel,
            >(fault_model(fault))
            &&& selected matches Ok(None) ==> chosen(lookup, unselected) == Err::<
                ModelBinding,
                ErrorModel,
            >(ErrorModel::Program { message: unselected, source: None })
        },
{
}

/// A catalog tool is advertised as it was catalogued: under its wire name,
/// with its own description and parameters; its binding keeps its identity,
/// conflicts with nothing, and hands its output out as plain text. A
/// description for the model, where a binding has one, replaces the tool's
/// own, and nothing else.
pub proof fn law_tools_are_advertised_as_catalogued(
    tool: ToolModel,
    binding: BindingModel,
    own: Seq<char>,
)
    ensures
        schema_of(bound(tool)).name == tool.wire_name,
        schema_of(bound(tool)).description == tool.description,
        schema_of(bound(tool)).parameters == tool.parameters_schema,
        bound(tool).alias == tool.wire_name,
        bound(tool).description == tool.description,
        bound(tool).id == tool.id,
        bound(tool).conflicts.len() == 0,
        bound(tool).output_kind == ToolOutputKind::Plain,
        schema_of(BindingModel { model_description: Some(own), ..binding }).description == own,
        schema_of(BindingModel { model_description: None, ..binding }).description
            == binding.tool_description,
        schema_of(binding).name == binding.alias,
        schema_of(binding).parameters == binding.parameters,
{
}

/// A catalog model is bound as it was catalogued, and called without any
/// override.
pub proof fn law_models_are_bound_as_catalogued(model: DescriptorModel)
    ensures
        model_bound(model).name == model.id.name,
        model_bound(model).id == model.id,
        model_bound(model).description == model.description,
        model_bound(model).context == model.context,
        model_bound(model).invocation.temperature is None,
        model_bound(model).invocation.max_tokens is None,
        model_bound(model).invocation.thinking is None,
{
}

/// A round is advertised exactly where every alias asked for is in scope and
/// its schema accepted. Each schema is then that of the first binding of its
/// alias; else the round fails on the first alias that is not, with the
/// failure of that alias.
pub proof fn law_advertised_or_the_first_failure(
    list: Seq<BindingModel>,
    refusals: Seq<Option<Seq<char>>>,
    tools: Seq<Seq<char>>,
)
    requires
        refusals.len() == list.len(),
    ensures
        advertised(list, refusals, tools) matches Ok(built) ==> built.len() == tools.len()
            && forall|i: int|
            0 <= i < tools.len() ==> exists|k: int|
                0 <= k < list.len() && first_of(list, tools[i], k) && refusals[k] is None
                    && #[trigger] schema_of(list[k]) == #[trigger] built[i],
        advertised(list, refusals, tools) matches Err(error) ==> exists|i: int|
            0 <= i < tools.len() && #[trigger] fails(list, refusals, tools[i], error) && forall|
                j: int,
            |
                0 <= j < i ==> #[trigger] accepted(list, refusals, tools[j]),
        (forall|i: int| 0 <= i < tools.len() ==> accepted(list, refusals, #[trigger] tools[i]))
            ==> advertised(list, refusals, tools) is Ok,
    decreases tools.len(),
{
    if tools.len() > 0 {
        let head = tools.drop_last();
        let alias = tools.last();
        law_advertised_or_the_first_failure(list, refusals, head);
        law_first_binding_wins(list, alias);
        assert forall|i: int| 0 <= i < head.len() implies head[i] == tools[i] by {}
        match advertised(list, refusals, head) {
            Err(error) => {
                let i = choose|i: int|
                    0 <= i < head.len() && #[trigger] fails(list, refusals, head[i], error)
                        && forall|j: int|
                        0 <= j < i ==> #[trigger] accepted(list, refusals, head[j]);
                assert(fails(list, refusals, tools[i], error));
                assert forall|j: int| 0 <= j < i implies #[trigger] accepted(
                    list,
                    refusals,
                    tools[j],
                ) by {
                    assert(accepted(list, refusals, head[j]));
                }
                lemma_no_failure_is_accepted(list, refusals, tools[i], error);
            },
            Ok(before) => {
                assert forall|j: int| 0 <= j < head.len() implies #[trigger] accepted(
                    list,
                    refusals,
                    tools[j],
                ) by {
                    let k = choose|k: int|
                        0 <= k < list.len() && first_of(list, head[j], k) && refusals[k] is None
                            && #[trigger] schema_of(list[k]) == before[j];
                    assert(first_of(list, tools[j], k));
                }
                match advertise(list, refusals, alias) {
                    Err(error) => {
                        assert(fails(list, refusals, tools[tools.len() - 1], error)) by {
                            if found(list, alias) is Some {
                                assert(first_of(list, alias, found(list, alias)->0));
                            }
                        }
                        lemma_no_failure_is_accepted(list, refusals, alias, error);
                    },
                    Ok(schema) => {
                        let k = found(list, alias)->0;
                        let built = before.push(schema);
                        assert(first_of(list, alias, k));
                        assert forall|i: int| 0 <= i < tools.len() implies exists|k: int|
                            0 <= k < list.len() && first_of(list, tools[i], k) && refusals[k] is None
                                && #[trigger] schema_of(list[k]) == #[trigger] built[i] by {
                            if i < head.len() {
                                assert(built[i] == before[i]);
                                assert(head[i] == tools[i]);
                            } else {
                                assert(schema_of(list[k]) == built[i]);
                            }
                        }
                    },
                }
            },
        }
    }
}

/// The binding at `k` is the first of `alias`.
pub open spec fn first_of(list: Seq<BindingModel>, alias: Seq<char>, k: int) -> bool {
    &&& 0 <= k < list.len()
    &&& list[k].alias == alias
    &&& forall|j: int| 0 <= j < k ==> (#[trigger] list[j]).alias != alias
}

/// The alias is in scope, and the schema of its first binding accepted.
pub open spec fn accepted(
    list: Seq<BindingModel>,
    refusals: Seq<Option<Seq<char>>>,
    alias: Seq<char>,
) -> bool {
    exists|k: int| #[trigger] first_of(list, alias, k) && refusals[k] is None
}

/// Advertising the alias fails with `error`: it is not in scope, or the schema
/// of its first binding is refused, which the failure's cause then says.
pub open spec fn fails(
    list: Seq<BindingModel>,
    refusals: Seq<Option<Seq<char>>>,
    alias: Seq<char>,
    error: ErrorModel,
) -> bool {
    ||| (forall|j: int| 0 <= j < list.len() ==> (#[trigger] list[j]).alias != alias) && error
        == unregistered(list, alias)
    ||| exists|k: int| #[trigger]
        first_of(list, alias, k) && refusals[k] is Some && error == (ErrorModel::Program {
            message: "tool alias "@ + debug_text(alias) + " cannot be advertised to the model"@,
            source: refusals[k],
        })
}

proof fn lemma_no_failure_is_accepted(
    list: Seq<BindingModel>,
    refusals: Seq<Option<Seq<char>>>,
    alias: Seq<char>,
    error: ErrorModel,
)
    requires
        fails(list, refusals, alias, error),
    ensures
        !accepted(list, refusals, alias),
{
    if accepted(list, refusals, alias) {
        let k = choose|k: int| #[trigger] first_of(list, alias, k) && refusals[k] is None;
        if exists|j: int| #[trigger] first_of(list, alias, j) && refusals[j] is Some {
            let j = choose|j: int| #[trigger] first_of(list, alias, j) && refusals[j] is Some;
            assert(list[j].alias == alias && list[k].alias == alias);
            if j < k {
            } else if k < j {
            }
        }
    }
}

/// An alias that is not in scope is named in the failure, with every alias
/// that is, in order, each quoted and with a comma between two.
pub proof fn law_an_unknown_alias_is_named(
    list: Seq<BindingModel>,
    alias: Seq<char>,
    names: Seq<Seq<char>>,
    last: Seq<char>,
)
    ensures
        unregistered(list, alias) == (ErrorModel::Program {
            message: "tool alias "@ + debug_text(alias)
                + " is not registered with this agent; in scope: ["@ + quoted_list(aliases(list))
                + "]"@,
            source: None,
        }),
        aliases(list).len() == list.len(),
        forall|i: int| 0 <= i < list.len() ==> #[trigger] aliases(list)[i] == list[i].alias,
        quoted_list(Seq::empty()).len() == 0,
        quoted_list(seq![last]) == debug_text(last),
        names.len() > 0 ==> quoted_list(names.push(last)) == quoted_list(names) + ", "@
            + debug_text(last),
{
    assert(names.push(last).drop_last() =~= names);
}

} // verus!
