//! The conversation of one chat round, and the request it is part of.

use super::error::{fault_model, from_lua, AgentError, ErrorModel, LuaFault};
use super::scope::{
    advertised, advertised_schemas, bindings, chat_binding, chosen, infer_binding, refusal_texts,
    schema_outcome, schemas, BindingLookup, BindingModel, ModelBinding, SchemaModel, ToolBinding, ToolSchema,
};
use crate::json::{copy_all, field, items_of, models, text_of, Json, JsonModel};
use crate::text::{text_option, texts};
use vstd::prelude::*;

verus! {

/// One message on the wire.
#[derive(Debug, PartialEq, Eq)]
pub struct Message {
    /// Who speaks.
    pub role: String,
    /// What is said.
    pub content: Json,
    /// The tool call that the message answers.
    pub tool_call_id: Option<String>,
    /// The tool calls that the message requests.
    pub tool_calls: Option<Vec<Json>>,
}

/// [`Message`] over plain values.
pub struct MessageModel {
    pub role: Seq<char>,
    pub content: JsonModel,
    pub tool_call_id: Option<Seq<char>>,
    pub tool_calls: Option<Seq<JsonModel>>,
}

impl View for Message {
    type V = MessageModel;

    open spec fn view(&self) -> MessageModel {
        MessageModel {
            role: self.role@,
            content: self.content@,
            tool_call_id: text_option(self.tool_call_id),
            tool_calls: match self.tool_calls {
                Some(calls) => Some(models(calls@)),
                None => None,
            },
        }
    }
}

/// The messages over plain values.
pub open spec fn message_models(list: Seq<Message>) -> Seq<MessageModel> {
    Seq::new(list.len(), |i: int| list[i]@)
}

/// The failure of messages that are not as the protocol validated them.
pub open spec fn unvalidated() -> ErrorModel {
    ErrorModel::Internal("a chat request reaching dispatch carries protocol-validated messages"@)
}

fn unvalidated_error() -> (error: AgentError)
    ensures
        error@ == unvalidated(),
{
    AgentError::Internal("a chat request reaching dispatch carries protocol-validated messages")
}

/// The wire message of one entry: exactly its role, content, tool-call id, and
/// tool calls. An entry without a role or content has none.
pub open spec fn wire_message(entry: JsonModel) -> Option<MessageModel> {
    match (text_of(field(entry, "role"@)), field(entry, "content"@)) {
        (Some(role), Some(content)) => Some(
            MessageModel {
                role,
                content,
                tool_call_id: text_of(field(entry, "tool_call_id"@)),
                tool_calls: items_of(field(entry, "tool_calls"@)),
            },
        ),
        _ => None,
    }
}

/// The wire messages of the entries; one that has none fails them all.
pub open spec fn wired(entries: Seq<JsonModel>) -> Result<Seq<MessageModel>, ErrorModel>
    decreases entries.len(),
{
    if entries.len() == 0 {
        Ok(Seq::empty())
    } else {
        match (wired(entries.drop_last()), wire_message(entries.last())) {
            (Ok(before), Some(message)) => Ok(before.push(message)),
            _ => Err(unvalidated()),
        }
    }
}

/// The wire messages of a message array.
pub open spec fn conversation(messages: JsonModel) -> Result<Seq<MessageModel>, ErrorModel> {
    match messages {
        JsonModel::Array(entries) => wired(entries),
        _ => Err(unvalidated()),
    }
}

/// The wire messages over plain values.
pub open spec fn wire_outcome(outcome: Result<Vec<Message>, AgentError>) -> Result<
    Seq<MessageModel>,
    ErrorModel,
> {
    match outcome {
        Ok(list) => Ok(message_models(list@)),
        Err(error) => Err(error@),
    }
}

fn text_field(entry: &Json, key: &str) -> (text: Option<String>)
    ensures
        text_option(text) == text_of(field(entry@, key@)),
{
    match entry.get(key) {
        Some(value) => match value.as_str() {
            Some(text) => Some(text.to_owned()),
            None => None,
        },
        None => None,
    }
}

fn one_message(entry: &Json) -> (message: Option<Message>)
    ensures
        match wire_message(entry@) {
            Some(plain) => message matches Some(m) && m@ == plain,
            None => message is None,
        },
{
    let role = match text_field(entry, "role") {
        Some(role) => role,
        None => {
            return None;
        },
    };
    let content = match entry.get("content") {
        Some(content) => content.copy(),
        None => {
            return None;
        },
    };
    let tool_call_id = text_field(entry, "tool_call_id");
    let tool_calls = match entry.get("tool_calls") {
        Some(value) => match value.as_array() {
            Some(calls) => Some(copy_all(calls)),
            None => None,
        },
        None => None,
    };
    Some(Message { role, content, tool_call_id, tool_calls })
}

/// A failing entry fails every longer list.
proof fn lemma_failure_stays(entries: Seq<JsonModel>, n: int)
    requires
        0 <= n <= entries.len(),
        wired(entries.take(n)) is Err,
    ensures
        wired(entries) == Err::<Seq<MessageModel>, ErrorModel>(unvalidated()),
    decreases entries.len(),
{
    if n == entries.len() {
        assert(entries.take(n) == entries);
    } else {
        assert(entries.drop_last().take(n) == entries.take(n));
        lemma_failure_stays(entries.drop_last(), n);
    }
}

/// Converts the protocol-validated message array into the client's wire
/// messages. The protocol validated the shape once, so a violation here is a
/// driver invariant failure; fields beyond the four that the wire message
/// carries are dropped.
pub fn wire_messages(messages: &Json) -> (outcome: Result<Vec<Message>, AgentError>)
    ensures
        wire_outcome(outcome) == conversation(messages@),
{
    let entries = match messages.as_array() {
        Some(entries) => entries,
        None => {
            return Err(unvalidated_error());
        },
    };
    let ghost plain = models(entries@);
    let mut list: Vec<Message> = Vec::new();
    assert(message_models(list@) =~= Seq::empty());
    assert(plain.take(0).len() == 0);
    for i in 0..entries.len()
        invariant
            plain == models(entries@),
            messages@ == JsonModel::Array(plain),
            wired(plain.take(i as int)) == Ok::<Seq<MessageModel>, ErrorModel>(
                message_models(list@),
            ),
    {
        let ghost before = message_models(list@);
        assert(plain.take(i + 1).drop_last() == plain.take(i as int));
        assert(plain.take(i + 1).last() == entries@[i as int]@);
        match one_message(&entries[i]) {
            Some(message) => {
                list.push(message);
                assert(message_models(list@) =~= before.push(message@));
            },
            None => {
                proof {
                    lemma_failure_stays(plain, i + 1);
                }
                return Err(unvalidated_error());
            },
        }
    }
    assert(plain.take(plain.len() as int) == plain);
    Ok(list)
}

/// The tools in scope, each with why the model client refuses its schema,
/// where it does.
#[derive(Debug)]
pub struct Scope {
    bindings: Vec<ToolBinding>,
    refusals: Vec<Option<String>>,
}

impl Scope {
    #[verifier::type_invariant]
    spec fn well_formed(self) -> bool {
        self.refusals@.len() == self.bindings@.len()
    }

    /// The bindings.
    pub closed spec fn list(&self) -> Seq<BindingModel> {
        bindings(self.bindings@)
    }

    /// The refusals, one for each binding.
    pub closed spec fn why(&self) -> Seq<Option<Seq<char>>> {
        refusal_texts(self.refusals@)
    }

    /// The tools in scope, none where the two lists are not of one length.
    pub fn new(effective: Vec<ToolBinding>, refusals: Vec<Option<String>>) -> (scope: Option<Scope>)
        ensures
            scope is Some <==> effective@.len() == refusals@.len(),
            scope matches Some(s) ==> s.list() == bindings(effective@) && s.why() == refusal_texts(
                refusals@,
            ),
    {
        if effective.len() == refusals.len() {
            Some(Scope { bindings: effective, refusals })
        } else {
            None
        }
    }
}

/// One model call of a chat or infer round.
#[derive(Debug, PartialEq, Eq)]
pub struct ChatCall {
    /// The model.
    pub binding: ModelBinding,
    /// The conversation.
    pub messages: Vec<Message>,
    /// The advertised tools, none where there are none to advertise.
    pub tools: Option<Vec<ToolSchema>>,
}

/// [`ChatCall`] over plain values.
pub struct ChatCallModel {
    pub binding: ModelBinding,
    pub messages: Seq<MessageModel>,
    pub tools: Option<Seq<SchemaModel>>,
}

impl View for ChatCall {
    type V = ChatCallModel;

    open spec fn view(&self) -> ChatCallModel {
        ChatCallModel {
            binding: self.binding,
            messages: message_models(self.messages@),
            tools: match self.tools {
                Some(list) => Some(schemas(list@)),
                None => None,
            },
        }
    }
}

/// The schemas of a round: the scope is read only where tools are asked for.
pub open spec fn round_schemas(scope: Result<Scope, LuaFault>, tools: Seq<Seq<char>>) -> Result<
    Seq<SchemaModel>,
    ErrorModel,
> {
    if tools.len() == 0 {
        Ok(Seq::empty())
    } else {
        match scope {
            Err(fault) => Err(fault_model(fault)),
            Ok(s) => advertised(s.list(), s.why(), tools),
        }
    }
}

/// The call of a chat round, or the first of its failures: the binding, then
/// the tools, then the messages.
pub open spec fn chat_call(
    lookup: BindingLookup,
    scope: Result<Scope, LuaFault>,
    tools: Seq<Seq<char>>,
    messages: JsonModel,
) -> Result<ChatCallModel, ErrorModel> {
    match chosen(
        lookup,
        "no model is selected: pass opts.model or call models.use(...) before models.chat"@,
    ) {
        Err(error) => Err(error),
        Ok(binding) => match round_schemas(scope, tools) {
            Err(error) => Err(error),
            Ok(built) => match conversation(messages) {
                Err(error) => Err(error),
                Ok(list) => Ok(
                    ChatCallModel {
                        binding,
                        messages: list,
                        tools: if built.len() == 0 {
                            None
                        } else {
                            Some(built)
                        },
                    },
                ),
            },
        },
    }
}

/// The outcome of preparing a chat round, over plain values.
pub open spec fn call_outcome(outcome: Result<ChatCall, AgentError>) -> Result<
    ChatCallModel,
    ErrorModel,
> {
    match outcome {
        Ok(call) => Ok(call@),
        Err(error) => Err(error@),
    }
}

fn build_schemas(scope: Result<Scope, LuaFault>, tools: &Vec<String>) -> (outcome: Result<
    Vec<ToolSchema>,
    AgentError,
>)
    ensures
        schema_outcome(outcome) == round_schemas(scope, texts(tools@)),
{
    if tools.len() == 0 {
        let none: Vec<ToolSchema> = Vec::new();
        assert(schemas(none@) =~= Seq::empty());
        return Ok(none);
    }
    match scope {
        Err(fault) => Err(from_lua(fault)),
        Ok(s) => {
            proof {
                use_type_invariant(&s);
            }
            advertised_schemas(&s.bindings, &s.refusals, tools)
        },
    }
}

/// Prepares one `models.chat` round: the binding, exactly the tools asked for,
/// and the wire messages.
pub fn prepare_chat(
    lookup: BindingLookup,
    scope: Result<Scope, LuaFault>,
    tools: &Vec<String>,
    messages: &Json,
) -> (outcome: Result<ChatCall, AgentError>)
    ensures
        call_outcome(outcome) == chat_call(lookup, scope, texts(tools@), messages@),
{
    let binding = match chat_binding(lookup) {
        Ok(binding) => binding,
        Err(error) => {
            return Err(error);
        },
    };
    let built = match build_schemas(scope, tools) {
        Ok(built) => built,
        Err(error) => {
            return Err(error);
        },
    };
    let list = match wire_messages(messages) {
        Ok(list) => list,
        Err(error) => {
            return Err(error);
        },
    };
    let tools = if built.len() == 0 {
        None
    } else {
        Some(built)
    };
    Ok(ChatCall { binding, messages: list, tools })
}

/// The message of a user.
pub open spec fn from_user(prompt: Seq<char>) -> MessageModel {
    MessageModel {
        role: "user"@,
        content: JsonModel::Text(prompt),
        tool_call_id: None,
        tool_calls: None,
    }
}

/// The call of an infer round: the prompt alone, on a fresh conversation, with
/// no tools.
pub open spec fn infer_call(lookup: BindingLookup, prompt: Seq<char>) -> Result<
    ChatCallModel,
    ErrorModel,
> {
    match chosen(lookup, "no model is selected: call models.use(...) before models.infer"@) {
        Err(error) => Err(error),
        Ok(binding) => Ok(
            ChatCallModel { binding, messages: seq![from_user(prompt)], tools: None },
        ),
    }
}

/// Prepares one `models.infer` round: the binding, and one direct tool-free
/// call on a fresh conversation.
pub fn prepare_infer(lookup: BindingLookup, prompt: &str) -> (outcome: Result<ChatCall, AgentError>)
    ensures
        call_outcome(outcome) == infer_call(lookup, prompt@),
{
    let binding = match infer_binding(lookup) {
        Ok(binding) => binding,
        Err(error) => {
            return Err(error);
        },
    };
    let message = Message {
        role: "user".to_owned(),
        content: Json::Text(prompt.to_owned()),
        tool_call_id: None,
        tool_calls: None,
    };
    let mut messages: Vec<Message> = Vec::new();
    messages.push(message);
    assert(message_models(messages@) =~= seq![from_user(prompt@)]);
    Ok(ChatCall { binding, messages, tools: None })
}

/// An infer round carries nothing over: whatever was said before, its
/// conversation is the prompt, and no tool is advertised; a chat round
/// advertises tools only where the program asked for some.
pub proof fn law_rounds_are_stateless(
    lookup: BindingLookup,
    prompt: Seq<char>,
    scope: Result<Scope, LuaFault>,
    messages: JsonModel,
)
    ensures
        infer_call(lookup, prompt) matches Ok(call) ==> call.messages == seq![from_user(prompt)]
            && call.tools is None,
        chat_call(lookup, scope, Seq::empty(), messages) matches Ok(call) ==> call.tools is None,
{
}

/// Entries keep their order on the wire: a conversation that converts has one
/// message per entry, each made from its own entry.
pub proof fn law_messages_in_order(entries: Seq<JsonModel>)
    ensures
        wired(entries) matches Ok(list) ==> {
            &&& list.len() == entries.len()
            &&& forall|i: int|
                0 <= i < entries.len() ==> wire_message(entries[i]) == Some(#[trigger] list[i])
        },
    decreases entries.len(),
{
    if entries.len() > 0 {
        law_messages_in_order(entries.drop_last());
        if wired(entries) is Ok {
            let list = wired(entries)->Ok_0;
            let before = wired(entries.drop_last())->Ok_0;
            assert forall|i: int| 0 <= i < entries.len() implies wire_message(entries[i]) == Some(
                #[trigger] list[i],
            ) by {
                if i < before.len() {
                    assert(list[i] == before[i]);
                    assert(entries.drop_last()[i] == entries[i]);
                }
            }
        }
    }
}

/// An entry goes on the wire exactly where it has a text as its role and any
/// content, and it carries those, the call that it answers where that is a
/// text, and the calls that it requests where those are an array.
pub proof fn law_a_message_carries_its_fields(entry: JsonModel)
    ensures
        wire_message(entry) is Some <==> (field(entry, "role"@) matches Some(JsonModel::Text(_)))
            && field(entry, "content"@) is Some,
        wire_message(entry) matches Some(message) ==> {
            &&& field(entry, "role"@) == Some(JsonModel::Text(message.role))
            &&& field(entry, "content"@) == Some(message.content)
            &&& match field(entry, "tool_call_id"@) {
                Some(JsonModel::Text(id)) => message.tool_call_id == Some(id),
                _ => message.tool_call_id is None,
            }
            &&& match field(entry, "tool_calls"@) {
                Some(JsonModel::Array(calls)) => message.tool_calls == Some(calls),
                _ => message.tool_calls is None,
            }
        },
{
}

/// A conversation converts exactly where it is an array and every entry goes
/// on the wire; else it fails as one that was not validated.
pub proof fn law_a_conversation_converts_whole(entries: Seq<JsonModel>, other: JsonModel)
    ensures
        wired(entries) is Ok <==> forall|i: int|
            0 <= i < entries.len() ==> wire_message(#[trigger] entries[i]) is Some,
        wired(entries) matches Err(error) ==> error == ErrorModel::Internal(
            "a chat request reaching dispatch carries protocol-validated messages"@,
        ),
        conversation(JsonModel::Array(entries)) == wired(entries),
        !(other is Array) ==> conversation(other) == Err::<Seq<MessageModel>, ErrorModel>(
            ErrorModel::Internal(
                "a chat request reaching dispatch carries protocol-validated messages"@,
            ),
        ),
    decreases entries.len(),
{
    if entries.len() > 0 {
        let head = entries.drop_last();
        law_a_conversation_converts_whole(head, other);
        assert forall|i: int| 0 <= i < head.len() implies head[i] == entries[i] by {}
        if forall|i: int|
            0 <= i < entries.len() ==> wire_message(#[trigger] entries[i]) is Some {
            assert forall|i: int| 0 <= i < head.len() implies wire_message(
                #[trigger] head[i],
            ) is Some by {
                assert(wire_message(entries[i]) is Some);
            }
        }
        if wired(entries) is Ok {
            assert forall|i: int| 0 <= i < entries.len() implies wire_message(
                #[trigger] entries[i],
            ) is Some by {
                if i < head.len() {
                    assert(wire_message(head[i]) is Some);
                }
            }
        }
    }
}

/// A chat round is prepared exactly where a model was found, every tool asked
/// for can be advertised, and the messages convert, and it then carries just
/// these; else it fails with the first of the three failures.
pub proof fn law_a_chat_round_carries_what_was_asked(
    lookup: BindingLookup,
    scope: Result<Scope, LuaFault>,
    tools: Seq<Seq<char>>,
    messages: JsonModel,
)
    ensures
        ({
            let model = chosen(
                lookup,
                "no model is selected: pass opts.model or call models.use(...) before models.chat"@,
            );
            let schemas = round_schemas(scope, tools);
            let words = conversation(messages);
            let call = chat_call(lookup, scope, tools, messages);
            &&& call is Ok <==> model is Ok && schemas is Ok && words is Ok
            &&& call matches Ok(c) ==> c.binding == model->Ok_0 && c.messages == words->Ok_0
                && match c.tools {
                Some(built) => built == schemas->Ok_0 && built.len() > 0,
                None => schemas->Ok_0.len() == 0,
            }
            &&& model matches Err(error) ==> call == Err::<ChatCallModel, ErrorModel>(error)
            &&& model is Ok && schemas is Err ==> call == Err::<ChatCallModel, ErrorModel>(
                schemas->Err_0,
            )
            &&& model is Ok && schemas is Ok && words is Err ==> call == Err::<
                ChatCallModel,
                ErrorModel,
            >(words->Err_0)
        }),
        tools.len() == 0 ==> round_schemas(scope, tools) == Ok::<Seq<SchemaModel>, ErrorModel>(
            Seq::empty(),
        ),
        tools.len() > 0 ==> match scope {
            Err(fault) => round_schemas(scope, tools) == Err::<Seq<SchemaModel>, ErrorModel>(
                fault_model(fault),
            ),
            Ok(s) => round_schemas(scope, tools) == advertised(s.list(), s.why(), tools),
        },
{
}

/// An infer round with a model in hand is one user message, the prompt itself,
/// to that model; it fails only where no model was found.
pub proof fn law_an_infer_round_asks_the_chosen_model(
    lookup: BindingLookup,
    prompt: Seq<char>,
    binding: ModelBinding,
)
    ensures
        lookup == BindingLookup::Frozen(binding) || lookup == BindingLookup::Selected(
            Ok(Some(binding)),
        ) ==> infer_call(lookup, prompt) is Ok && infer_call(lookup, prompt)->Ok_0.binding
            == binding,
        infer_call(lookup, prompt) matches Ok(call) ==> {
            &&& call.messages.len() == 1
            &&& call.messages[0].role == "user"@
            &&& call.messages[0].content == JsonModel::Text(prompt)
            &&& call.messages[0].tool_call_id is None
            &&& call.messages[0].tool_calls is None
            &&& call.tools is None
        },
        infer_call(lookup, prompt) is Err <==> chosen(
            lookup,
            "no model is selected: call models.use(...) before models.infer"@,
        ) is Err,
        lookup == BindingLookup::Selected(Ok(None)) ==> infer_call(lookup, prompt) == Err::<
            ChatCallModel,
            ErrorModel,
        >(
            ErrorModel::Program {
                message: "no model is selected: call models.use(...) before models.infer"@,
                source: None,
            },
        ),
{
}

} // verus!
