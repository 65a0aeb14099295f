//! Canonical metrics and runtime-event vocabulary, with the read-side
//! [`EventLog`] history interface.
//!
//! The write side and the read side are deliberately different types: the
//! observer reports each event as it happens and is never read back, while the
//! [`EventLog`] is the explicit, indexed history that a host hands an executor.
//! A [`RuntimeEvent`] records what happened, never assembled framing. Event
//! content is untrusted model-, tool-, or user-authored data.

use crate::json::{Json, JsonModel};
use crate::text::{clone_option, same_text, text_option};
use vstd::prelude::*;

verus! {

/// Read-side run history: append-only, indexed from zero.
///
/// Implementations are append-only, so an index once valid stays valid and its
/// entry never changes.
pub trait EventLog: Send + Sync {
    /// Returns the number of events recorded so far.
    fn len(&self) -> u64;

    /// Returns the event at `index`, or `None` at or past
    /// [`len`](Self::len).
    fn get(&self, index: u64) -> Option<RuntimeEvent>;
}

/// One durable record of something that happened during a run.
#[derive(Debug, PartialEq, Eq)]
pub struct RuntimeEvent {
    /// What kind of thing happened.
    pub kind: RuntimeEventKind,
    /// The reporting scope: a document prompt's section heading, or an agent's
    /// name.
    pub section: String,
    /// The fanout chain the event was reported under (0 outside fanout).
    pub chain_id: u32,
    /// The nesting depth the event was reported under (0 at the top level).
    pub depth: u32,
    /// The model-turn counter the event was reported under.
    pub turn: u32,
    /// The kind-specific untrusted payload.
    pub content: String,
    /// The model that produced the event, for model-attributed kinds.
    pub model: Option<String>,
    /// The provider-issued tool-call id the event answers to, for tool kinds.
    pub tool_call_id: Option<String>,
    /// The provider's finish reason, when it sent one.
    pub finish_reason: Option<String>,
    /// Everything measured about the model call that produced the event.
    pub metrics: Option<CallMetrics>,
}

/// [`RuntimeEvent`] over plain values.
pub struct EventModel {
    pub kind: RuntimeEventKind,
    pub section: Seq<char>,
    pub chain_id: u32,
    pub depth: u32,
    pub turn: u32,
    pub content: Seq<char>,
    pub model: Option<Seq<char>>,
    pub tool_call_id: Option<Seq<char>>,
    pub finish_reason: Option<Seq<char>>,
    pub metrics: Option<CallMetrics>,
}

impl View for RuntimeEvent {
    type V = EventModel;

    open spec fn view(&self) -> EventModel {
        EventModel {
            kind: self.kind,
            section: self.section@,
            chain_id: self.chain_id,
            depth: self.depth,
            turn: self.turn,
            content: self.content@,
            model: text_option(self.model),
            tool_call_id: text_option(self.tool_call_id),
            finish_reason: text_option(self.finish_reason),
            metrics: self.metrics,
        }
    }
}

impl Clone for RuntimeEvent {
    fn clone(&self) -> (copy: RuntimeEvent)
        ensures
            copy@ == self@,
    {
        RuntimeEvent {
            kind: self.kind,
            section: self.section.clone(),
            chain_id: self.chain_id,
            depth: self.depth,
            turn: self.turn,
            content: self.content.clone(),
            model: clone_option(&self.model),
            tool_call_id: clone_option(&self.tool_call_id),
            finish_reason: clone_option(&self.finish_reason),
            metrics: self.metrics,
        }
    }
}

/// The kind of one [`RuntimeEvent`].
///
/// Section-lifecycle vocabulary is deliberately absent. A consumer matching on
/// kinds tolerates unknown variants through a wildcard arm.
#[derive(Debug, Clone, Copy, PartialEq, Eq, Hash, Structural)]
#[non_exhaustive]
pub enum RuntimeEventKind {
    /// A completed assistant reply.
    AssistantReply,
    /// A batch of tool calls the model requested.
    AssistantToolCalls,
    /// The result of one dispatched tool call.
    ToolResult,
    /// A completed block of model thinking.
    Thinking,
    /// Text the user supplied.
    UserInput,
}

impl RuntimeEventKind {
    /// The persisted label of a kind.
    pub open spec fn label_text(self) -> Seq<char> {
        match self {
            RuntimeEventKind::AssistantReply => "agent_message"@,
            RuntimeEventKind::AssistantToolCalls => "tool_call"@,
            RuntimeEventKind::ToolResult => "tool_call_update"@,
            RuntimeEventKind::Thinking => "agent_thought"@,
            RuntimeEventKind::UserInput => "user_message"@,
        }
    }

    /// The persisted label, which follows the Agent Client Protocol
    /// `sessionUpdate` name where an equivalent exists.
    pub fn label(self) -> (label: &'static str)
        ensures
            label@ == self.label_text(),
    {
        match self {
            RuntimeEventKind::AssistantReply => "agent_message",
            RuntimeEventKind::AssistantToolCalls => "tool_call",
            RuntimeEventKind::ToolResult => "tool_call_update",
            RuntimeEventKind::Thinking => "agent_thought",
            RuntimeEventKind::UserInput => "user_message",
        }
    }

    /// The kind of a persisted label; a label outside the vocabulary has none.
    pub fn from_label(label: &str) -> (kind: Option<RuntimeEventKind>)
        ensures
            kind matches Some(k) ==> k.label_text() == label@,
            kind is None ==> forall|k: RuntimeEventKind| #[trigger] k.label_text() != label@,
    {
        if same_text(label, "agent_message") {
            Some(RuntimeEventKind::AssistantReply)
        } else if same_text(label, "tool_call") {
            Some(RuntimeEventKind::AssistantToolCalls)
        } else if same_text(label, "tool_call_update") {
            Some(RuntimeEventKind::ToolResult)
        } else if same_text(label, "agent_thought") {
            Some(RuntimeEventKind::Thinking)
        } else if same_text(label, "user_message") {
            Some(RuntimeEventKind::UserInput)
        } else {
            None
        }
    }
}

/// A persisted label reads back as its own kind: no two kinds share a label.
pub proof fn law_labels_round_trip(a: RuntimeEventKind, b: RuntimeEventKind)
    ensures
        a.label_text() == b.label_text() ==> a == b,
{
    reveal_strlit("agent_message");
    reveal_strlit("tool_call");
    reveal_strlit("tool_call_update");
    reveal_strlit("agent_thought");
    reveal_strlit("user_message");
    if a.label_text() == b.label_text() {
        assert(a.label_text().len() == b.label_text().len());
        assert(a.label_text()[0] == b.label_text()[0]);
        assert(a.label_text()[6] == b.label_text()[6]);
    }
}

/// One tool call requested by the model: its id, name, and raw arguments.
#[derive(Debug, PartialEq, Eq)]
pub struct ToolCallEvent {
    /// The provider-issued tool-call id.
    pub id: String,
    /// The tool name the model called.
    pub name: String,
    /// The call arguments exactly as the model produced them.
    pub arguments: Json,
}

/// [`ToolCallEvent`] over plain values.
pub struct CallModel {
    pub id: Seq<char>,
    pub name: Seq<char>,
    pub arguments: JsonModel,
}

impl View for ToolCallEvent {
    type V = CallModel;

    open spec fn view(&self) -> CallModel {
        CallModel { id: self.id@, name: self.name@, arguments: self.arguments@ }
    }
}

impl Clone for ToolCallEvent {
    fn clone(&self) -> (copy: ToolCallEvent)
        ensures
            copy@ == self@,
    {
        ToolCallEvent {
            id: self.id.clone(),
            name: self.name.clone(),
            arguments: self.arguments.copy(),
        }
    }
}

/// A batch of calls over plain values.
pub open spec fn call_models(calls: Seq<ToolCallEvent>) -> Seq<CallModel> {
    Seq::new(calls.len(), |i: int| calls[i]@)
}

/// A measured number, held as the bits of its IEEE 754 double.
#[derive(Debug, Clone, Copy, PartialEq, Eq, Structural)]
pub struct Measured {
    /// The bits.
    pub bits: u64,
}

/// Everything measured about one model call, from every source that reported.
#[derive(Debug, Clone, Copy, PartialEq, Eq, Structural)]
pub struct CallMetrics {
    /// Token accounting, when the backend reported usage.
    pub usage: Option<Usage>,
    /// llama.cpp server timings, when that backend served the call.
    pub llama: Option<LlamaTimings>,
    /// vLLM request metrics, when that backend served the call.
    pub vllm: Option<VllmMetrics>,
    /// Timing measured by the calling client itself.
    pub client: Option<ClientTiming>,
}

/// Token accounting for one model call, as the backend reported it.
#[derive(Debug, Clone, Copy, PartialEq, Eq, Structural)]
pub struct Usage {
    /// Tokens in the prompt.
    pub prompt_tokens: u32,
    /// Tokens generated in the completion.
    pub completion_tokens: u32,
    /// Prompt plus completion tokens.
    pub total_tokens: u32,
    /// Prompt tokens served from a prefix cache, when reported.
    pub cached_tokens: Option<u32>,
    /// Tokens spent on reasoning, when reported.
    pub reasoning_tokens: Option<u32>,
}

/// llama.cpp `timings` for one call, as the server reported them.
#[derive(Debug, Clone, Copy, PartialEq, Eq, Structural)]
pub struct LlamaTimings {
    /// Prompt tokens processed.
    pub prompt_n: u32,
    /// Wall-clock milliseconds spent processing the prompt.
    pub prompt_ms: Measured,
    /// Prompt processing rate in tokens per second.
    pub prompt_per_second: Measured,
    /// Tokens predicted.
    pub predicted_n: u32,
    /// Wall-clock milliseconds spent predicting.
    pub predicted_ms: Measured,
    /// Prediction rate in tokens per second.
    pub predicted_per_second: Measured,
    /// Draft tokens proposed by speculative decoding.
    pub draft_n: u32,
    /// Draft tokens the target model accepted.
    pub draft_n_accepted: u32,
}

/// vLLM per-request metrics for one call.
#[derive(Debug, Clone, Copy, PartialEq, Eq, Structural)]
pub struct VllmMetrics {
    /// Milliseconds from request start to the first generated token.
    pub time_to_first_token_ms: Option<Measured>,
    /// Milliseconds spent generating.
    pub generation_time_ms: Option<Measured>,
    /// Milliseconds the request waited in the scheduler queue.
    pub queue_time_ms: Option<Measured>,
    /// Mean inter-token latency in milliseconds.
    pub mean_itl_ms: Option<Measured>,
    /// Generation rate in tokens per second.
    pub tokens_per_second: Option<Measured>,
}

/// Timing one call end to end, measured by the calling client's own clock.
#[derive(Debug, Clone, Copy, PartialEq, Eq, Structural)]
pub struct ClientTiming {
    /// Milliseconds to the first streamed token, when the stream produced one.
    pub ttft_ms: Option<Measured>,
    /// Mean inter-token latency in milliseconds.
    pub mean_itl_ms: Option<Measured>,
    /// Milliseconds to the completed response.
    pub e2e_ms: Measured,
}

/// The events over plain values.
pub open spec fn event_models(events: Seq<RuntimeEvent>) -> Seq<EventModel> {
    Seq::new(events.len(), |i: int| events[i]@)
}

/// The persisted label of each kind.
pub proof fn law_kinds_have_their_labels(kind: RuntimeEventKind)
    ensures
        kind == RuntimeEventKind::AssistantReply <==> kind.label_text() == "agent_message"@,
        kind == RuntimeEventKind::AssistantToolCalls <==> kind.label_text() == "tool_call"@,
        kind == RuntimeEventKind::ToolResult <==> kind.label_text() == "tool_call_update"@,
        kind == RuntimeEventKind::Thinking <==> kind.label_text() == "agent_thought"@,
        kind == RuntimeEventKind::UserInput <==> kind.label_text() == "user_message"@,
{
    law_labels_round_trip(kind, RuntimeEventKind::AssistantReply);
    law_labels_round_trip(kind, RuntimeEventKind::AssistantToolCalls);
    law_labels_round_trip(kind, RuntimeEventKind::ToolResult);
    law_labels_round_trip(kind, RuntimeEventKind::Thinking);
    law_labels_round_trip(kind, RuntimeEventKind::UserInput);
}

/// An event, and each of a list of events, is seen field by field as it is
/// held, and so is a call.
pub proof fn law_an_event_is_seen_as_held(
    events: Seq<RuntimeEvent>,
    i: int,
    calls: Seq<ToolCallEvent>,
    k: int,
)
    ensures
        event_models(events).len() == events.len(),
        0 <= i < events.len() ==> {
            let (seen, held) = (event_models(events)[i], events[i]);
            &&& seen.kind == held.kind && seen.section == held.section@
            &&& seen.chain_id == held.chain_id && seen.depth == held.depth && seen.turn == held.turn
            &&& seen.content == held.content@ && seen.metrics == held.metrics
            &&& held.model is None ==> seen.model is None
            &&& held.model matches Some(model) ==> seen.model == Some(model@)
            &&& held.tool_call_id is None ==> seen.tool_call_id is None
            &&& held.tool_call_id matches Some(id) ==> seen.tool_call_id == Some(id@)
            &&& held.finish_reason is None ==> seen.finish_reason is None
            &&& held.finish_reason matches Some(reason) ==> seen.finish_reason == Some(reason@)
        },
        call_models(calls).len() == calls.len(),
        0 <= k < calls.len() ==> call_models(calls)[k].id == calls[k].id@ && call_models(
            calls,
        )[k].name == calls[k].name@ && call_models(calls)[k].arguments == calls[k].arguments@,
{
}

} // verus!
