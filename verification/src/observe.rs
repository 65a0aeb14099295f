//! Report-only observation for a run in flight.
//!
//! [`Observer`] receives an execution, a section, and one typed
//! [`Observation`] at operational boundaries. Fixed observations carry no raw
//! prompt prose, model input or output, tool arguments or results, store paths
//! or contents, credentials, or fetched content. Reports are synchronous and
//! never consulted for a decision. The `on_*` content methods are the second
//! reporting family: hooks carrying completed content events as untrusted
//! payloads.

use crate::events::{CallMetrics, ToolCallEvent};
use crate::text::concat;
use vstd::prelude::*;

pub mod detail;

verus! {

/// One typed operational observation emitted by the runtime.
///
/// Every fixed variant maps 1:1 to a fixed lifecycle boundary. A consumer must
/// tolerate unknown variants and must never use an observation to steer
/// execution.
#[derive(Debug, Clone, PartialEq, Eq)]
#[non_exhaustive]
pub enum Observation {
    /// Prompt parsing began.
    ParseStarted,
    /// Prompt parsing and parse-time compilation completed successfully.
    ParseSucceeded,
    /// Prompt parsing or parse-time compilation returned an error.
    ParseFailed,
    /// A run passed its version gate and began.
    RunStarted,
    /// A run returned a value.
    RunSucceeded,
    /// A run returned an error.
    RunFailed,
    /// A top-level section began.
    SectionStarted,
    /// A top-level section completed successfully.
    SectionFinished,
    /// A model round trip completed successfully.
    ModelTurnCompleted,
    /// A model round trip returned an error.
    ModelTurnFailed,
    /// A successful parse ended because the model hit its length limit.
    ModelTurnTruncated,
    /// A tool dispatch completed successfully.
    ToolCallSucceeded,
    /// A tool dispatch returned an error.
    ToolCallFailed,
    /// Lua source compilation began.
    LuaCompilationStarted,
    /// Lua source compilation completed successfully.
    LuaCompilationSucceeded,
    /// Lua source compilation returned an error.
    LuaCompilationFailed,
    /// A section VM began loading and executing its shared program.
    LuaSharedLoadStarted,
    /// A section VM loaded and executed its shared program successfully.
    LuaSharedLoadSucceeded,
    /// A section VM failed to load or execute its shared program.
    LuaSharedLoadFailed,
    /// A section VM began executing a Lua chunk.
    LuaChunkStarted,
    /// A section VM executed a Lua chunk successfully.
    LuaChunkSucceeded,
    /// A section VM failed to execute a Lua chunk.
    LuaChunkFailed,
    /// A section VM began binding a model reply.
    LuaReplyBindingStarted,
    /// A section VM bound a model reply successfully.
    LuaReplyBindingSucceeded,
    /// A section VM failed to bind a model reply.
    LuaReplyBindingFailed,
    /// A section VM began teardown.
    LuaTeardownStarted,
    /// A section VM completed teardown.
    LuaTeardownSucceeded,
    /// Semantic validation of a model-visible tool scope began.
    ToolScopeValidationStarted,
    /// A model-visible tool scope passed semantic validation.
    ToolScopeValidationSucceeded,
    /// A model-visible tool scope failed semantic validation.
    ToolScopeValidationFailed,
    /// Live-catalog model binding validation began.
    ModelCatalogValidationStarted,
    /// Live-catalog model binding validation succeeded.
    ModelCatalogValidationSucceeded,
    /// Live-catalog model binding validation failed.
    ModelCatalogValidationFailed,
    /// A harness-mediated store write succeeded.
    StoreWriteSucceeded,
    /// A harness-mediated store write failed.
    StoreWriteFailed,
    /// A harness-mediated store append succeeded.
    StoreAppendSucceeded,
    /// A harness-mediated store append failed.
    StoreAppendFailed,
    /// A harness-mediated store read (verbatim) succeeded.
    StoreReadSucceeded,
    /// A harness-mediated store read (verbatim) failed.
    StoreReadFailed,
    /// A harness-mediated store read_numbered succeeded.
    StoreReadNumberedSucceeded,
    /// A harness-mediated store read_numbered failed.
    StoreReadNumberedFailed,
    /// A harness-mediated store replacement succeeded.
    StoreReplaceSucceeded,
    /// A harness-mediated store replacement failed.
    StoreReplaceFailed,
    /// A harness-mediated store deletion succeeded.
    StoreDeleteSucceeded,
    /// A harness-mediated store deletion failed.
    StoreDeleteFailed,
    /// A harness-mediated store glob succeeded.
    StoreGlobSucceeded,
    /// A harness-mediated store glob failed.
    StoreGlobFailed,
    /// A fanout arm began execution.
    FanoutArmStarted,
    /// Legacy generic terminal, retained only so an older consumer's match arm
    /// stays valid.
    FanoutArmFinished,
    /// Terminal: a fanout arm finished with a normal successful result.
    FanoutArmSucceeded,
    /// Terminal: a fanout arm soft-degraded because its tool loop was
    /// exhausted.
    FanoutArmExhausted,
    /// Terminal: a fanout arm ended with a hard error.
    FanoutArmFailed,
    /// Terminal: a fanout arm was cancelled or aborted (Ctrl-C or a sibling's
    /// hard error) before it could finalize.
    FanoutArmCancelled,
    /// A section began waiting on operator input through the run's input
    /// broker.
    UserInputWaitStarted,
    /// The one author-controlled checkpoint: a validated Lua `log(message)`.
    Lua(String),
    /// A forward-compatible escape hatch for an observation with no fixed
    /// variant.
    Other(String),
}

impl Observation {
    /// The fixed trace label of a fixed variant.
    pub open spec fn label_text(&self) -> Option<Seq<char>> {
        match *self {
            Observation::ParseStarted => Some("Parse started"@),
            Observation::ParseSucceeded => Some("Parse succeeded"@),
            Observation::ParseFailed => Some("Parse failed"@),
            Observation::RunStarted => Some("Run started"@),
            Observation::RunSucceeded => Some("Run succeeded"@),
            Observation::RunFailed => Some("Run failed"@),
            Observation::SectionStarted => Some("Section started"@),
            Observation::SectionFinished => Some("Section finished"@),
            Observation::ModelTurnCompleted => Some("Model turn completed"@),
            Observation::ModelTurnFailed => Some("Model turn failed"@),
            Observation::ModelTurnTruncated => Some("Model turn truncated"@),
            Observation::ToolCallSucceeded => Some("Tool call succeeded"@),
            Observation::ToolCallFailed => Some("Tool call failed"@),
            Observation::LuaCompilationStarted => Some("Lua compilation started"@),
            Observation::LuaCompilationSucceeded => Some("Lua compilation succeeded"@),
            Observation::LuaCompilationFailed => Some("Lua compilation failed"@),
            Observation::LuaSharedLoadStarted => Some("Lua shared load started"@),
            Observation::LuaSharedLoadSucceeded => Some("Lua shared load succeeded"@),
            Observation::LuaSharedLoadFailed => Some("Lua shared load failed"@),
            Observation::LuaChunkStarted => Some("Lua chunk started"@),
            Observation::LuaChunkSucceeded => Some("Lua chunk succeeded"@),
            Observation::LuaChunkFailed => Some("Lua chunk failed"@),
            Observation::LuaReplyBindingStarted => Some("Lua reply binding started"@),
            Observation::LuaReplyBindingSucceeded => Some("Lua reply binding succeeded"@),
            Observation::LuaReplyBindingFailed => Some("Lua reply binding failed"@),
            Observation::LuaTeardownStarted => Some("Lua teardown started"@),
            Observation::LuaTeardownSucceeded => Some("Lua teardown succeeded"@),
            Observation::ToolScopeValidationStarted => Some("Tool scope validation started"@),
            Observation::ToolScopeValidationSucceeded => Some("Tool scope validation succeeded"@),
            Observation::ToolScopeValidationFailed => Some("Tool scope validation failed"@),
            Observation::ModelCatalogValidationStarted => Some("Model catalog validation started"@),
            Observation::ModelCatalogValidationSucceeded => Some("Model catalog validation succeeded"@),
            Observation::ModelCatalogValidationFailed => Some("Model catalog validation failed"@),
            Observation::StoreWriteSucceeded => Some("Store write succeeded"@),
            Observation::StoreWriteFailed => Some("Store write failed"@),
            Observation::StoreAppendSucceeded => Some("Store append succeeded"@),
            Observation::StoreAppendFailed => Some("Store append failed"@),
            Observation::StoreReadSucceeded => Some("Store read succeeded"@),
            Observation::StoreReadFailed => Some("Store read failed"@),
            Observation::StoreReadNumberedSucceeded => Some("Store read_numbered succeeded"@),
            Observation::StoreReadNumberedFailed => Some("Store read_numbered failed"@),
            Observation::StoreReplaceSucceeded => Some("Store replace succeeded"@),
            Observation::StoreReplaceFailed => Some("Store replace failed"@),
            Observation::StoreDeleteSucceeded => Some("Store delete succeeded"@),
            Observation::StoreDeleteFailed => Some("Store delete failed"@),
            Observation::StoreGlobSucceeded => Some("Store glob succeeded"@),
            Observation::StoreGlobFailed => Some("Store glob failed"@),
            Observation::FanoutArmStarted => Some("Fanout arm started"@),
            Observation::FanoutArmFinished => Some("Fanout arm finished"@),
            Observation::FanoutArmSucceeded => Some("Fanout arm succeeded"@),
            Observation::FanoutArmExhausted => Some("Fanout arm exhausted"@),
            Observation::FanoutArmFailed => Some("Fanout arm failed"@),
            Observation::FanoutArmCancelled => Some("Fanout arm cancelled"@),
            Observation::UserInputWaitStarted => Some("User input wait started"@),
            Observation::Lua(_) => None,
            Observation::Other(_) => None,
        }
    }

    /// The trace line of a variant.
    pub open spec fn trace(&self) -> Seq<char> {
        match *self {
            Observation::Lua(message) => "Lua: "@ + message@,
            Observation::Other(message) => message@,
            fixed => fixed.label_text()->0,
        }
    }

    /// Returns the fixed trace label for a fixed variant, or `None` for the
    /// message-carrying variants. `label` is the stable machine key for fixed
    /// variants only.
    #[must_use]
    pub fn label(&self) -> (label: Option<&'static str>)
        ensures
            label is Some <==> self.label_text() is Some,
            label matches Some(l) ==> l@ == self.label_text()->0,
    {
        match self {
            Observation::ParseStarted => Some("Parse started"),
            Observation::ParseSucceeded => Some("Parse succeeded"),
            Observation::ParseFailed => Some("Parse failed"),
            Observation::RunStarted => Some("Run started"),
            Observation::RunSucceeded => Some("Run succeeded"),
            Observation::RunFailed => Some("Run failed"),
            Observation::SectionStarted => Some("Section started"),
            Observation::SectionFinished => Some("Section finished"),
            Observation::ModelTurnCompleted => Some("Model turn completed"),
            Observation::ModelTurnFailed => Some("Model turn failed"),
            Observation::ModelTurnTruncated => Some("Model turn truncated"),
            Observation::ToolCallSucceeded => Some("Tool call succeeded"),
            Observation::ToolCallFailed => Some("Tool call failed"),
            Observation::LuaCompilationStarted => Some("Lua compilation started"),
            Observation::LuaCompilationSucceeded => Some("Lua compilation succeeded"),
            Observation::LuaCompilationFailed => Some("Lua compilation failed"),
            Observation::LuaSharedLoadStarted => Some("Lua shared load started"),
            Observation::LuaSharedLoadSucceeded => Some("Lua shared load succeeded"),
            Observation::LuaSharedLoadFailed => Some("Lua shared load failed"),
            Observation::LuaChunkStarted => Some("Lua chunk started"),
            Observation::LuaChunkSucceeded => Some("Lua chunk succeeded"),
            Observation::LuaChunkFailed => Some("Lua chunk failed"),
            Observation::LuaReplyBindingStarted => Some("Lua reply binding started"),
            Observation::LuaReplyBindingSucceeded => Some("Lua reply binding succeeded"),
            Observation::LuaReplyBindingFailed => Some("Lua reply binding failed"),
            Observation::LuaTeardownStarted => Some("Lua teardown started"),
            Observation::LuaTeardownSucceeded => Some("Lua teardown succeeded"),
            Observation::ToolScopeValidationStarted => Some("Tool scope validation started"),
            Observation::ToolScopeValidationSucceeded => Some("Tool scope validation succeeded"),
            Observation::ToolScopeValidationFailed => Some("Tool scope validation failed"),
            Observation::ModelCatalogValidationStarted => Some("Model catalog validation started"),
            Observation::ModelCatalogValidationSucceeded => Some("Model catalog validation succeeded"),
            Observation::ModelCatalogValidationFailed => Some("Model catalog validation failed"),
            Observation::StoreWriteSucceeded => Some("Store write succeeded"),
            Observation::StoreWriteFailed => Some("Store write failed"),
            Observation::StoreAppendSucceeded => Some("Store append succeeded"),
            Observation::StoreAppendFailed => Some("Store append failed"),
            Observation::StoreReadSucceeded => Some("Store read succeeded"),
            Observation::StoreReadFailed => Some("Store read failed"),
            Observation::StoreReadNumberedSucceeded => Some("Store read_numbered succeeded"),
            Observation::StoreReadNumberedFailed => Some("Store read_numbered failed"),
            Observation::StoreReplaceSucceeded => Some("Store replace succeeded"),
            Observation::StoreReplaceFailed => Some("Store replace failed"),
            Observation::StoreDeleteSucceeded => Some("Store delete succeeded"),
            Observation::StoreDeleteFailed => Some("Store delete failed"),
            Observation::StoreGlobSucceeded => Some("Store glob succeeded"),
            Observation::StoreGlobFailed => Some("Store glob failed"),
            Observation::FanoutArmStarted => Some("Fanout arm started"),
            Observation::FanoutArmFinished => Some("Fanout arm finished"),
            Observation::FanoutArmSucceeded => Some("Fanout arm succeeded"),
            Observation::FanoutArmExhausted => Some("Fanout arm exhausted"),
            Observation::FanoutArmFailed => Some("Fanout arm failed"),
            Observation::FanoutArmCancelled => Some("Fanout arm cancelled"),
            Observation::UserInputWaitStarted => Some("User input wait started"),
            Observation::Lua(_) => None,
            Observation::Other(_) => None,
        }
    }

    /// The human trace line.
    pub fn to_string(&self) -> (line: String)
        ensures
            line@ == self.trace(),
    {
        match self {
            Observation::Lua(message) => concat("Lua: ", message.as_str()),
            Observation::Other(message) => message.clone(),
            fixed => match fixed.label() {
                Some(label) => label.to_owned(),
                None => String::new(),
            },
        }
    }
}

/// A number that tells the labels apart, computed from a label.
spec fn label_key(s: Seq<char>) -> int {
    ((s.len() as int) * 256 + s[7] as int) * 256 + s[s.len() - 9] as int
}

/// The number that tells a fixed variant apart.
spec fn variant_key(o: Observation) -> int {
    match o {
        Observation::ParseStarted => 881765,
        Observation::ParseSucceeded => 1013107,
        Observation::ParseFailed => 811379,
        Observation::RunStarted => 750190,
        Observation::RunSucceeded => 877427,
        Observation::RunFailed => 683125,
        Observation::SectionStarted => 991342,
        Observation::SectionFinished => 1056800,
        Observation::ModelTurnCompleted => 1340771,
        Observation::ModelTurnFailed => 1144178,
        Observation::ModelTurnTruncated => 1340788,
        Observation::ToolCallSucceeded => 1272947,
        Observation::ToolCallFailed => 1076332,
        Observation::LuaCompilationStarted => 1536110,
        Observation::LuaCompilationSucceeded => 1667187,
        Observation::LuaCompilationFailed => 1470575,
        Observation::LuaSharedLoadStarted => 1536612,
        Observation::LuaSharedLoadSucceeded => 1667699,
        Observation::LuaSharedLoadFailed => 1471073,
        Observation::LuaChunkStarted => 1142379,
        Observation::LuaChunkSucceeded => 1273459,
        Observation::LuaChunkFailed => 1076846,
        Observation::LuaReplyBindingStarted => 1666151,
        Observation::LuaReplyBindingSucceeded => 1797235,
        Observation::LuaReplyBindingFailed => 1600622,
        Observation::LuaTeardownStarted => 1340014,
        Observation::LuaTeardownSucceeded => 1471091,
        Observation::ToolScopeValidationStarted => 1929070,
        Observation::ToolScopeValidationSucceeded => 2060147,
        Observation::ToolScopeValidationFailed => 1863535,
        Observation::ModelCatalogValidationStarted => 2122094,
        Observation::ModelCatalogValidationSucceeded => 2253171,
        Observation::ModelCatalogValidationFailed => 2056559,
        Observation::StoreWriteSucceeded => 1405555,
        Observation::StoreWriteFailed => 1208948,
        Observation::StoreAppendSucceeded => 1470579,
        Observation::StoreAppendFailed => 1273966,
        Observation::StoreReadSucceeded => 1336691,
        Observation::StoreReadFailed => 1140065,
        Observation::StoreReadNumberedSucceeded => 1926515,
        Observation::StoreReadNumberedFailed => 1729893,
        Observation::StoreReplaceSucceeded => 1533299,
        Observation::StoreReplaceFailed => 1336675,
        Observation::StoreDeleteSucceeded => 1467763,
        Observation::StoreDeleteFailed => 1271156,
        Observation::StoreGlobSucceeded => 1338483,
        Observation::StoreGlobFailed => 1141871,
        Observation::FanoutArmStarted => 1204589,
        Observation::FanoutArmFinished => 1270048,
        Observation::FanoutArmSucceeded => 1335667,
        Observation::FanoutArmExhausted => 1335653,
        Observation::FanoutArmFailed => 1139058,
        Observation::FanoutArmCancelled => 1335651,
        Observation::UserInputWaitStarted => 1536116,
        Observation::Lua(_) => -1,
        Observation::Other(_) => -2,
    }
}

proof fn lemma_label_key(o: Observation)
    requires
        o.label_text() is Some,
    ensures
        label_key(o.label_text()->0) == variant_key(o),
{
    reveal_strlit("Parse started");
    reveal_strlit("Parse succeeded");
    reveal_strlit("Parse failed");
    reveal_strlit("Run started");
    reveal_strlit("Run succeeded");
    reveal_strlit("Run failed");
    reveal_strlit("Section started");
    reveal_strlit("Section finished");
    reveal_strlit("Model turn completed");
    reveal_strlit("Model turn failed");
    reveal_strlit("Model turn truncated");
    reveal_strlit("Tool call succeeded");
    reveal_strlit("Tool call failed");
    reveal_strlit("Lua compilation started");
    reveal_strlit("Lua compilation succeeded");
    reveal_strlit("Lua compilation failed");
    reveal_strlit("Lua shared load started");
    reveal_strlit("Lua shared load succeeded");
    reveal_strlit("Lua shared load failed");
    reveal_strlit("Lua chunk started");
    reveal_strlit("Lua chunk succeeded");
    reveal_strlit("Lua chunk failed");
    reveal_strlit("Lua reply binding started");
    reveal_strlit("Lua reply binding succeeded");
    reveal_strlit("Lua reply binding failed");
    reveal_strlit("Lua teardown started");
    reveal_strlit("Lua teardown succeeded");
    reveal_strlit("Tool scope validation started");
    reveal_strlit("Tool scope validation succeeded");
    reveal_strlit("Tool scope validation failed");
    reveal_strlit("Model catalog validation started");
    reveal_strlit("Model catalog validation succeeded");
    reveal_strlit("Model catalog validation failed");
    reveal_strlit("Store write succeeded");
    reveal_strlit("Store write failed");
    reveal_strlit("Store append succeeded");
    reveal_strlit("Store append failed");
    reveal_strlit("Store read succeeded");
    reveal_strlit("Store read failed");
    reveal_strlit("Store read_numbered succeeded");
    reveal_strlit("Store read_numbered failed");
    reveal_strlit("Store replace succeeded");
    reveal_strlit("Store replace failed");
    reveal_strlit("Store delete succeeded");
    reveal_strlit("Store delete failed");
    reveal_strlit("Store glob succeeded");
    reveal_strlit("Store glob failed");
    reveal_strlit("Fanout arm started");
    reveal_strlit("Fanout arm finished");
    reveal_strlit("Fanout arm succeeded");
    reveal_strlit("Fanout arm exhausted");
    reveal_strlit("Fanout arm failed");
    reveal_strlit("Fanout arm cancelled");
    reveal_strlit("User input wait started");
}

/// Labels are machine keys: two fixed variants with one label are the same
/// variant, and only the message-carrying variants have no label.
pub proof fn law_labels_tell_variants_apart(a: Observation, b: Observation)
    ensures
        a.label_text() is None <==> a is Lua || a is Other,
        a.label_text() is Some && a.label_text() == b.label_text() ==> a == b,
{
    if a.label_text() is Some && a.label_text() == b.label_text() {
        lemma_label_key(a);
        lemma_label_key(b);
    }
}

/// A message-carrying variant preserves its text verbatim in its trace line.
pub proof fn law_messages_are_verbatim(message: String)
    ensures
        Observation::Lua(message).trace() == "Lua: "@ + message@,
        Observation::Other(message).trace() == message@,
{
}

/// A report-only sink for operational observations.
///
/// Implementations must be `Send + Sync`, non-blocking, and non-panicking. An
/// observation is never read back by the runtime. The `on_*` content methods
/// have default bodies that discard the report.
pub trait Observer: Send + Sync {
    /// Reports one typed [`Observation`] for `execution` and `section`.
    fn observe(&self, execution: &str, section: &str, event: Observation);

    /// Reports one completed assistant reply.
    #[allow(unused_variables)]
    fn on_assistant_reply(
        &self,
        execution: &str,
        section: &str,
        chain_id: u32,
        depth: u32,
        turn: u32,
        text: &str,
        finish_reason: Option<&str>,
        model: &str,
        metrics: Option<&CallMetrics>,
    ) {
    }

    /// Reports one batch of tool calls the model requested, unexecuted.
    #[allow(unused_variables)]
    fn on_assistant_tool_calls(
        &self,
        execution: &str,
        section: &str,
        chain_id: u32,
        depth: u32,
        turn: u32,
        model: &str,
        calls: &[ToolCallEvent],
    ) {
    }

    /// Reports the result of one dispatched tool call.
    #[allow(unused_variables)]
    fn on_tool_result(
        &self,
        execution: &str,
        section: &str,
        chain_id: u32,
        depth: u32,
        turn: u32,
        tool_call_id: &str,
        alias: &str,
        content: &str,
        trusted: bool,
    ) {
    }

    /// Reports one completed block of model thinking.
    #[allow(unused_variables)]
    fn on_thinking(
        &self,
        execution: &str,
        section: &str,
        chain_id: u32,
        depth: u32,
        turn: u32,
        model: &str,
        text: &str,
    ) {
    }

    /// Reports text the user supplied, byte-exact.
    #[allow(unused_variables)]
    fn on_user_input(&self, execution: &str, section: &str, text: &str) {
    }
}

/// An [`Observer`] that discards every observation.
#[derive(Debug, Clone, Copy, Default, PartialEq, Eq)]
#[non_exhaustive]
pub struct NullObserver;

impl Observer for NullObserver {
    fn observe(&self, _execution: &str, _section: &str, _event: Observation) {
    }
}

} // verus!
