//! How a model round ends: what is reported, what the turn counter becomes,
//! and what the program resumes with.

use super::driver::Reporter;
use super::error::{program_error, program_failure, AgentError, ErrorModel};
use crate::events::{
    call_models, CallMetrics, CallModel, ClientTiming, LlamaTimings, ToolCallEvent, Usage,
    VllmMetrics,
};
use crate::observe::Observation;
use crate::text::{clone_option, same_text, text_option};
use vstd::prelude::*;

verus! {

/// What a completion holds.
#[derive(Debug, PartialEq, Eq)]
#[non_exhaustive]
pub enum CompletionResult {
    /// The assistant's answer.
    Text(String),
    /// The tool calls that the model requested.
    ToolCalls(Vec<ToolCallEvent>),
    /// An outcome that is not recognized.
    Other,
}

/// One completed model call.
#[derive(Debug, PartialEq, Eq)]
pub struct Completion {
    /// What it holds.
    pub result: CompletionResult,
    /// Why the model stopped, when the provider said so.
    pub finish_reason: Option<String>,
    /// The model that answered.
    pub model: String,
    /// What the model thought, when it did.
    pub reasoning_content: Option<String>,
    /// Token accounting.
    pub usage: Option<Usage>,
    /// llama.cpp server timings.
    pub llama: Option<LlamaTimings>,
    /// vLLM request metrics.
    pub vllm: Option<VllmMetrics>,
    /// The client's own timing.
    pub client: Option<ClientTiming>,
}

/// How the one model call of a round ended.
#[derive(Debug, PartialEq, Eq)]
pub enum Call {
    /// Cancellation won the race.
    Cancelled,
    /// The call failed, with its message.
    Failed(String),
    /// The call completed.
    Completed(Completion),
}

/// What a round reports to the observer.
#[derive(Debug, PartialEq, Eq)]
pub struct Report {
    /// The run's execution id.
    pub execution: String,
    /// The agent's name.
    pub section: String,
    /// What is reported.
    pub content: Content,
}

/// The content of a report. Agents have no fanout chains and no nesting, so
/// the chain and the depth are zero.
#[derive(Debug, PartialEq, Eq)]
pub enum Content {
    /// An operational boundary.
    Observed(Observation),
    /// What the model thought.
    Thinking {
        /// The fanout chain.
        chain_id: u32,
        /// The nesting depth.
        depth: u32,
        /// The turn.
        turn: u32,
        /// The model.
        model: String,
        /// The text.
        text: String,
    },
    /// A completed reply.
    Reply {
        /// The fanout chain.
        chain_id: u32,
        /// The nesting depth.
        depth: u32,
        /// The turn.
        turn: u32,
        /// The text.
        text: String,
        /// Why the model stopped.
        finish_reason: Option<String>,
        /// The model.
        model: String,
        /// What was measured.
        metrics: Option<CallMetrics>,
    },
    /// A batch of requested tool calls, unexecuted.
    Calls {
        /// The fanout chain.
        chain_id: u32,
        /// The nesting depth.
        depth: u32,
        /// The turn.
        turn: u32,
        /// The model.
        model: String,
        /// The calls.
        calls: Vec<ToolCallEvent>,
    },
}

/// [`Content`] over plain values.
pub enum ContentModel {
    Observed(Observation),
    Thinking { chain_id: u32, depth: u32, turn: u32, model: Seq<char>, text: Seq<char> },
    Reply {
        chain_id: u32,
        depth: u32,
        turn: u32,
        text: Seq<char>,
        finish_reason: Option<Seq<char>>,
        model: Seq<char>,
        metrics: Option<CallMetrics>,
    },
    Calls { chain_id: u32, depth: u32, turn: u32, model: Seq<char>, calls: Seq<CallModel> },
}

impl View for Content {
    type V = ContentModel;

    open spec fn view(&self) -> ContentModel {
        match *self {
            Content::Observed(event) => ContentModel::Observed(event),
            Content::Thinking { chain_id, depth, turn, model, text } => ContentModel::Thinking {
                chain_id,
                depth,
                turn,
                model: model@,
                text: text@,
            },
            Content::Reply { chain_id, depth, turn, text, finish_reason, model, metrics } =>
                ContentModel::Reply {
                chain_id,
                depth,
                turn,
                text: text@,
                finish_reason: text_option(finish_reason),
                model: model@,
                metrics,
            },
            Content::Calls { chain_id, depth, turn, model, calls } => ContentModel::Calls {
                chain_id,
                depth,
                turn,
                model: model@,
                calls: call_models(calls@),
            },
        }
    }
}

/// [`Report`] over plain values.
pub struct ReportModel {
    pub execution: Seq<char>,
    pub section: Seq<char>,
    pub content: ContentModel,
}

impl View for Report {
    type V = ReportModel;

    open spec fn view(&self) -> ReportModel {
        ReportModel {
            execution: self.execution@,
            section: self.section@,
            content: self.content@,
        }
    }
}

/// The contents, each as a report of the run.
pub open spec fn reported(who: Reporter, contents: Seq<ContentModel>) -> Seq<ReportModel> {
    Seq::new(
        contents.len(),
        |i: int|
            ReportModel {
                execution: who.execution,
                section: who.section,
                content: contents[i],
            },
    )
}

/// The reports over plain values.
pub open spec fn reports(list: Seq<Report>) -> Seq<ReportModel> {
    Seq::new(list.len(), |i: int| list[i]@)
}

fn report(execution: &str, section: &str, content: Content) -> (report: Report)
    ensures
        report@ == (ReportModel {
            execution: execution@,
            section: section@,
            content: content@,
        }),
{
    Report { execution: execution.to_owned(), section: section.to_owned(), content }
}

/// What a chat round resumes the program with.
#[derive(Debug, PartialEq, Eq)]
pub struct ChatResult {
    /// The reply, for a round that ended with text.
    pub reply: Option<String>,
    /// The unexecuted tool calls, for a round that requested some.
    pub tool_calls: Option<Vec<ToolCallEvent>>,
    /// Why the model stopped.
    pub finish_reason: Option<String>,
    /// The model that answered.
    pub model: String,
    /// What was measured.
    pub metrics: Option<CallMetrics>,
}

/// [`ChatResult`] over plain values.
pub struct ChatModel {
    pub reply: Option<Seq<char>>,
    pub tool_calls: Option<Seq<CallModel>>,
    pub finish_reason: Option<Seq<char>>,
    pub model: Seq<char>,
    pub metrics: Option<CallMetrics>,
}

impl View for ChatResult {
    type V = ChatModel;

    open spec fn view(&self) -> ChatModel {
        ChatModel {
            reply: text_option(self.reply),
            tool_calls: match self.tool_calls {
                Some(calls) => Some(call_models(calls@)),
                None => None,
            },
            finish_reason: text_option(self.finish_reason),
            model: self.model@,
            metrics: self.metrics,
        }
    }
}

/// Everything a completion measured, none where nothing was measured.
pub open spec fn measured(c: Completion) -> Option<CallMetrics> {
    if c.usage is Some || c.llama is Some || c.vllm is Some || c.client is Some {
        Some(CallMetrics { usage: c.usage, llama: c.llama, vllm: c.vllm, client: c.client })
    } else {
        None
    }
}

/// Assembles the round's metrics from everything the completion measured.
pub fn call_metrics(completion: &Completion) -> (metrics: Option<CallMetrics>)
    ensures
        metrics == measured(*completion),
{
    if completion.usage.is_some() || completion.llama.is_some() || completion.vllm.is_some()
        || completion.client.is_some() {
        Some(
            CallMetrics {
                usage: completion.usage,
                llama: completion.llama,
                vllm: completion.vllm,
                client: completion.client,
            },
        )
    } else {
        None
    }
}

/// The reports of a round's thinking: none where the model did not think.
pub open spec fn thoughts(c: Completion, turn: u32) -> Seq<ContentModel> {
    match c.reasoning_content {
        Some(text) => if text@.len() > 0 {
            seq![ContentModel::Thinking { chain_id: 0, depth: 0, turn, model: c.model@, text: text@ }]
        } else {
            Seq::empty()
        },
        None => Seq::empty(),
    }
}

/// Whether the provider cut the answer off at its length limit.
pub open spec fn cut_off(c: Completion) -> bool {
    text_option(c.finish_reason) == Some("length"@)
}

/// The report of an answer that was cut off.
pub open spec fn truncation(c: Completion) -> Seq<ContentModel> {
    if cut_off(c) {
        seq![ContentModel::Observed(Observation::ModelTurnTruncated)]
    } else {
        Seq::empty()
    }
}

/// What a completed chat round reports: the boundary, then the thinking, then
/// the reply or the unexecuted calls, each with its model and metrics.
pub open spec fn chat_reports(c: Completion, turn: u32) -> Seq<ContentModel> {
    seq![ContentModel::Observed(Observation::ModelTurnCompleted)] + thoughts(c, turn) + (
    match c.result {
        CompletionResult::Text(text) => truncation(c).push(
            ContentModel::Reply {
                chain_id: 0,
                depth: 0,
                turn,
                text: text@,
                finish_reason: text_option(c.finish_reason),
                model: c.model@,
                metrics: measured(c),
            },
        ),
        CompletionResult::ToolCalls(calls) => seq![
            ContentModel::Calls { chain_id: 0, depth: 0, turn, model: c.model@, calls: call_models(calls@) },
        ],
        CompletionResult::Other => Seq::empty(),
    })
}

/// What a completed chat round resumes the program with.
pub open spec fn chat_answer(c: Completion) -> Result<ChatModel, ErrorModel> {
    match c.result {
        CompletionResult::Text(text) => Ok(
            ChatModel {
                reply: Some(text@),
                tool_calls: None,
                finish_reason: text_option(c.finish_reason),
                model: c.model@,
                metrics: measured(c),
            },
        ),
        CompletionResult::ToolCalls(calls) => Ok(
            ChatModel {
                reply: None,
                tool_calls: Some(call_models(calls@)),
                finish_reason: text_option(c.finish_reason),
                model: c.model@,
                metrics: measured(c),
            },
        ),
        CompletionResult::Other => Err(
            program_failure("model chat received an unrecognized completion outcome"@),
        ),
    }
}

/// The outcome of a chat round over plain values.
pub open spec fn chat_outcome(outcome: Result<ChatResult, AgentError>) -> Result<
    ChatModel,
    ErrorModel,
> {
    match outcome {
        Ok(result) => Ok(result@),
        Err(error) => Err(error@),
    }
}

fn was_cut_off(finish_reason: &Option<String>) -> (yes: bool)
    ensures
        yes == (text_option(*finish_reason) == Some("length"@)),
{
    match finish_reason {
        Some(reason) => same_text(reason.as_str(), "length"),
        None => false,
    }
}

fn clone_calls(calls: &Vec<ToolCallEvent>) -> (copy: Vec<ToolCallEvent>)
    ensures
        call_models(copy@) == call_models(calls@),
{
    let mut copy: Vec<ToolCallEvent> = Vec::new();
    for i in 0..calls.len()
        invariant
            copy@.len() == i,
            forall|k: int| 0 <= k < i ==> (#[trigger] copy@[k])@ == calls@[k]@,
    {
        copy.push(calls[i].clone());
    }
    assert(call_models(copy@) =~= call_models(calls@));
    copy
}

/// Applies one completed chat round: counts the turn, reports the operational
/// boundary and the content events, and shapes what the program resumes with.
/// Requested tool calls resume unexecuted; whether they are dispatched is
/// decided on their presence, never on the finish reason.
pub fn chat_round_result(
    execution: &str,
    section: &str,
    turns: &mut u32,
    completion: Completion,
) -> (round: (Vec<Report>, Result<ChatResult, AgentError>))
    requires
        *old(turns) < u32::MAX,
    ensures
        *final(turns) == *old(turns) + 1,
        reports(round.0@) == reported(
            Reporter { execution: execution@, section: section@ },
            chat_reports(completion, (*old(turns) + 1) as u32),
        ),
        chat_outcome(round.1) == chat_answer(completion),
{
    let ghost who = Reporter { execution: execution@, section: section@ };
    let turn: u32 = *turns + 1;
    *turns = turn;
    let metrics = call_metrics(&completion);
    let ghost c = completion;
    let mut list: Vec<Report> = Vec::new();
    list.push(report(execution, section, Content::Observed(Observation::ModelTurnCompleted)));
    let Completion { result, finish_reason, model, reasoning_content, .. } = completion;
    match reasoning_content {
        Some(text) => {
            if !text.as_str().is_empty() {
                let content = Content::Thinking {
                    chain_id: 0,
                    depth: 0,
                    turn,
                    model: model.clone(),
                    text,
                };
                list.push(report(execution, section, content));
            }
        },
        None => {},
    }
    let ghost so_far = seq![ContentModel::Observed(Observation::ModelTurnCompleted)] + thoughts(
        c,
        turn,
    );
    assert(reports(list@) =~= reported(who, so_far));
    match result {
        CompletionResult::Text(text) => {
            if was_cut_off(&finish_reason) {
                list.push(
                    report(execution, section, Content::Observed(Observation::ModelTurnTruncated)),
                );
            }
            assert(reports(list@) =~= reported(who, so_far + truncation(c)));
            let reply = Content::Reply {
                chain_id: 0,
                depth: 0,
                turn,
                text: text.clone(),
                finish_reason: clone_option(&finish_reason),
                model: model.clone(),
                metrics,
            };
            let ghost last = reply@;
            list.push(report(execution, section, reply));
            assert(reports(list@) =~= reported(who, (so_far + truncation(c)).push(last)));
            assert((so_far + truncation(c)).push(last) =~= chat_reports(c, turn));
            (
                list,
                Ok(ChatResult { reply: Some(text), tool_calls: None, finish_reason, model, metrics }),
            )
        },
        CompletionResult::ToolCalls(calls) => {
            let content = Content::Calls {
                chain_id: 0,
                depth: 0,
                turn,
                model: model.clone(),
                calls: clone_calls(&calls),
            };
            let ghost last = content@;
            list.push(report(execution, section, content));
            assert(reports(list@) =~= reported(who, so_far.push(last)));
            assert(so_far.push(last) =~= chat_reports(c, turn));
            (
                list,
                Ok(
                    ChatResult {
                        reply: None,
                        tool_calls: Some(calls),
                        finish_reason,
                        model,
                        metrics,
                    },
                ),
            )
        },
        CompletionResult::Other => {
            assert(so_far =~= chat_reports(c, turn));
            (
                list,
                Err(
                    program_error(
                        "model chat received an unrecognized completion outcome".to_owned(),
                    ),
                ),
            )
        },
    }
}

/// What a call that did not complete is answered with.
pub open spec fn call_failure(call: Call) -> ErrorModel {
    match call {
        Call::Failed(message) => ErrorModel::Model { message: message@, source: message@ },
        _ => ErrorModel::Interrupted,
    }
}

/// What a call that did not complete reports: an aborted round reports nothing.
pub open spec fn failure_reports(call: Call) -> Seq<ContentModel> {
    match call {
        Call::Failed(_) => seq![ContentModel::Observed(Observation::ModelTurnFailed)],
        _ => Seq::empty(),
    }
}

/// One `models.chat` round of the agent `section`, from how its model call
/// ended.
pub fn chat_round(execution: &str, section: &str, turns: &mut u32, call: Call) -> (round: (
    Vec<Report>,
    Result<ChatResult, AgentError>,
))
    requires
        call is Completed ==> *old(turns) < u32::MAX,
    ensures
        match call {
            Call::Completed(completion) => {
                &&& *final(turns) == *old(turns) + 1
                &&& reports(round.0@) == reported(
                    Reporter { execution: execution@, section: section@ },
                    chat_reports(completion, (*old(turns) + 1) as u32),
                )
                &&& chat_outcome(round.1) == chat_answer(completion)
            },
            _ => {
                &&& *final(turns) == *old(turns)
                &&& reports(round.0@) == reported(
                    Reporter { execution: execution@, section: section@ },
                    failure_reports(call),
                )
                &&& chat_outcome(round.1) == Err::<ChatModel, ErrorModel>(call_failure(call))
            },
        },
{
    match call {
        Call::Completed(completion) => chat_round_result(execution, section, turns, completion),
        Call::Failed(message) => (
            failed_turn(execution, section),
            Err(AgentError::Model { message: message.clone(), source: message }),
        ),
        Call::Cancelled => {
            let list = no_reports();
            assert(reports(list@) =~= reported(
                Reporter { execution: execution@, section: section@ },
                failure_reports(call),
            ));
            (list, Err(AgentError::Interrupted))
        },
    }
}

fn failed_turn(execution: &str, section: &str) -> (list: Vec<Report>)
    ensures
        reports(list@) == reported(
            Reporter { execution: execution@, section: section@ },
            seq![ContentModel::Observed(Observation::ModelTurnFailed)],
        ),
{
    let mut list: Vec<Report> = Vec::new();
    list.push(report(execution, section, Content::Observed(Observation::ModelTurnFailed)));
    assert(reports(list@) =~= reported(
        Reporter { execution: execution@, section: section@ },
        seq![ContentModel::Observed(Observation::ModelTurnFailed)],
    ));
    list
}

fn no_reports() -> (list: Vec<Report>)
    ensures
        reports(list@) == Seq::<ReportModel>::empty(),
{
    let list: Vec<Report> = Vec::new();
    assert(reports(list@) =~= Seq::<ReportModel>::empty());
    list
}

/// What a completed infer round reports.
pub open spec fn infer_reports(c: Completion) -> Seq<ContentModel> {
    let boundary = seq![ContentModel::Observed(Observation::ModelTurnCompleted)];
    if c.result is Text {
        boundary + truncation(c)
    } else {
        boundary
    }
}

/// What a completed infer round answers. No tools were advertised, so a
/// tool-call turn is a protocol violation rather than something to dispatch.
pub open spec fn infer_answer(c: Completion) -> Result<Seq<char>, ErrorModel> {
    match c.result {
        CompletionResult::Text(text) => Ok(text@),
        CompletionResult::ToolCalls(_) => Err(
            program_failure(
                "model inference received tool calls but no tools were advertised"@,
            ),
        ),
        CompletionResult::Other => Err(
            program_failure(
                "model inference received an unrecognized outcome but no tools were advertised"@,
            ),
        ),
    }
}

/// The outcome of an infer round over plain values.
pub open spec fn infer_outcome(outcome: Result<String, AgentError>) -> Result<
    Seq<char>,
    ErrorModel,
> {
    match outcome {
        Ok(text) => Ok(text@),
        Err(error) => Err(error@),
    }
}

/// One `models.infer` round of the agent `section`, from how its model call
/// ended: one direct tool-free call on a fresh conversation. The turn counter
/// wraps.
pub fn infer_round(execution: &str, section: &str, turns: &mut u32, call: Call) -> (round: (
    Vec<Report>,
    Result<String, AgentError>,
))
    ensures
        match call {
            Call::Completed(completion) => {
                &&& *final(turns) == if *old(turns) == u32::MAX {
                    0
                } else {
                    *old(turns) + 1
                }
                &&& reports(round.0@) == reported(
                    Reporter { execution: execution@, section: section@ },
                    infer_reports(completion),
                )
                &&& infer_outcome(round.1) == infer_answer(completion)
            },
            _ => {
                &&& *final(turns) == *old(turns)
                &&& reports(round.0@) == reported(
                    Reporter { execution: execution@, section: section@ },
                    failure_reports(call),
                )
                &&& infer_outcome(round.1) == Err::<Seq<char>, ErrorModel>(call_failure(call))
            },
        },
{
    let ghost who = Reporter { execution: execution@, section: section@ };
    let completion = match call {
        Call::Cancelled => {
            let list = no_reports();
            assert(reports(list@) =~= reported(who, failure_reports(call)));
            return (list, Err(AgentError::Interrupted));
        },
        Call::Failed(message) => {
            return (
                failed_turn(execution, section),
                Err(AgentError::Model { message: message.clone(), source: message }),
            );
        },
        Call::Completed(completion) => completion,
    };
    *turns = turns.wrapping_add(1);
    let ghost c = completion;
    let mut list: Vec<Report> = Vec::new();
    list.push(report(execution, section, Content::Observed(Observation::ModelTurnCompleted)));
    let outcome = match completion.result {
        CompletionResult::Text(text) => {
            if was_cut_off(&completion.finish_reason) {
                list.push(
                    report(execution, section, Content::Observed(Observation::ModelTurnTruncated)),
                );
            }
            Ok(text)
        },
        CompletionResult::ToolCalls(_) => Err(
            program_error(
                "model inference received tool calls but no tools were advertised".to_owned(),
            ),
        ),
        CompletionResult::Other => Err(
            program_error(
                "model inference received an unrecognized outcome but no tools were advertised".to_owned(),
            ),
        ),
    };
    assert(reports(list@) =~= reported(who, infer_reports(c)));
    (list, outcome)
}

/// A completed chat round fires its content events in order: the thinking, if
/// any, stands right behind the boundary, and the reply or the batch of calls
/// comes last; no other content is reported.
pub proof fn law_thinking_comes_first(c: Completion, turn: u32)
    requires
        c.result !is Other,
    ensures
        chat_reports(c, turn)[0] == ContentModel::Observed(Observation::ModelTurnCompleted),
        forall|i: int|
            0 <= i < chat_reports(c, turn).len() && (#[trigger] chat_reports(c, turn)[i]) is Thinking
                ==> i == 1,
        c.result is Text ==> chat_reports(c, turn).last() is Reply,
        c.result is ToolCalls ==> chat_reports(c, turn).last() is Calls,
        forall|i: int|
            0 <= i < chat_reports(c, turn).len() - 1 ==> !((#[trigger] chat_reports(c, turn)[i]) is Reply
                || chat_reports(c, turn)[i] is Calls),
{
}

/// Requested calls resume unexecuted: a chat round never both replies and
/// requests calls, and the finish reason does not decide which.
pub proof fn law_presence_decides(c: Completion)
    ensures
        chat_answer(c) matches Ok(answer) ==> (answer.reply is Some <==> answer.tool_calls is None)
            && (answer.tool_calls is Some <==> c.result is ToolCalls),
{
}

/// A chat round hands the program what the completion held: the reply itself,
/// or the requested calls, with the model, the finish reason, and everything
/// that was measured; an outcome that is neither fails the round.
pub proof fn law_a_chat_round_answers_what_was_said(c: Completion)
    ensures
        chat_answer(c) is Err <==> c.result is Other,
        c.result is Other ==> chat_answer(c) == Err::<ChatModel, ErrorModel>(
            ErrorModel::Program {
                message: "model chat received an unrecognized completion outcome"@,
                source: None,
            },
        ),
        c.result matches CompletionResult::Text(text) ==> chat_answer(c)->Ok_0.reply == Some(text@)
            && chat_answer(c)->Ok_0.tool_calls is None,
        c.result matches CompletionResult::ToolCalls(calls) ==> chat_answer(c)->Ok_0.reply is None
            && chat_answer(c)->Ok_0.tool_calls == Some(call_models(calls@)),
        chat_answer(c) matches Ok(answer) ==> {
            &&& answer.model == c.model@
            &&& answer.finish_reason is Some <==> c.finish_reason is Some
            &&& c.finish_reason matches Some(why) ==> answer.finish_reason == Some(why@)
            &&& answer.metrics == measured(c)
        },
{
}

/// Everything that was measured is reported, and nothing else: metrics are
/// absent exactly where none of the four was measured.
pub proof fn law_metrics_are_what_was_measured(c: Completion)
    ensures
        measured(c) is None <==> c.usage is None && c.llama is None && c.vllm is None
            && c.client is None,
        measured(c) matches Some(metrics) ==> metrics.usage == c.usage && metrics.llama == c.llama
            && metrics.vllm == c.vllm && metrics.client == c.client,
{
}

/// What a chat round reports, in full: the boundary first; the thinking second
/// exactly where the model thought something; a truncation right before the
/// reply exactly where the provider stopped at its length limit; and last the
/// reply or the calls, under the turn that was counted.
pub proof fn law_a_chat_round_reports_what_was_said(c: Completion, turn: u32)
    ensures
        ({
            let list = chat_reports(c, turn);
            let thought = c.reasoning_content matches Some(text) && text@.len() > 0;
            let cut = c.result is Text && (c.finish_reason matches Some(why) && why@ == "length"@);
            let content = !(c.result is Other);
            &&& list.len() == 1 + (if thought {
                1int
            } else {
                0
            }) + (if cut {
                1int
            } else {
                0
            }) + (if content {
                1int
            } else {
                0
            })
            &&& list[0] == ContentModel::Observed(Observation::ModelTurnCompleted)
            &&& thought ==> list[1] == (ContentModel::Thinking {
                chain_id: 0,
                depth: 0,
                turn,
                model: c.model@,
                text: c.reasoning_content->0@,
            })
            &&& cut ==> list[list.len() - 2] == ContentModel::Observed(
                Observation::ModelTurnTruncated,
            )
            &&& c.result matches CompletionResult::Text(text) ==> list.last()
                == (ContentModel::Reply {
                chain_id: 0,
                depth: 0,
                turn,
                text: text@,
                finish_reason: text_option(c.finish_reason),
                model: c.model@,
                metrics: measured(c),
            })
            &&& c.result matches CompletionResult::ToolCalls(calls) ==> list.last()
                == (ContentModel::Calls {
                chain_id: 0,
                depth: 0,
                turn,
                model: c.model@,
                calls: call_models(calls@),
            })
        }),
{
}

/// An infer round answers text alone and reports boundaries alone: a
/// completion of anything else fails it, and only a text that was cut off adds
/// a report.
pub proof fn law_an_infer_round_answers_text_alone(c: Completion)
    ensures
        c.result matches CompletionResult::Text(text) ==> infer_answer(c) == Ok::<
            Seq<char>,
            ErrorModel,
        >(text@),
        c.result is ToolCalls ==> infer_answer(c) == Err::<Seq<char>, ErrorModel>(
            ErrorModel::Program {
                message: "model inference received tool calls but no tools were advertised"@,
                source: None,
            },
        ),
        c.result is Other ==> infer_answer(c) == Err::<Seq<char>, ErrorModel>(
            ErrorModel::Program {
                message:
                    "model inference received an unrecognized outcome but no tools were advertised"@,
                source: None,
            },
        ),
        ({
            let cut = c.result is Text && (c.finish_reason matches Some(why) && why@ == "length"@);
            infer_reports(c) == if cut {
                seq![
                    ContentModel::Observed(Observation::ModelTurnCompleted),
                    ContentModel::Observed(Observation::ModelTurnTruncated),
                ]
            } else {
                seq![ContentModel::Observed(Observation::ModelTurnCompleted)]
            }
        }),
{
    let boundary = seq![ContentModel::Observed(Observation::ModelTurnCompleted)];
    assert(boundary + Seq::<ContentModel>::empty() =~= boundary);
    assert(boundary + seq![ContentModel::Observed(Observation::ModelTurnTruncated)] =~= seq![
        ContentModel::Observed(Observation::ModelTurnCompleted),
        ContentModel::Observed(Observation::ModelTurnTruncated),
    ]);
}

/// A call that did not complete fails the round: a failed one with its message
/// and one report, a cancelled one as an interruption and without a report.
pub proof fn law_an_incomplete_call_fails_the_round(call: Call)
    ensures
        call matches Call::Failed(message) ==> call_failure(call) == (ErrorModel::Model {
            message: message@,
            source: message@,
        }) && failure_reports(call) == seq![ContentModel::Observed(Observation::ModelTurnFailed)],
        call is Cancelled ==> call_failure(call) == ErrorModel::Interrupted && failure_reports(
            call,
        ).len() == 0,
{
}

/// Every report of a round is the run's own, and none is added or moved.
pub proof fn law_reports_carry_the_run(who: Reporter, contents: Seq<ContentModel>)
    ensures
        reported(who, contents).len() == contents.len(),
        forall|i: int|
            0 <= i < contents.len() ==> (#[trigger] reported(who, contents)[i]).execution
                == who.execution && reported(who, contents)[i].section == who.section && reported(
                who,
                contents,
            )[i].content == contents[i],
{
}

} // verus!
