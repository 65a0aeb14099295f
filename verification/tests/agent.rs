//! The agent executor's decisions.

use promptforge_workshop::agent::driver::{
    shim_failure, Action, Answer, ClientSlot, Drive, Effect, ProgramLoop, RequestKind, Stage, Step,
};
use promptforge_workshop::agent::error::{from_lua, AgentError, AgentLimits, LuaFault};
use promptforge_workshop::agent::messages::{
    prepare_chat, prepare_infer, wire_messages, Scope,
};
use promptforge_workshop::agent::round::{
    call_metrics, chat_round, infer_round, Call, Completion, CompletionResult, Content, Report,
};
use promptforge_workshop::agent::scope::{
    advertised_schemas, agent_model_set, agent_tool_set, chat_binding, find_binding,
    infer_binding, resolve_tool_call, BindingLookup, ModelBinding, ModelInvocation, ToolBinding,
    ToolOutputKind,
};
use promptforge_workshop::events::{ToolCallEvent, Usage};
use promptforge_workshop::json::Json;
use promptforge_workshop::models::{ModelCatalog, ModelDescriptor, ModelId, ThinkingMode};
use promptforge_workshop::observe::Observation;
use promptforge_workshop::tools::{ToolCatalog, ToolDescriptor, ToolId};

/// A report of the run `run-1` of the agent `chat`.
fn report(content: Content) -> Report {
    Report {
        execution: "run-1".to_owned(),
        section: "chat".to_owned(),
        content,
    }
}

fn text(value: &str) -> Json {
    Json::Text(value.to_owned())
}

fn object(fields: &[(&str, Json)]) -> Json {
    Json::Object(
        fields
            .iter()
            .map(|(name, value)| ((*name).to_owned(), value.clone()))
            .collect(),
    )
}

fn tool(name: &str, wire_name: &str) -> ToolDescriptor {
    ToolDescriptor::new(
        ToolId::new("fixtures", name).expect("fixture id is valid"),
        wire_name,
        &format!("does {wire_name}"),
        object(&[("type", text("object"))]),
    )
}

fn effective() -> Vec<ToolBinding> {
    let catalog = ToolCatalog::new(vec![tool("read", "read_file"), tool("list", "list_files")])
        .expect("distinct identities build a catalog");
    agent_tool_set(&catalog).bindings
}

fn completion(result: CompletionResult) -> Completion {
    Completion {
        result,
        finish_reason: Some("stop".to_owned()),
        model: "llama-3".to_owned(),
        reasoning_content: None,
        usage: None,
        llama: None,
        vllm: None,
        client: None,
    }
}

fn usage() -> Usage {
    Usage {
        prompt_tokens: 7,
        completion_tokens: 3,
        total_tokens: 10,
        cached_tokens: None,
        reasoning_tokens: None,
    }
}

fn binding(name: &str) -> ModelBinding {
    ModelBinding {
        name: name.to_owned(),
        description: "a test model".to_owned(),
        id: ModelId::gateway(name).expect("the test model name is valid"),
        invocation: ModelInvocation {
            temperature: None,
            max_tokens: None,
            thinking: None,
        },
        context: 4096,
    }
}

#[test]
fn every_catalog_tool_is_registered_by_its_wire_name() {
    let catalog = ToolCatalog::new(vec![tool("read", "read_file"), tool("list", "list_files")])
        .expect("distinct identities build a catalog");
    let set = agent_tool_set(&catalog);
    assert_eq!(set.always, ["read_file", "list_files"]);
    assert_eq!(set.bindings.len(), 2);
    assert_eq!(set.bindings[0].alias, "read_file");
    assert_eq!(set.bindings[0].description, "does read_file");
    assert_eq!(set.bindings[0].model_description, None);
    assert_eq!(set.bindings[0].output_kind, ToolOutputKind::Plain);
    assert!(set.bindings[0].conflicts.is_empty());
}

#[test]
fn every_catalog_model_is_selectable_and_none_is_the_default() {
    let catalog = ModelCatalog::new(vec![ModelDescriptor::new(
        ModelId::gateway("test-model").expect("the test model name is valid"),
        "a test model",
        4096,
        ThinkingMode::Never,
    )])
    .expect("the test catalog has one unique model");
    let set = agent_model_set(&catalog);
    assert_eq!(set.bindings, [binding("test-model")]);
    assert_eq!(set.default, None);
}

#[test]
fn an_alias_resolves_to_its_first_binding_or_names_the_scope() {
    let mut scope = effective();
    let mut twin = effective();
    scope.append(&mut twin);
    assert_eq!(find_binding(&scope, "list_files").expect("in scope"), 1);
    let error = find_binding(&scope[..2].iter().map(copy).collect(), "ghost")
        .expect_err("an unknown alias is refused");
    assert_eq!(
        error.to_string(),
        "tool alias \"ghost\" is not registered with this agent; \
         in scope: [\"read_file\", \"list_files\"]"
    );
    let error = find_binding(&Vec::new(), "ghost").expect_err("an empty scope finds nothing");
    assert_eq!(
        error.to_string(),
        "tool alias \"ghost\" is not registered with this agent; in scope: []"
    );
    let (at, report) = resolve_tool_call(&scope, "read_file", 3).expect("in scope");
    assert_eq!(at, 0);
    assert_eq!((report.chain_id, report.depth, report.turn), (0, 0, 3));
}

fn copy(binding: &ToolBinding) -> ToolBinding {
    ToolBinding {
        alias: binding.alias.clone(),
        description: binding.description.clone(),
        id: binding.id.clone(),
        model_description: binding.model_description.clone(),
        tool_description: binding.tool_description.clone(),
        parameters: binding.parameters.clone(),
        conflicts: binding.conflicts.clone(),
        output_kind: binding.output_kind,
    }
}

#[test]
fn exactly_the_requested_tools_are_advertised_in_order() {
    let mut scope = effective();
    scope[1].model_description = Some("lists".to_owned());
    let none = vec![None, None];
    let tools = vec!["list_files".to_owned(), "read_file".to_owned()];
    let schemas = advertised_schemas(&scope, &none, &tools).expect("both can be advertised");
    assert_eq!(schemas.len(), 2);
    assert_eq!(schemas[0].name, "list_files");
    assert_eq!(schemas[0].description, "lists", "the description for the model wins");
    assert_eq!(schemas[1].name, "read_file");
    assert_eq!(schemas[1].description, "does read_file");
    assert_eq!(schemas[1].parameters, object(&[("type", text("object"))]));
    assert_eq!(
        advertised_schemas(&scope, &none, &Vec::new()).expect("nothing is advertised").len(),
        0
    );
    let refused = vec![Some("bad name".to_owned()), None];
    let error = advertised_schemas(&scope, &refused, &tools).expect_err("one is refused");
    assert_eq!(
        error,
        AgentError::Program {
            message: "tool alias \"read_file\" cannot be advertised to the model".to_owned(),
            source: Some("bad name".to_owned()),
        }
    );
}

#[test]
fn a_model_round_needs_a_binding() {
    assert_eq!(
        infer_binding(BindingLookup::Frozen(binding("m"))).expect("frozen").name,
        "m"
    );
    assert_eq!(
        infer_binding(BindingLookup::Selected(Ok(None)))
            .expect_err("nothing is selected")
            .to_string(),
        "no model is selected: call models.use(...) before models.infer"
    );
    assert_eq!(
        chat_binding(BindingLookup::Selected(Ok(None)))
            .expect_err("nothing is selected")
            .to_string(),
        "no model is selected: pass opts.model or call models.use(...) before models.chat"
    );
    assert_eq!(
        chat_binding(BindingLookup::Named {
            name: "ghost".to_owned(),
            found: Ok(None)
        })
        .expect_err("an unknown name is refused")
        .to_string(),
        "model \"ghost\" is not in this agent's catalog"
    );
    assert_eq!(
        chat_binding(BindingLookup::Selected(Err(LuaFault::Interrupted)))
            .expect_err("a failed read fails the round"),
        AgentError::Interrupted
    );
}

#[test]
fn messages_carry_exactly_their_four_fields() {
    let messages = Json::Array(vec![
        object(&[
            ("role", text("system")),
            ("content", text("be brief")),
            ("cache", Json::Bool(true)),
        ]),
        object(&[
            ("role", text("assistant")),
            ("content", Json::Null),
            ("tool_calls", Json::Array(vec![text("call")])),
        ]),
        object(&[
            ("role", text("tool")),
            ("content", text("ok")),
            ("tool_call_id", text("call_1")),
        ]),
    ]);
    let wired = wire_messages(&messages).expect("validated messages convert");
    assert_eq!(wired.len(), 3);
    assert_eq!(wired[0].role, "system");
    assert_eq!(wired[0].content, text("be brief"));
    assert_eq!(wired[0].tool_call_id, None);
    assert_eq!(wired[0].tool_calls, None);
    assert_eq!(wired[1].tool_calls, Some(vec![text("call")]));
    assert_eq!(wired[2].tool_call_id.as_deref(), Some("call_1"));

    let internal = "internal invariant violated: \
                    a chat request reaching dispatch carries protocol-validated messages";
    assert_eq!(
        wire_messages(&Json::Null).expect_err("no array").to_string(),
        internal
    );
    assert_eq!(
        wire_messages(&Json::Array(vec![object(&[("role", text("user"))])]))
            .expect_err("no content")
            .to_string(),
        internal
    );
}

#[test]
fn a_chat_call_fails_on_its_binding_before_its_tools_and_messages() {
    let scope = || Ok(Scope::new(effective(), vec![None, None]).expect("one refusal each"));
    assert!(Scope::new(effective(), Vec::new()).is_none());
    let ghost = vec!["ghost".to_owned()];
    let error = prepare_chat(
        BindingLookup::Selected(Ok(None)),
        scope(),
        &ghost,
        &Json::Null,
    )
    .expect_err("nothing is selected");
    assert!(error.to_string().starts_with("no model is selected"));
    let error = prepare_chat(BindingLookup::Frozen(binding("m")), scope(), &ghost, &Json::Null)
        .expect_err("the alias is unknown");
    assert!(error.to_string().starts_with("tool alias \"ghost\""));
    let call = prepare_chat(
        BindingLookup::Frozen(binding("m")),
        Err(LuaFault::Interrupted),
        &Vec::new(),
        &Json::Array(Vec::new()),
    )
    .expect("the scope is read only where tools are asked for");
    assert!(call.tools.is_none());
    assert!(call.messages.is_empty());
    let call = prepare_chat(
        BindingLookup::Frozen(binding("m")),
        scope(),
        &vec!["read_file".to_owned()],
        &Json::Array(Vec::new()),
    )
    .expect("the tool is advertised");
    assert_eq!(call.tools.expect("one tool").len(), 1);
}

#[test]
fn a_chat_reply_is_reported_thinking_first() {
    let mut done = completion(CompletionResult::Text("hello".to_owned()));
    done.reasoning_content = Some("hmm".to_owned());
    done.finish_reason = Some("length".to_owned());
    done.usage = Some(usage());
    let metrics = call_metrics(&done);
    assert_eq!(metrics.expect("usage was measured").usage, Some(usage()));
    let mut turns = 4;
    let (reports, outcome) = chat_round("run-1", "chat", &mut turns, Call::Completed(done));
    assert_eq!(turns, 5);
    assert_eq!(
        reports,
        [
            report(Content::Observed(Observation::ModelTurnCompleted)),
            report(Content::Thinking {
                chain_id: 0,
                depth: 0,
                turn: 5,
                model: "llama-3".to_owned(),
                text: "hmm".to_owned()
            }),
            report(Content::Observed(Observation::ModelTurnTruncated)),
            report(Content::Reply {
                chain_id: 0,
                depth: 0,
                turn: 5,
                text: "hello".to_owned(),
                finish_reason: Some("length".to_owned()),
                model: "llama-3".to_owned(),
                metrics,
            }),
        ]
    );
    let result = outcome.expect("a text round answers");
    assert_eq!(result.reply.as_deref(), Some("hello"));
    assert_eq!(result.tool_calls, None);
    assert_eq!(result.metrics, metrics);
}

#[test]
fn requested_calls_resume_unexecuted_whatever_the_finish_reason() {
    let calls = || {
        vec![ToolCallEvent {
            id: "call_1".to_owned(),
            name: "read_file".to_owned(),
            arguments: Json::Object(Vec::new()),
        }]
    };
    let mut done = completion(CompletionResult::ToolCalls(calls()));
    done.reasoning_content = Some(String::new());
    let mut turns = 0;
    let (reports, outcome) = chat_round("run-1", "chat", &mut turns, Call::Completed(done));
    assert_eq!(
        reports,
        [
            report(Content::Observed(Observation::ModelTurnCompleted)),
            report(Content::Calls {
                chain_id: 0,
                depth: 0,
                turn: 1,
                model: "llama-3".to_owned(),
                calls: calls(),
            }),
        ]
    );
    let result = outcome.expect("a tool round answers");
    assert_eq!(result.reply, None);
    assert_eq!(result.tool_calls, Some(calls()));
    assert_eq!(result.finish_reason.as_deref(), Some("stop"));
    assert_eq!(result.metrics, None, "nothing was measured");
}

#[test]
fn a_round_that_does_not_complete_counts_no_turn() {
    let mut turns = 2;
    let (reports, outcome) = chat_round("run-1", "chat", &mut turns, Call::Failed("boom".to_owned()));
    assert_eq!(turns, 2);
    assert_eq!(reports, [report(Content::Observed(Observation::ModelTurnFailed))]);
    assert_eq!(
        outcome.expect_err("a failed call fails the round"),
        AgentError::Model {
            message: "boom".to_owned(),
            source: "boom".to_owned()
        }
    );
    let (reports, outcome) = infer_round("run-1", "chat", &mut turns, Call::Cancelled);
    assert!(reports.is_empty(), "an aborted round reports nothing");
    assert_eq!(outcome.expect_err("interrupted"), AgentError::Interrupted);
    assert_eq!(turns, 2);
    let (_, outcome) = chat_round("run-1", "chat", &mut turns, Call::Completed(completion(CompletionResult::Other)));
    assert_eq!(
        outcome.expect_err("unrecognized").to_string(),
        "model chat received an unrecognized completion outcome"
    );
    assert_eq!(turns, 3);
}

#[test]
fn an_infer_round_answers_text_alone() {
    let mut turns = 0;
    let mut done = completion(CompletionResult::Text("four".to_owned()));
    done.reasoning_content = Some("ignored".to_owned());
    let (reports, outcome) = infer_round("run-1", "chat", &mut turns, Call::Completed(done));
    assert_eq!(reports, [report(Content::Observed(Observation::ModelTurnCompleted))]);
    assert_eq!(outcome.expect("a text answer"), "four");
    let mut cut = completion(CompletionResult::Text("fo".to_owned()));
    cut.finish_reason = Some("length".to_owned());
    let (reports, _) = infer_round("run-1", "chat", &mut turns, Call::Completed(cut));
    assert_eq!(
        reports,
        [
            report(Content::Observed(Observation::ModelTurnCompleted)),
            report(Content::Observed(Observation::ModelTurnTruncated)),
        ]
    );
    let (_, outcome) = infer_round(
        "run-1",
        "chat",
        &mut turns,
        Call::Completed(completion(CompletionResult::ToolCalls(Vec::new()))),
    );
    assert_eq!(
        outcome.expect_err("no tools were advertised").to_string(),
        "model inference received tool calls but no tools were advertised"
    );
    let (_, outcome) = infer_round(
        "run-1",
        "chat",
        &mut turns,
        Call::Completed(completion(CompletionResult::Other)),
    );
    assert_eq!(
        outcome.expect_err("unrecognized").to_string(),
        "model inference received an unrecognized outcome but no tools were advertised"
    );
    assert_eq!(turns, 4);
    turns = u32::MAX;
    infer_round(
        "run-1",
        "chat",
        &mut turns,
        Call::Completed(completion(CompletionResult::Other)),
    );
    assert_eq!(turns, 0, "the counter wraps");
}

fn observes(event: Observation) -> Effect {
    Effect::Observe {
        execution: "run-1".to_owned(),
        section: "chat".to_owned(),
        event,
    }
}

fn tears_down() -> Effect {
    Effect::Teardown {
        section: "chat".to_owned(),
    }
}

fn failure() -> AgentError {
    AgentError::Model {
        message: "boom".to_owned(),
        source: "boom".to_owned(),
    }
}

#[test]
fn a_run_goes_through_its_stages_and_brackets_the_chunk() {
    let mut run = Drive::new("run-1", "chat");
    let mut seen = Vec::new();
    while run.stage() != Stage::Over {
        seen.push(run.stage());
        let effects = run.ended(Ok(()));
        if run.stage() == Stage::Program {
            assert_eq!(effects, [observes(Observation::LuaChunkStarted)]);
        } else if run.stage() == Stage::Over {
            assert_eq!(
                effects,
                [
                    observes(Observation::LuaChunkSucceeded),
                    tears_down(),
                    Effect::Return(Ok(()))
                ]
            );
        } else {
            assert!(effects.is_empty());
        }
    }
    assert_eq!(seen.len(), 12);
    assert!(run.ended(Ok(())).is_empty());
}

#[test]
fn a_limits_failure_is_bare_and_a_setup_failure_is_torn_down() {
    let mut run = Drive::new("run-1", "chat");
    run.ended(Ok(()));
    run.ended(Ok(()));
    assert_eq!(run.stage(), Stage::Limit);
    assert_eq!(
        run.ended(Err(failure())),
        [Effect::Return(Err(failure()))]
    );
    assert_eq!(run.stage(), Stage::Over);

    let mut run = Drive::new("run-1", "chat");
    run.ended(Ok(()));
    run.ended(Ok(()));
    run.ended(Ok(()));
    assert_eq!(run.stage(), Stage::InjectHost);
    assert_eq!(
        run.ended(Err(failure())),
        [tears_down(), Effect::Return(Err(failure()))]
    );
}

#[test]
fn a_failed_program_is_torn_down_and_its_error_returned() {
    let mut run = Drive::new("run-1", "chat");
    while run.stage() != Stage::Program {
        run.ended(Ok(()));
    }
    assert_eq!(
        run.ended(Err(failure())),
        [
            observes(Observation::LuaChunkFailed),
            tears_down(),
            Effect::Return(Err(failure()))
        ]
    );
}

#[test]
fn dispatch_failures_ride_back_and_cancellation_ends_the_run() {
    let mut driver = ProgramLoop::new();
    assert!(matches!(
        driver.stepped(Step::Answered),
        Action::RefreshAndResume
    ));
    assert!(matches!(
        driver.stepped(Step::Request(RequestKind::Infer)),
        Action::Dispatch(RequestKind::Infer)
    ));
    let failure = AgentError::Model {
        message: "boom".to_owned(),
        source: "boom".to_owned(),
    };
    match driver.dispatched(Answer::Infer(Err(failure))) {
        Action::RefreshAndAnswer(Answer::Infer(Err(error))) => {
            assert_eq!(error.to_string(), "boom")
        }
        other => panic!("a failure rides back as the answer: {other:?}"),
    }
    assert!(matches!(
        driver.stepped(Step::Request(RequestKind::ToolCall)),
        Action::Dispatch(RequestKind::ToolCall)
    ));
    assert!(matches!(
        driver.dispatched(Answer::ToolCall(Err(AgentError::Interrupted))),
        Action::Finish(Err(AgentError::Interrupted))
    ));
}

#[test]
fn section_requests_and_jumps_are_internal_failures() {
    for (step, message) in [
        (
            Step::Jumped,
            "an agent VM cannot record a jump: the jump global is never installed",
        ),
        (
            Step::Request(RequestKind::Execute),
            "an agent VM cannot yield an execute request: the shim is never installed",
        ),
        (
            Step::Request(RequestKind::Fanout),
            "an agent VM cannot yield a fanout request: the shim is never installed",
        ),
        (
            Step::Request(RequestKind::Mcp),
            "an agent VM cannot yield an mcp request: no shim produces one",
        ),
    ] {
        match ProgramLoop::new().stepped(step) {
            Action::Finish(Err(AgentError::Internal(why))) => assert_eq!(why, message),
            other => panic!("an internal failure: {other:?}"),
        }
    }
    assert!(matches!(
        ProgramLoop::new().stepped(Step::Returned),
        Action::Finish(Ok(()))
    ));
    assert!(matches!(
        ProgramLoop::new().stepped(Step::Malformed(LuaFault::Interrupted)),
        Action::Finish(Err(AgentError::Interrupted))
    ));
}

#[test]
fn lua_failures_keep_their_causes() {
    assert_eq!(from_lua(LuaFault::Interrupted), AgentError::Interrupted);
    assert_eq!(
        from_lua(LuaFault::LuaCompile {
            location: "agent `a`".to_owned(),
            source_line: 12,
            message: "unexpected symbol".to_owned(),
            source: "syntax".to_owned(),
        }),
        AgentError::Program {
            message: "lua compilation error at agent `a` (line 12): unexpected symbol".to_owned(),
            source: Some("syntax".to_owned()),
        }
    );
    assert_eq!(
        from_lua(LuaFault::Tool {
            message: "m".to_owned(),
            source: "s".to_owned(),
        }),
        AgentError::Program {
            message: "m".to_owned(),
            source: Some("s".to_owned()),
        }
    );
    assert_eq!(
        from_lua(LuaFault::Other("quota".to_owned())),
        AgentError::Program {
            message: "quota".to_owned(),
            source: None,
        }
    );
    assert_eq!(AgentError::Interrupted.to_string(), "interrupted");
    assert_eq!(
        AgentError::Internal("x").to_string(),
        "internal invariant violated: x"
    );
    assert_eq!(
        shim_failure("execute", "nil".to_owned()).to_string(),
        "removing the `execute` shim from the agent VM failed"
    );
}

#[test]
fn a_client_is_resolved_once_and_kept() {
    let mut slot = ClientSlot::new(false);
    assert!(slot.must_resolve());
    let error = slot
        .resolved(Err("no key".to_owned()))
        .expect_err("an unresolved client fails the call");
    assert_eq!(error.to_string(), "no key");
    assert!(slot.must_resolve(), "a failure leaves the slot empty");
    slot.resolved(Ok(())).expect("a resolved client is kept");
    assert!(!slot.must_resolve());
    assert!(!ClientSlot::new(true).must_resolve());
}

#[test]
fn the_default_limits_are_those_of_a_section() {
    let limits = AgentLimits::default();
    assert_eq!(limits.lua_memory_bytes, 64 * 1024 * 1024);
    assert_eq!(limits.lua_log_events, 1024);
}

#[test]
fn an_infer_round_is_the_prompt_alone() {
    let call = prepare_infer(BindingLookup::Frozen(binding("m")), "hello")
        .expect("a frozen binding needs no selection");
    assert_eq!(call.binding.name, "m");
    assert_eq!(call.messages.len(), 1);
    assert_eq!(call.messages[0].role, "user");
    assert_eq!(call.messages[0].content, text("hello"));
    assert_eq!(call.messages[0].tool_call_id, None);
    assert!(call.tools.is_none());
    assert_eq!(
        prepare_infer(BindingLookup::Selected(Ok(None)), "hello")
            .expect_err("nothing is selected")
            .to_string(),
        "no model is selected: call models.use(...) before models.infer"
    );
}
