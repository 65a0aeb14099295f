//! The shared vocabulary: cancellation, events, models, observations, tools.

use promptforge_workshop::cancel::{is_cancelled, reads_cancelled, CancelHandle};
use promptforge_workshop::events::{
    CallMetrics, EventLog, Measured, RuntimeEvent, RuntimeEventKind, ToolCallEvent, Usage,
};
use promptforge_workshop::json::Json;
use promptforge_workshop::models::{
    ModelCatalog, ModelCatalogError, ModelDescriptor, ModelId, ThinkingMode,
};
use promptforge_workshop::observe::{detail, NullObserver, Observation, Observer};
use promptforge_workshop::tools::{
    OutputTrust, ToolCatalog, ToolCatalogErrorKind, ToolDescriptor, ToolError, ToolErrorKind,
    ToolId, ToolIdErrorKind, ToolOutput,
};

#[test]
fn cancel_handle_public_construction_surface() {
    let a = CancelHandle::new();
    let b = CancelHandle::default();
    let c = a.clone();
    assert!(!a.is_cancelled() && !b.is_cancelled() && !c.is_cancelled());
    a.cancel();
    assert!(
        a.is_cancelled() && c.is_cancelled(),
        "clones share the flag"
    );
    assert!(a.token().is_cancelled(), "the token behind the handle is the flag");
}

#[test]
fn child_is_independent_until_the_parent_cancels() {
    let parent = CancelHandle::new();
    let child = parent.child();
    assert!(!parent.is_cancelled() && !child.is_cancelled());
    // Cloning a child shares the child's state, not the parent's.
    let child_clone = child.clone();
    child.cancel();
    assert!(child_clone.is_cancelled());
    assert!(!parent.is_cancelled(), "child cancel never reaches up");
}

#[test]
fn grandchild_chain_propagates() {
    let parent = CancelHandle::new();
    let child = parent.child();
    let grandchild = child.child();
    parent.cancel();
    assert!(
        child.is_cancelled() && grandchild.is_cancelled(),
        "cancel propagates down the whole chain"
    );
}

#[test]
fn child_of_pre_cancelled_parent_is_born_cancelled() {
    let parent = CancelHandle::new();
    parent.cancel();
    let child = parent.child();
    assert!(
        child.is_cancelled(),
        "a child minted after the parent's cancel starts cancelled"
    );
}

#[test]
fn a_child_cancel_leaves_the_parent_and_the_sibling_unaffected() {
    let parent = CancelHandle::new();
    let child = parent.child();
    let sibling = parent.child();
    child.cancel();
    assert!(child.is_cancelled());
    assert!(!parent.is_cancelled(), "child cancel must not reach up");
    assert!(
        !sibling.is_cancelled(),
        "child cancel must not reach siblings"
    );
    parent.cancel();
    assert!(sibling.is_cancelled());
}

#[test]
fn cancelling_twice_changes_nothing_more() {
    let handle = CancelHandle::new();
    handle.cancel();
    handle.cancel();
    assert!(handle.is_cancelled());
}

#[test]
fn a_task_without_a_handle_reads_not_cancelled() {
    assert!(!is_cancelled(None));
    let handle = CancelHandle::new();
    assert!(!is_cancelled(Some(&handle)));
    handle.cancel();
    assert!(is_cancelled(Some(&handle)));
    assert!(!reads_cancelled(None));
    assert!(!reads_cancelled(Some(false)));
    assert!(reads_cancelled(Some(true)));
}

fn full_event() -> RuntimeEvent {
    RuntimeEvent {
        kind: RuntimeEventKind::AssistantReply,
        section: "chat".to_owned(),
        chain_id: 1,
        depth: 0,
        turn: 2,
        content: "hello".to_owned(),
        model: Some("llama-3".to_owned()),
        tool_call_id: None,
        finish_reason: Some("stop".to_owned()),
        metrics: Some(CallMetrics {
            usage: Some(Usage {
                prompt_tokens: 7,
                completion_tokens: 3,
                total_tokens: 10,
                cached_tokens: Some(2),
                reasoning_tokens: Some(1),
            }),
            llama: None,
            vllm: None,
            client: None,
        }),
    }
}

fn minimal_event() -> RuntimeEvent {
    RuntimeEvent {
        kind: RuntimeEventKind::UserInput,
        section: "chat".to_owned(),
        chain_id: 0,
        depth: 0,
        turn: 0,
        content: "hi".to_owned(),
        model: None,
        tool_call_id: None,
        finish_reason: None,
        metrics: None,
    }
}

#[test]
fn kind_labels_follow_acp_session_update_names() {
    let labels = [
        (RuntimeEventKind::AssistantReply, "agent_message"),
        (RuntimeEventKind::AssistantToolCalls, "tool_call"),
        (RuntimeEventKind::ToolResult, "tool_call_update"),
        (RuntimeEventKind::Thinking, "agent_thought"),
        (RuntimeEventKind::UserInput, "user_message"),
    ];
    for (kind, label) in labels {
        assert_eq!(kind.label(), label, "{kind:?} must keep its pinned label");
        assert_eq!(
            RuntimeEventKind::from_label(label),
            Some(kind),
            "a pinned label must parse"
        );
    }
    assert_eq!(
        RuntimeEventKind::from_label("plan"),
        None,
        "a reserved kind stays outside the vocabulary"
    );
}

#[test]
fn event_log_serves_indexed_single_entry_access() {
    struct VecLog(Vec<RuntimeEvent>);

    impl EventLog for VecLog {
        fn len(&self) -> u64 {
            u64::try_from(self.0.len()).expect("test log length fits in u64")
        }
        fn get(&self, index: u64) -> Option<RuntimeEvent> {
            usize::try_from(index)
                .ok()
                .and_then(|i| self.0.get(i).cloned())
        }
    }

    fn assert_send_sync<T: Send + Sync + ?Sized>() {}
    assert_send_sync::<dyn EventLog>();

    let log = VecLog(vec![minimal_event(), full_event()]);
    let log: &dyn EventLog = &log;
    assert_eq!(log.len(), 2);
    assert_eq!(log.get(0), Some(minimal_event()));
    assert_eq!(log.get(1), Some(full_event()));
    assert_eq!(log.get(2), None, "reads at or past len must return None");
}

#[test]
fn a_measured_number_keeps_its_bits() {
    let measured = Measured { bits: 12.5f64.to_bits() };
    assert_eq!(f64::from_bits(measured.bits), 12.5);
}

#[test]
fn rejects_c0_c1_and_picker_separator_controls() {
    // The picker record separator (U+001E) must never survive into an id.
    assert!(ModelId::new(ModelId::GATEWAY, "a\u{001e}b").is_err());
    // A C1 control (NEL, U+0085) whose UTF-8 bytes (0xC2 0x85) a byte-range
    // scan would miss but a scalar scan rejects.
    assert!(ModelId::new(ModelId::GATEWAY, "a\u{0085}b").is_err());
    // DEL (U+007F) and NUL are refused too.
    assert!(ModelId::new(ModelId::GATEWAY, "a\u{007f}b").is_err());
    assert!(ModelId::new("srv\u{0000}", "name").is_err());
    // A benign multi-byte non-ASCII name is still accepted.
    assert!(ModelId::new(ModelId::GATEWAY, "café-模型").is_ok());
}

#[test]
fn model_id_rejects_empty_and_control_characters() {
    assert!(ModelId::gateway("").is_err());
    assert!(ModelId::new("", "name").is_err());
    assert!(ModelId::new("server", "").is_err());
    assert!(ModelId::new("server", "na\nme").is_err());
    assert!(ModelId::gateway("valid-alias").is_ok());
}

#[test]
fn model_catalog_rejects_duplicate_ids() {
    let descriptor = |name: &str| {
        ModelDescriptor::new(
            ModelId::gateway(name).expect("test model alias is valid"),
            "d",
            8_192,
            ThinkingMode::Never,
        )
    };
    let err = ModelCatalog::new(vec![descriptor("dup"), descriptor("dup")])
        .expect_err("a catalog with duplicate ids must be rejected");
    assert!(matches!(err, ModelCatalogError::DuplicateId { .. }));
    assert!(ModelCatalog::new(vec![descriptor("a"), descriptor("b")]).is_ok());
}

#[test]
fn a_model_id_names_the_field_it_refuses() {
    let error = ModelId::new("", "name").expect_err("an empty server is refused");
    assert!(error.to_string().contains("server"), "{}", error.to_string());
    let error = ModelId::new("server", "a\u{7}").expect_err("a control is refused");
    assert!(error.to_string().contains("name"), "{}", error.to_string());
    let id = ModelId::gateway("m").expect("a valid name");
    assert_eq!(id.server(), ModelId::GATEWAY);
    assert_eq!(id.name(), "m");
}

#[test]
fn a_catalog_looks_models_up_by_identity() {
    let a = ModelId::gateway("a").expect("a valid name");
    let b = ModelId::new("elsewhere", "a").expect("a valid name");
    let catalog = ModelCatalog::new(vec![ModelDescriptor::new(
        ModelId::gateway("a").expect("a valid name"),
        "first",
        4_096,
        ThinkingMode::Never,
    )])
    .expect("one model is unique");
    let found = catalog.get(&a).expect("the identity resolves");
    assert_eq!(found.description(), "first");
    assert_eq!(found.context(), 4_096);
    assert_eq!(found.thinking(), ThinkingMode::Never);
    assert!(catalog.contains(&a));
    assert!(!catalog.contains(&b), "the server is part of the identity");
    assert!(!catalog.is_empty());
    assert!(ModelCatalog::empty().is_empty());
    assert_eq!(catalog.models().len(), 1);
}

#[test]
fn null_observer_accepts_reports() {
    let observer = NullObserver::default();
    observer.observe("example-run", "Prompt", Observation::RunStarted);
    observer.observe("example-run", "Gather", Observation::SectionStarted);
    observer.observe("example-run", "Gather", Observation::SectionFinished);
    observer.observe("example-run", "Prompt", Observation::RunSucceeded);
}

#[test]
fn model_catalog_detail_consts_match_their_variants() {
    assert_eq!(
        detail::MODEL_CATALOG_VALIDATION_STARTED,
        Observation::ModelCatalogValidationStarted
    );
    assert_eq!(
        detail::MODEL_CATALOG_VALIDATION_SUCCEEDED,
        Observation::ModelCatalogValidationSucceeded
    );
    assert_eq!(
        detail::MODEL_CATALOG_VALIDATION_FAILED,
        Observation::ModelCatalogValidationFailed
    );
}

#[test]
fn display_renders_stable_strings() {
    assert_eq!(Observation::RunStarted.to_string(), "Run started");
    assert_eq!(
        Observation::StoreReadNumberedSucceeded.to_string(),
        "Store read_numbered succeeded"
    );
    assert_eq!(Observation::Lua("hi".to_owned()).to_string(), "Lua: hi");
    assert_eq!(Observation::Other("x".to_owned()).to_string(), "x");
    assert_eq!(Observation::RunStarted.label(), Some("Run started"));
    assert_eq!(Observation::Lua("hi".to_owned()).label(), None);
}

#[test]
fn observer_is_dyn_compatible_and_shareable() {
    fn assert_send_sync<T: Send + Sync + ?Sized>() {}
    assert_send_sync::<dyn Observer>();

    let null = NullObserver::default();
    let observer: &dyn Observer = &null;
    observer.observe("example-run", "Gather", Observation::SectionFinished);
}

#[test]
fn null_observer_inherits_content_method_defaults() {
    let metrics = CallMetrics {
        usage: None,
        llama: None,
        vllm: None,
        client: None,
    };
    let calls = [ToolCallEvent {
        id: "call_1".to_owned(),
        name: "read_file".to_owned(),
        arguments: Json::Object(vec![(
            "path".to_owned(),
            Json::Text("notes.txt".to_owned()),
        )]),
    }];
    let null = NullObserver::default();
    let observer: &dyn Observer = &null;
    observer.on_assistant_reply(
        "example-run",
        "chat",
        0,
        0,
        1,
        "reply text",
        Some("stop"),
        "llama-3",
        Some(&metrics),
    );
    observer.on_assistant_tool_calls("example-run", "chat", 0, 0, 1, "llama-3", &calls);
    observer.on_tool_result(
        "example-run",
        "chat",
        0,
        0,
        1,
        "call_1",
        "read_file",
        "file contents",
        false,
    );
    observer.on_thinking("example-run", "chat", 0, 0, 1, "llama-3", "thinking text");
    observer.on_user_input("example-run", "chat", "hello");
}

#[test]
fn unknown_and_message_variants_are_tolerated_by_a_wildcard_consumer() {
    // A consumer that matches only the variants it knows must tolerate
    // `Other` (a forward-compatible variant it does not model) through a
    // wildcard arm, and the message-carrying variants must preserve their
    // author-controlled text verbatim.
    fn classify(event: &Observation) -> &'static str {
        match event {
            Observation::RunStarted => "known-fixed",
            Observation::Lua(_) => "lua-checkpoint",
            _ => "unknown-or-other",
        }
    }
    assert_eq!(classify(&Observation::RunStarted), "known-fixed");
    assert_eq!(
        classify(&Observation::Lua("hi".to_owned())),
        "lua-checkpoint"
    );
    // `Other` stands in for a future variant this consumer has never seen.
    assert_eq!(
        classify(&Observation::Other("future".to_owned())),
        "unknown-or-other"
    );
    assert_eq!(classify(&Observation::SectionFinished), "unknown-or-other");
    assert_eq!(
        Observation::Lua("secret note".to_owned()).to_string(),
        "Lua: secret note"
    );
    assert_eq!(
        Observation::Other("verbatim".to_owned()).to_string(),
        "verbatim"
    );
}

#[test]
fn labels_are_distinct_keys() {
    assert_ne!(
        Observation::ModelTurnCompleted.label(),
        Observation::ModelTurnFailed.label()
    );
    assert_eq!(
        Observation::ModelTurnTruncated.label(),
        Some("Model turn truncated")
    );
}

fn inspect_id() -> ToolId {
    ToolId::new("fixtures", "inspect").expect("fixture id is valid")
}

fn fixture_schema() -> Json {
    Json::Object(vec![
        ("type".to_owned(), Json::Text("object".to_owned())),
        (
            "properties".to_owned(),
            Json::Object(vec![(
                "path".to_owned(),
                Json::Object(vec![(
                    "type".to_owned(),
                    Json::Text("string".to_owned()),
                )]),
            )]),
        ),
        (
            "required".to_owned(),
            Json::Array(vec![Json::Text("path".to_owned())]),
        ),
    ])
}

fn fixture_tool() -> ToolDescriptor {
    ToolDescriptor::new(
        inspect_id(),
        "inspect_wire",
        "Inspect a fixture.",
        fixture_schema(),
    )
}

fn catalog_tool(id_name: &str, wire_name: &str) -> ToolDescriptor {
    ToolDescriptor::new(
        ToolId::new("fixtures", id_name).expect("fixture id is valid"),
        wire_name,
        wire_name,
        Json::Object(vec![(
            "type".to_owned(),
            Json::Text("object".to_owned()),
        )]),
    )
}

#[test]
fn tool_output_carries_mandatory_trust() {
    assert_eq!(ToolOutput::trusted("a").trust(), OutputTrust::Trusted);
    assert_eq!(ToolOutput::untrusted("b").trust(), OutputTrust::Untrusted);
    assert_eq!(ToolOutput::trusted("a").text(), "a");
}

#[test]
fn tool_catalog_is_send_and_sync() {
    fn assert_send_sync<T: Send + Sync>() {}
    assert_send_sync::<ToolCatalog>();
}

#[test]
fn tool_error_classifies_and_hides_source() {
    fn assert_send_sync<T: Send + Sync + 'static>() {}
    assert_send_sync::<ToolError>();

    let plain = ToolError::message("model-safe");
    assert_eq!(plain.kind(), ToolErrorKind::Other);
    assert_eq!(plain.to_string(), "model-safe");
    assert!(!plain.is_cancelled() && !plain.is_retryable());

    let cancelled = ToolError::message("stopped").with_kind(ToolErrorKind::Cancelled);
    assert!(cancelled.is_cancelled());

    let retry = ToolError::message("net").with_kind(ToolErrorKind::Transport);
    assert!(retry.is_retryable());

    let sourced = ToolError::with_source("wrap", "cause");
    assert!(sourced.source().is_some());
    assert!(
        !sourced.to_string().contains("cause"),
        "the text must not expose the tool error source: {}",
        sourced.to_string()
    );
}

#[test]
fn descriptor_surface_preserves_identity_description_and_schema() {
    let tool = fixture_tool();

    assert_eq!(tool.id, inspect_id());
    assert_eq!(tool.wire_name, "inspect_wire");
    assert_eq!(tool.description, "Inspect a fixture.");
    assert_eq!(tool.parameters_schema, fixture_schema());
}

#[test]
fn structured_output_defaults_to_plain_text() {
    let tool = fixture_tool();
    assert!(
        !tool.structured_output,
        "a tool that does not declare structured output stays plain text"
    );
}

#[test]
fn catalog_lookup_uses_stable_identity_not_wire_name() {
    let catalog = ToolCatalog::new(vec![fixture_tool()]).expect("unique catalog");

    let found = catalog
        .get(&inspect_id())
        .expect("the stable identity should resolve");
    assert_eq!(found.wire_name, "inspect_wire");
    assert!(
        catalog
            .get(&ToolId::new("fixtures", "inspect_wire").expect("valid id"))
            .is_none(),
        "the transport name must not become identity"
    );
}

#[test]
fn catalog_preserves_order_and_first_match_lookup() {
    let catalog = ToolCatalog::new(vec![
        catalog_tool("inspect", "first_inspect"),
        catalog_tool("summarize", "summarize"),
    ])
    .expect("distinct identities build a catalog");

    assert_eq!(
        catalog
            .tools()
            .iter()
            .map(|tool| tool.wire_name.as_str())
            .collect::<Vec<_>>(),
        ["first_inspect", "summarize"]
    );
    assert_eq!(catalog.tools().len(), 2);
    assert_eq!(
        catalog
            .get(&inspect_id())
            .expect("the identity should resolve")
            .wire_name,
        "first_inspect",
    );
}

#[test]
fn catalog_rejects_duplicate_tool_ids() {
    let error = ToolCatalog::new(vec![
        catalog_tool("inspect", "first_inspect"),
        catalog_tool("inspect", "second_inspect"),
    ])
    .expect_err("a repeated tool identity must be rejected at catalog construction");
    assert_eq!(error.kind(), ToolCatalogErrorKind::DuplicateId);
    assert_eq!(
        error.duplicate_id(),
        Some(&inspect_id()),
        "the error must name the duplicated identity"
    );
}

#[test]
fn tool_id_new_rejects_empty_separator_and_control() {
    assert_eq!(
        ToolId::new("", "name").expect_err("empty server").kind(),
        ToolIdErrorKind::Empty
    );
    assert_eq!(
        ToolId::new("server", "").expect_err("empty name").kind(),
        ToolIdErrorKind::Empty
    );
    assert_eq!(
        ToolId::new("a/b", "name")
            .expect_err("separator in server")
            .kind(),
        ToolIdErrorKind::Separator
    );
    assert_eq!(
        ToolId::new("server", "a/b")
            .expect_err("separator in name")
            .kind(),
        ToolIdErrorKind::Separator
    );
    assert_eq!(
        ToolId::new("server", "na\u{7f}me")
            .expect_err("DEL control in name")
            .kind(),
        ToolIdErrorKind::Control
    );
    assert_eq!(
        ToolId::new("ser\tver", "name")
            .expect_err("tab control in server")
            .kind(),
        ToolIdErrorKind::Control
    );
    // A provider-invalid but structurally legal identity is accepted here;
    // provider acceptance is a runtime concern, not an identity invariant.
    assert!(ToolId::new("promptforge", "web_search").is_ok());
}

#[test]
fn a_tool_id_holds_no_control_beyond_ascii_either() {
    let error = ToolId::new("server", "na\u{85}me").expect_err("a C1 control in name");
    assert_eq!(error.kind(), ToolIdErrorKind::Control);
    assert_eq!(
        error.to_string(),
        "invalid tool name: must not contain a control character"
    );
    assert!(ToolId::new("server", "café").is_ok());
}

#[test]
fn catalog_rejects_illegal_wire_name() {
    let bad = ToolDescriptor::new(
        ToolId::new("fixtures", "bad_wire").expect("valid id"),
        "bad/name",
        "bad",
        Json::Object(vec![(
            "type".to_owned(),
            Json::Text("object".to_owned()),
        )]),
    );
    let error = ToolCatalog::new(vec![bad])
        .expect_err("an illegal wire name must be rejected at catalog construction");
    assert_eq!(error.kind(), ToolCatalogErrorKind::InvalidWireName);
    assert!(error.duplicate_id().is_none());
    assert!(error.to_string().contains("\"bad/name\""), "{}", error.to_string());
}
