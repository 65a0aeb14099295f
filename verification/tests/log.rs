//! The run event log: appends, indexed reads, fan-out, and replay.

use promptforge_workshop::events::{
    CallMetrics, ClientTiming, EventLog, LlamaTimings, Measured, RuntimeEvent, RuntimeEventKind,
    ToolCallEvent, Usage, VllmMetrics,
};
use promptforge_workshop::json::{write_compact, Json};
use promptforge_workshop::log::{
    check_header, header_line, missing_ending, render_calls, replay, split_log, LogFault, WorkshopObserver,
    LOG_FORMAT, LOG_VERSION,
};
use promptforge_workshop::text::lines_of;

fn measured(value: f64) -> Measured {
    Measured {
        bits: value.to_bits(),
    }
}

fn full_metrics() -> CallMetrics {
    CallMetrics {
        usage: Some(Usage {
            prompt_tokens: 7,
            completion_tokens: 3,
            total_tokens: 10,
            cached_tokens: Some(2),
            reasoning_tokens: Some(1),
        }),
        llama: Some(LlamaTimings {
            prompt_n: 7,
            prompt_ms: measured(12.5),
            prompt_per_second: measured(560.0),
            predicted_n: 3,
            predicted_ms: measured(30.5),
            predicted_per_second: measured(98.5),
            draft_n: 4,
            draft_n_accepted: 2,
        }),
        vllm: Some(VllmMetrics {
            time_to_first_token_ms: Some(measured(8.5)),
            generation_time_ms: Some(measured(22.5)),
            queue_time_ms: Some(measured(1.5)),
            mean_itl_ms: Some(measured(7.5)),
            tokens_per_second: Some(measured(133.5)),
        }),
        client: Some(ClientTiming {
            ttft_ms: Some(measured(9.5)),
            mean_itl_ms: Some(measured(8.25)),
            e2e_ms: measured(41.5),
        }),
    }
}

/// One event of every kind.
fn one_of_each() -> Vec<RuntimeEvent> {
    let calls = vec![ToolCallEvent {
        id: "call_1".to_owned(),
        name: "read_file".to_owned(),
        arguments: Json::Object(vec![(
            "path".to_owned(),
            Json::Text("notes.txt".to_owned()),
        )]),
    }];
    vec![
        RuntimeEvent::user_input("chat", "hi"),
        RuntimeEvent::thinking("chat", 0, 0, 1, "llama-3", "pondering"),
        RuntimeEvent::assistant_tool_calls("chat", 0, 0, 1, "llama-3", &calls),
        RuntimeEvent::tool_result("chat", 0, 0, 1, "call_1", "file contents"),
        RuntimeEvent::assistant_reply(
            "chat",
            1,
            0,
            2,
            "hello",
            Some("stop"),
            "llama-3",
            Some(full_metrics()),
        ),
    ]
}

fn collect(log: &WorkshopObserver) -> Vec<RuntimeEvent> {
    (0..log.len())
        .map(|index| log.get(index).expect("every index below len() reads"))
        .collect()
}

/// A line for an event without metrics: its kind and its content.
fn short_line(event: &RuntimeEvent) -> String {
    format!(
        "{{\"kind\":\"{}\",\"content\":{}}}",
        event.kind.label(),
        serde_json::Value::String(event.content.clone())
    )
}

/// Reads a line of [`short_line`] back.
fn short_event(line: &str) -> Result<RuntimeEvent, String> {
    let value: serde_json::Value =
        serde_json::from_str(line).map_err(|error| error.to_string())?;
    let kind = value["kind"]
        .as_str()
        .and_then(RuntimeEventKind::from_label)
        .ok_or("unknown kind")?;
    let content = value["content"].as_str().ok_or("no content")?;
    let mut event = RuntimeEvent::user_input("chat", content);
    event.kind = kind;
    Ok(event)
}

fn decode_header(line: &str) -> Result<(String, u32), String> {
    let value: serde_json::Value =
        serde_json::from_str(line).map_err(|error| error.to_string())?;
    let format = value["format"].as_str().ok_or("no format")?.to_owned();
    let version = value["version"].as_u64().ok_or("no version")?;
    Ok((format, u32::try_from(version).map_err(|error| error.to_string())?))
}

/// Replays the text of a persisted log.
fn load(text: &str) -> Result<Vec<RuntimeEvent>, LogFault> {
    let (header, lines) = split_log(text)?;
    replay(
        decode_header(&header),
        lines.iter().map(|line| short_event(line)).collect(),
    )
}

#[test]
fn subscribe_receives_every_entry_in_log_order() {
    let mut log = WorkshopObserver::new(false);
    for event in one_of_each() {
        log.append(event, None);
    }

    let expected = [
        (RuntimeEventKind::UserInput, "hi".to_owned()),
        (RuntimeEventKind::Thinking, "pondering".to_owned()),
        (
            RuntimeEventKind::AssistantToolCalls,
            r#"[{"id":"call_1","name":"read_file","arguments":{"path":"notes.txt"}}]"#.to_owned(),
        ),
        (RuntimeEventKind::ToolResult, "file contents".to_owned()),
        (RuntimeEventKind::AssistantReply, "hello".to_owned()),
    ];
    let entries = log.take_appended();
    assert_eq!(entries.len(), expected.len());
    for (received, (kind, content)) in entries.into_iter().zip(expected) {
        assert_eq!((received.kind, received.content), (kind, content));
    }
    assert!(
        log.take_appended().is_empty(),
        "no entry may broadcast that was not appended"
    );
    assert_eq!(log.len(), 5, "a taken entry stays readable by index");
}

#[test]
fn a_failing_writer_degrades_to_the_in_memory_log() {
    // Nothing that becomes of the returned line reaches the log again.
    let mut log = WorkshopObserver::new(true);
    for event in one_of_each() {
        let line = log.append(event, Some("line".to_owned()));
        assert_eq!(line.as_deref(), Some("line\n"));
    }
    assert_eq!(
        log.len(),
        5,
        "a failed file append never loses the in-memory entry"
    );
    assert_eq!(log.take_appended()[0].content, "hi");
}

#[test]
fn an_event_that_cannot_be_rendered_still_lands_in_memory() {
    let mut log = WorkshopObserver::new(true);
    assert_eq!(log.append(RuntimeEvent::user_input("chat", "x"), None), None);
    assert_eq!(log.len(), 1);
    let mut memory_only = WorkshopObserver::new(false);
    assert_eq!(
        memory_only.append(RuntimeEvent::user_input("chat", "x"), Some("l".to_owned())),
        None,
        "a memory-only log writes nothing"
    );
}

#[test]
fn entries_keep_their_index_as_the_log_grows() {
    let mut log = WorkshopObserver::new(false);
    for sequence in 0..20u64 {
        log.append(
            RuntimeEvent::user_input("chat", &sequence.to_string()),
            None,
        );
        for index in 0..log.len() {
            let event = log.get(index).expect("every index below len() reads");
            assert_eq!(event.content, index.to_string());
        }
    }
    assert_eq!(log.get(20), None);
}

#[test]
fn a_persisted_log_replays_and_continues() {
    let mut log = WorkshopObserver::new(true);
    let mut file = header_line();
    for content in ["one", "two \"quoted\"", "three\nlines"] {
        let event = RuntimeEvent::user_input("chat", content);
        let line = short_line(&event);
        file.push_str(&log.append(event, Some(line)).expect("a persisting log writes"));
    }
    let in_memory = collect(&log);

    let mut restored = WorkshopObserver::load_from(load(&file).expect("the log replays"));
    assert_eq!(collect(&restored), in_memory, "replay restores every entry");

    // A loaded log keeps appending behind the same header.
    let again = RuntimeEvent::user_input("chat", "again");
    let line = short_line(&again);
    file.push_str(&restored.append(again, Some(line)).expect("a loaded log writes"));
    let reloaded = load(&file).expect("the appended log replays");
    assert_eq!(reloaded.len(), 4);
    assert_eq!(reloaded[3].content, "again");

    // CRLF endings still read.
    let crlf = file.replace('\n', "\r\n");
    assert_eq!(load(&crlf).expect("a CRLF log must still load"), reloaded);
}

#[test]
fn a_log_without_its_last_line_feed_continues_on_a_new_line() {
    assert_eq!(missing_ending(""), "");
    assert_eq!(missing_ending("a\n"), "");
    assert_eq!(missing_ending("a"), "\n");
    assert_eq!(missing_ending("a\r"), "\n");
    for end in ["", "\n", "\r", "\r\n"] {
        let mut file = header_line();
        file.push_str(&short_line(&RuntimeEvent::user_input("chat", "one")));
        file.push_str(end);
        let mut log = WorkshopObserver::load_from(load(&file).expect("the log replays"));
        file.push_str(missing_ending(&file));
        for content in ["two", "three"] {
            let event = RuntimeEvent::user_input("chat", content);
            let line = short_line(&event);
            file.push_str(&log.append(event, Some(line)).expect("a loaded log writes"));
        }
        let reloaded = load(&file).expect("the continued log replays");
        assert_eq!(reloaded, collect(&log), "the file ended in {end:?}");
        assert_eq!(reloaded.len(), 3);
    }
}

#[test]
fn a_fresh_log_is_a_bare_versioned_header() {
    assert_eq!(
        header_line(),
        "{\"format\":\"workshop-event-log\",\"version\":1}\n"
    );
    assert_eq!(
        decode_header(header_line().trim_end()),
        Ok((LOG_FORMAT.to_owned(), LOG_VERSION))
    );
    assert_eq!(load(&header_line()).expect("an empty log replays").len(), 0);
}

#[test]
fn missing_and_alien_headers_and_torn_lines_are_rejected() {
    let missing = load("").expect_err("an empty file must not load");
    assert_eq!(missing, LogFault::MissingHeader);
    assert_eq!(missing.message("log"), "missing event log header in log");

    let torn_header = load("{\"format\"").expect_err("a torn header must not load");
    assert!(
        torn_header
            .message("log")
            .starts_with("malformed event log header in log: "),
        "{}",
        torn_header.message("log")
    );

    let alien = load("{\"format\":\"workshop-event-log\",\"version\":999}\n")
        .expect_err("an alien version must not load");
    assert_eq!(
        alien.message("log"),
        "unsupported event log workshop-event-log version 999 in log; \
         this build reads workshop-event-log version 1"
    );
    assert!(check_header(Ok(("other".to_owned(), 1))).is_err());
    assert!(check_header(Ok((LOG_FORMAT.to_owned(), LOG_VERSION))).is_ok());

    let torn = load(&format!("{}{{\"kind\":\"user_message\"", header_line()))
        .expect_err("a torn line must not load");
    assert!(
        torn.message("log").starts_with("malformed event on line 2 of log: "),
        "the error must name the offending line: {}",
        torn.message("log")
    );

    let unknown = load(&format!(
        "{}{}\n{{\"kind\":\"plan\",\"content\":\"\"}}\n",
        header_line(),
        short_line(&RuntimeEvent::user_input("chat", "x"))
    ))
    .expect_err("a kind this version does not speak must not load");
    assert_eq!(
        unknown,
        LogFault::MalformedEvent {
            line: 3,
            source: "unknown kind".to_owned()
        }
    );
}

#[test]
fn call_arguments_are_recorded_as_they_are_held() {
    let arguments = Json::Object(vec![
        ("x".to_owned(), Json::Number("1.2000000000000001e31".to_owned())),
        (
            "a\"".to_owned(),
            Json::Array(vec![
                Json::Bool(false),
                Json::Text("b\n".to_owned()),
                Json::Object(Vec::new()),
                Json::Array(Vec::new()),
            ]),
        ),
    ]);
    let text = r#"{"x":1.2000000000000001e31,"a\"":[false,"b\n",{},[]]}"#;
    assert_eq!(write_compact(&arguments), text);
    let calls = vec![ToolCallEvent {
        id: "1".to_owned(),
        name: "f".to_owned(),
        arguments,
    }];
    assert_eq!(
        render_calls(&calls),
        format!(r#"[{{"id":"1","name":"f","arguments":{text}}}]"#)
    );
}

#[test]
fn a_batch_of_calls_renders_as_one_json_array() {
    assert_eq!(render_calls(&Vec::new()), "[]");
    let calls = vec![
        ToolCallEvent {
            id: "a\"".to_owned(),
            name: "f".to_owned(),
            arguments: Json::Array(vec![
                Json::Null,
                Json::Bool(true),
                Json::Number("1.5".to_owned()),
            ]),
        },
        ToolCallEvent {
            id: "b".to_owned(),
            name: "g".to_owned(),
            arguments: Json::Object(Vec::new()),
        },
    ];
    let text = render_calls(&calls);
    assert_eq!(
        text,
        r#"[{"id":"a\"","name":"f","arguments":[null,true,1.5]},{"id":"b","name":"g","arguments":{}}]"#
    );
    let value: serde_json::Value = serde_json::from_str(&text).expect("the batch is JSON");
    assert_eq!(value[0]["id"], "a\"");
}

#[test]
fn lines_end_at_line_feeds() {
    assert_eq!(lines_of(""), Vec::<String>::new());
    assert_eq!(lines_of("a\nb"), ["a", "b"]);
    assert_eq!(lines_of("a\r\nb\n"), ["a", "b"]);
    assert_eq!(lines_of("a\n\nb\r"), ["a", "", "b\r"]);
}
