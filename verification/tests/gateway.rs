//! The gateway client: requests, SSE and progress decoding, the binding,
//! endpoint resolution, the heartbeat, and the progress subscriber.

use promptforge_workshop::binding::{
    GatewayBinding, GatewayPublicationError, Race, ValidatedConnection,
};
use promptforge_workshop::gateway::progress::{
    block_end, error_body, escape_controls, gather_error_body, next_buffered_event,
    parse_event_block, subscribe, BodyReaction, BodyRead, ProgressReader, ProgressStep,
    MAX_ERROR_BODY, MAX_EVENT_BLOCK,
};
use promptforge_workshop::gateway::sse::{is_event_stream, PayloadReader, PayloadStep, SseDecoder};
use promptforge_workshop::gateway::{
    oversized_block, reads_reachable, realtime_url, relay, switch_events, undecodable_block,
    Bound, GatewayClient, GatewayError, Relay, Route, SocketUrlError, SwitchEvent, Verb,
    HEALTH_PROBE_TIMEOUT, MAX_URL_TEXT, REQUEST_TIMEOUT,
};
use promptforge_workshop::heartbeat::refresh::{
    catalog_models, fetched_active, fetched_profiles, listed_models, menu_models,
    published_profiles,
};
use promptforge_workshop::heartbeat::{
    announcement, gave_up, join_status, profiles_ready, GatewayHealth, HeartbeatLoop, Interrupt,
    Next, CONNECTED_DESCRIPTION, CONNECTED_LABEL, HEARTBEAT_INTERVAL, STOPPED_DESCRIPTION,
    STOPPED_LABEL, UNREACHABLE_DESCRIPTION, UNREACHABLE_LABEL,
};
use promptforge_workshop::json::Json;
use promptforge_workshop::resolve::{
    report, resolve_with, stale_clause, Discovery, GatewayConfig, GatewaySource, ResolvedGateway,
    StaleReason,
};
use promptforge_workshop::status::{Activity, Progress, Severity, StatusBarUpdate};
use promptforge_workshop::subscriber::{Event, Import, Phase, SubscriberLoop};

#[test]
fn trailing_slash_is_trimmed_from_base_url() {
    let client = GatewayClient::new("http://127.0.0.1:8081/", "k");
    assert_eq!(client.base_url(), "http://127.0.0.1:8081");
}

#[test]
fn debug_redacts_the_api_key() {
    let client = GatewayClient::new("http://127.0.0.1:8081", "secret-key");
    let rendered = client.describe();
    assert!(!rendered.contains("secret-key"), "key leaked: {rendered}");
    assert_eq!(
        rendered,
        "GatewayClient { base_url: \"http://127.0.0.1:8081\", api_key: \"<redacted>\", .. }"
    );
}

#[test]
fn requests_carry_their_route_authorization_and_bound() {
    let client = GatewayClient::new("http://gw", "tok");
    let models = client.list_models();
    assert_eq!(models.url, "http://gw/v1/models");
    assert_eq!(models.authorization.as_deref(), Some("Bearer tok"));
    assert_eq!(models.bound, Bound::Whole(REQUEST_TIMEOUT));
    let health = client.health();
    assert_eq!(health.url, "http://gw/health");
    assert_eq!(health.authorization, None, "the probe never carries the key");
    assert_eq!(health.bound, Bound::Whole(HEALTH_PROBE_TIMEOUT));
    let (switch, _) = client.switch_profile("code");
    assert_eq!(switch.url, "http://gw/admin/switch-profile");
    assert_eq!(switch.bound, Bound::Headers(REQUEST_TIMEOUT));
    assert!(switch.json && !models.json);
    assert_eq!(Route::SwitchProfile.verb(), Verb::Post);
    assert_eq!(Route::Cache.verb(), Verb::Post);
    assert_eq!(Route::Progress.verb(), Verb::Get);
    let forwarded = client.forward("/v1/chat/completions?x=1", true);
    assert_eq!(forwarded.url, "http://gw/v1/chat/completions?x=1");
    assert!(forwarded.json);
    assert!(!client.forward("/config", false).json);
    assert_eq!(forwarded.bound, Bound::Headers(REQUEST_TIMEOUT));
    let open = GatewayClient::new("http://gw", "");
    assert_eq!(open.list_profiles().authorization, None);
    assert_eq!(open.list_profiles().url, "http://gw/admin/profiles");
    assert_eq!(open.subscribe_progress().url, "http://gw/admin/progress");
    assert_eq!(open.subscribe_progress().bound, Bound::Headers(REQUEST_TIMEOUT));
    assert_eq!(open.cache_ensure("blob").0.url, "http://gw/v1/cache");
    let bounded = open.with_timeouts(7, 1);
    assert_eq!(bounded.profile_status().url, "http://gw/admin/status");
    assert_eq!(bounded.profile_status().bound, Bound::Whole(7));
    assert_eq!(bounded.health().bound, Bound::Whole(1));
}

#[test]
fn bodies_are_json_objects_of_one_text() {
    let client = GatewayClient::new("http://gw", "");
    assert_eq!(
        client.switch_profile("code \"x\"").1,
        r#"{"name":"code \"x\""}"#
    );
    assert_eq!(client.cache_ensure("a\nb").1, r#"{"source":"a\nb"}"#);
}

#[test]
fn only_a_successful_event_stream_is_relayed_as_a_stream() {
    assert_eq!(relay(200, Some("text/event-stream; charset=utf-8")), Relay::Stream);
    assert_eq!(relay(299, Some("text/event-stream")), Relay::Stream);
    assert_eq!(relay(300, Some("text/event-stream")), Relay::Buffered);
    assert_eq!(relay(409, Some("text/event-stream")), Relay::Buffered);
    assert_eq!(relay(200, Some("application/json")), Relay::Buffered);
    assert_eq!(relay(200, None), Relay::Buffered);
    assert!(is_event_stream(Some("text/event-stream")));
    assert!(!is_event_stream(Some("text/plain")));
}

#[test]
fn the_realtime_url_is_a_fixed_socket_under_the_base_path() {
    assert_eq!(
        realtime_url("http://127.0.0.1:8081").expect("an http base converts"),
        "ws://127.0.0.1:8081/v1/realtime?intent=transcription"
    );
    assert_eq!(
        realtime_url("https://gw.example/base/?q=1#frag").expect("an https base converts"),
        "wss://gw.example/base/v1/realtime?intent=transcription"
    );
    match realtime_url("not a url") {
        Err(SocketUrlError::Unparsable(why)) => {
            assert_eq!(why, "relative URL without a base")
        }
        other => panic!("a relative text is no URL: {other:?}"),
    }
    match realtime_url("ftp://gw.example/") {
        Err(SocketUrlError::Scheme(scheme)) => assert_eq!(scheme, "ftp"),
        other => panic!("an ftp base has no socket: {other:?}"),
    }
    assert_eq!(
        SocketUrlError::Unconvertible.to_string(),
        "gateway URL scheme cannot be converted to WebSocket"
    );
    let socket = "ws://gw/v1/realtime?intent=transcription";
    for dropped in ["x", "\t"] {
        let base = format!("http://gw/?{}", dropped.repeat(MAX_URL_TEXT + 1));
        assert_eq!(realtime_url(&base).expect("the query is dropped"), socket);
        let base = format!("http://gw/#{}", dropped.repeat(MAX_URL_TEXT + 1));
        assert_eq!(realtime_url(&base).expect("the fragment is dropped"), socket);
    }
    let base = format!("http://gw/{}", "./".repeat(MAX_URL_TEXT / 2 + 1));
    assert_eq!(realtime_url(&base).expect("the dot segments are dropped"), socket);
    let long = format!("http://gw/{}", "x".repeat(MAX_URL_TEXT));
    match realtime_url(&long) {
        Err(SocketUrlError::TooLong) => {}
        other => panic!("a URL past the bound is refused: {:?}", other.is_ok()),
    }
    assert_eq!(SocketUrlError::TooLong.to_string(), "gateway URL is too long");
}

#[test]
fn the_realtime_handshake_is_authorized_and_bounded() {
    let Ok(handshake) = GatewayClient::new("http://gw/", "tok").connect_realtime() else {
        panic!("an http base converts");
    };
    assert_eq!(handshake.url, "ws://gw/v1/realtime?intent=transcription");
    assert_eq!(handshake.authorization.as_deref(), Some("Bearer tok"));
    assert_eq!(handshake.bound, Bound::Headers(REQUEST_TIMEOUT));
    match GatewayClient::new("ftp://gw", "tok").connect_realtime() {
        Err(GatewayError::Transport(source)) => assert_eq!(
            source,
            "gateway URL scheme \"ftp\" cannot carry a WebSocket"
        ),
        _ => panic!("an ftp base has no socket"),
    }
}

#[test]
fn only_a_success_status_reads_reachable() {
    assert!(reads_reachable(Some(200)));
    assert!(reads_reachable(Some(204)));
    assert!(!reads_reachable(Some(503)));
    assert!(!reads_reachable(None));
}

#[test]
fn a_malformed_switch_event_is_skipped_and_the_failure_passes_through() {
    let stage = SwitchEvent::Stage {
        stage: "starting-models".to_owned(),
    };
    match switch_events(Ok(Some(stage.clone()))) {
        Some(Ok(event)) => assert_eq!(event, stage),
        other => panic!("a decoded event passes: {other:?}"),
    }
    assert!(switch_events(Ok(None)).is_none());
    assert!(matches!(
        switch_events(Err(GatewayError::ReadBody("cut".to_owned()))),
        Some(Err(GatewayError::ReadBody(_)))
    ));
}

#[test]
fn a_refused_subscription_is_a_status_error() {
    match subscribe(401, &b"bad token".to_vec()) {
        Err(GatewayError::Status { status, body }) => {
            assert_eq!(status, 401);
            assert_eq!(body, "bad token");
        }
        _ => panic!("a 401 response is a status error"),
    }
    let Ok(mut reader) = subscribe(200, &Vec::new()) else {
        panic!("a success status subscribes");
    };
    assert!(matches!(reader.step(), ProgressStep::Read));
}

#[test]
fn gateway_errors_say_what_failed() {
    assert_eq!(
        GatewayError::Build("x".to_owned()).to_string(),
        "build gateway http client"
    );
    assert_eq!(
        GatewayError::Transport("x".to_owned()).to_string(),
        "gateway transport error"
    );
    assert_eq!(
        GatewayError::ReadBody("x".to_owned()).to_string(),
        "read gateway response body"
    );
    assert_eq!(
        GatewayError::Status {
            status: 401,
            body: "bad token".to_owned()
        }
        .to_string(),
        "gateway answered status 401: bad token"
    );
    assert!(oversized_block().to_string().contains("exceeds"));
    match undecodable_block("eof".to_owned()) {
        GatewayError::Malformed { message, source } => {
            assert_eq!(message, "progress event was not valid JSON");
            assert_eq!(source.as_deref(), Some("eof"));
        }
        other => panic!("an undecodable block is malformed: {other:?}"),
    }
}

fn drain(decoder: &mut SseDecoder) -> Vec<String> {
    let mut payloads = Vec::new();
    while let Some(payload) = decoder.pop() {
        payloads.push(payload);
    }
    payloads
}

#[test]
fn decoder_emits_the_same_events_regardless_of_chunk_boundaries() {
    let wire = "data: {\"a\":1}\n\ndata: [DONE]\n\n";
    let mut whole = SseDecoder::default();
    whole.feed(wire.as_bytes());
    whole.finish();

    let mut drip = SseDecoder::default();
    for byte in wire.as_bytes() {
        drip.feed(std::slice::from_ref(byte));
    }
    drip.finish();

    let whole_out = drain(&mut whole);
    assert_eq!(drain(&mut drip), whole_out, "chunking must not matter");
    assert_eq!(
        whole_out,
        ["{\"a\":1}".to_string(), "[DONE]".to_string()],
        "payloads arrive verbatim, including the terminal sentinel"
    );
}

#[test]
fn decoder_joins_multi_line_data_and_ignores_other_fields() {
    let wire = ": comment\nevent: message\nid: 7\ndata: first\ndata: second\n\n";
    let mut decoder = SseDecoder::default();
    decoder.feed(wire.as_bytes());
    decoder.finish();
    assert_eq!(decoder.pop().as_deref(), Some("first\nsecond"));
    assert!(decoder.pop().is_none(), "one event, one payload");
}

#[test]
fn decoder_accepts_crlf_line_endings() {
    let mut decoder = SseDecoder::default();
    decoder.feed(b"data: one\r\n\r\n");
    decoder.finish();
    assert_eq!(decoder.pop().as_deref(), Some("one"));
}

#[test]
fn decoder_flushes_an_unterminated_final_line_at_eof() {
    let mut decoder = SseDecoder::default();
    decoder.feed(b"data: tail");
    decoder.finish();
    assert_eq!(decoder.pop().as_deref(), Some("tail"));
}

#[test]
fn a_finished_decoder_starts_over() {
    let mut decoder = SseDecoder::default();
    decoder.feed(b"data: one\n\ndata: tw");
    decoder.finish();
    decoder.finish();
    decoder.feed(b"o\ndata: three\n\n");
    decoder.finish();
    assert_eq!(drain(&mut decoder), ["one", "tw", "three"]);
}

#[test]
fn decoder_drops_events_without_data() {
    let mut decoder = SseDecoder::default();
    decoder.feed(b"event: ping\n\ndata: kept\n\n");
    decoder.finish();
    assert_eq!(decoder.pop().as_deref(), Some("kept"));
    assert!(decoder.pop().is_none());
}

/// A realistic delta stream whose payloads carry multi-byte UTF-8 (2-, 3-, and
/// 4-byte codepoints), so a byte split can land inside a codepoint; mixed
/// CRLF/LF endings and a multi-line event ride along.
const MULTIBYTE_WIRE: &str = "data: {\"choices\":[{\"delta\":{\"reasoning_content\":\"h\u{e9}llo \u{1f914} w\u{f6}rld\"}}]}\r\n\r\n\
data: {\"choices\":[{\"delta\":{\"content\":\"\u{65e5}\u{672c}\u{8a9e}\"}}]}\n\n\
data: first\ndata: \u{1f40d} second\n\n\
data: [DONE]\n\n";

/// The payloads [`MULTIBYTE_WIRE`] must always decode to, regardless of how
/// the bytes are chunked.
fn multibyte_payloads() -> Vec<String> {
    vec![
        "{\"choices\":[{\"delta\":{\"reasoning_content\":\"h\u{e9}llo \u{1f914} w\u{f6}rld\"}}]}"
            .to_string(),
        "{\"choices\":[{\"delta\":{\"content\":\"\u{65e5}\u{672c}\u{8a9e}\"}}]}".to_string(),
        "first\n\u{1f40d} second".to_string(),
        "[DONE]".to_string(),
    ]
}

/// Feeds `wire` split at the ascending byte offsets in `cuts`, then returns
/// everything the decoder produced.
fn decode_in_fragments(wire: &[u8], cuts: &[usize]) -> Vec<String> {
    let mut decoder = SseDecoder::default();
    let mut start = 0;
    for &cut in cuts {
        decoder.feed(&wire[start..cut]);
        start = cut;
    }
    decoder.feed(&wire[start..]);
    decoder.finish();
    drain(&mut decoder)
}

#[test]
fn decoder_survives_every_split_point_including_mid_utf8() {
    let wire = MULTIBYTE_WIRE.as_bytes();
    let expected = multibyte_payloads();
    assert_eq!(decode_in_fragments(wire, &[]), expected, "unsplit feed");
    // Every split point, so every mid-codepoint boundary is exercised.
    for cut in 1..wire.len() {
        assert_eq!(
            decode_in_fragments(wire, &[cut]),
            expected,
            "split at byte {cut} changed the decode"
        );
    }
}

/// A small shift-register generator, so the splits are reproducible.
fn xorshift(state: &mut u64) -> u64 {
    *state ^= *state << 13;
    *state ^= *state >> 7;
    *state ^= *state << 17;
    *state
}

#[test]
fn decoder_is_chunking_invariant_under_random_splits() {
    let wire = MULTIBYTE_WIRE.as_bytes();
    let expected = multibyte_payloads();
    for seed in [0x9E37_79B9_7F4A_7C15_u64, 42, 7_777_777] {
        let mut state = seed;
        let cuts: Vec<usize> = (1..wire.len())
            .filter(|_| xorshift(&mut state) % 4 == 0)
            .collect();
        assert_eq!(
            decode_in_fragments(wire, &cuts),
            expected,
            "seed {seed}: fragmenting at {cuts:?} changed the decode"
        );
    }
}

#[test]
fn undecodable_bytes_become_replacement_characters() {
    let mut decoder = SseDecoder::default();
    decoder.feed(b"data: a\xffb\n\n");
    decoder.finish();
    assert_eq!(decoder.pop().as_deref(), Some("a\u{fffd}b"));
}

#[test]
fn a_payload_stream_emits_reads_and_ends() {
    let mut reader = PayloadReader::new();
    assert!(matches!(reader.step(), PayloadStep::Read));
    reader.chunk(b"data: one\n\ndata: tw");
    match reader.step() {
        PayloadStep::Emit(payload) => assert_eq!(payload, "one"),
        _ => panic!("a complete event is emitted first"),
    }
    assert!(matches!(reader.step(), PayloadStep::Read));
    reader.end();
    match reader.step() {
        PayloadStep::Emit(payload) => assert_eq!(payload, "tw"),
        _ => panic!("the final event is flushed at the end"),
    }
    assert!(matches!(reader.step(), PayloadStep::End));
}

/// Runs a body through the progress reader, chunk by chunk: the payloads that
/// it emits, and whether it refused a block.
fn progress(chunks: &[&[u8]]) -> (Vec<String>, bool) {
    let mut reader = ProgressReader::new();
    let mut payloads = Vec::new();
    let mut refused = false;
    let mut next = 0;
    loop {
        match reader.step() {
            ProgressStep::Emit(payload) => {
                payloads.push(String::from_utf8(payload).expect("test payloads are text"))
            }
            ProgressStep::Read => {
                let reaction = if next < chunks.len() {
                    next += 1;
                    reader.on_read(BodyRead::Chunk(chunks[next - 1]))
                } else {
                    reader.on_read(BodyRead::End)
                };
                if !matches!(reaction, BodyReaction::Continue) {
                    return (payloads, refused);
                }
            }
            ProgressStep::Oversized => {
                assert!(!refused, "a stream is refused once");
                refused = true;
            }
            ProgressStep::End => return (payloads, refused),
        }
    }
}

#[test]
fn progress_blocks_decode_and_heartbeat_comments_are_skipped() {
    let body = b": heartbeat\n\ndata: {\"a\":1}\n\ndata: {\"b\":2}\n\n: heartbeat\n\ndata: {\"c\":3}\n\n";
    let (payloads, _) = progress(&[body]);
    assert_eq!(payloads, ["{\"a\":1}", "{\"b\":2}", "{\"c\":3}"]);
}

#[test]
fn a_progress_block_split_across_chunks_is_reassembled() {
    let wire = b"data: {\"a\":1}\n\n";
    for cut in 1..wire.len() {
        let (payloads, _) = progress(&[&wire[..cut], &wire[cut..]]);
        assert_eq!(payloads, ["{\"a\":1}"], "split at byte {cut}");
    }
}

#[test]
fn crlf_terminated_progress_blocks_decode() {
    let (payloads, _) = progress(&[b"data: one\r\n\r\ndata: two\r\n\r\n"]);
    assert_eq!(payloads, ["one", "two"]);
}

#[test]
fn an_incomplete_trailing_progress_block_is_discarded() {
    let (payloads, _) = progress(&[b"data: one\n\ndata: two"]);
    assert_eq!(payloads, ["one"]);
}

#[test]
fn a_progress_block_that_never_terminates_is_bounded() {
    let body = "x".repeat(MAX_EVENT_BLOCK + 1);
    let (payloads, refused) = progress(&[body.as_bytes()]);
    assert!(payloads.is_empty());
    assert!(refused);
    let at_bound = "x".repeat(MAX_EVENT_BLOCK);
    let (_, refused) = progress(&[at_bound.as_bytes()]);
    assert!(!refused, "the bound itself is kept");
}

#[test]
fn a_long_chunk_of_small_progress_blocks_is_decoded_whole() {
    let block = format!("data: {}\n\n", "x".repeat(1000));
    let count = MAX_EVENT_BLOCK / block.len() + 3;
    let body = block.repeat(count);
    assert!(body.len() > MAX_EVENT_BLOCK);
    let (payloads, refused) = progress(&[body.as_bytes()]);
    assert!(!refused, "no block exceeds the bound");
    assert_eq!(payloads.len(), count);
    assert!(payloads.iter().all(|payload| payload.len() == 1000));
}

#[test]
fn a_chunk_that_ends_a_nearly_full_progress_block_is_taken() {
    let start = format!("data: {}", "x".repeat(MAX_EVENT_BLOCK - 100));
    let rest = format!("y\n\ndata: {}\n\n", "z".repeat(16 * 1024));
    let (payloads, refused) = progress(&[start.as_bytes(), rest.as_bytes()]);
    assert!(!refused);
    assert_eq!(payloads.len(), 2);
    assert_eq!(payloads[0].len(), MAX_EVENT_BLOCK - 99);
    assert_eq!(payloads[1].len(), 16 * 1024);
}

#[test]
fn progress_payloads_before_an_oversized_block_are_handed_on() {
    let body = format!(
        "data: one\n\ndata: two\n\ndata: {}\n\ndata: late\n\n",
        "x".repeat(MAX_EVENT_BLOCK)
    );
    let (payloads, refused) = progress(&[body.as_bytes(), b"data: later\n\n"]);
    assert_eq!(payloads, ["one", "two"]);
    assert!(refused);
    let cut = 20 + MAX_EVENT_BLOCK / 2;
    let (payloads, refused) = progress(&[&body.as_bytes()[..cut], &body.as_bytes()[cut..]]);
    assert_eq!(payloads, ["one", "two"], "wherever the body is cut");
    assert!(refused);
}

#[test]
fn a_read_failure_ends_the_progress_stream() {
    let mut reader = ProgressReader::new();
    assert!(matches!(reader.step(), ProgressStep::Read));
    assert!(matches!(
        reader.on_read(BodyRead::Failed),
        BodyReaction::ReadFailed
    ));
    assert!(matches!(reader.step(), ProgressStep::End));
}

#[test]
fn block_ends_and_payloads_are_found() {
    assert_eq!(block_end(b"data: x\n\nrest"), Some(9));
    assert_eq!(block_end(b"data: x\r\n\r\nrest"), Some(11));
    assert_eq!(block_end(b"data: x\n"), None);
    assert_eq!(
        parse_event_block(b"data: a\ndata: b\n\n").as_deref(),
        Some(&b"a\nb"[..])
    );
    assert_eq!(parse_event_block(b": comment\n\n"), None);
    let mut buffer = b": c\n\ndata: a\n\ndata: b".to_vec();
    assert_eq!(next_buffered_event(&mut buffer).as_deref(), Some(&b"a"[..]));
    assert_eq!(buffer, b"data: b");
    assert_eq!(next_buffered_event(&mut buffer), None);
}

#[test]
fn an_error_body_is_bounded_and_control_escaped() {
    let mut buffer = Vec::new();
    assert!(gather_error_body(&mut buffer, b"bad"));
    assert_eq!(error_body(&buffer), "bad");
    let long = "y".repeat(MAX_ERROR_BODY);
    assert!(!gather_error_body(&mut buffer, long.as_bytes()));
    assert_eq!(buffer.len(), MAX_ERROR_BODY);
    assert_eq!(error_body(&Vec::new()), "(empty body)");
    let escaped = escape_controls("a\u{1b}[31m");
    assert!(!escaped.chars().any(char::is_control), "{escaped}");
    assert_eq!(escaped, "a\\u{1b}[31m");
    assert_eq!(error_body(&b"a\xff".to_vec()), "a\u{fffd}");
}

fn connection(port: u16, api_key: &str, epoch: u64, started_at: &str) -> ValidatedConnection {
    ValidatedConnection {
        port,
        api_key: api_key.to_owned(),
        epoch,
        started_at: started_at.to_owned(),
    }
}

#[test]
fn capability_replacement_publishes_one_coherent_snapshot() {
    let mut binding = GatewayBinding::new("http://127.0.0.1:54375", "old-key");
    let old = binding.snapshot();
    let port = 54999;
    let validated = connection(port, "new-key", 1_778_000_001, "2026-09-07T18:00:01Z");

    binding
        .replace_sidecar(&validated)
        .expect("replacement builds");
    let new = binding.snapshot();

    assert_eq!(old.client().base_url(), "http://127.0.0.1:54375");
    assert_eq!(old.client().api_key(), "old-key");
    assert_eq!(old.base_url(), "http://127.0.0.1:54375");
    assert_eq!(old.api_key(), "old-key");
    assert!(
        old.identity().is_none(),
        "configured gateways have no local identity"
    );
    assert_eq!(new.client().base_url(), format!("http://127.0.0.1:{port}"));
    assert_eq!(new.client().api_key(), "new-key");
    assert_eq!(new.base_url(), format!("http://127.0.0.1:{port}"));
    assert_eq!(new.api_key(), "new-key");
    let identity = new.identity().expect("the validated identity is published");
    assert_eq!(identity, validated);
    assert!(new.generation() > old.generation());
    assert_eq!(binding.generation(), new.generation());
}

#[test]
fn same_port_and_key_new_boot_still_publishes_a_new_identity() {
    let first = connection(54001, "stable-key", 1_778_000_001, "2026-09-07T18:00:01Z");
    let replacement = connection(54001, "stable-key", 1_778_000_002, "2026-09-07T18:00:02Z");
    let mut binding = GatewayBinding::new("http://127.0.0.1:54375", "stable-key");
    binding
        .replace_sidecar(&first)
        .expect("the first identity publishes");
    let first_snapshot = binding.snapshot();
    binding
        .replace_sidecar(&replacement)
        .expect("the replacement identity publishes");
    let replacement_snapshot = binding.snapshot();

    assert_eq!(replacement_snapshot.base_url(), first_snapshot.base_url());
    assert_eq!(replacement_snapshot.api_key(), first_snapshot.api_key());
    assert!(
        replacement_snapshot.generation() > first_snapshot.generation(),
        "identity replacement advances the generation even with a stable endpoint and bearer"
    );
    assert_eq!(
        replacement_snapshot.identity().as_ref(),
        Some(&replacement),
        "the snapshot carries the new validated boot"
    );
}

#[test]
fn close_before_publish_preserves_the_complete_original_generation() {
    let validated = connection(54002, "new-key", 1_778_000_001, "2026-09-07T18:00:01Z");
    let mut binding = GatewayBinding::new("http://127.0.0.1:54375", "old-key");
    let changed = binding.changed();

    binding.close_publication();
    assert!(matches!(
        binding.replace_sidecar(&validated),
        Err(GatewayPublicationError::PublicationClosed)
    ));

    let observed = binding.snapshot();
    assert_eq!(binding.changed(), changed, "the snapshot is the one held before");
    assert_eq!(observed.generation(), 0);
    assert_eq!(observed.base_url(), "http://127.0.0.1:54375");
    assert_eq!(observed.api_key(), "old-key");
    assert!(observed.identity().is_none());
}

#[test]
fn publish_before_close_preserves_the_complete_final_generation() {
    let first = connection(54003, "first-key", 1_778_000_001, "2026-09-07T18:00:01Z");
    let second = connection(54004, "second-key", 1_778_000_002, "2026-09-07T18:00:02Z");
    let mut binding = GatewayBinding::new("http://127.0.0.1:54375", "old-key");
    binding
        .replace_sidecar(&first)
        .expect("publish wins before close");
    let changed = binding.changed();

    binding.close_publication();
    assert!(matches!(
        binding.replace_sidecar(&second),
        Err(GatewayPublicationError::PublicationClosed)
    ));

    let observed = binding.snapshot();
    assert_eq!(binding.changed(), changed, "the snapshot is the one held before");
    assert_eq!(observed.generation(), 1);
    assert_eq!(
        observed.base_url(),
        format!("http://127.0.0.1:{}", first.port)
    );
    assert_eq!(observed.api_key(), "first-key");
    assert_eq!(observed.identity().as_ref(), Some(&first));
}

#[test]
fn publication_close_is_permanent_for_every_updater_clone() {
    let mut binding = GatewayBinding::new("http://127.0.0.1:54375", "old-key");
    let original = binding.snapshot();
    let changed = binding.changed();
    let validated = connection(54005, "new-key", 1_778_000_001, "2026-09-07T18:00:01Z");

    binding.close_publication();
    assert!(binding.publication_closed());
    for _ in 0..3 {
        let error = binding
            .replace_sidecar(&validated)
            .expect_err("a closed binding rejects every replacement");
        assert!(matches!(error, GatewayPublicationError::PublicationClosed));
        assert_eq!(
            error.to_string(),
            "gateway replacement publication is permanently closed"
        );
    }
    assert!(matches!(
        binding.replace_sidecar_cancellable(&validated, Race::CancelledAtStart),
        Err(GatewayPublicationError::PublicationClosed)
    ));

    assert_eq!(
        binding.snapshot().generation(),
        original.generation(),
        "rejected publication does not advance or store a generation"
    );
    assert_eq!(
        binding.changed(),
        changed,
        "rejected publication does not notify subscribers"
    );
}

#[test]
fn a_cancelled_replacement_is_not_published() {
    let mut binding = GatewayBinding::new("http://127.0.0.1:54375", "old-key");
    let validated = connection(54010, "new-key", 1_778_000_001, "2026-09-07T18:00:01Z");
    for race in [
        Race::CancelledAtStart,
        Race::ScopeEnded,
        Race::Locked { cancelled: true },
    ] {
        let published = binding
            .replace_sidecar_cancellable(&validated, race)
            .expect("a cancelled replacement is no error");
        assert!(!published, "{race:?}");
        assert_eq!(binding.generation(), 0);
    }
    let published = binding
        .replace_sidecar_cancellable(&validated, Race::Locked { cancelled: false })
        .expect("an open binding publishes");
    assert!(published);
    assert_eq!(binding.generation(), 1);
    assert_eq!(binding.snapshot().base_url(), "http://127.0.0.1:54010");
    binding.close_publication();
    assert!(binding
        .replace_sidecar_cancellable(&validated, Race::ScopeEnded)
        .is_err());
    assert!(binding
        .replace_sidecar_cancellable(&validated, Race::Locked { cancelled: false })
        .is_err());
    assert!(matches!(GatewayBinding::waited(true), Some(Ok(false))));
    assert!(GatewayBinding::waited(false).is_none(), "the lock is tried again");
}

#[test]
fn configured_gateway_has_no_shutdown_authority() {
    let binding = GatewayBinding::new("http://192.0.2.10:8080", "configured-key");

    assert!(
        binding.shutdown_target().is_none(),
        "the absence of validated local identity denies shutdown authority"
    );
}

#[test]
fn publication_close_preserves_shutdown_authority_for_the_current_snapshot() {
    let current = connection(54006, "current-key", 1_778_000_001, "2026-09-07T18:00:01Z");
    let base_url = format!("http://127.0.0.1:{}", current.port);
    let mut binding =
        GatewayBinding::new_with_identity(&base_url, "current-key", Some(current.clone()));

    binding.close_publication();

    assert_eq!(
        binding.shutdown_target(),
        Some(current),
        "closure revokes future publication without tearing current shutdown authority"
    );
}

#[test]
fn a_binding_keeps_the_timeouts_of_its_client() {
    let client = GatewayClient::new("http://gw/", "tok").with_timeouts(3, 1);
    let binding = GatewayBinding::from_client(client);
    let snapshot = binding.snapshot();
    assert_eq!(snapshot.base_url(), "http://gw");
    assert_eq!(snapshot.generation(), 0);
    assert_eq!(
        snapshot.client().request(Route::Health).bound,
        Bound::Whole(1)
    );
}

#[test]
fn the_shutdown_target_is_the_identity_that_is_current() {
    let original = connection(54007, "original-key", 1_778_000_001, "2026-09-07T18:00:01Z");
    let replacement = connection(54008, "replacement-key", 1_778_000_002, "2026-09-07T18:00:02Z");
    let mut binding = GatewayBinding::new_with_identity(
        "http://127.0.0.1:54007",
        "original-key",
        Some(original.clone()),
    );
    assert_eq!(binding.shutdown_target(), Some(original));
    binding
        .replace_sidecar(&replacement)
        .expect("the replacement publishes");
    assert_eq!(binding.shutdown_target(), Some(replacement));
}

/// An explicit gateway config: a LAN URL, never the built-in default.
fn explicit_config() -> GatewayConfig {
    GatewayConfig {
        base_url: "http://gateway.lan:9999".to_owned(),
        api_key: "config-key".to_owned(),
    }
}

fn empty_config() -> GatewayConfig {
    GatewayConfig {
        base_url: String::new(),
        api_key: String::new(),
    }
}

#[test]
fn a_live_gateway_discovery_file_wins_over_explicit_config() {
    let port = 54009;
    let live = connection(port, "file-key", 1_757_000_000, "2026-09-03T12:00:00Z");

    let resolved = resolve_with(Discovery::Attached(Ok(live)), &explicit_config())
        .expect("a live file resolves");
    assert_eq!(resolved.source(), GatewaySource::GatewayDiscoveryFile);
    assert_eq!(resolved.base_url(), format!("http://127.0.0.1:{port}"));
    assert_eq!(resolved.api_key(), "file-key");
    assert_eq!(
        resolved.identity().map(|identity| identity.port),
        Some(port),
        "the winning sidecar retains its validated identity for the initial snapshot"
    );
    assert_eq!(resolved.stale(), None);
}

#[test]
fn a_stale_file_is_cleaned_and_explicit_config_wins() {
    let resolved = resolve_with(
        Discovery::Stale(StaleReason::ProcessDead),
        &explicit_config(),
    )
    .expect("explicit config is the fallback");
    assert_eq!(resolved.source(), GatewaySource::Config);
    assert_eq!(resolved.base_url(), "http://gateway.lan:9999");
    assert_eq!(resolved.api_key(), "config-key");
    assert_eq!(resolved.stale(), Some(StaleReason::ProcessDead));
    assert!(resolved.identity().is_none());
}

#[test]
fn a_wrong_key_is_reported_distinctly_from_a_dead_pid() {
    let resolved = resolve_with(
        Discovery::Stale(StaleReason::KeyRejected),
        &explicit_config(),
    )
    .expect("explicit config is the fallback");
    assert_eq!(resolved.stale(), Some(StaleReason::KeyRejected));

    let resolved = resolve_with(
        Discovery::Stale(StaleReason::ProcessDead),
        &explicit_config(),
    )
    .expect("explicit config is the fallback");
    assert_eq!(resolved.stale(), Some(StaleReason::ProcessDead));
}

#[test]
fn no_file_and_no_explicit_config_is_the_plain_error() {
    let error = resolve_with(Discovery::Absent, &empty_config())
        .expect_err("an empty base_url is not explicit config");
    assert!(
        error
            .to_string()
            .contains("no gateway configured or running"),
        "the error says it plainly: {}",
        error.to_string()
    );
    assert_eq!(error.stale(), None, "no file existed to condemn");
    assert_eq!(
        error.to_string(),
        "no gateway configured or running; start promptforge-gateway or set [gateway] base_url \
         and api_key in workshop.toml"
    );
}

#[test]
fn an_explicitly_configured_default_url_is_honored() {
    let config = GatewayConfig {
        base_url: "http://127.0.0.1:8081".to_owned(),
        api_key: "config-key".to_owned(),
    };
    let resolved =
        resolve_with(Discovery::Absent, &config).expect("an explicitly configured URL resolves");
    assert_eq!(resolved.source(), GatewaySource::Config);
    assert_eq!(resolved.base_url(), "http://127.0.0.1:8081");
    assert_eq!(resolved.api_key(), "config-key");
}

#[test]
fn a_stale_file_with_no_explicit_config_carries_the_reason_into_the_error() {
    let error = resolve_with(
        Discovery::Attached(Err(StaleReason::KeyRejected)),
        &empty_config(),
    )
    .expect_err("no explicit config remains");
    assert_eq!(error.stale(), Some(StaleReason::KeyRejected));
    let message = error.to_string();
    assert!(
        message.contains("no gateway configured or running"),
        "the error says it plainly: {message}"
    );
    assert!(
        message.contains("key was rejected"),
        "the condemned file's reason is named: {message}"
    );
}

#[test]
fn no_file_and_explicit_config_uses_the_config() {
    let resolved =
        resolve_with(Discovery::Absent, &explicit_config()).expect("explicit config resolves");
    assert_eq!(resolved.source(), GatewaySource::Config);
    assert_eq!(resolved.stale(), None);
}

#[test]
fn a_probe_io_failure_degrades_to_the_config_fallback() {
    let resolved = resolve_with(Discovery::Failed, &explicit_config())
        .expect("a probe failure never fails startup on its own");
    assert_eq!(resolved.source(), GatewaySource::Config);
    assert_eq!(resolved.base_url(), "http://gateway.lan:9999");
    assert_eq!(resolved.stale(), None, "nothing was condemned");
}

#[test]
fn a_probe_io_failure_with_no_explicit_config_is_the_plain_error() {
    let error = resolve_with(Discovery::Failed, &empty_config())
        .expect_err("no explicit config remains after a probe failure");
    assert!(
        error
            .to_string()
            .contains("no gateway configured or running"),
        "the error says it plainly: {}",
        error.to_string()
    );
    assert_eq!(error.stale(), None, "a probe failure is not a condemnation");
}

#[test]
fn no_run_directory_skips_discovery() {
    let resolved = resolve_with(Discovery::Skipped, &explicit_config())
        .expect("explicit config resolves without a run directory");
    assert_eq!(resolved.source(), GatewaySource::Config);
    assert_eq!(resolved.stale(), None);

    let error = resolve_with(Discovery::Skipped, &empty_config())
        .expect_err("no run directory and no explicit config is the plain error");
    assert!(
        error
            .to_string()
            .contains("no gateway configured or running"),
        "the error says it plainly: {}",
        error.to_string()
    );
}

#[test]
fn the_report_names_the_winning_source_and_a_condemned_file() {
    let config = GatewayConfig {
        base_url: "http://127.0.0.1:4000".to_owned(),
        api_key: "k".to_owned(),
    };
    let resolved = resolve_with(Discovery::Stale(StaleReason::KeyRejected), &config)
        .expect("explicit config is the fallback");
    let frames = report(&resolved);

    assert_eq!(frames.len(), 2);
    assert_eq!(frames[0].label, "Stale gateway discovery file");
    assert!(
        frames[0].description.contains("key was rejected"),
        "the stale reason is named: {}",
        frames[0].description
    );
    assert_eq!(frames[1].label, "Connecting to gateway");
    assert!(
        frames[1].description.contains("http://127.0.0.1:4000")
            && frames[1].description.contains("workshop.toml"),
        "the endpoint and its source are named: {}",
        frames[1].description
    );
    let plain = ResolvedGateway::from_config(&config);
    assert_eq!(report(&plain).len(), 1, "nothing was condemned");
}

#[test]
fn every_stale_reason_has_its_own_clause() {
    assert_eq!(stale_clause(StaleReason::Invalid), "the file was not valid");
    assert_eq!(
        stale_clause(StaleReason::ProcessDead),
        "the recorded gateway process is dead"
    );
    assert_eq!(
        stale_clause(StaleReason::ImageMismatch),
        "the recorded pid belongs to another program"
    );
    assert_eq!(
        stale_clause(StaleReason::HealthFailed),
        "the recorded gateway does not answer"
    );
    assert_eq!(
        stale_clause(StaleReason::KeyRejected),
        "the file's key was rejected"
    );
    assert_eq!(stale_clause(StaleReason::Other), "the file is stale");
}

fn retained(label: &str) -> StatusBarUpdate {
    StatusBarUpdate {
        label: label.to_owned(),
        description: String::new(),
        progress: None,
        severity: Severity::Info,
        activity: Activity::General,
    }
}

#[test]
fn a_join_recomputes_a_stale_connect_announcement_to_the_resting_line() {
    let health = GatewayHealth::new();
    let update = join_status(Some(retained(CONNECTED_LABEL)), &health)
        .expect("a retained transition still yields a join line");
    assert_eq!(update.label, "Ready");
    assert_eq!(update.severity, Severity::Info);
}

#[test]
fn a_join_recomputes_a_stale_connect_announcement_during_an_outage() {
    let mut health = GatewayHealth::new();
    health.publish(false);
    let update = join_status(Some(retained(CONNECTED_LABEL)), &health)
        .expect("a retained transition still yields a join line");
    assert_eq!(update.label, UNREACHABLE_LABEL);
    assert_eq!(update.description, UNREACHABLE_DESCRIPTION);
}

#[test]
fn a_join_keeps_a_retained_outage_while_the_gateway_is_down() {
    let mut health = GatewayHealth::new();
    health.publish(false);
    let update = join_status(Some(retained(UNREACHABLE_LABEL)), &health)
        .expect("the outage line survives the recompute");
    assert_eq!(update.label, UNREACHABLE_LABEL);
}

#[test]
fn a_join_replays_a_retained_frame_carrying_real_work() {
    let health = GatewayHealth::new();
    let working = Some(StatusBarUpdate {
        label: "Downloading model".to_owned(),
        description: "ggml-large-v3.bin".to_owned(),
        progress: Some(Progress {
            current: 1,
            total: 2,
        }),
        severity: Severity::Info,
        activity: Activity::General,
    });
    let update = join_status(working, &health).expect("the work frame replays as-is");
    assert_eq!(update.label, "Downloading model");
    assert!(update.progress.is_some());
}

#[test]
fn a_join_with_no_retained_frame_sends_nothing() {
    let health = GatewayHealth::new();
    assert!(join_status(None, &health).is_none());
}

#[test]
fn the_probe_bound_is_shorter_than_the_heartbeat_interval() {
    assert!(
        HEALTH_PROBE_TIMEOUT < HEARTBEAT_INTERVAL,
        "a probe outlasting the interval would back the heartbeat up \
         behind a stalled gateway"
    );
}

#[test]
fn health_notifies_only_when_the_flag_flips() {
    let mut health = GatewayHealth::default();
    assert!(health.is_reachable(), "the flag starts optimistic");
    assert!(!health.publish(true));
    assert!(health.publish(false));
    assert!(!health.is_reachable());
    assert!(!health.publish(false));
}

#[test]
fn the_heartbeat_announces_transitions_and_restores_once() {
    let mut state = HeartbeatLoop::new();
    assert_eq!(state.next(), Next::Probe, "the first probe runs at once");

    let first = state.probed(1, 1, true);
    assert_eq!(first.published, Some(true));
    assert_eq!(first.announced, Some(true));
    assert!(!first.restore);
    assert_eq!(
        first.next,
        Next::Refresh {
            profiles: true,
            catalog: true
        }
    );
    let half = state.refreshed(Some(true), Some(false));
    assert!(!half.restore);
    assert_eq!(state.next(), Next::Wait);

    let second = state.probed(1, 1, true);
    assert_eq!(second.announced, None, "a steady state is not announced");
    assert_eq!(
        second.next,
        Next::Refresh {
            profiles: false,
            catalog: true
        },
        "only the source that is not ready is refreshed"
    );
    assert!(state.refreshed(None, Some(true)).restore);
    let third = state.probed(1, 1, true);
    assert!(!third.restore, "the selection is restored exactly once");
    assert_eq!(third.next, Next::Wait);

    let outage = state.probed(1, 1, false);
    assert_eq!(outage.announced, Some(false));
    assert_eq!(state.next(), Next::Draw);
    assert_eq!(
        state.drawn(Some((2, 250_000_001))),
        Next::Delay {
            seconds: 2,
            nanos: 250_000_001
        }
    );
    assert_eq!(state.drawn(None), Next::GiveUp);

    let stale = state.probed(1, 2, true);
    assert_eq!(stale.published, None, "a replaced generation is not published");
    assert_eq!(state.next(), Next::Probe);
    assert_eq!(state.interrupted(Interrupt::Rebound), Next::Probe);
    assert_eq!(state.interrupted(Interrupt::Stop), Next::Stop);
    assert_eq!(state.interrupted(Interrupt::BindingGone), Next::Stop);
}

#[test]
fn an_announcement_says_what_the_probe_read() {
    assert_eq!(CONNECTED_LABEL, "Connected to gateway");
    assert_eq!(UNREACHABLE_LABEL, "Gateway unreachable");
    let shows = |line: StatusBarUpdate, label: &str, description: &str, severity: Severity| {
        assert_eq!(line.label, label);
        assert_eq!(line.description, description);
        assert!(line.progress.is_none());
        assert_eq!(line.severity, severity);
        assert_eq!(line.activity, Activity::General);
    };
    shows(announcement(true), CONNECTED_LABEL, CONNECTED_DESCRIPTION, Severity::Info);
    shows(announcement(false), UNREACHABLE_LABEL, UNREACHABLE_DESCRIPTION, Severity::Info);
    shows(gave_up(), STOPPED_LABEL, STOPPED_DESCRIPTION, Severity::Error);
}

#[test]
fn a_catalog_is_read_from_its_data_array() {
    let models = catalog_models(200, br#"{"object":"list","data":[{"id":"m"},{"x":1.5}]}"#)
        .expect("a well-formed catalog is read");
    assert_eq!(models.len(), 2);
    assert_eq!(
        models[0],
        Json::Object(vec![("id".to_owned(), Json::Text("m".to_owned()))])
    );
    assert_eq!(
        models[1],
        Json::Object(vec![("x".to_owned(), Json::Number("1.5".to_owned()))])
    );
    assert_eq!(catalog_models(503, br#"{"data":[]}"#), None, "declined");
    assert_eq!(catalog_models(200, b"{not json"), None, "not JSON");
    assert_eq!(catalog_models(200, br#"{"models":[]}"#), None, "no data array");
    assert_eq!(catalog_models(200, br#"{"data":7}"#), None, "no array");
    assert_eq!(listed_models(&Json::Array(Vec::new())), None);

    let entries = menu_models(&models, &vec![true, false]);
    assert_eq!(entries[0].id.as_deref(), Some("m"));
    assert!(entries[0].chat);
    assert_eq!(entries[1].id, None);
    assert!(!entries[1].chat);
}

#[test]
fn profile_answers_degrade_to_empty() {
    let names = || Some(vec!["a".to_owned(), "b".to_owned()]);
    assert_eq!(fetched_profiles(200, names()), names());
    assert_eq!(fetched_profiles(500, names()), None);
    assert_eq!(fetched_profiles(200, None), None);
    assert_eq!(
        fetched_active(200, Some(Some("a".to_owned()))),
        Some("a".to_owned())
    );
    assert_eq!(fetched_active(404, Some(Some("a".to_owned()))), None);
    assert_eq!(fetched_active(200, Some(None)), None);
    assert_eq!(fetched_active(200, None), None);
    assert_eq!(published_profiles(None), Vec::<String>::new());
    assert_eq!(published_profiles(names()), ["a", "b"]);
    assert!(profiles_ready(&names(), &Some("b".to_owned())));
    assert!(!profiles_ready(&names(), &Some("c".to_owned())));
    assert!(!profiles_ready(&names(), &None));
    assert!(!profiles_ready(&Some(Vec::new()), &Some("a".to_owned())));
    assert!(!profiles_ready(&None, &Some("a".to_owned())));
}

#[test]
fn the_subscriber_tracks_one_import_per_operation() {
    let mut state = SubscriberLoop::new(true);
    assert_eq!(state.phase(), Phase::Connecting);
    state.on_event(Event::Connected, true);
    assert_eq!(state.phase(), Phase::Streaming);
    assert_eq!(state.on_progress(7, false), Import::Attach);
    assert_eq!(state.on_progress(8, false), Import::Attach);
    assert_eq!(state.on_progress(7, false), Import::Apply);
    assert_eq!(state.on_progress(7, true), Import::Detach);
    assert_eq!(state.on_progress(7, true), Import::Ignore);
    assert_eq!(state.on_progress(8, false), Import::Apply, "the other stays");
    assert_eq!(state.phase(), Phase::Streaming, "the stream stays open");

    state.on_event(Event::StreamEnded, true);
    assert_eq!(state.phase(), Phase::Delaying);
    assert_eq!(state.on_progress(8, false), Import::Ignore);
    state.on_event(Event::DelayElapsed, true);
    assert_eq!(state.phase(), Phase::Connecting);
    state.on_event(Event::Connected, true);
    assert_eq!(
        state.on_progress(8, false),
        Import::Attach,
        "a new subscription starts fresh"
    );

    state.on_event(Event::Rebound, true);
    assert_eq!(state.phase(), Phase::Connecting, "a replacement moves at once");
    state.on_event(Event::ConnectFailed, true);
    assert_eq!(state.phase(), Phase::Delaying);
    state.on_event(Event::HealthChanged, false);
    assert_eq!(state.phase(), Phase::Idle);
    state.on_event(Event::HealthChanged, true);
    assert_eq!(state.phase(), Phase::Connecting);
    state.on_event(Event::Stop, true);
    assert_eq!(state.phase(), Phase::Stopped);
    state.on_event(Event::Connected, true);
    assert_eq!(state.phase(), Phase::Stopped);
}
