use blackbird::ai::agent::{hosted_conversation, hosted_prompt, split_last, AGENT_SYSTEM_PROMPT};
use blackbird::ai::backend::{select_backend, BackendConfig, BackendSelection, is_flag_on};
use blackbird::ai::custom::CustomBackend;
use blackbird::ai::client::StreamStore;
use blackbird::ai::error::{ChatError, ChatErrorKind};
use blackbird::ai::gateway::{
    chat_reply, chat_reply_stream_poll, chat_reply_stream_start, Exchange, StreamEvent,
};
use blackbird::types::{ChatMessage, Role};

fn conversation() -> Vec<ChatMessage> {
    vec![
        ChatMessage::new(Role::User, "Hi".to_string()),
        ChatMessage::new(Role::Assistant, "Hello".to_string()),
        ChatMessage::new(Role::User, "How are you?".to_string()),
    ]
}

fn local_config() -> BackendConfig {
    let mut config = BackendConfig::empty();
    config.use_ollama = Some("true".to_string());
    config.llm_model = Some("llama3".to_string());
    config
}

fn direct_config() -> BackendConfig {
    let mut config = BackendConfig::empty();
    config.llm_endpoint = Some("http://localhost:9000/chat".to_string());
    config
}

fn hosted_config() -> BackendConfig {
    let mut config = BackendConfig::empty();
    config.blackbird_endpoint = Some("https://api.example.com/v1/chat".to_string());
    config
}

fn chunk(text: &str) -> StreamEvent {
    StreamEvent::Chunk { bytes: text.as_bytes().to_vec() }
}

#[test]
fn local_stream_of_three_lines_polls_hello_world() {
    let mut store = StreamStore::new();
    let mut task = chat_reply_stream_start(&mut store, &local_config(), &conversation()).unwrap();
    let id = task.id();
    assert_eq!(chat_reply_stream_poll(&store, id), Ok((String::new(), false)));
    assert!(task.advance(&mut store, &chunk("{\"message\":{\"content\":\"Hello\"},\"done\":false}\n")));
    assert_eq!(chat_reply_stream_poll(&store, id), Ok(("Hello".to_string(), false)));
    assert!(task.advance(&mut store, &chunk("{\"message\":{\"content\":\" world\"},\"done\":false}\n")));
    assert!(!task.advance(&mut store, &chunk("{\"done\":true}\n")));
    assert_eq!(chat_reply_stream_poll(&store, id), Ok(("Hello world".to_string(), true)));
    assert!(task.finished);
}

#[test]
fn no_configuration_is_a_configuration_error() {
    let error = match chat_reply(&BackendConfig::empty(), &conversation()) {
        Ok(_) => panic!("a backend was selected"),
        Err(error) => error,
    };
    assert_eq!(error.kind, ChatErrorKind::Configuration);
    let text = error.to_string();
    assert!(text.contains("LLM_ENDPOINT"));
    assert!(text.contains("BLACKBIRD_ENDPOINT"));
    assert!(text.contains("LLM_USE_OLLAMA"));
    assert_eq!(
        text,
        "No LLM configured. Set LLM_ENDPOINT for a custom backend, BLACKBIRD_ENDPOINT for Blackbird, or LLM_USE_OLLAMA=true for local Ollama."
    );
}

#[test]
fn direct_http_bad_request_is_a_provider_error() {
    let pending = chat_reply(&direct_config(), &conversation()).ok().unwrap();
    let error = pending
        .finish(&Exchange::Response { status: 400, body: "bad request".to_string() })
        .unwrap_err();
    assert_eq!(
        error.kind,
        ChatErrorKind::Provider { status: 400, body: "bad request".to_string() }
    );
    assert!(error.to_string().contains("400"));
    assert!(error.to_string().contains("bad request"));
    assert_eq!(error.to_string(), "LLM endpoint error 400: bad request");
}

#[test]
fn stream_start_without_configuration_creates_nothing() {
    let mut store = StreamStore::new();
    let result = chat_reply_stream_start(&mut store, &BackendConfig::empty(), &conversation());
    match result {
        Ok(_) => panic!("a backend was selected"),
        Err(error) => assert_eq!(error, ChatError::configuration()),
    }
    assert!(chat_reply_stream_poll(&store, 1).is_err());
    let task = chat_reply_stream_start(&mut store, &local_config(), &conversation()).ok().unwrap();
    assert_eq!(task.id(), 1);
}

#[test]
fn selection_order_is_direct_then_local_then_hosted() {
    let mut all = BackendConfig::empty();
    all.llm_endpoint = Some("http://direct".to_string());
    all.use_ollama = Some("1".to_string());
    all.blackbird_endpoint = Some("http://hosted".to_string());
    assert!(matches!(select_backend(&all), Ok(BackendSelection::DirectHttp(_))));
    all.llm_endpoint = None;
    assert!(matches!(select_backend(&all), Ok(BackendSelection::LocalModel(_))));
    all.use_ollama = Some("false".to_string());
    assert!(matches!(select_backend(&all), Ok(BackendSelection::HostedService(_))));
    all.blackbird_endpoint = None;
    assert!(select_backend(&all).is_err());
}

#[test]
fn selection_fills_defaults() {
    match select_backend(&hosted_config()) {
        Ok(BackendSelection::HostedService(backend)) => {
            assert_eq!(backend.endpoint, "https://api.example.com/v1/chat");
            assert_eq!(backend.tier, "ultra");
            assert_eq!(backend.model, "gpt-oss-120b");
            assert_eq!(backend.api_key, None);
        }
        _ => panic!("the hosted service was not selected"),
    }
    let mut local = BackendConfig::empty();
    local.use_ollama = Some("YES".to_string());
    match select_backend(&local) {
        Ok(BackendSelection::LocalModel(backend)) => {
            assert_eq!(backend.model, "gpt-oss:20b");
            assert_eq!(backend.endpoint, "http://127.0.0.1:11434/api/chat");
        }
        _ => panic!("the local model was not selected"),
    }
    let mut hosted = hosted_config();
    hosted.blackbird_tier = Some("basic".to_string());
    hosted.blackbird_model = Some("small".to_string());
    hosted.blackbird_api_key = Some("SECRET-REDACTED".to_string());
    match select_backend(&hosted) {
        Ok(BackendSelection::HostedService(backend)) => {
            assert_eq!(backend.tier, "basic");
            assert_eq!(backend.model, "small");
            assert_eq!(backend.api_key, Some("SECRET-REDACTED".to_string()));
        }
        _ => panic!("the hosted service was not selected"),
    }
}

#[test]
fn flag_values() {
    for on in ["1", "true", "TRUE", "Yes", "on", "oN"] {
        assert!(is_flag_on(on), "{on}");
    }
    for off in ["", "0", "false", "no", "off", " true", "yes ", "enabled"] {
        assert!(!is_flag_on(off), "{off}");
    }
}

#[test]
fn requests_carry_what_each_backend_needs() {
    let messages = conversation();
    let direct = chat_reply(&direct_config(), &messages).ok().unwrap().request;
    assert_eq!(direct.url, "http://localhost:9000/chat");
    assert!(!direct.accept_event_stream);
    assert_eq!(direct.bearer, None);
    assert_eq!(direct.body.tier, None);
    assert_eq!(direct.body.model, None);
    assert_eq!(direct.body.stream, None);
    assert_eq!(direct.body.messages.len(), 3);
    assert_eq!(direct.body.messages[0].role, Role::User);
    assert_eq!(direct.body.messages[1].role, Role::Assistant);
    assert_eq!(direct.body.messages[2].content, "How are you?");
    assert_eq!(Role::Assistant.as_str(), "assistant");
    assert_eq!(Role::User.as_str(), "user");

    let local = chat_reply(&local_config(), &messages).ok().unwrap().request;
    assert_eq!(local.url, "http://127.0.0.1:11434/api/chat");
    assert_eq!(local.body.model, Some("llama3".to_string()));
    assert_eq!(local.body.stream, Some(false));

    let mut hosted_cfg = hosted_config();
    hosted_cfg.blackbird_api_key = Some("SECRET-REDACTED".to_string());
    let hosted = chat_reply(&hosted_cfg, &messages).ok().unwrap().request;
    assert_eq!(hosted.bearer, Some("SECRET-REDACTED".to_string()));
    assert_eq!(hosted.body.tier, Some("ultra".to_string()));
    assert_eq!(hosted.body.stream, None);
    assert!(!hosted.accept_event_stream);

    let mut store = StreamStore::new();
    let streamed = chat_reply_stream_start(&mut store, &hosted_cfg, &messages).ok().unwrap();
    assert!(streamed.request.accept_event_stream);
    assert_eq!(streamed.request.body.stream, Some(true));
    let local_stream = chat_reply_stream_start(&mut store, &local_config(), &messages).ok().unwrap();
    assert_eq!(local_stream.request.body.stream, Some(true));
    assert_eq!(local_stream.id(), streamed.id() + 1);
    assert!(streamed.backend.supports_streaming());
    let whole = chat_reply_stream_start(&mut store, &direct_config(), &messages).ok().unwrap();
    assert!(!whole.backend.supports_streaming());
    assert_eq!(whole.request.body.stream, None);
}

#[test]
fn direct_http_answers() {
    let pending = chat_reply(&direct_config(), &conversation()).ok().unwrap();
    let ok = |body: &str| {
        pending.finish(&Exchange::Response { status: 200, body: body.to_string() })
    };
    assert_eq!(ok(r#"{"content":"fine"}"#), Ok("fine".to_string()));
    assert_eq!(ok("plain text"), Ok("plain text".to_string()));
    assert_eq!(ok(r#"{"content":7}"#), Ok(r#"{"content":7}"#.to_string()));
    assert_eq!(ok(""), Ok(String::new()));
    assert_eq!(
        pending.finish(&Exchange::Response { status: 299, body: "{\"content\":\"x\"}".to_string() }),
        Ok("x".to_string())
    );
    let error = pending
        .finish(&Exchange::Response { status: 199, body: "early".to_string() })
        .unwrap_err();
    assert_eq!(error.to_string(), "LLM endpoint error 199: early");
    let error = pending
        .finish(&Exchange::Response { status: 300, body: String::new() })
        .unwrap_err();
    assert_eq!(error.to_string(), "LLM endpoint error 300: ");
    let error = pending.finish(&Exchange::Failed { reason: "connection refused".to_string() }).unwrap_err();
    assert_eq!(error.kind, ChatErrorKind::Transport);
    assert_eq!(error.to_string(), "connection refused");
}

#[test]
fn local_model_answers() {
    let pending = chat_reply(&local_config(), &conversation()).ok().unwrap();
    let ok = |body: &str| {
        pending.finish(&Exchange::Response { status: 200, body: body.to_string() })
    };
    assert_eq!(ok(r#"{"message":{"content":"hey"},"done":true}"#), Ok("hey".to_string()));
    assert_eq!(ok(r#"{"done":true}"#), Ok(r#"{"done":true}"#.to_string()));
    assert_eq!(ok("not json"), Ok("not json".to_string()));
    let error = pending
        .finish(&Exchange::Response { status: 500, body: "oops".to_string() })
        .unwrap_err();
    assert_eq!(error.to_string(), "Ollama error 500: oops");
}

#[test]
fn hosted_service_answers() {
    let pending = chat_reply(&hosted_config(), &conversation()).ok().unwrap();
    let ok = |body: &str| {
        pending.finish(&Exchange::Response { status: 200, body: body.to_string() })
    };
    assert_eq!(
        ok(r#"{"choices":[{"message":{"content":"first"}},{"message":{"content":"second"}}]}"#),
        Ok("first".to_string())
    );
    assert_eq!(ok(r#"{"content":"flat"}"#), Ok("flat".to_string()));
    assert_eq!(ok(r#"{"choices":[],"content":"flat"}"#), Ok("flat".to_string()));
    assert_eq!(ok(r#"{"other":1}"#), Ok(r#"{"other":1}"#.to_string()));
    assert_eq!(ok("raw"), Ok("raw".to_string()));
    let error = pending
        .finish(&Exchange::Response { status: 401, body: "denied".to_string() })
        .unwrap_err();
    assert_eq!(error.to_string(), "Blackbird error 401: denied");
    assert_eq!(error.kind, ChatErrorKind::Provider { status: 401, body: "denied".to_string() });
}

#[test]
fn partial_lines_wait_for_their_line_feed() {
    let mut store = StreamStore::new();
    let mut task = chat_reply_stream_start(&mut store, &local_config(), &conversation()).ok().unwrap();
    let id = task.id();
    assert!(task.advance(&mut store, &chunk("{\"message\":{\"con")));
    assert_eq!(chat_reply_stream_poll(&store, id), Ok((String::new(), false)));
    assert!(task.advance(&mut store, &chunk("tent\":\"Hel")));
    assert!(task.advance(&mut store, &chunk("lo\"}}\n\nnoise\n{\"message\":{\"content\":\"!\"}}\n{\"don")));
    assert_eq!(chat_reply_stream_poll(&store, id), Ok(("Hello!".to_string(), false)));
    assert!(!task.advance(&mut store, &StreamEvent::End));
    assert_eq!(chat_reply_stream_poll(&store, id), Ok(("Hello!".to_string(), true)));
}

#[test]
fn lines_after_the_last_record_are_not_read() {
    let mut store = StreamStore::new();
    let mut task = chat_reply_stream_start(&mut store, &local_config(), &conversation()).ok().unwrap();
    let id = task.id();
    let more = task.advance(
        &mut store,
        &chunk("{\"message\":{\"content\":\"a\"}}\n{\"message\":{\"content\":\"b\"},\"done\":true}\n{\"message\":{\"content\":\"c\"}}\n"),
    );
    assert!(!more);
    assert_eq!(chat_reply_stream_poll(&store, id), Ok(("ab".to_string(), true)));
    assert!(!task.advance(&mut store, &chunk("{\"message\":{\"content\":\"d\"}}\n")));
    assert!(!task.advance(&mut store, &StreamEvent::Failed { reason: "late".to_string() }));
    assert_eq!(chat_reply_stream_poll(&store, id), Ok(("ab".to_string(), true)));
}

#[test]
fn hosted_stream_of_events() {
    let mut store = StreamStore::new();
    let mut task = chat_reply_stream_start(&mut store, &hosted_config(), &conversation()).ok().unwrap();
    let id = task.id();
    assert!(task.advance(
        &mut store,
        &chunk("event: message\r\ndata: {\"choices\":[{\"delta\":{\"content\":\"Hel\"}}]}\r\n\r\ndata:{\"choi")
    ));
    assert_eq!(chat_reply_stream_poll(&store, id), Ok(("Hel".to_string(), false)));
    assert!(task.advance(
        &mut store,
        &chunk("ces\":[{\"delta\":{\"content\":\"lo\"}}]}\n\n: comment\ndata: {\"unknown\":true}\n\n")
    ));
    assert_eq!(chat_reply_stream_poll(&store, id), Ok(("Hello".to_string(), false)));
    assert!(task.advance(&mut store, &chunk("data: {\"content\":\n")));
    assert!(task.advance(&mut store, &chunk("data:    \" there\"}\n")));
    assert_eq!(chat_reply_stream_poll(&store, id), Ok(("Hello".to_string(), false)));
    assert!(task.advance(&mut store, &chunk("\n")));
    assert_eq!(chat_reply_stream_poll(&store, id), Ok(("Hello there".to_string(), false)));
    assert!(!task.advance(&mut store, &chunk("data: [DONE]\n\ndata: {\"content\":\"late\"}\n\n")));
    assert_eq!(chat_reply_stream_poll(&store, id), Ok(("Hello there".to_string(), true)));
}

#[test]
fn hosted_stream_that_ends_without_marker_is_done() {
    let mut store = StreamStore::new();
    let mut task = chat_reply_stream_start(&mut store, &hosted_config(), &conversation()).ok().unwrap();
    let id = task.id();
    assert!(task.advance(&mut store, &chunk("data: {\"content\":\"x\"}\n\ndata: {\"content\":\"y\"}\n")));
    assert!(!task.advance(&mut store, &StreamEvent::End));
    assert_eq!(chat_reply_stream_poll(&store, id), Ok(("x".to_string(), true)));
}

#[test]
fn rejected_and_failed_streams_end_with_a_message() {
    let mut store = StreamStore::new();
    let mut rejected = chat_reply_stream_start(&mut store, &local_config(), &conversation()).ok().unwrap();
    assert!(!rejected.advance(
        &mut store,
        &StreamEvent::Rejected { status: 404, body: "model not found".to_string() }
    ));
    assert_eq!(
        chat_reply_stream_poll(&store, rejected.id()),
        Ok(("Ollama error 404: model not found".to_string(), true))
    );

    let mut failed = chat_reply_stream_start(&mut store, &hosted_config(), &conversation()).ok().unwrap();
    assert!(failed.advance(&mut store, &chunk("data: {\"content\":\"partial\"}\n\n")));
    assert!(!failed.advance(&mut store, &StreamEvent::Failed { reason: "connection reset".to_string() }));
    assert_eq!(
        chat_reply_stream_poll(&store, failed.id()),
        Ok(("connection reset".to_string(), true))
    );
}

#[test]
fn direct_http_streams_by_one_whole_answer() {
    let mut store = StreamStore::new();
    let mut task = chat_reply_stream_start(&mut store, &direct_config(), &conversation()).ok().unwrap();
    let id = task.id();
    assert!(task.advance(&mut store, &chunk("{\"content\":")));
    assert!(task.advance(&mut store, &chunk("\"all at once\"}")));
    assert_eq!(chat_reply_stream_poll(&store, id), Ok((String::new(), false)));
    assert!(!task.advance(&mut store, &StreamEvent::End));
    assert_eq!(chat_reply_stream_poll(&store, id), Ok(("all at once".to_string(), true)));

    let mut rejected = chat_reply_stream_start(&mut store, &direct_config(), &conversation()).ok().unwrap();
    assert!(!rejected.advance(
        &mut store,
        &StreamEvent::Rejected { status: 400, body: "bad request".to_string() }
    ));
    assert_eq!(
        chat_reply_stream_poll(&store, rejected.id()),
        Ok(("LLM endpoint error 400: bad request".to_string(), true))
    );
}

#[test]
fn whole_answer_is_read_as_one_text() {
    let mut store = StreamStore::new();
    let mut task = chat_reply_stream_start(&mut store, &direct_config(), &conversation()).ok().unwrap();
    let id = task.id();
    let body = "{\"content\":\"caf\u{e9}\"}".as_bytes().to_vec();
    let split = body.len() - 3;
    assert!(task.advance(&mut store, &StreamEvent::Chunk { bytes: body[..split].to_vec() }));
    assert!(task.advance(&mut store, &StreamEvent::Chunk { bytes: body[split..].to_vec() }));
    assert!(!task.advance(&mut store, &StreamEvent::End));
    assert_eq!(chat_reply_stream_poll(&store, id), Ok(("caf\u{e9}".to_string(), true)));
}

#[test]
fn ill_formed_bytes_are_replaced() {
    let mut store = StreamStore::new();
    let mut task = chat_reply_stream_start(&mut store, &direct_config(), &conversation()).ok().unwrap();
    let id = task.id();
    assert!(task.advance(&mut store, &StreamEvent::Chunk { bytes: vec![b'a', 0xFF, b'b'] }));
    assert!(!task.advance(&mut store, &StreamEvent::End));
    assert_eq!(chat_reply_stream_poll(&store, id), Ok(("a\u{FFFD}b".to_string(), true)));
}

#[test]
fn direct_backend_streams_one_delta_and_ends() {
    let backend = CustomBackend::new("http://localhost:9000/chat".to_string());
    let mut store = StreamStore::new();
    let handle = store.create_handle();
    assert_eq!(backend.stream(200, "{\"content\":\"whole answer\"}", handle, &mut store), Ok(()));
    assert_eq!(store.snapshot(handle.id), Ok(("whole answer".to_string(), true)));

    let raw = store.create_handle();
    assert_eq!(backend.stream(204, "not json", raw, &mut store), Ok(()));
    assert_eq!(store.snapshot(raw.id), Ok(("not json".to_string(), true)));

    let refused = store.create_handle();
    let error = backend.stream(503, "busy", refused, &mut store).unwrap_err();
    assert_eq!(error.to_string(), "LLM endpoint error 503: busy");
    assert_eq!(store.snapshot(refused.id), Ok((String::new(), false)));
}

#[test]
fn local_model_is_always_reached_at_its_fixed_address() {
    let mut config = BackendConfig::empty();
    config.use_ollama = Some("on".to_string());
    config.blackbird_endpoint = Some("https://hosted.example/v1".to_string());
    let pending = chat_reply(&config, &conversation()).ok().unwrap();
    assert_eq!(pending.request.url, "http://127.0.0.1:11434/api/chat");
    assert_eq!(pending.request.body.model, Some("gpt-oss:20b".to_string()));
    assert_eq!(pending.request.body.stream, Some(false));
    assert_eq!(pending.request.bearer, None);
    let mut store = StreamStore::new();
    let task = chat_reply_stream_start(&mut store, &config, &conversation()).ok().unwrap();
    assert_eq!(task.request.url, "http://127.0.0.1:11434/api/chat");
}

#[test]
fn three_lines_in_any_chunks_poll_hello_world() {
    let body = "{\"message\":{\"content\":\"Hello\"},\"done\":false}\n{\"message\":{\"content\":\" world\"},\"done\":false}\n{\"done\":true}\n";
    for size in [1usize, 2, 3, 7, 16, 45, body.len()] {
        let mut store = StreamStore::new();
        let mut task = chat_reply_stream_start(&mut store, &local_config(), &conversation()).ok().unwrap();
        let id = task.id();
        let mut more = true;
        for piece in body.as_bytes().chunks(size) {
            assert!(more);
            more = task.advance(&mut store, &StreamEvent::Chunk { bytes: piece.to_vec() });
        }
        assert!(!more);
        assert_eq!(chat_reply_stream_poll(&store, id), Ok(("Hello world".to_string(), true)), "{size}");
    }
}

#[test]
fn hosted_conversation_puts_the_prompt_first_and_the_message_last() {
    let history = conversation();
    let out = hosted_conversation(history.clone(), "next question");
    assert_eq!(out.len(), 5);
    assert_eq!(out[0], ChatMessage::new(Role::User, AGENT_SYSTEM_PROMPT.to_string()));
    assert_eq!(&out[1..4], &history[..]);
    assert_eq!(out[4], ChatMessage::new(Role::User, "next question".to_string()));
    assert!(AGENT_SYSTEM_PROMPT.starts_with("You are Blackbird"));
    let single = hosted_prompt("only");
    assert_eq!(single.len(), 2);
    assert_eq!(single[1].content, "only");
    let (before, last) = split_last(history.clone()).unwrap();
    assert_eq!(before, history[..2].to_vec());
    assert_eq!(last, "How are you?");
    assert_eq!(split_last(Vec::new()), None);
}
