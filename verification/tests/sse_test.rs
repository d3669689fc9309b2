use snake::proxy::ClientResponse;
use snake::proxy::finish_response;
use snake::sse::SsePlan;
use snake::sse::classify_upstream;
use snake::sse::json_quote;
use snake::sse::split_words;
use snake::sse::synthesize_frames;

fn stream_frames(body: &[u8]) -> Vec<String> {
    match finish_response(200, vec![], body.to_vec(), true) {
        ClientResponse::Stream {
            status,
            headers,
            frames,
        } => {
            assert_eq!(status, 200);
            assert_eq!(headers[0].value, b"text/event-stream".to_vec());
            frames
        }
        ClientResponse::Direct { .. } => panic!("a stream was requested"),
    }
}

#[test]
fn hello_world_yields_two_deltas_terminal_and_sentinel() {
    let body = "{\"id\":\"abc\",\"created\":123,\"model\":\"m\",\"choices\":[{\"message\":{\"content\":\"Hello world\"},\"finish_reason\":\"stop\"}],\"usage\":{\"total_tokens\":5}}";
    let frames = stream_frames(body.as_bytes());
    assert_eq!(frames.len(), 4);
    assert_eq!(
        frames[0],
        "data: {\"choices\":[{\"delta\":{\"content\":\"Hello \"},\"finish_reason\":null,\"index\":0}],\"created\":123,\"id\":\"abc\",\"model\":\"m\",\"object\":\"chat.completion.chunk\"}\n\n"
    );
    assert_eq!(
        frames[1],
        "data: {\"choices\":[{\"delta\":{\"content\":\"world\"},\"finish_reason\":null,\"index\":0}],\"created\":123,\"id\":\"abc\",\"model\":\"m\",\"object\":\"chat.completion.chunk\"}\n\n"
    );
    assert_eq!(
        frames[2],
        "data: {\"choices\":[{\"delta\":{},\"finish_reason\":\"stop\",\"index\":0}],\"created\":123,\"id\":\"abc\",\"model\":\"m\",\"object\":\"chat.completion.chunk\",\"usage\":{\"total_tokens\":5}}\n\n"
    );
    assert_eq!(frames[3], "data: [DONE]\n\n");
}

#[test]
fn plain_text_body_is_one_frame_then_sentinel() {
    let frames = stream_frames(b"plain text");
    assert_eq!(frames.len(), 2);
    assert_eq!(frames[0], "data: plain text\n\n");
    assert_eq!(frames[1], "data: [DONE]\n\n");
}

#[test]
fn json_without_choices_is_emitted_whole() {
    let frames = stream_frames(b"{\"foo\":1}");
    assert_eq!(frames.len(), 2);
    assert_eq!(frames[0], "data: {\"foo\":1}\n\n");
    assert_eq!(frames[1], "data: [DONE]\n\n");
}

#[test]
fn empty_choices_emit_only_the_sentinel() {
    let frames = stream_frames(b"{\"choices\":[]}");
    assert_eq!(frames, vec!["data: [DONE]\n\n".to_string()]);
}

#[test]
fn unreadable_body_still_terminates_the_stream() {
    let frames = stream_frames(&[0xff, 0xfe, 0x01]);
    assert_eq!(frames, vec!["data: [DONE]\n\n".to_string()]);
}

#[test]
fn first_choice_without_content_is_emitted_verbatim() {
    let body = "{\"id\":\"x\",\"choices\":[{\"text\":\"raw\"}]}";
    let frames = stream_frames(body.as_bytes());
    assert_eq!(frames.len(), 2);
    assert_eq!(
        frames[0],
        "data: {\"choices\":[{\"text\":\"raw\"}],\"created\":0,\"id\":\"x\",\"model\":\"unknown\",\"object\":\"chat.completion.chunk\"}\n\n"
    );
    assert_eq!(frames[1], "data: [DONE]\n\n");
}

#[test]
fn missing_finish_reason_defaults_to_stop() {
    let body = "{\"choices\":[{\"message\":{\"content\":\"hi\"}}]}";
    let frames = stream_frames(body.as_bytes());
    assert_eq!(frames.len(), 3);
    assert_eq!(
        frames[1],
        "data: {\"choices\":[{\"delta\":{},\"finish_reason\":\"stop\",\"index\":0}],\"created\":0,\"id\":\"unknown\",\"model\":\"unknown\",\"object\":\"chat.completion.chunk\"}\n\n"
    );
}

#[test]
fn explicit_null_finish_reason_is_kept() {
    let body = "{\"choices\":[{\"message\":{\"content\":\"hi\"},\"finish_reason\":null}]}";
    let frames = stream_frames(body.as_bytes());
    assert_eq!(frames.len(), 3);
    assert_eq!(
        frames[1],
        "data: {\"choices\":[{\"delta\":{},\"finish_reason\":null,\"index\":0}],\"created\":0,\"id\":\"unknown\",\"model\":\"unknown\",\"object\":\"chat.completion.chunk\"}\n\n"
    );
}

#[test]
fn content_with_quotes_is_escaped_in_deltas() {
    let body = "{\"choices\":[{\"message\":{\"content\":\"a\\\"b\"}}]}";
    let frames = stream_frames(body.as_bytes());
    assert_eq!(frames.len(), 3);
    assert_eq!(
        frames[0],
        "data: {\"choices\":[{\"delta\":{\"content\":\"a\\\"b\"},\"finish_reason\":null,\"index\":0}],\"created\":0,\"id\":\"unknown\",\"model\":\"unknown\",\"object\":\"chat.completion.chunk\"}\n\n"
    );
}

#[test]
fn whitespace_runs_collapse_to_single_separators() {
    let body = "{\"choices\":[{\"message\":{\"content\":\"  Hello \\t world \\n\"}}]}";
    let frames = stream_frames(body.as_bytes());
    // Two word frames, one terminal frame, one sentinel.
    assert_eq!(frames.len(), 4);
    assert!(frames[0].contains("\"content\":\"Hello \""));
    assert!(frames[1].contains("\"content\":\"world\""));
}

#[test]
fn all_whitespace_content_yields_terminal_and_sentinel_only() {
    let body = "{\"choices\":[{\"message\":{\"content\":\" \\t \"}}]}";
    let frames = stream_frames(body.as_bytes());
    assert_eq!(frames.len(), 2);
    assert!(frames[0].contains("\"delta\":{}"));
    assert_eq!(frames[1], "data: [DONE]\n\n");
}

#[test]
fn sentinel_shaped_text_body_doubles_the_marker() {
    // A body that is literally the sentinel word is not JSON, so it is
    // passed through as text; the client then sees two identical frames.
    // This is the one shape of input on which "exactly one sentinel"
    // cannot hold.
    let frames = stream_frames(b"[DONE]");
    assert_eq!(
        frames,
        vec!["data: [DONE]\n\n".to_string(), "data: [DONE]\n\n".to_string()]
    );
}

#[test]
fn classification_matches_the_parse_outcome() {
    match classify_upstream(&b"plain".to_vec()) {
        SsePlan::Text { text } => assert_eq!(text, "plain"),
        _ => panic!("a non-JSON text body classifies as text"),
    }
    match classify_upstream(&vec![0xc0]) {
        SsePlan::Binary => {}
        _ => panic!("invalid UTF-8 classifies as binary"),
    }
    match classify_upstream(&b"[1,2]".to_vec()) {
        SsePlan::Opaque { doc } => assert_eq!(doc, "[1,2]"),
        _ => panic!("JSON without a choices array is opaque"),
    }
}

#[test]
fn synthesize_follows_plan_directly() {
    let plan = SsePlan::Chat {
        id: "\"i\"".to_string(),
        created: "7".to_string(),
        model: "\"m\"".to_string(),
        content: "one two three".to_string(),
        finish_reason: "\"length\"".to_string(),
        usage: None,
    };
    let frames = synthesize_frames(&plan);
    assert_eq!(frames.len(), 5);
    assert!(frames[0].contains("\"content\":\"one \""));
    assert!(frames[1].contains("\"content\":\"two \""));
    assert!(frames[2].contains("\"content\":\"three\""));
    assert!(frames[3].contains("\"finish_reason\":\"length\""));
    assert!(!frames[3].contains("usage"));
    assert_eq!(frames[4], "data: [DONE]\n\n");
}

#[test]
fn word_splitting_is_by_whitespace_only() {
    let flat = |ws: Vec<String>| ws;
    assert_eq!(flat(split_words("Hello world")), vec!["Hello", "world"]);
    assert_eq!(flat(split_words("  a  b  ")), vec!["a", "b"]);
    assert_eq!(flat(split_words("")), Vec::<String>::new());
    assert_eq!(flat(split_words(" \t\n")), Vec::<String>::new());
    assert_eq!(flat(split_words("one")), vec!["one"]);
}

#[test]
fn json_quoting_escapes_what_json_requires() {
    assert_eq!(json_quote("plain"), "\"plain\"");
    assert_eq!(json_quote("a\"b"), "\"a\\\"b\"");
    assert_eq!(json_quote("a\\b"), "\"a\\\\b\"");
    assert_eq!(json_quote("a\nb"), "\"a\\nb\"");
    assert_eq!(json_quote("a\tb"), "\"a\\tb\"");
    assert_eq!(json_quote("a\rb"), "\"a\\rb\"");
    assert_eq!(json_quote("a\u{8}b"), "\"a\\bb\"");
    assert_eq!(json_quote("a\u{c}b"), "\"a\\fb\"");
    assert_eq!(json_quote("a\u{1}b"), "\"a\\u0001b\"");
    assert_eq!(json_quote("a\u{1f}b"), "\"a\\u001fb\"");
    assert_eq!(json_quote("héllo"), "\"héllo\"");
}
