use ds_code::chat::{
    chat_completions_url, finish_deepseek_streaming, http_error, normalize_base_url,
    start_deepseek_streaming, strip_base_url,
};
use ds_code::emit::{emit_stream_text, emit_terminal_data, push_script};
use ds_code::events::EventStream;
use ds_code::json_text::parse_json;
use ds_code::stream::{extract_stream_delta, handle_stream_event, StreamState};

#[test]
fn chat_addresses_are_completed() {
    assert_eq!(
        chat_completions_url(" https://api.deepseek.com/v1/ "),
        "https://api.deepseek.com/chat/completions"
    );
    assert_eq!(
        chat_completions_url("https://x/v1/v1"),
        "https://x/chat/completions"
    );
    assert_eq!(
        chat_completions_url("https://x/chat/completions/"),
        "https://x/chat/completions"
    );
    assert_eq!(normalize_base_url(" https://x/v1// "), "https://x");
    assert_eq!(strip_base_url(" https://x/v1// "), "https://x/v1");
}

#[test]
fn a_completed_address_is_complete() {
    for base in ["https://x", "https://x/v1", "", "https://x/chat/completions"] {
        let once = chat_completions_url(base);
        assert_eq!(chat_completions_url(&once), once);
    }
}

#[test]
fn requests_need_a_key() {
    match start_deepseek_streaming(" \n", "https://x", "m", "p") {
        Err(e) => assert_eq!(e, "DeepSeek API Key is empty"),
        Ok(_) => panic!("a request without a key"),
    }
}

#[test]
fn requests_carry_model_and_prompt() {
    let request = start_deepseek_streaming("k", "https://x/v1", "m", "hi \"you\"")
        .ok()
        .unwrap();
    assert_eq!(request.url, "https://x/chat/completions");
    assert_eq!(
        request.body,
        r#"{"messages":[{"content":"hi \"you\"","role":"user"}],"model":"m","stream":true}"#
    );
}

#[test]
fn failures_are_reported_with_status_and_text() {
    assert_eq!(http_error(401, "no"), "DeepSeek HTTP 401: no");
    assert_eq!(
        finish_deepseek_streaming(Err("gone".to_string())),
        ("DeepSeek 流式请求失败：gone".to_string(), -1)
    );
    assert_eq!(
        finish_deepseek_streaming(Ok("fine".to_string())),
        ("fine".to_string(), 0)
    );
}

#[test]
fn deltas_are_read_from_messages() {
    let json = parse_json(
        r#"{"choices":[{"delta":{"content":"a","reasoning":"r"}},{"delta":{"content":"b"}}]}"#,
    )
    .unwrap();
    assert_eq!(extract_stream_delta(&json), ("a".to_string(), "r".to_string()));
    let json =
        parse_json(r#"{"choices":[{"delta":{"reasoning_content":null,"reasoning":"r"}}]}"#).unwrap();
    assert_eq!(extract_stream_delta(&json), (String::new(), String::new()));
    let json = parse_json(r#"{"choices":[]}"#).unwrap();
    assert_eq!(extract_stream_delta(&json), (String::new(), String::new()));
}

fn message(content: &str) -> String {
    format!("data: {{\"choices\":[{{\"delta\":{{\"content\":\"{}\"}}}}]}}\n\n", content)
}

fn thought(reasoning: &str) -> String {
    format!(
        "data: {{\"choices\":[{{\"delta\":{{\"reasoning_content\":\"{}\"}}}}]}}\r\n\r\n",
        reasoning
    )
}

fn read(parts: &[&str]) -> (Result<bool, String>, EventStream) {
    let mut stream = EventStream::new();
    for part in parts {
        match stream.feed(part) {
            Ok(false) => {}
            other => return (other, stream),
        }
    }
    (stream.finish(), stream)
}

#[test]
fn streams_are_read_to_the_end() {
    let text = format!(": hello\n\n{}{}{}data: [DONE]\n\nnever", thought("why"), message("a"), message("b"));
    let (end, stream) = read(&[&text]);
    assert_eq!(end, Ok(true));
    assert_eq!(stream.answer(), "ab");
    assert_eq!(stream.state.reasoning, "why");
    assert_eq!(
        stream.state.shown,
        vec!["\r\n[reasoning]\r\n", "why", "a", "b"]
    );
}

#[test]
fn reasoning_stands_in_for_a_missing_answer() {
    let (end, stream) = read(&[&thought("only this"), &message(" ")]);
    assert_eq!(end, Ok(false));
    assert_eq!(stream.answer(), "only this");
}

#[test]
fn all_that_is_received_is_shown() {
    let contents = ["a", " ", "", "b c"];
    let thoughts = ["r", "s"];
    let mut text = String::new();
    for t in thoughts {
        text.push_str(&thought(t));
    }
    for c in contents {
        text.push_str(&message(c));
    }
    let (end, stream) = read(&[&text]);
    assert_eq!(end, Ok(false));
    assert_eq!(stream.state.content, contents.concat());
    assert_eq!(stream.state.reasoning, thoughts.concat());
    assert_eq!(
        stream.state.shown.concat(),
        format!("\r\n[reasoning]\r\n{}{}", thoughts.concat(), contents.concat())
    );
}

#[test]
fn messages_that_cannot_be_read_end_the_stream() {
    let text = format!("{}data: {{oops\n\n{}", message("a"), message("b"));
    let (end, stream) = read(&[&text]);
    let expected = serde_json::from_str::<serde_json::Value>("{oops")
        .unwrap_err()
        .to_string();
    assert_eq!(end, Err(expected));
    assert_eq!(stream.answer(), "a");
}

#[test]
fn parts_do_not_matter() {
    let text = format!("{}{}{}tail: x\ndata: [DONE]", message("one"), thought("two"), message("three"));
    let (whole_end, whole) = read(&[&text]);
    let all: Vec<char> = text.chars().collect();
    for size in [1usize, 2, 3, 7, 50] {
        let parts: Vec<String> = all.chunks(size).map(|c| c.iter().collect()).collect();
        let slices: Vec<&str> = parts.iter().map(|s| s.as_str()).collect();
        let (end, stream) = read(&slices);
        assert_eq!(end, whole_end);
        assert_eq!(stream.answer(), whole.answer());
        assert_eq!(stream.state.shown, whole.state.shown);
    }
    assert_eq!(whole_end, Ok(true));
}

#[test]
fn one_event_may_hold_several_lines() {
    let mut state = StreamState {
        content: String::new(),
        reasoning: String::new(),
        shown: Vec::new(),
    };
    let event = "event: x\n\ndata:{\"choices\":[{\"delta\":{\"content\":\"z\"}}]}\n data: [DONE] \ndata: x";
    assert_eq!(handle_stream_event(event, &mut state), Ok(true));
    assert_eq!(state.content, "z");
}

#[test]
fn output_is_shown_in_pieces() {
    assert!(emit_terminal_data("").is_empty());
    assert_eq!(emit_terminal_data(&"密".repeat(120)).len(), 1);
    let pieces = emit_terminal_data(&"密".repeat(121));
    let sizes: Vec<usize> = pieces.iter().map(|p| p.chars().count()).collect();
    assert_eq!(sizes, vec![64, 57]);
    assert_eq!(pieces.concat(), "密".repeat(121));
    let pieces = emit_stream_text(&"x".repeat(65));
    let sizes: Vec<usize> = pieces.iter().map(|p| p.len()).collect();
    assert_eq!(sizes, vec![32, 32, 1]);
}

#[test]
fn pieces_are_handed_over_as_literals() {
    assert_eq!(
        push_script("s\"1", "a\nb"),
        "window.__deepseekDesktopStreamPush && window.__deepseekDesktopStreamPush(\"s\\\"1\", \"a\\nb\");"
    );
}
