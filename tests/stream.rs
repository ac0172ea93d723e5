use aionic::chat::{Choice, Delta, Message, MessageRole, Response, StreamedChoices, StreamedReponse};
use aionic::stream::{
    classify_line, payloads_of_bytes, payloads_of_chunk, plain_answer_of, reassemble, strip_trailing_newline,
    Reassembler, StreamError, StreamLine,
};

fn event(contents: &[Option<&str>]) -> StreamedReponse {
    StreamedReponse {
        id: "chatcmpl-1".to_string(),
        object: "chat.completion.chunk".to_string(),
        created: 1,
        model: "gpt-3.5-turbo".to_string(),
        choices: contents
            .iter()
            .enumerate()
            .map(|(i, c)| StreamedChoices {
                index: i as u64,
                delta: Delta { role: None, content: c.map(|s| s.to_string()) },
                finish_reason: None,
            })
            .collect(),
    }
}

/// Decodes one payload the way a caller would: any JSON object with a
/// `choices` array whose entries carry a `delta`.
fn decode(payload: &str) -> Option<StreamedReponse> {
    let v: serde_json::Value = serde_json::from_str(payload).ok()?;
    let choices = v.get("choices")?.as_array()?;
    let mut out = Vec::new();
    for (i, c) in choices.iter().enumerate() {
        let delta = c.get("delta")?;
        out.push(StreamedChoices {
            index: i as u64,
            delta: Delta {
                role: delta.get("role").and_then(|r| r.as_str()).map(|s| s.to_string()),
                content: delta.get("content").and_then(|r| r.as_str()).map(|s| s.to_string()),
            },
            finish_reason: None,
        });
    }
    Some(StreamedReponse {
        id: String::new(),
        object: String::new(),
        created: 0,
        model: String::new(),
        choices: out,
    })
}

fn run_stream(chunks: &[&str]) -> Result<String, StreamError> {
    let mut decoded = Vec::new();
    for chunk in chunks {
        for p in payloads_of_chunk(chunk) {
            decoded.push(decode(&p));
        }
    }
    reassemble(&decoded)
}

#[test]
fn line_without_prefix_is_ignored() {
    assert!(matches!(classify_line(": keep-alive"), StreamLine::Ignored));
    assert!(matches!(classify_line(""), StreamLine::Ignored));
    assert!(matches!(classify_line("data:{}"), StreamLine::Ignored));
}

#[test]
fn done_line_is_done() {
    assert!(matches!(classify_line("data: [DONE]"), StreamLine::Done));
}

#[test]
fn data_line_carries_payload() {
    match classify_line("data: {\"a\":1}") {
        StreamLine::Payload(p) => assert_eq!(p, "{\"a\":1}"),
        _ => panic!("expected a payload"),
    }
    match classify_line("data: [DONE] ") {
        StreamLine::Payload(p) => assert_eq!(p, "[DONE] "),
        _ => panic!("expected a payload"),
    }
}

#[test]
fn chunk_payloads_in_order() {
    let chunk = "data: one\n\ndata: two\nevent: x\ndata: [DONE]\n";
    assert_eq!(payloads_of_chunk(chunk), vec!["one".to_string(), "two".to_string()]);
    assert!(payloads_of_chunk("").is_empty());
}

#[test]
fn one_trailing_newline_is_stripped() {
    assert_eq!(strip_trailing_newline("Hi\n"), "Hi");
    assert_eq!(strip_trailing_newline("Hi\n\n"), "Hi\n");
    assert_eq!(strip_trailing_newline(" Hi "), " Hi ");
    assert_eq!(strip_trailing_newline(""), "");
}

#[test]
fn reassembler_collects_fragments() {
    let mut r = Reassembler::new();
    let echo = r.accept(&event(&[Some("Hel"), None, Some("lo\n")]));
    assert_eq!(echo, vec!["Hel".to_string(), "lo".to_string()]);
    r.accept(&event(&[Some(", world")]));
    assert_eq!(r.answer(), "Hello, world");
}

#[test]
fn reassembler_fails_on_undecoded_payload() {
    let mut r = Reassembler::new();
    assert!(r.accept_decoded(&Some(event(&[Some("a")]))).is_ok());
    assert_eq!(r.accept_decoded(&None).unwrap_err(), StreamError::Deserialization);
    assert_eq!(StreamError::Deserialization.message(), "Deserialization Error");
}

#[test]
fn stream_spells_answer() {
    let chunks = [
        "data: {\"choices\":[{\"delta\":{\"role\":\"assistant\"}}]}\n\n",
        "data: {\"choices\":[{\"delta\":{\"content\":\"This is\"}}]}\n\ndata: {\"choices\":[{\"delta\":{\"content\":\" a test\"}}]}\n\n",
        "data: [DONE]\n\n",
    ];
    assert_eq!(run_stream(&chunks).unwrap(), "This is a test");
}

#[test]
fn done_only_stream_is_empty() {
    assert_eq!(run_stream(&["data: [DONE]\n\n"]).unwrap(), "");
    assert_eq!(run_stream(&[]).unwrap(), "");
}

#[test]
fn line_split_across_chunks_fails() {
    // Lines are not carried over between chunks: each half reaches the
    // decoder alone, and the first half is not JSON.
    let chunks = ["data: {\"choi", "ces\":[{\"delta\":{\"content\":\"x\"}}]}\n"];
    assert_eq!(payloads_of_chunk(chunks[0]), vec!["{\"choi".to_string()]);
    assert!(payloads_of_chunk(chunks[1]).is_empty());
    assert_eq!(run_stream(&chunks).unwrap_err(), StreamError::Deserialization);
}

#[test]
fn invalid_json_fails_whole_answer() {
    let chunks = [
        "data: {\"choices\":[{\"delta\":{\"content\":\"kept?\"}}]}\n",
        "data: {not json}\n",
        "data: {\"choices\":[{\"delta\":{\"content\":\"after\"}}]}\n",
    ];
    assert_eq!(run_stream(&chunks), Err(StreamError::Deserialization));
}

#[test]
fn streamed_and_whole_answers_agree() {
    let parts = ["The answer", " is", " 4."];
    let chunk: String = parts
        .iter()
        .map(|p| format!("data: {{\"choices\":[{{\"delta\":{{\"content\":\"{}\"}}}}]}}\n\n", p))
        .collect::<String>()
        + "data: [DONE]\n\n";
    let streamed = run_stream(&[chunk.as_str()]).unwrap();
    let whole = Response {
        id: None,
        object: None,
        created: None,
        model: None,
        choices: Some(
            parts
                .iter()
                .enumerate()
                .map(|(i, p)| Choice {
                    message: Message::new(&MessageRole::Assistant, p),
                    finish_reason: "stop".to_string(),
                    index: i as u64,
                })
                .collect(),
        ),
        usage: None,
    };
    assert_eq!(plain_answer_of(&whole), "The answer is 4.");
    assert_eq!(streamed, plain_answer_of(&whole));
}

#[test]
fn whole_response_without_choices_is_empty() {
    let r = Response { id: None, object: None, created: None, model: None, choices: None, usage: None };
    assert_eq!(plain_answer_of(&r), "");
}

#[test]
fn byte_chunks_are_read_lossily() {
    assert_eq!(payloads_of_bytes(b"data: a\xffb\n"), vec!["a\u{FFFD}b".to_string()]);
    assert_eq!(
        payloads_of_bytes("data: caf\u{e9}\ndata: [DONE]\n".as_bytes()),
        vec!["caf\u{e9}".to_string()]
    );
    // A multi-byte character cut at a chunk boundary is replaced, not kept.
    let bytes = "data: \u{e9}".as_bytes();
    assert_eq!(payloads_of_bytes(&bytes[..bytes.len() - 1]), vec!["\u{FFFD}".to_string()]);
}

#[test]
fn stream_spread_over_choices_matches_whole() {
    let events = vec![event(&[Some("Two"), None, Some(" plus")]), event(&[]), event(&[Some(" two")])];
    let decoded: Vec<Option<StreamedReponse>> = events.into_iter().map(Some).collect();
    let whole = Response {
        id: None,
        object: None,
        created: None,
        model: None,
        choices: Some(
            ["Two", " plus", " two"]
                .iter()
                .enumerate()
                .map(|(i, p)| Choice {
                    message: Message::new(&MessageRole::Assistant, p),
                    finish_reason: "stop".to_string(),
                    index: i as u64,
                })
                .collect(),
        ),
        usage: None,
    };
    assert_eq!(reassemble(&decoded).unwrap(), plain_answer_of(&whole));
}
