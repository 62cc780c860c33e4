use rswarm::stream::{classify_stream_line, fragment_messages, merge_chunk_message, stream_fragments, ChunkDelta, StreamLine};
use rswarm::types::{ChatCompletionResponse, Choice, FunctionCall};
use rswarm::Message;

#[test]
fn two_fragments_then_done() {
    let feed = "data: {\"choices\":[1]}\n\ndata: {\"choices\":[2]}\r\ndata: [DONE]\ndata: {\"late\":true}\n";
    let (fragments, done) = stream_fragments(feed);
    assert!(done);
    assert_eq!(fragments, vec!["{\"choices\":[1]}".to_string(), "{\"choices\":[2]}".to_string()]);
}

#[test]
fn feed_without_terminator() {
    let (fragments, done) = stream_fragments(": keep-alive\nevent: ping\ndata:  {\"a\":1}  ");
    assert!(!done);
    assert_eq!(fragments, vec!["{\"a\":1}".to_string()]);
}

#[test]
fn classify_lines() {
    assert!(matches!(classify_stream_line("data: [DONE]"), StreamLine::Done));
    assert!(matches!(classify_stream_line("data:  [DONE] "), StreamLine::Done));
    assert!(matches!(classify_stream_line("id: 7"), StreamLine::Skip));
    assert!(matches!(classify_stream_line("data:{}"), StreamLine::Skip));
    match classify_stream_line("data: {\"x\":1}") {
        StreamLine::Fragment(f) => assert_eq!(f, "{\"x\":1}"),
        _ => panic!("expected a fragment"),
    }
}

#[test]
fn fragment_yields_one_message_per_choice() {
    let m = |t: &str| Message { role: "assistant".to_string(), content: Some(t.to_string()), name: None, function_call: None };
    let fragment = ChatCompletionResponse {
        id: "x".to_string(),
        object: "chat.completion.chunk".to_string(),
        created: 1,
        choices: vec![
            Choice { index: 0, message: m("a"), finish_reason: None },
            Choice { index: 1, message: m("b"), finish_reason: None },
        ],
        usage: None,
    };
    let messages = fragment_messages(fragment);
    assert_eq!(messages.len(), 2);
    assert_eq!(messages[0].content.as_deref(), Some("a"));
    assert_eq!(messages[1].content.as_deref(), Some("b"));
}

#[test]
fn merge_appends_text_and_replaces_call() {
    let mut message = Message { role: "assistant".to_string(), content: None, name: None, function_call: None };
    merge_chunk_message(&mut message, &ChunkDelta { content: Some("Hel".to_string()), function_call: None });
    assert_eq!(message.content.as_deref(), Some("Hel"));
    merge_chunk_message(&mut message, &ChunkDelta { content: Some("lo".to_string()), function_call: None });
    assert_eq!(message.content.as_deref(), Some("Hello"));
    let call = FunctionCall { name: "f".to_string(), arguments: "{}".to_string() };
    merge_chunk_message(&mut message, &ChunkDelta { content: None, function_call: Some(call) });
    assert_eq!(message.content.as_deref(), Some("Hello"));
    assert_eq!(message.function_call.as_ref().map(|c| c.name.as_str()), Some("f"));
    assert_eq!(message.role, "assistant");
}
