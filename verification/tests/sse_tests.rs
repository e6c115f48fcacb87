use gemini_proxy::sse::{extract_frames, process_chunk_text, process_frame, process_unary};

#[test]
fn frames_are_extracted_in_order() {
    let text = "data: {\"a\":1}\n\ndata: {\"b\":2}\n";
    let frames = extract_frames(text);
    assert_eq!(frames.len(), 2);
    assert_eq!(frames[0], "{\"a\":1}");
    assert_eq!(frames[1], "{\"b\":2}");
}

#[test]
fn done_sentinel_is_consumed() {
    let text = "data: {\"a\":1}\ndata: {\"b\":2}\ndata: [DONE]\n";
    let frames = extract_frames(text);
    assert_eq!(frames.len(), 2);
    assert_eq!(frames[0], "{\"a\":1}");
    assert_eq!(frames[1], "{\"b\":2}");
}

#[test]
fn lines_are_trimmed_and_non_data_lines_ignored() {
    let text = "  data: x  \r\nevent: ping\n: comment\ndata: y";
    let frames = extract_frames(text);
    assert_eq!(frames.len(), 2);
    assert_eq!(frames[0], "x");
    assert_eq!(frames[1], "y");
}

#[test]
fn empty_text_has_no_frames() {
    assert_eq!(extract_frames("").len(), 0);
    assert_eq!(extract_frames("\n\n").len(), 0);
    assert_eq!(extract_frames("data: [DONE]\n").len(), 0);
}

fn text_frame(text: &str) -> String {
    format!(
        "data: {{\"candidates\":[{{\"content\":{{\"role\":\"model\",\"parts\":[{{\"text\":\"{}\"}}]}}}}]}}\n",
        text
    )
}

#[test]
fn stream_chunks_carry_candidate_text() {
    let stream = text_frame("Hel");
    let chunks = process_chunk_text(&stream, "my-model", 1_700_000_111);
    assert_eq!(chunks.len(), 1);
    assert_eq!(chunks[0].content, "Hel");
    assert_eq!(chunks[0].model, "my-model");
    assert_eq!(chunks[0].index, 0);
    assert_eq!(chunks[0].finish_reason.as_deref(), Some("stop"));
    assert!(chunks[0].id.starts_with("chatcmpl-"));
}

#[test]
fn stream_ends_cleanly_after_done() {
    let stream = format!("{}{}data: [DONE]\n", text_frame("Hel"), text_frame("lo"));
    let chunks = process_chunk_text(&stream, "m", 1_700_000_111);
    assert_eq!(chunks.len(), 2);
    assert_eq!(chunks[0].content, "Hel");
    assert_eq!(chunks[1].content, "lo");
}

#[test]
fn malformed_frame_is_dropped_and_stream_goes_on() {
    let stream = format!("{}data: {{not json\n{}", text_frame("one"), text_frame("two"));
    let chunks = process_chunk_text(&stream, "m", 1_700_000_111);
    assert_eq!(chunks.len(), 2);
    assert_eq!(chunks[0].content, "one");
    assert_eq!(chunks[1].content, "two");
}

#[test]
fn envelope_is_unwrapped() {
    let payload = "{\"response\":{\"candidates\":[{\"content\":{\"role\":\"model\",\"parts\":[{\"text\":\"in\"}]}}]}}";
    let chunks = process_frame(payload, "m", 1_700_000_111);
    assert_eq!(chunks.len(), 1);
    assert_eq!(chunks[0].content, "in");
}

#[test]
fn candidate_without_text_emits_no_chunk() {
    let payload = "{\"candidates\":[{\"content\":{\"role\":\"model\",\"parts\":[{\"functionCall\":{\"name\":\"f\",\"args\":{}}}]}}]}";
    assert_eq!(process_frame(payload, "m", 1_700_000_111).len(), 0);
    let empty = "{\"candidates\":[]}";
    assert_eq!(process_frame(empty, "m", 1_700_000_111).len(), 0);
    assert_eq!(process_frame("{}", "m", 1_700_000_111).len(), 0);
}

#[test]
fn chunks_keep_candidate_order_and_indexes() {
    let payload = "{\"candidates\":[\
        {\"content\":{\"role\":\"model\",\"parts\":[{\"text\":\"a\"}]},\"index\":3},\
        {\"content\":{\"role\":\"model\",\"parts\":[]}},\
        {\"content\":{\"role\":\"model\",\"parts\":[{\"text\":\"c\"}]},\"finishReason\":\"STOP\"}]}";
    let chunks = process_frame(payload, "m", 1_700_000_111);
    assert_eq!(chunks.len(), 2);
    assert_eq!(chunks[0].content, "a");
    assert_eq!(chunks[0].index, 3);
    assert_eq!(chunks[1].content, "c");
    assert_eq!(chunks[1].index, 2);
    assert_eq!(chunks[1].finish_reason.as_deref(), Some("STOP"));
}

#[test]
fn chunks_of_one_frame_share_id_and_creation_time() {
    let payload = "{\"candidates\":[\
        {\"content\":{\"role\":\"model\",\"parts\":[{\"text\":\"a\"}]}},\
        {\"content\":{\"role\":\"model\",\"parts\":[{\"text\":\"b\"}]}}]}";
    let chunks = process_frame(payload, "m", 1_700_000_444);
    assert_eq!(chunks.len(), 2);
    assert_eq!(chunks[0].id, chunks[1].id);
    assert_eq!(chunks[0].created, 1_700_000_444);
    assert_eq!(chunks[1].created, 1_700_000_444);
}

#[test]
fn unary_body_translates_whole_response() {
    let body = "{\"response\":{\
        \"candidates\":[{\"content\":{\"role\":\"model\",\"parts\":[\
            {\"text\":\"Hello \"},{\"text\":\"world\"},\
            {\"functionCall\":{\"name\":\"f\",\"args\":{\"x\":1}}}]}}],\
        \"usageMetadata\":{\"promptTokenCount\":10,\"candidatesTokenCount\":5,\"totalTokenCount\":15}}}";
    let out = process_unary(body, "my-model", 1_700_000_222).unwrap();
    assert_eq!(out.model, "my-model");
    assert_eq!(out.object, "chat.completion");
    assert_eq!(out.created, 1_700_000_222);
    assert_eq!(out.choices.len(), 1);
    let ch = &out.choices[0];
    assert_eq!(ch.message.content.as_deref(), Some("Hello world"));
    let calls = ch.message.tool_calls.as_ref().unwrap();
    assert_eq!(calls.len(), 1);
    assert_eq!(calls[0].function.name, "f");
    assert_eq!(calls[0].function.arguments, "{\"x\":1}");
    let usage = out.usage.as_ref().unwrap();
    assert_eq!(usage.prompt_tokens, 10);
    assert_eq!(usage.completion_tokens, 5);
    assert_eq!(usage.total_tokens, 15);
}

#[test]
fn unary_body_that_does_not_decode_is_an_error() {
    assert!(process_unary("not json", "m", 7).is_none());
    assert!(process_unary("", "m", 7).is_none());
}

#[test]
fn candidate_with_malformed_part_drops_the_frame() {
    let payload = "{\"candidates\":[{\"content\":{\"role\":\"model\",\"parts\":[{\"text\":5}]}}]}";
    assert_eq!(process_frame(payload, "m", 1_700_000_111).len(), 0);
    assert!(process_unary(payload, "m", 7).is_none());
    let no_role = "{\"candidates\":[{\"content\":{\"parts\":[{\"text\":\"a\"}]}}]}";
    assert_eq!(process_frame(no_role, "m", 1_700_000_111).len(), 0);
}
