use gemini_proxy::transform::{
    transform_openai_to_gemini, transform_gemini_to_openai, GeminiCandidate, GeminiContent,
    GeminiContentPart, GeminiFunctionCall, GeminiResponse, GeminiUsageMetadata, OpenAIFunctionCall,
    OpenAIFunctionDefinition, OpenAIMessage, OpenAIRequest, OpenAITool, OpenAIToolCall,
};

fn msg(role: &str, content: Option<&str>) -> OpenAIMessage {
    OpenAIMessage {
        role: role.to_string(),
        content: content.map(|c| c.to_string()),
        tool_calls: None,
        tool_call_id: None,
    }
}

fn request(messages: Vec<OpenAIMessage>) -> OpenAIRequest {
    OpenAIRequest {
        model: "gemini-2.5-pro".to_string(),
        messages,
        stream: None,
        temperature_bits: None,
        max_tokens: None,
        tools: None,
    }
}

#[test]
fn role_mapping_drops_system_and_keeps_order() {
    let req = request(vec![
        msg("system", Some("be brief")),
        msg("user", Some("hi")),
        msg("assistant", Some("hello")),
        msg("tool", Some("result")),
        msg("weird", Some("x")),
    ]);
    let (_, wrapped, _) = transform_openai_to_gemini(&req, "proj");
    let contents = &wrapped.request.contents;
    assert_eq!(contents.len(), 4);
    assert_eq!(contents[0].role, "user");
    assert_eq!(contents[1].role, "model");
    assert_eq!(contents[2].role, "function");
    assert_eq!(contents[3].role, "user");
    assert_eq!(contents[0].parts[0].text.as_deref(), Some("hi"));
    assert_eq!(contents[1].parts[0].text.as_deref(), Some("hello"));
}

#[test]
fn empty_request_yields_no_contents() {
    let req = request(vec![]);
    let (_, wrapped, _) = transform_openai_to_gemini(&req, "proj");
    assert_eq!(wrapped.request.contents.len(), 0);
}

#[test]
fn empty_content_yields_no_text_part() {
    let req = request(vec![msg("user", Some("")), msg("user", None)]);
    let (_, wrapped, _) = transform_openai_to_gemini(&req, "proj");
    assert_eq!(wrapped.request.contents.len(), 2);
    assert_eq!(wrapped.request.contents[0].parts.len(), 0);
    assert_eq!(wrapped.request.contents[1].parts.len(), 0);
}

#[test]
fn url_and_streaming_flag() {
    let mut req = request(vec![msg("user", Some("hi"))]);
    let (url, _, streaming) = transform_openai_to_gemini(&req, "proj");
    assert!(!streaming);
    assert_eq!(
        url,
        "https://cloudcode-pa.googleapis.com/v1internal:generateContent"
    );
    req.stream = Some(true);
    let (url, _, streaming) = transform_openai_to_gemini(&req, "proj");
    assert!(streaming);
    assert_eq!(
        url,
        "https://cloudcode-pa.googleapis.com/v1internal:streamGenerateContent?alt=sse"
    );
}

#[test]
fn wrapper_carries_project_and_model() {
    let req = request(vec![msg("user", Some("hi"))]);
    let (_, wrapped, _) = transform_openai_to_gemini(&req, "my-project");
    assert_eq!(wrapped.project, "my-project");
    assert_eq!(wrapped.model, "gemini-2.5-pro");
}

#[test]
fn generation_config_is_always_populated() {
    let mut req = request(vec![msg("user", Some("hi"))]);
    req.temperature_bits = Some(0.25f32.to_bits());
    req.max_tokens = Some(512);
    let (_, wrapped, _) = transform_openai_to_gemini(&req, "proj");
    let cfg = wrapped.request.generation_config.as_ref().unwrap();
    assert_eq!(cfg.temperature_bits, Some(0.25f32.to_bits()));
    assert_eq!(cfg.max_output_tokens, Some(512));

    let bare = request(vec![msg("user", Some("hi"))]);
    let (_, wrapped, _) = transform_openai_to_gemini(&bare, "proj");
    let cfg = wrapped.request.generation_config.as_ref().unwrap();
    assert_eq!(cfg.temperature_bits, None);
    assert_eq!(cfg.max_output_tokens, None);
}

fn tool_call(name: &str, arguments: &str) -> OpenAIToolCall {
    OpenAIToolCall {
        id: "call_1".to_string(),
        call_type: "function".to_string(),
        function: OpenAIFunctionCall {
            name: name.to_string(),
            arguments: arguments.to_string(),
        },
    }
}

#[test]
fn tool_call_arguments_parse_to_structured_args() {
    let mut m = msg("assistant", None);
    m.tool_calls = Some(vec![tool_call("get_weather", "{\"x\":1}")]);
    let req = request(vec![m]);
    let (_, wrapped, _) = transform_openai_to_gemini(&req, "proj");
    let part = &wrapped.request.contents[0].parts[0];
    let fc = part.function_call.as_ref().unwrap();
    assert_eq!(fc.name, "get_weather");
    assert_eq!(fc.args.as_deref(), Some("{\"x\":1}"));
    assert_eq!(
        part.thought_signature.as_deref(),
        Some("skip_thought_signature_validator")
    );
    assert!(part.text.is_none());
}

#[test]
fn tool_call_arguments_are_normalized_not_copied() {
    let mut m = msg("assistant", None);
    m.tool_calls = Some(vec![tool_call("f", "{ \"x\" :   1 }")]);
    let req = request(vec![m]);
    let (_, wrapped, _) = transform_openai_to_gemini(&req, "proj");
    let fc = wrapped.request.contents[0].parts[0].function_call.as_ref().unwrap();
    assert_eq!(fc.args.as_deref(), Some("{\"x\":1}"));
}

#[test]
fn invalid_tool_call_arguments_collapse_to_null() {
    let mut m = msg("assistant", Some("calling"));
    m.tool_calls = Some(vec![tool_call("f", "not json"), tool_call("g", "7")]);
    let req = request(vec![m, msg("user", Some("go on"))]);
    let (_, wrapped, _) = transform_openai_to_gemini(&req, "proj");
    let parts = &wrapped.request.contents[0].parts;
    assert_eq!(parts.len(), 3);
    assert_eq!(parts[0].text.as_deref(), Some("calling"));
    assert_eq!(parts[1].function_call.as_ref().unwrap().args, None);
    assert_eq!(parts[2].function_call.as_ref().unwrap().args.as_deref(), Some("7"));
    assert_eq!(wrapped.request.contents[1].role, "user");
}

#[test]
fn tools_become_one_declaration_group() {
    let mut req = request(vec![msg("user", Some("hi"))]);
    req.tools = Some(vec![
        OpenAITool {
            tool_type: "function".to_string(),
            function: OpenAIFunctionDefinition {
                name: "get_weather".to_string(),
                description: Some("weather".to_string()),
                parameters: Some("{\"type\":\"object\"}".to_string()),
            },
        },
        OpenAITool {
            tool_type: "function".to_string(),
            function: OpenAIFunctionDefinition {
                name: "get_time".to_string(),
                description: None,
                parameters: None,
            },
        },
    ]);
    let (_, wrapped, _) = transform_openai_to_gemini(&req, "proj");
    let tools = wrapped.request.tools.as_ref().unwrap();
    assert_eq!(tools.len(), 1);
    let decls = &tools[0].function_declarations;
    assert_eq!(decls.len(), 2);
    assert_eq!(decls[0].name, "get_weather");
    assert_eq!(decls[0].description.as_deref(), Some("weather"));
    assert_eq!(decls[0].parameters.as_deref(), Some("{\"type\":\"object\"}"));
    assert_eq!(decls[1].name, "get_time");
    assert_eq!(decls[1].description, None);
}

fn text_part(t: &str) -> GeminiContentPart {
    GeminiContentPart {
        text: Some(t.to_string()),
        function_call: None,
        function_response: None,
        thought_signature: None,
    }
}

fn candidate(parts: Vec<GeminiContentPart>) -> GeminiCandidate {
    GeminiCandidate {
        content: Some(GeminiContent { role: "model".to_string(), parts }),
        finish_reason: None,
        index: None,
    }
}

#[test]
fn usage_counts_pass_through() {
    let res = GeminiResponse {
        candidates: None,
        usage_metadata: Some(GeminiUsageMetadata {
            prompt_token_count: Some(10),
            candidates_token_count: Some(5),
            total_token_count: Some(15),
        }),
    };
    let out = transform_gemini_to_openai(&res, "m", 1_700_000_333);
    let usage = out.usage.unwrap();
    assert_eq!(usage.prompt_tokens, 10);
    assert_eq!(usage.completion_tokens, 5);
    assert_eq!(usage.total_tokens, 15);
}

#[test]
fn absent_usage_subcounts_default_to_zero() {
    let res = GeminiResponse {
        candidates: None,
        usage_metadata: Some(GeminiUsageMetadata {
            prompt_token_count: Some(7),
            candidates_token_count: None,
            total_token_count: None,
        }),
    };
    let out = transform_gemini_to_openai(&res, "m", 1_700_000_333);
    let usage = out.usage.unwrap();
    assert_eq!(usage.prompt_tokens, 7);
    assert_eq!(usage.completion_tokens, 0);
    assert_eq!(usage.total_tokens, 0);

    let none = GeminiResponse { candidates: None, usage_metadata: None };
    assert!(transform_gemini_to_openai(&none, "m", 1_700_000_333).usage.is_none());
}

#[test]
fn candidate_texts_concatenate_in_order() {
    let res = GeminiResponse {
        candidates: Some(vec![candidate(vec![text_part("Hel"), text_part("lo")])]),
        usage_metadata: None,
    };
    let out = transform_gemini_to_openai(&res, "my-model", 1_700_000_333);
    assert_eq!(out.object, "chat.completion");
    assert_eq!(out.model, "my-model");
    assert!(out.id.starts_with("chatcmpl-"));
    assert_eq!(out.choices.len(), 1);
    let ch = &out.choices[0];
    assert_eq!(ch.index, 0);
    assert_eq!(ch.message.role, "assistant");
    assert_eq!(ch.message.content.as_deref(), Some("Hello"));
    assert_eq!(ch.finish_reason.as_deref(), Some("stop"));
    assert!(ch.message.tool_calls.is_none());
}

#[test]
fn function_call_parts_become_tool_calls() {
    let fc_part = GeminiContentPart {
        text: None,
        function_call: Some(GeminiFunctionCall {
            name: "get_weather".to_string(),
            args: Some("{\"city\":\"Oslo\"}".to_string()),
        }),
        function_response: None,
        thought_signature: None,
    };
    let null_part = GeminiContentPart {
        text: None,
        function_call: Some(GeminiFunctionCall { name: "g".to_string(), args: None }),
        function_response: None,
        thought_signature: None,
    };
    let res = GeminiResponse {
        candidates: Some(vec![candidate(vec![fc_part, null_part])]),
        usage_metadata: None,
    };
    let out = transform_gemini_to_openai(&res, "m", 1_700_000_333);
    let ch = &out.choices[0];
    assert!(ch.message.content.is_none());
    let calls = ch.message.tool_calls.as_ref().unwrap();
    assert_eq!(calls.len(), 2);
    assert!(calls[0].id.starts_with("call_"));
    assert_eq!(calls[0].call_type, "function");
    assert_eq!(calls[0].function.name, "get_weather");
    assert_eq!(calls[0].function.arguments, "{\"city\":\"Oslo\"}");
    assert_eq!(calls[1].function.arguments, "null");
}

#[test]
fn finish_reason_and_index_pass_through() {
    let mut c1 = candidate(vec![text_part("a")]);
    c1.finish_reason = Some("length".to_string());
    c1.index = Some(4);
    let c2 = candidate(vec![text_part("b")]);
    let res = GeminiResponse { candidates: Some(vec![c1, c2]), usage_metadata: None };
    let out = transform_gemini_to_openai(&res, "m", 1_700_000_333);
    assert_eq!(out.choices.len(), 2);
    assert_eq!(out.choices[0].index, 4);
    assert_eq!(out.choices[0].finish_reason.as_deref(), Some("length"));
    assert_eq!(out.choices[1].index, 1);
    assert_eq!(out.choices[1].finish_reason.as_deref(), Some("stop"));
}

#[test]
fn created_is_the_given_timestamp() {
    let res = GeminiResponse { candidates: None, usage_metadata: None };
    let out = transform_gemini_to_openai(&res, "m", 1_700_000_333);
    assert_eq!(out.created, 1_700_000_333);
}

fn call_part(name: &str) -> GeminiContentPart {
    GeminiContentPart {
        text: None,
        function_call: Some(GeminiFunctionCall { name: name.to_string(), args: None }),
        function_response: None,
        thought_signature: None,
    }
}

#[test]
fn tool_call_ids_are_pairwise_distinct() {
    let res = GeminiResponse {
        candidates: Some(vec![
            candidate(vec![call_part("f"), call_part("g"), call_part("h")]),
            candidate(vec![call_part("f")]),
        ]),
        usage_metadata: None,
    };
    let out = transform_gemini_to_openai(&res, "m", 1);
    let mut ids: Vec<String> = Vec::new();
    for ch in &out.choices {
        for tc in ch.message.tool_calls.as_ref().unwrap() {
            assert!(tc.id.starts_with("call_"));
            assert!(!ids.contains(&tc.id));
            ids.push(tc.id.clone());
        }
    }
    assert_eq!(ids.len(), 4);
}

#[test]
fn empty_candidate_fabricates_nothing() {
    let res = GeminiResponse {
        candidates: Some(vec![candidate(vec![])]),
        usage_metadata: None,
    };
    let out = transform_gemini_to_openai(&res, "m", 1_700_000_333);
    let ch = &out.choices[0];
    assert!(ch.message.content.is_none());
    assert!(ch.message.tool_calls.is_none());
}
