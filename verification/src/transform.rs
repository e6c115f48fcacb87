use vstd::prelude::*;
use vstd::string::*;
use crate::constants::GEMINI_CODE_ASSIST_ENDPOINT;
use crate::strutil::dec_str;
use crate::strutil::str_eq;
use crate::strutil::u64_to_string;

verus! {

// ---------------------------------------------------------------------------
// Inbound chat-completion schema
// ---------------------------------------------------------------------------
/// One function invocation requested by the model: the function's name and
/// its arguments as one JSON-encoded string.
pub struct OpenAIFunctionCall {
    pub name: String,
    pub arguments: String,
}

/// A tool call carried on a message; `call_type` is always `"function"`.
pub struct OpenAIToolCall {
    pub id: String,
    pub call_type: String,
    pub function: OpenAIFunctionCall,
}

/// One chat message: narrative content, tool invocations, or both.
pub struct OpenAIMessage {
    pub role: String,
    pub content: Option<String>,
    pub tool_calls: Option<Vec<OpenAIToolCall>>,
    pub tool_call_id: Option<String>,
}

/// A tool the model may call: name, description, and the parameter schema as
/// JSON text.
pub struct OpenAIFunctionDefinition {
    pub name: String,
    pub description: Option<String>,
    pub parameters: Option<String>,
}

/// A tool definition; `tool_type` is always `"function"`.
pub struct OpenAITool {
    pub tool_type: String,
    pub function: OpenAIFunctionDefinition,
}

/// An inbound chat-completion request. The sampling temperature is carried
/// as the raw bits of its 32-bit encoding: the translation only passes it
/// through, never computes with it.
pub struct OpenAIRequest {
    pub model: String,
    pub messages: Vec<OpenAIMessage>,
    pub stream: Option<bool>,
    pub temperature_bits: Option<u32>,
    pub max_tokens: Option<u32>,
    pub tools: Option<Vec<OpenAITool>>,
}

// ---------------------------------------------------------------------------
// Backend generation schema
// ---------------------------------------------------------------------------
/// A function call inside a backend content part. The structured argument
/// value is held as JSON text; `None` stands for the JSON null that an
/// unparseable argument string collapses to.
pub struct GeminiFunctionCall {
    pub name: String,
    pub args: Option<String>,
}

/// A function response inside a backend content part, as JSON text.
pub struct GeminiFunctionResponse {
    pub name: String,
    pub response: String,
}

/// One backend content part; at most one of `text`, `function_call` and
/// `function_response` is populated.
pub struct GeminiContentPart {
    pub text: Option<String>,
    pub function_call: Option<GeminiFunctionCall>,
    pub function_response: Option<GeminiFunctionResponse>,
    pub thought_signature: Option<String>,
}

/// One backend message: a role and its ordered parts.
pub struct GeminiContent {
    pub role: String,
    pub parts: Vec<GeminiContentPart>,
}

/// Generation parameters passed through from the inbound request; the
/// temperature travels as raw bits, untouched.
pub struct GeminiGenerationConfig {
    pub temperature_bits: Option<u32>,
    pub max_output_tokens: Option<u32>,
}

/// One function declaration offered to the backend; the parameter schema is
/// JSON text carried through verbatim.
pub struct GeminiFunctionDeclaration {
    pub name: String,
    pub description: Option<String>,
    pub parameters: Option<String>,
}

/// A group of function declarations.
pub struct GeminiTool {
    pub function_declarations: Vec<GeminiFunctionDeclaration>,
}

/// The backend generation request.
pub struct GeminiRequest {
    pub contents: Vec<GeminiContent>,
    pub generation_config: Option<GeminiGenerationConfig>,
    pub tools: Option<Vec<GeminiTool>>,
}

/// The envelope the backend expects: project binding, model, and the request.
pub struct GeminiWrappedRequest {
    pub project: String,
    pub model: String,
    pub request: GeminiRequest,
}

// ---------------------------------------------------------------------------
// Backend response schema
// ---------------------------------------------------------------------------
/// One alternative completion returned by the backend.
pub struct GeminiCandidate {
    pub content: Option<GeminiContent>,
    pub finish_reason: Option<String>,
    pub index: Option<u32>,
}

/// The backend's token accounting.
pub struct GeminiUsageMetadata {
    pub prompt_token_count: Option<u32>,
    pub candidates_token_count: Option<u32>,
    pub total_token_count: Option<u32>,
}

/// The backend generation response (or one streamed fragment of it).
pub struct GeminiResponse {
    pub candidates: Option<Vec<GeminiCandidate>>,
    pub usage_metadata: Option<GeminiUsageMetadata>,
}

// ---------------------------------------------------------------------------
// Outbound chat-completion schema
// ---------------------------------------------------------------------------
/// One outbound choice.
pub struct OpenAIChoice {
    pub index: u32,
    pub message: OpenAIMessage,
    pub finish_reason: Option<String>,
}

/// Outbound token accounting; absent backend counts map to zero.
pub struct OpenAIUsage {
    pub prompt_tokens: u32,
    pub completion_tokens: u32,
    pub total_tokens: u32,
}

/// The outbound chat-completion response.
pub struct OpenAIResponse {
    pub id: String,
    pub object: String,
    pub created: u64,
    pub model: String,
    pub choices: Vec<OpenAIChoice>,
    pub usage: Option<OpenAIUsage>,
}

// ---------------------------------------------------------------------------
// Trusted boundary
// ---------------------------------------------------------------------------
/// The canonical JSON text of the value that `s` parses to, or `None` when
/// `s` is not valid JSON.
pub uninterp spec fn json_norm(s: Seq<char>) -> Option<Seq<char>>;

/// Relies on serde_json::from_str to decide whether the argument string is
/// valid JSON, and on serde_json's Display for Value to write the parsed
/// value back compactly; both depend on the characters alone.
#[verifier::external_body]
fn parse_tool_args(arguments: &str) -> (r: Option<String>)
    ensures
        r is Some <==> json_norm(arguments@) is Some,
        r matches Some(s) ==> json_norm(arguments@) == Some(s@),
{
    match serde_json::from_str::<serde_json::Value>(arguments) {
        Ok(v) => Some(v.to_string()),
        Err(_) => None,
    }
}

// ---------------------------------------------------------------------------
// Request direction
// ---------------------------------------------------------------------------
/// The inbound messages with the system-role ones removed, order kept.
pub open spec fn non_system(ms: Seq<OpenAIMessage>) -> Seq<OpenAIMessage>
    decreases ms.len(),
{
    if ms.len() == 0 {
        Seq::empty()
    } else {
        let rest = non_system(ms.drop_last());
        if ms.last().role@ != "system"@ {
            rest.push(ms.last())
        } else {
            rest
        }
    }
}

/// The backend role that an inbound (non-system) role maps to.
pub open spec fn role_spec(role: Seq<char>) -> Seq<char> {
    if role == "assistant"@ {
        "model"@
    } else if role == "tool"@ {
        "function"@
    } else {
        "user"@
    }
}

/// The view of an optional string.
pub open spec fn option_view(o: Option<String>) -> Option<Seq<char>> {
    match o {
        Some(s) => Some(s@),
        None => None,
    }
}

/// Whether a message contributes a text part: present, non-empty content.
pub open spec fn has_text_part(m: OpenAIMessage) -> bool {
    match m.content {
        Some(c) => c@.len() > 0,
        None => false,
    }
}

/// The message's tool calls, or the empty sequence.
pub open spec fn tool_calls_seq(m: OpenAIMessage) -> Seq<OpenAIToolCall> {
    match m.tool_calls {
        Some(v) => v@,
        None => Seq::empty(),
    }
}

/// The placeholder signature the backend requires on function-call parts to
/// bypass its integrity check; a protocol necessity carried verbatim.
pub open spec fn skip_signature() -> Seq<char> {
    "skip_thought_signature_validator"@
}

/// The part a message's narrative content becomes.
pub open spec fn text_part_matches(m: OpenAIMessage, p: GeminiContentPart) -> bool {
    &&& p.text matches Some(t) && Some(t@) == option_view(m.content)
    &&& p.function_call is None
    &&& p.function_response is None
    &&& p.thought_signature is None
}

/// The part a tool call becomes: the argument string parsed as JSON (null
/// when unparseable) and the fixed placeholder signature attached.
pub open spec fn call_part_matches(tc: OpenAIToolCall, p: GeminiContentPart) -> bool {
    &&& p.text is None
    &&& p.function_call matches Some(fc) && fc.name@ == tc.function.name@ && option_view(fc.args)
        == json_norm(tc.function.arguments@)
    &&& p.function_response is None
    &&& p.thought_signature matches Some(s) && s@ == skip_signature()
}

/// How many leading parts a message's narrative content occupies.
pub open spec fn text_offset(m: OpenAIMessage) -> int {
    if has_text_part(m) {
        1
    } else {
        0
    }
}

/// How one non-system message maps to one backend content entry.
pub open spec fn content_matches(m: OpenAIMessage, c: GeminiContent) -> bool {
    &&& c.role@ == role_spec(m.role@)
    &&& c.parts@.len() == text_offset(m) + tool_calls_seq(m).len()
    &&& has_text_part(m) ==> text_part_matches(m, c.parts@[0])
    &&& forall|j: int|
        0 <= j < tool_calls_seq(m).len() ==> call_part_matches(
            #[trigger] tool_calls_seq(m)[j],
            c.parts@[text_offset(m) + j],
        )
}

/// The backend URL for the chosen action.
pub open spec fn endpoint_url(streaming: bool) -> Seq<char> {
    if streaming {
        GEMINI_CODE_ASSIST_ENDPOINT@ + "/v1internal:streamGenerateContent?alt=sse"@
    } else {
        GEMINI_CODE_ASSIST_ENDPOINT@ + "/v1internal:generateContent"@
    }
}

/// How one tool definition maps to one backend function declaration.
pub open spec fn decl_matches(t: OpenAITool, d: GeminiFunctionDeclaration) -> bool {
    &&& d.name@ == t.function.name@
    &&& option_view(d.description) == option_view(t.function.description)
    &&& option_view(d.parameters) == option_view(t.function.parameters)
}

/// The number of system-role messages in a request.
pub open spec fn system_count(ms: Seq<OpenAIMessage>) -> nat
    decreases ms.len(),
{
    if ms.len() == 0 {
        0
    } else {
        system_count(ms.drop_last()) + (if ms.last().role@ == "system"@ {
            1nat
        } else {
            0nat
        })
    }
}

/// Role-mapping totality and order law. The translation produces its content
/// list as `non_system` of the messages, one entry per message in order; this
/// law pins `non_system` down: exactly the non-system messages survive — as
/// many entries as messages that are not system-role — none of the survivors
/// is a system message, and a request without system messages passes through
/// whole, so dropping system entries never shifts the relative order of the
/// rest.
pub proof fn lemma_role_mapping_total(ms: Seq<OpenAIMessage>)
    ensures
        non_system(ms).len() + system_count(ms) == ms.len(),
        forall|k: int|
            0 <= k < non_system(ms).len() ==> (#[trigger] non_system(ms)[k]).role@ != "system"@,
        (forall|k: int| 0 <= k < ms.len() ==> (#[trigger] ms[k]).role@ != "system"@) ==> non_system(
            ms,
        ) == ms,
    decreases ms.len(),
{
    if ms.len() > 0 {
        lemma_role_mapping_total(ms.drop_last());
        if forall|k: int| 0 <= k < ms.len() ==> (#[trigger] ms[k]).role@ != "system"@ {
            assert(forall|k: int|
                0 <= k < ms.drop_last().len() ==> (#[trigger] ms.drop_last()[k]).role@
                    != "system"@);
            assert(ms.last() == ms[ms.len() - 1]);
            assert(non_system(ms.drop_last()).push(ms.last()) =~= ms);
        }
    }
}

proof fn lemma_non_system_push(ms: Seq<OpenAIMessage>, m: OpenAIMessage)
    ensures
        non_system(ms.push(m)) == if m.role@ != "system"@ {
            non_system(ms).push(m)
        } else {
            non_system(ms)
        },
{
    assert(ms.push(m).drop_last() =~= ms);
    assert(ms.push(m).last() == m);
}

fn clone_opt_string(o: &Option<String>) -> (r: Option<String>)
    ensures
        r == *o,
{
    match o {
        Some(s) => Some(s.clone()),
        None => None,
    }
}

/// The backend role for one inbound role.
pub fn map_role(role: &String) -> (r: String)
    ensures
        r@ == role_spec(role@),
{
    if str_eq(role.as_str(), "assistant") {
        String::from_str("model")
    } else if str_eq(role.as_str(), "tool") {
        String::from_str("function")
    } else {
        String::from_str("user")
    }
}

/// Translate an inbound chat-completion request into the backend's wrapped
/// generation request, together with the URL to post it to and whether the
/// caller asked for a streamed response.
///
/// Every non-system message becomes exactly one content entry, in order;
/// system messages are dropped. Each content entry carries a text part for
/// non-empty narrative content followed by one function-call part per tool
/// call, the call's argument string parsed as JSON (null when unparseable)
/// and the fixed placeholder signature attached. The generation config is
/// always populated; tool definitions travel as a single declaration group.
pub fn transform_openai_to_gemini(request: &OpenAIRequest, project_id: &str) -> (r: (
    String,
    GeminiWrappedRequest,
    bool,
))
    ensures
        r.2 == (request.stream == Some(true)),
        r.0@ == endpoint_url(r.2),
        r.1.project@ == project_id@,
        r.1.model@ == request.model@,
        r.1.request.contents@.len() == non_system(request.messages@).len(),
        forall|k: int|
            0 <= k < non_system(request.messages@).len() ==> content_matches(
                non_system(request.messages@)[k],
                #[trigger] r.1.request.contents@[k],
            ),
        r.1.request.generation_config matches Some(g) && g.temperature_bits
            == request.temperature_bits && g.max_output_tokens == request.max_tokens,
        request.tools is Some <==> r.1.request.tools is Some,
        request.tools matches Some(ts) ==> (r.1.request.tools matches Some(gs) && gs@.len() == 1
            && gs@[0].function_declarations@.len() == ts@.len() && forall|j: int|
            0 <= j < ts@.len() ==> decl_matches(
                ts@[j],
                #[trigger] gs@[0].function_declarations@[j],
            )),
{
    let streaming = match request.stream {
        Some(b) => b,
        None => false,
    };
    let mut url = String::from_str(GEMINI_CODE_ASSIST_ENDPOINT);
    if streaming {
        url.append("/v1internal:streamGenerateContent?alt=sse");
    } else {
        url.append("/v1internal:generateContent");
    }

    let ghost all_messages = request.messages@;
    let mut contents: Vec<GeminiContent> = Vec::new();
    let n = request.messages.len();
    let mut i: usize = 0;
    while i < n
        invariant
            n == all_messages.len(),
            all_messages == request.messages@,
            0 <= i <= n,
            contents@.len() == non_system(all_messages.subrange(0, i as int)).len(),
            forall|k: int|
                0 <= k < contents@.len() ==> content_matches(
                    non_system(all_messages.subrange(0, i as int))[k],
                    #[trigger] contents@[k],
                ),
        decreases n - i,
    {
        let msg = &request.messages[i];
        proof {
            assert(all_messages.subrange(0, i + 1) =~= all_messages.subrange(0, i as int).push(
                all_messages[i as int],
            ));
            lemma_non_system_push(all_messages.subrange(0, i as int), all_messages[i as int]);
        }
        if !str_eq(msg.role.as_str(), "system") {
            let mut parts: Vec<GeminiContentPart> = Vec::new();
            let mut has_text: bool = false;
            match &msg.content {
                Some(c) => {
                    if c.as_str().unicode_len() > 0 {
                        has_text = true;
                        parts.push(
                            GeminiContentPart {
                                text: Some(c.clone()),
                                function_call: None,
                                function_response: None,
                                thought_signature: None,
                            },
                        );
                    }
                },
                None => {},
            }
            let ghost toff: int = if has_text {
                1
            } else {
                0
            };
            match &msg.tool_calls {
                Some(tcs) => {
                    let m = tcs.len();
                    let mut j: usize = 0;
                    while j < m
                        invariant
                            m == tcs@.len(),
                            0 <= j <= m,
                            parts@.len() == toff + j,
                            has_text == has_text_part(*msg),
                            toff == if has_text_part(*msg) {
                                1int
                            } else {
                                0int
                            },
                            has_text_part(*msg) ==> text_part_matches(*msg, parts@[0]),
                            tool_calls_seq(*msg) == tcs@,
                            forall|q: int|
                                0 <= q < j ==> call_part_matches(
                                    #[trigger] tcs@[q],
                                    parts@[toff + q],
                                ),
                        decreases m - j,
                    {
                        let tc = &tcs[j];
                        let args = parse_tool_args(tc.function.arguments.as_str());
                        parts.push(
                            GeminiContentPart {
                                text: None,
                                function_call: Some(
                                    GeminiFunctionCall { name: tc.function.name.clone(), args },
                                ),
                                function_response: None,
                                thought_signature: Some(
                                    String::from_str("skip_thought_signature_validator"),
                                ),
                            },
                        );
                        j += 1;
                    }
                },
                None => {},
            }
            let role = map_role(&msg.role);
            contents.push(GeminiContent { role, parts });
        }
        i += 1;
    }
    proof {
        assert(all_messages.subrange(0, n as int) =~= all_messages);
    }

    let generation_config = Some(
        GeminiGenerationConfig {
            temperature_bits: request.temperature_bits,
            max_output_tokens: request.max_tokens,
        },
    );

    let tools: Option<Vec<GeminiTool>> = match &request.tools {
        Some(ts) => {
            let mut decls: Vec<GeminiFunctionDeclaration> = Vec::new();
            let m = ts.len();
            let mut j: usize = 0;
            while j < m
                invariant
                    m == ts@.len(),
                    0 <= j <= m,
                    decls@.len() == j,
                    forall|q: int| 0 <= q < j ==> decl_matches(ts@[q], #[trigger] decls@[q]),
                decreases m - j,
            {
                let ot = &ts[j];
                decls.push(
                    GeminiFunctionDeclaration {
                        name: ot.function.name.clone(),
                        description: clone_opt_string(&ot.function.description),
                        parameters: clone_opt_string(&ot.function.parameters),
                    },
                );
                j += 1;
            }
            Some(vec![GeminiTool { function_declarations: decls }])
        },
        None => None,
    };

    let wrapped = GeminiWrappedRequest {
        project: String::from_str(project_id),
        model: request.model.clone(),
        request: GeminiRequest { contents, generation_config, tools },
    };

    (url, wrapped, streaming)
}

// ---------------------------------------------------------------------------
// Response direction
// ---------------------------------------------------------------------------
/// Relies on rand::random: a random value; nothing is promised of it.
#[verifier::external_body]
fn random_u32() -> u32 {
    rand::random::<u32>()
}

/// Whether a string is a generated tool-call id.
pub open spec fn is_call_id(s: Seq<char>) -> bool {
    s.len() >= 5 && s.subrange(0, 5) == "call_"@
}

/// Whether a string is a generated response id.
pub open spec fn is_response_id(s: Seq<char>) -> bool {
    s.len() >= 9 && s.subrange(0, 9) == "chatcmpl-"@
}

/// The fixed head of the id generated for the tool call at position `j` of
/// the choice at position `i`: both positions as decimal numerals between
/// separators, followed by the digits of a random tail.
pub open spec fn call_id_head(i: int, j: int) -> Seq<char> {
    "call_"@ + dec_str(i as nat) + "_"@ + dec_str(j as nat) + "_"@
}

/// Whether a string is a generated id of the tool call at position `j` of
/// the choice at position `i`.
pub open spec fn is_call_id_at(s: Seq<char>, i: int, j: int) -> bool {
    s.len() >= call_id_head(i, j).len() && s.subrange(0, call_id_head(i, j).len() as int)
        == call_id_head(i, j)
}

proof fn lemma_head_embed(s: Seq<char>, i1: int, j1: int, i2: int, j2: int)
    requires
        0 <= i1 && 0 <= j1 && 0 <= i2 && 0 <= j2,
        is_call_id_at(s, i1, j1),
        is_call_id_at(s, i2, j2),
    ensures
        i1 == i2,
        j1 == j2,
{
    reveal_strlit("call_");
    reveal_strlit("_");
    let a1 = dec_str(i1 as nat);
    let a2 = dec_str(i2 as nat);
    let b1 = dec_str(j1 as nat);
    let b2 = dec_str(j2 as nat);
    crate::strutil::lemma_dec_str_digits(i1 as nat);
    crate::strutil::lemma_dec_str_digits(i2 as nat);
    crate::strutil::lemma_dec_str_digits(j1 as nat);
    crate::strutil::lemma_dec_str_digits(j2 as nat);
    let h1 = call_id_head(i1, j1);
    let h2 = call_id_head(i2, j2);
    assert(("call_"@).len() == 5);
    assert(("_"@).len() == 1);
    assert(("_"@)[0] == '_');
    assert(h1.len() == 7 + a1.len() + b1.len());
    assert(h2.len() == 7 + a2.len() + b2.len());
    assert forall|k: int| 0 <= k < h1.len() implies s[k] == h1[k] by {
        assert(s.subrange(0, h1.len() as int)[k] == s[k]);
        assert(s.subrange(0, h1.len() as int)[k] == h1[k]);
    }
    assert forall|k: int| 0 <= k < h2.len() implies s[k] == h2[k] by {
        assert(s.subrange(0, h2.len() as int)[k] == s[k]);
        assert(s.subrange(0, h2.len() as int)[k] == h2[k]);
    }
    // the numerals hold digits only, so the separators after them must line
    // up: first for the choice position, then for the call position
    assert forall|k: int| 0 <= k < a1.len() implies s[5 + k] == a1[k] by {
        assert(h1[5 + k] == a1[k]);
    }
    assert forall|k: int| 0 <= k < a2.len() implies s[5 + k] == a2[k] by {
        assert(h2[5 + k] == a2[k]);
    }
    assert(h1[5 + a1.len() as int] == '_');
    assert(h2[5 + a2.len() as int] == '_');
    assert(s[5 + a1.len() as int] == '_');
    assert(s[5 + a2.len() as int] == '_');
    assert(!crate::strutil::is_dec_digit('_'));
    if a1.len() < a2.len() {
        assert(crate::strutil::is_dec_digit(a2[a1.len() as int]));
        assert(false);
    }
    if a2.len() < a1.len() {
        assert(crate::strutil::is_dec_digit(a1[a2.len() as int]));
        assert(false);
    }
    assert(a1 =~= a2);
    crate::strutil::lemma_dec_str_injective(i1 as nat, i2 as nat);
    let o = 5 + a1.len() as int + 1;
    assert forall|k: int| 0 <= k < b1.len() implies s[o + k] == b1[k] by {
        assert(h1[o + k] == b1[k]);
    }
    assert forall|k: int| 0 <= k < b2.len() implies s[o + k] == b2[k] by {
        assert(h2[o + k] == b2[k]);
    }
    assert(h1[o + b1.len() as int] == '_');
    assert(h2[o + b2.len() as int] == '_');
    assert(s[o + b1.len() as int] == '_');
    assert(s[o + b2.len() as int] == '_');
    if b1.len() < b2.len() {
        assert(crate::strutil::is_dec_digit(b2[b1.len() as int]));
        assert(false);
    }
    if b2.len() < b1.len() {
        assert(crate::strutil::is_dec_digit(b1[b2.len() as int]));
        assert(false);
    }
    assert(b1 =~= b2);
    crate::strutil::lemma_dec_str_injective(j1 as nat, j2 as nat);
}

/// Tool-call id uniqueness law: ids generated at distinct positions — a
/// different choice, or a different call within one — are distinct strings,
/// whatever their random tails, because each id carries its two positions as
/// separator-delimited numerals.
pub proof fn lemma_call_ids_distinct(
    s1: Seq<char>,
    i1: int,
    j1: int,
    s2: Seq<char>,
    i2: int,
    j2: int,
)
    requires
        0 <= i1 && 0 <= j1 && 0 <= i2 && 0 <= j2,
        is_call_id_at(s1, i1, j1),
        is_call_id_at(s2, i2, j2),
        i1 != i2 || j1 != j2,
    ensures
        s1 != s2,
{
    if s1 == s2 {
        lemma_head_embed(s1, i1, j1, i2, j2);
    }
}

fn fresh_call_id(i: usize, j: usize) -> (r: String)
    ensures
        is_call_id(r@),
        is_call_id_at(r@, i as int, j as int),
{
    let mut id = String::from_str("call_");
    let choice_digits = u64_to_string(i as u64);
    id.append(choice_digits.as_str());
    id.append("_");
    let call_digits = u64_to_string(j as u64);
    id.append(call_digits.as_str());
    id.append("_");
    let tail_digits = u64_to_string(random_u32() as u64);
    id.append(tail_digits.as_str());
    proof {
        reveal_strlit("call_");
        reveal_strlit("_");
        let head = call_id_head(i as int, j as int);
        assert(id@.subrange(0, 5) =~= "call_"@);
        assert(id@.subrange(0, head.len() as int) =~= head);
    }
    id
}

fn fresh_response_id() -> (r: String)
    ensures
        is_response_id(r@),
{
    let mut id = String::from_str("chatcmpl-");
    let digits = u64_to_string(random_u32() as u64);
    id.append(digits.as_str());
    proof {
        reveal_strlit("chatcmpl-");
        assert(id@.subrange(0, 9) =~= "chatcmpl-"@);
    }
    id
}

/// The candidate's parts, or none when it carries no content.
pub open spec fn candidate_parts(c: GeminiCandidate) -> Seq<GeminiContentPart> {
    match c.content {
        Some(ct) => ct.parts@,
        None => Seq::empty(),
    }
}

/// All text parts of a candidate, concatenated in part order.
pub open spec fn texts_of(parts: Seq<GeminiContentPart>) -> Seq<char>
    decreases parts.len(),
{
    if parts.len() == 0 {
        Seq::empty()
    } else {
        texts_of(parts.drop_last()) + (match parts.last().text {
            Some(t) => t@,
            None => Seq::<char>::empty(),
        })
    }
}

/// All function-call parts of a candidate, in part order.
pub open spec fn calls_of(parts: Seq<GeminiContentPart>) -> Seq<GeminiFunctionCall>
    decreases parts.len(),
{
    if parts.len() == 0 {
        Seq::empty()
    } else {
        calls_of(parts.drop_last()) + (match parts.last().function_call {
            Some(f) => seq![f],
            None => Seq::<GeminiFunctionCall>::empty(),
        })
    }
}

/// The JSON text of a function call's arguments; null when absent.
pub open spec fn args_text(a: Option<String>) -> Seq<char> {
    match a {
        Some(s) => s@,
        None => "null"@,
    }
}

/// The finish reason passed through verbatim, with `"stop"` as the default.
pub open spec fn finish_of(c: GeminiCandidate) -> Seq<char> {
    match c.finish_reason {
        Some(f) => f@,
        None => "stop"@,
    }
}

/// How one backend function call maps to the outbound tool call at position
/// `j` of the choice at position `i`: a freshly generated id carrying both
/// positions (so ids are pairwise distinct, see `lemma_call_ids_distinct`),
/// and the structured args written back as one JSON string.
pub open spec fn tool_call_matches(fc: GeminiFunctionCall, tc: OpenAIToolCall, i: int, j: int) -> bool {
    &&& is_call_id(tc.id@)
    &&& is_call_id_at(tc.id@, i, j)
    &&& tc.call_type@ == "function"@
    &&& tc.function.name@ == fc.name@
    &&& tc.function.arguments@ == args_text(fc.args)
}

/// How the backend's candidate at position `i` maps to one outbound choice.
pub open spec fn choice_matches(cand: GeminiCandidate, i: int, ch: OpenAIChoice) -> bool {
    let txt = texts_of(candidate_parts(cand));
    let calls = calls_of(candidate_parts(cand));
    &&& ch.index as int == (match cand.index {
        Some(x) => x as int,
        None => i,
    })
    &&& ch.message.role@ == "assistant"@
    &&& (txt.len() == 0 ==> ch.message.content is None)
    &&& (txt.len() > 0 ==> (ch.message.content matches Some(s) && s@ == txt))
    &&& (calls.len() == 0 ==> ch.message.tool_calls is None)
    &&& (calls.len() > 0 ==> (ch.message.tool_calls matches Some(tcs) && tcs@.len() == calls.len()
        && forall|q: int|
        0 <= q < calls.len() ==> tool_call_matches(calls[q], #[trigger] tcs@[q], i, q)))
    &&& ch.message.tool_call_id is None
    &&& ch.finish_reason matches Some(f) && f@ == finish_of(cand)
}

/// The id of the tool call at position `q` of a choice.
pub open spec fn choice_call_id(ch: OpenAIChoice, q: int) -> Seq<char> {
    match ch.message.tool_calls {
        Some(tcs) => tcs@[q].id@,
        None => Seq::empty(),
    }
}

/// How many tool calls a choice carries.
pub open spec fn choice_call_count(ch: OpenAIChoice) -> int {
    match ch.message.tool_calls {
        Some(tcs) => tcs@.len() as int,
        None => 0,
    }
}

/// The backend's candidates, or none.
pub open spec fn candidates_seq(r: GeminiResponse) -> Seq<GeminiCandidate> {
    match r.candidates {
        Some(c) => c@,
        None => Seq::empty(),
    }
}

/// How the backend's token accounting maps to the outbound one: counts pass
/// through, absent sub-counts default to zero.
pub open spec fn usage_matches(g: Option<GeminiUsageMetadata>, u: Option<OpenAIUsage>) -> bool {
    match g {
        None => u is None,
        Some(gm) => u matches Some(ou) && ou.prompt_tokens == (match gm.prompt_token_count {
            Some(x) => x,
            None => 0u32,
        }) && ou.completion_tokens == (match gm.candidates_token_count {
            Some(x) => x,
            None => 0u32,
        }) && ou.total_tokens == (match gm.total_token_count {
            Some(x) => x,
            None => 0u32,
        }),
    }
}

proof fn lemma_texts_push(s: Seq<GeminiContentPart>, p: GeminiContentPart)
    ensures
        texts_of(s.push(p)) == texts_of(s) + (match p.text {
            Some(t) => t@,
            None => Seq::<char>::empty(),
        }),
{
    assert(s.push(p).drop_last() =~= s);
    assert(s.push(p).last() == p);
}

proof fn lemma_calls_push(s: Seq<GeminiContentPart>, p: GeminiContentPart)
    ensures
        calls_of(s.push(p)) == calls_of(s) + (match p.function_call {
            Some(f) => seq![f],
            None => Seq::<GeminiFunctionCall>::empty(),
        }),
{
    assert(s.push(p).drop_last() =~= s);
    assert(s.push(p).last() == p);
}

fn args_to_text(a: &Option<String>) -> (r: String)
    ensures
        r@ == args_text(*a),
{
    match a {
        Some(s) => s.clone(),
        None => String::from_str("null"),
    }
}

/// Translate a backend generation response into an outbound chat-completion
/// response created at time `created` (the caller samples the clock).
///
/// For each candidate, in order: all text parts concatenate into the message
/// content (absent when empty), every function-call part becomes a tool call
/// with a freshly generated, pairwise distinct id and JSON-encoded
/// arguments, the finish reason passes through with `"stop"` as the default,
/// and the index passes through with the candidate's position as the
/// default. Usage counts pass through with zero for missing sub-counts. Of
/// the ids only their structure is promised — the random tails remain free.
pub fn transform_gemini_to_openai(res: &GeminiResponse, model: &str, created: u64) -> (r:
    OpenAIResponse)
    requires
        candidates_seq(*res).len() <= u32::MAX,
    ensures
        r.object@ == "chat.completion"@,
        r.model@ == model@,
        r.created == created,
        is_response_id(r.id@),
        r.choices@.len() == candidates_seq(*res).len(),
        forall|i: int|
            0 <= i < candidates_seq(*res).len() ==> choice_matches(
                candidates_seq(*res)[i],
                i,
                #[trigger] r.choices@[i],
            ),
        forall|i1: int, q1: int, i2: int, q2: int|
            #![trigger choice_call_id(r.choices@[i1], q1), choice_call_id(r.choices@[i2], q2)]
            0 <= i1 < r.choices@.len() && 0 <= q1 < choice_call_count(r.choices@[i1]) && 0 <= i2
                < r.choices@.len() && 0 <= q2 < choice_call_count(r.choices@[i2]) && (i1 != i2 || q1
                != q2) ==> choice_call_id(r.choices@[i1], q1) != choice_call_id(r.choices@[i2], q2),
        usage_matches(res.usage_metadata, r.usage),
{
    let mut choices: Vec<OpenAIChoice> = Vec::new();
    match &res.candidates {
        Some(cands) => {
            let n = cands.len();
            let mut i: usize = 0;
            while i < n
                invariant
                    cands@ == candidates_seq(*res),
                    n == cands@.len(),
                    n <= u32::MAX,
                    0 <= i <= n,
                    choices@.len() == i,
                    forall|k: int|
                        0 <= k < i ==> choice_matches(cands@[k], k, #[trigger] choices@[k]),
                decreases n - i,
            {
                let cand = &cands[i];
                let mut text = String::new();
                let mut tool_calls: Vec<OpenAIToolCall> = Vec::new();
                match &cand.content {
                    Some(content) => {
                        let pn = content.parts.len();
                        let mut p: usize = 0;
                        while p < pn
                            invariant
                                pn == content.parts@.len(),
                                0 <= p <= pn,
                                content.parts@ == candidate_parts(*cand),
                                text@ == texts_of(content.parts@.subrange(0, p as int)),
                                tool_calls@.len() == calls_of(
                                    content.parts@.subrange(0, p as int),
                                ).len(),
                                forall|q: int|
                                    0 <= q < tool_calls@.len() ==> tool_call_matches(
                                        calls_of(content.parts@.subrange(0, p as int))[q],
                                        #[trigger] tool_calls@[q],
                                        i as int,
                                        q,
                                    ),
                            decreases pn - p,
                        {
                            proof {
                                assert(content.parts@.subrange(0, p + 1) =~= content.parts@.subrange(
                                    0,
                                    p as int,
                                ).push(content.parts@[p as int]));
                                lemma_texts_push(
                                    content.parts@.subrange(0, p as int),
                                    content.parts@[p as int],
                                );
                                lemma_calls_push(
                                    content.parts@.subrange(0, p as int),
                                    content.parts@[p as int],
                                );
                            }
                            let part = &content.parts[p];
                            match &part.text {
                                Some(t) => {
                                    text.append(t.as_str());
                                },
                                None => {
                                    proof {
                                        assert(text@ + Seq::<char>::empty() =~= text@);
                                    }
                                },
                            }
                            match &part.function_call {
                                Some(fc) => {
                                    let id = fresh_call_id(i, tool_calls.len());
                                    tool_calls.push(
                                        OpenAIToolCall {
                                            id,
                                            call_type: String::from_str("function"),
                                            function: OpenAIFunctionCall {
                                                name: fc.name.clone(),
                                                arguments: args_to_text(&fc.args),
                                            },
                                        },
                                    );
                                    proof {
                                        assert(calls_of(content.parts@.subrange(0, p + 1))
                                            =~= calls_of(
                                            content.parts@.subrange(0, p as int),
                                        ).push(*fc));
                                    }
                                },
                                None => {
                                    proof {
                                        assert(calls_of(content.parts@.subrange(0, p as int))
                                            + Seq::<GeminiFunctionCall>::empty() =~= calls_of(
                                            content.parts@.subrange(0, p as int),
                                        ));
                                    }
                                },
                            }
                            p += 1;
                        }
                        proof {
                            assert(content.parts@.subrange(0, pn as int) =~= content.parts@);
                        }
                    },
                    None => {},
                }
                let content_opt: Option<String> = if text.as_str().unicode_len() == 0 {
                    None
                } else {
                    Some(text)
                };
                let tc_opt: Option<Vec<OpenAIToolCall>> = if tool_calls.len() == 0 {
                    None
                } else {
                    Some(tool_calls)
                };
                let index: u32 = match cand.index {
                    Some(x) => x,
                    None => i as u32,
                };
                let finish: Option<String> = match &cand.finish_reason {
                    Some(f) => Some(f.clone()),
                    None => Some(String::from_str("stop")),
                };
                choices.push(
                    OpenAIChoice {
                        index,
                        message: OpenAIMessage {
                            role: String::from_str("assistant"),
                            content: content_opt,
                            tool_calls: tc_opt,
                            tool_call_id: None,
                        },
                        finish_reason: finish,
                    },
                );
                i += 1;
            }
        },
        None => {},
    }
    let usage: Option<OpenAIUsage> = match &res.usage_metadata {
        Some(u) => Some(
            OpenAIUsage {
                prompt_tokens: match u.prompt_token_count {
                    Some(x) => x,
                    None => 0,
                },
                completion_tokens: match u.candidates_token_count {
                    Some(x) => x,
                    None => 0,
                },
                total_tokens: match u.total_token_count {
                    Some(x) => x,
                    None => 0,
                },
            },
        ),
        None => None,
    };
    proof {
        let cs = candidates_seq(*res);
        assert forall|i1: int, q1: int, i2: int, q2: int|
            0 <= i1 < choices@.len() && 0 <= q1 < choice_call_count(choices@[i1]) && 0 <= i2
                < choices@.len() && 0 <= q2 < choice_call_count(choices@[i2]) && (i1 != i2 || q1
                != q2) implies choice_call_id(choices@[i1], q1) != choice_call_id(
            choices@[i2],
            q2,
        ) by {
            let ch1 = choices@[i1];
            let ch2 = choices@[i2];
            assert(choice_matches(cs[i1], i1, ch1));
            assert(choice_matches(cs[i2], i2, ch2));
            let calls1 = calls_of(candidate_parts(cs[i1]));
            let calls2 = calls_of(candidate_parts(cs[i2]));
            assert(calls1.len() > 0);
            assert(calls2.len() > 0);
            assert(tool_call_matches(calls1[q1], ch1.message.tool_calls->Some_0@[q1], i1, q1));
            assert(tool_call_matches(calls2[q2], ch2.message.tool_calls->Some_0@[q2], i2, q2));
            lemma_call_ids_distinct(
                choice_call_id(ch1, q1),
                i1,
                q1,
                choice_call_id(ch2, q2),
                i2,
                q2,
            );
        }
    }
    OpenAIResponse {
        id: fresh_response_id(),
        object: String::from_str("chat.completion"),
        created,
        model: String::from_str(model),
        choices,
        usage,
    }
}

} // verus!
