use vstd::prelude::*;
use vstd::string::*;
use crate::strutil::str_eq;
use crate::transform::GeminiCandidate;
use crate::transform::GeminiContent;
use crate::transform::GeminiContentPart;
use crate::transform::GeminiFunctionCall;
use crate::transform::GeminiResponse;
use crate::transform::GeminiUsageMetadata;
use crate::transform::OpenAIChoice;
use crate::transform::OpenAIResponse;
use crate::transform::calls_of;
use crate::transform::candidate_parts;
use crate::transform::candidates_seq;
use crate::transform::choice_matches;
use crate::transform::finish_of;
use crate::transform::is_response_id;
use crate::transform::texts_of;
use crate::transform::tool_call_matches;
use crate::transform::transform_gemini_to_openai;
use crate::transform::usage_matches;

verus! {

// ---------------------------------------------------------------------------
// Frame extraction
//
// The backend stream is newline-delimited text; each line, once surrounding
// whitespace is removed, either carries a `data: ` payload or is ignored.
// The payload `[DONE]` is the termination sentinel: it is consumed here and
// never re-emitted, the outbound stream signals termination by closing.
// ---------------------------------------------------------------------------
/// Whitespace that is stripped around a frame line. Deliberately only ASCII
/// whitespace: the SSE framing (`data: `, `[DONE]`, CRLF line ends) is an
/// ASCII protocol, so a payload is never delimited by other whitespace.
pub open spec fn is_space(c: char) -> bool {
    c == ' ' || c == '\t' || c == '\r'
}

/// A line with its leading whitespace removed.
pub open spec fn trim_leading(l: Seq<char>) -> Seq<char>
    decreases l.len(),
{
    if l.len() > 0 && is_space(l[0]) {
        trim_leading(l.drop_first())
    } else {
        l
    }
}

/// A line with its trailing whitespace removed.
pub open spec fn trim_trailing(l: Seq<char>) -> Seq<char>
    decreases l.len(),
{
    if l.len() > 0 && is_space(l.last()) {
        trim_trailing(l.drop_last())
    } else {
        l
    }
}

/// A line with whitespace removed on both sides.
pub open spec fn trimmed(l: Seq<char>) -> Seq<char> {
    trim_trailing(trim_leading(l))
}

/// The payload a single line contributes: the text after `data: ` on a
/// trimmed data line, unless it is the `[DONE]` sentinel; nothing otherwise.
pub open spec fn line_payload(l: Seq<char>) -> Option<Seq<char>> {
    let t = trimmed(l);
    if t.len() >= 6 && t.subrange(0, 6) == "data: "@ {
        let payload = t.subrange(6, t.len() as int);
        if payload == "[DONE]"@ {
            None
        } else {
            Some(payload)
        }
    } else {
        None
    }
}

/// The payloads of a text scanned character by character; `cur` is the part
/// of the current line already seen.
pub open spec fn payloads_rec(s: Seq<char>, cur: Seq<char>) -> Seq<Seq<char>>
    decreases s.len(),
{
    if s.len() == 0 {
        match line_payload(cur) {
            Some(p) => seq![p],
            None => Seq::empty(),
        }
    } else if s[0] == '\n' {
        (match line_payload(cur) {
            Some(p) => seq![p],
            None => Seq::<Seq<char>>::empty(),
        }) + payloads_rec(s.drop_first(), Seq::empty())
    } else {
        payloads_rec(s.drop_first(), cur.push(s[0]))
    }
}

/// All `data: ` payloads of a chunk of stream text, in order, without the
/// `[DONE]` sentinel.
pub open spec fn frame_payloads(s: Seq<char>) -> Seq<Seq<char>> {
    payloads_rec(s, Seq::empty())
}

/// The views of a vector of strings.
pub open spec fn views_of(v: Seq<String>) -> Seq<Seq<char>> {
    Seq::new(v.len(), |i: int| v[i]@)
}

proof fn lemma_views_push(v: Seq<String>, x: String)
    ensures
        views_of(v.push(x)) == views_of(v).push(x@),
{
    assert(views_of(v.push(x)) =~= views_of(v).push(x@));
}

proof fn lemma_trim_leading(l: Seq<char>, a: int)
    requires
        0 <= a <= l.len(),
        forall|q: int| 0 <= q < a ==> is_space(#[trigger] l[q]),
        a == l.len() || !is_space(l[a]),
    ensures
        trim_leading(l) == l.subrange(a, l.len() as int),
    decreases a,
{
    if a == 0 {
        assert(l.subrange(0, l.len() as int) =~= l);
    } else {
        assert(is_space(l[0]));
        lemma_trim_leading(l.drop_first(), a - 1);
        assert(l.drop_first().subrange(a - 1, l.drop_first().len() as int) =~= l.subrange(
            a,
            l.len() as int,
        ));
    }
}

proof fn lemma_trim_trailing(t: Seq<char>, b: int)
    requires
        0 <= b <= t.len(),
        forall|q: int| b <= q < t.len() ==> is_space(#[trigger] t[q]),
        b == 0 || !is_space(t[b - 1]),
    ensures
        trim_trailing(t) == t.subrange(0, b),
    decreases t.len() - b,
{
    if b < t.len() {
        assert(is_space(t.last()));
        lemma_trim_trailing(t.drop_last(), b);
        assert(t.drop_last().subrange(0, b) =~= t.subrange(0, b));
    } else {
        if t.len() == 0 {
            assert(t.subrange(0, 0) =~= t);
        } else {
            assert(!is_space(t.last()));
            assert(t.subrange(0, t.len() as int) =~= t);
        }
    }
}

fn is_space_exec(c: char) -> (r: bool)
    ensures
        r == is_space(c),
{
    c == ' ' || c == '\t' || c == '\r'
}

/// The payload of one stream line, per `line_payload`.
fn line_payload_exec(line: &str) -> (r: Option<String>)
    ensures
        r is Some <==> line_payload(line@) is Some,
        r matches Some(p) ==> line_payload(line@) == Some(p@),
{
    let len = line.unicode_len();
    let mut a: usize = 0;
    while a < len && is_space_exec(line.get_char(a))
        invariant
            len == line@.len(),
            0 <= a <= len,
            forall|q: int| 0 <= q < a ==> is_space(#[trigger] line@[q]),
        decreases len - a,
    {
        a += 1;
    }
    let mut b: usize = len;
    while b > a && is_space_exec(line.get_char(b - 1))
        invariant
            len == line@.len(),
            a <= b <= len,
            forall|q: int| b <= q < len ==> is_space(#[trigger] line@[q]),
        decreases b,
    {
        b -= 1;
    }
    proof {
        lemma_trim_leading(line@, a as int);
        let t1 = line@.subrange(a as int, len as int);
        lemma_trim_trailing(t1, b - a);
        assert(t1.subrange(0, b - a) =~= line@.subrange(a as int, b as int));
        assert(trimmed(line@) == line@.subrange(a as int, b as int));
    }
    let ghost t = trimmed(line@);
    if b - a >= 6 {
        let is_data = line.get_char(a) == 'd' && line.get_char(a + 1) == 'a' && line.get_char(
            a + 2,
        ) == 't' && line.get_char(a + 3) == 'a' && line.get_char(a + 4) == ':' && line.get_char(
            a + 5,
        ) == ' ';
        proof {
            reveal_strlit("data: ");
            assert(is_data <==> t.subrange(0, 6) =~= "data: "@) by {
                assert(t.len() >= 6);
                assert(forall|k: int| 0 <= k < 6 ==> t.subrange(0, 6)[k] == line@[a + k]);
                assert("data: "@[0] == 'd' && "data: "@[1] == 'a' && "data: "@[2] == 't'
                    && "data: "@[3] == 'a' && "data: "@[4] == ':' && "data: "@[5] == ' ');
            }
        }
        if is_data {
            let payload = line.substring_char(a + 6, b);
            proof {
                assert(payload@ =~= t.subrange(6, t.len() as int));
            }
            if str_eq(payload, "[DONE]") {
                None
            } else {
                Some(payload.to_owned())
            }
        } else {
            None
        }
    } else {
        None
    }
}

/// Extract, in order, every `data: ` payload of one chunk of stream text,
/// dropping the `[DONE]` sentinel.
pub fn extract_frames(text: &str) -> (r: Vec<String>)
    ensures
        views_of(r@) == frame_payloads(text@),
{
    let len = text.unicode_len();
    let mut out: Vec<String> = Vec::new();
    proof {
        assert(text@.subrange(0, len as int) =~= text@);
        assert(text@.subrange(0, 0) =~= Seq::<char>::empty());
        assert(views_of(out@) =~= Seq::<Seq<char>>::empty());
        assert(views_of(out@) + frame_payloads(text@) =~= frame_payloads(text@));
    }
    let mut li: usize = 0;
    let mut i: usize = 0;
    while i < len
        invariant
            len == text@.len(),
            0 <= li <= i <= len,
            forall|q: int| li <= q < i ==> text@[q] != '\n',
            views_of(out@) + payloads_rec(
                text@.subrange(i as int, len as int),
                text@.subrange(li as int, i as int),
            ) == frame_payloads(text@),
        decreases len - i,
    {
        let ghost rest = text@.subrange(i as int, len as int);
        let ghost cur = text@.subrange(li as int, i as int);
        proof {
            assert(rest[0] == text@[i as int]);
            assert(rest.drop_first() =~= text@.subrange(i + 1, len as int));
        }
        let c = text.get_char(i);
        if c == '\n' {
            let line = text.substring_char(li, i);
            match line_payload_exec(line) {
                Some(p) => {
                    proof {
                        lemma_views_push(out@, p);
                        assert(seq![p@] + payloads_rec(rest.drop_first(), Seq::empty())
                            =~= seq![p@].add(payloads_rec(rest.drop_first(), Seq::empty())));
                        assert(views_of(out@).push(p@) + payloads_rec(
                            rest.drop_first(),
                            Seq::empty(),
                        ) =~= views_of(out@) + (seq![p@] + payloads_rec(
                            rest.drop_first(),
                            Seq::empty(),
                        )));
                    }
                    out.push(p);
                },
                None => {
                    proof {
                        assert(Seq::<Seq<char>>::empty() + payloads_rec(
                            rest.drop_first(),
                            Seq::empty(),
                        ) =~= payloads_rec(rest.drop_first(), Seq::empty()));
                    }
                },
            }
            li = i + 1;
            proof {
                assert(text@.subrange(li as int, li as int) =~= Seq::<char>::empty());
            }
        } else {
            proof {
                assert(cur.push(text@[i as int]) =~= text@.subrange(li as int, i + 1));
            }
        }
        i += 1;
    }
    proof {
        assert(text@.subrange(len as int, len as int) =~= Seq::<char>::empty());
    }
    if li < len {
        let line = text.substring_char(li, len);
        let ghost cur = text@.subrange(li as int, len as int);
        match line_payload_exec(line) {
            Some(p) => {
                proof {
                    lemma_views_push(out@, p);
                    assert(views_of(out@).push(p@) =~= views_of(out@) + seq![p@]);
                }
                out.push(p);
            },
            None => {
                proof {
                    assert(views_of(out@) + Seq::<Seq<char>>::empty() =~= views_of(out@));
                }
            },
        }
    } else {
        proof {
            assert(line_payload(Seq::<char>::empty()) is None);
            assert(views_of(out@) + Seq::<Seq<char>>::empty() =~= views_of(out@));
        }
    }
    out
}

// ---------------------------------------------------------------------------
// Trusted frame decoding
//
// A frame payload is JSON, possibly wrapped in a `response` envelope. Its
// decoding is serde_json's work and is taken on trust in small steps, each a
// function of its input text alone: the envelope's candidates as their own
// JSON texts, the envelope's usage counts, one candidate's shape, and one
// content part. Everything assembled from them is verified.
// ---------------------------------------------------------------------------
/// What a frame payload's envelope holds as candidates, each as its own JSON
/// text; nothing when the payload is not valid JSON, and an absent inner
/// value when it carries no candidates array.
pub uninterp spec fn frame_cands_of(s: Seq<char>) -> Option<Option<Vec<String>>>;

/// Relies on serde_json::from_str, the Value accessors get and as_array, and
/// Display for Value: parses the payload, unwraps the optional `response`
/// envelope and hands each candidate back as its own JSON text; all of it
/// depends on the characters alone. Deliberately lenient: a `candidates`
/// field that is not an array counts as absent rather than refusing the
/// whole body.
#[verifier::external_body]
fn frame_cands(s: &str) -> (r: Option<Option<Vec<String>>>)
    ensures
        r == frame_cands_of(s@),
{
    let v: serde_json::Value = match serde_json::from_str(s) { Ok(x) => x, Err(_) => return None };
    let inner = v.get("response").cloned();
    let v = match inner { Some(x) => x, None => v };
    Some(v.get("candidates").and_then(|c| c.as_array()).map(|a| a.iter().map(|c| c.to_string()).collect()))
}

/// The usage counts a frame payload's envelope carries, when it parses and
/// has any.
pub uninterp spec fn usage_of(s: Seq<char>) -> Option<GeminiUsageMetadata>;

/// Relies on serde_json::from_str and the Value accessors get and as_u64:
/// reads the usage counts under the optional `response` envelope, each
/// absent when missing or not 32-bit; depends on the characters alone.
#[verifier::external_body]
fn frame_usage(s: &str) -> (r: Option<GeminiUsageMetadata>)
    ensures
        r == usage_of(s@),
{
    let v: serde_json::Value = serde_json::from_str(s).ok()?;
    let inner = v.get("response").cloned();
    let v = match inner { Some(x) => x, None => v };
    let u = v.get("usageMetadata")?;
    let num = |k: &str| u.get(k).and_then(|x| x.as_u64()).and_then(|x| u32::try_from(x).ok());
    Some(GeminiUsageMetadata {
        prompt_token_count: num("promptTokenCount"),
        candidates_token_count: num("candidatesTokenCount"),
        total_token_count: num("totalTokenCount"),
    })
}

/// What one candidate's JSON text holds: its content as a role and the parts
/// as their own JSON texts, the finish reason, and the index; nothing when
/// the text does not fit the candidate schema.
pub uninterp spec fn candidate_shell_of(s: Seq<char>) -> Option<
    (Option<(String, Vec<String>)>, Option<String>, Option<u32>),
>;

/// Relies on serde_json::from_str, the Value accessors get, as_str, as_array
/// and as_u64, and Display for Value: reads one candidate, refusing it when
/// a present content lacks its role or its parts array; depends on the
/// characters alone.
#[verifier::external_body]
fn candidate_shell(s: &str) -> (r: Option<
    (Option<(String, Vec<String>)>, Option<String>, Option<u32>),
>)
    ensures
        r == candidate_shell_of(s@),
{
    let v: serde_json::Value = match serde_json::from_str(s) { Ok(x) => x, Err(_) => return None };
    let content = match v.get("content") {
        None => None,
        Some(c) => {
            let role = c.get("role")?.as_str()?.to_string();
            let parts = c.get("parts")?.as_array()?.iter().map(|p| p.to_string()).collect();
            Some((role, parts))
        },
    };
    let finish = v.get("finishReason").and_then(|f| f.as_str()).map(str::to_string);
    let index = v.get("index").and_then(|x| x.as_u64()).and_then(|x| u32::try_from(x).ok());
    Some((content, finish, index))
}

/// What one part's JSON text holds; nothing when it does not fit the part
/// schema.
pub uninterp spec fn part_of(s: Seq<char>) -> Option<GeminiContentPart>;

/// Relies on serde_json::from_str, the Value accessors get and as_str, and
/// Display for Value: reads one content part's text and function call,
/// refusing a present text that is not a string and a present call without
/// its name; the fields the translation never reads are left absent; depends
/// on the characters alone. Deliberately lenient: a call without `args`
/// keeps null args rather than refusing the frame.
#[verifier::external_body]
fn decode_part(s: &str) -> (r: Option<GeminiContentPart>)
    ensures
        r == part_of(s@),
{
    let p: serde_json::Value = match serde_json::from_str(s) { Ok(x) => x, Err(_) => return None };
    let text = match p.get("text") { None => None, Some(t) => Some(t.as_str()?.to_string()) };
    let function_call = match p.get("functionCall") {
        None => None,
        Some(f) => Some(GeminiFunctionCall {
            name: f.get("name")?.as_str()?.to_string(),
            args: f.get("args").map(|a| a.to_string()),
        }),
    };
    Some(GeminiContentPart { text, function_call, function_response: None, thought_signature: None })
}

// ---------------------------------------------------------------------------
// Verified decoding, assembled from the trusted steps
// ---------------------------------------------------------------------------
/// The candidate JSON texts of a frame payload, or none.
pub open spec fn shell_cands(s: Seq<char>) -> Seq<Seq<char>> {
    match frame_cands_of(s) {
        Some(sh) => match sh {
            Some(v) => views_of(v@),
            None => Seq::empty(),
        },
        None => Seq::empty(),
    }
}

/// The usage counts of a frame payload, or none.
pub open spec fn decoded_usage(s: Seq<char>) -> Option<GeminiUsageMetadata> {
    usage_of(s)
}

/// Whether one candidate's JSON text decodes.
pub open spec fn cand_ok(cs: Seq<char>) -> bool {
    candidate_shell_of(cs) matches Some(csh) && (csh.0 matches Some(ct) ==> forall|k: int|
        0 <= k < ct.1@.len() ==> part_of(#[trigger] ct.1@[k]@) is Some)
}

/// The decoded parts of one candidate's JSON text.
pub open spec fn cand_parts_spec(cs: Seq<char>) -> Seq<GeminiContentPart> {
    match candidate_shell_of(cs) {
        Some(csh) => match csh.0 {
            Some(ct) => Seq::new(ct.1@.len(), |k: int| part_of(ct.1@[k]@)->Some_0),
            None => Seq::empty(),
        },
        None => Seq::empty(),
    }
}

/// The decoded index of one candidate's JSON text.
pub open spec fn cand_index_spec(cs: Seq<char>) -> Option<u32> {
    match candidate_shell_of(cs) {
        Some(csh) => csh.2,
        None => None,
    }
}

/// The decoded finish reason of one candidate's JSON text, `"stop"` when
/// absent.
pub open spec fn cand_finish_spec(cs: Seq<char>) -> Seq<char> {
    match candidate_shell_of(cs) {
        Some(csh) => match csh.1 {
            Some(f) => f@,
            None => "stop"@,
        },
        None => "stop"@,
    }
}

/// How a decoded candidate relates to its JSON text.
pub open spec fn cand_rel(cs: Seq<char>, c: GeminiCandidate) -> bool {
    candidate_shell_of(cs) matches Some(csh) && {
        &&& (c.content is Some <==> csh.0 is Some)
        &&& (c.content matches Some(ct) ==> (csh.0 matches Some(sh) && ct.role == sh.0 && ct.parts@
            == cand_parts_spec(cs)))
        &&& c.finish_reason == csh.1
        &&& c.index == csh.2
        &&& candidate_parts(c) == cand_parts_spec(cs)
    }
}

/// Whether a frame payload decodes as a whole: its envelope is valid JSON
/// and every candidate in it fits the schema.
pub open spec fn decode_ok(s: Seq<char>) -> bool {
    frame_cands_of(s) is Some && (forall|k: int|
        0 <= k < shell_cands(s).len() ==> cand_ok(#[trigger] shell_cands(s)[k]))
}

/// Decode one candidate from its JSON text; a candidate with a part that
/// does not fit the schema is refused whole.
pub fn decode_candidate(ctext: &str) -> (r: Option<GeminiCandidate>)
    ensures
        r is Some <==> cand_ok(ctext@),
        r matches Some(c) ==> cand_rel(ctext@, c),
{
    let shell = candidate_shell(ctext);
    match shell {
        None => None,
        Some((content_sh, finish, index)) => {
            match content_sh {
                None => {
                    proof {
                        assert(cand_parts_spec(ctext@) =~= Seq::<GeminiContentPart>::empty());
                    }
                    Some(GeminiCandidate { content: None, finish_reason: finish, index })
                },
                Some((role, part_texts)) => {
                    let mut parts: Vec<GeminiContentPart> = Vec::new();
                    let n = part_texts.len();
                    let mut k: usize = 0;
                    while k < n
                        invariant
                            n == part_texts@.len(),
                            0 <= k <= n,
                            candidate_shell_of(ctext@) matches Some(csh) && csh.0 matches Some(ct)
                                && ct.1 == part_texts,
                            parts@.len() == k,
                            forall|q: int|
                                0 <= q < k ==> Some(parts@[q]) == #[trigger] part_of(
                                    part_texts@[q]@,
                                ),
                        decreases n - k,
                    {
                        match decode_part(part_texts[k].as_str()) {
                            Some(p) => {
                                parts.push(p);
                            },
                            None => {
                                proof {
                                    let csh = candidate_shell_of(ctext@)->Some_0;
                                    let ct = csh.0->Some_0;
                                    assert(part_of(ct.1@[k as int]@) is None);
                                    assert(!cand_ok(ctext@));
                                }
                                return None;
                            },
                        }
                        k += 1;
                    }
                    proof {
                        let csh = candidate_shell_of(ctext@)->Some_0;
                        let ct = csh.0->Some_0;
                        assert(ct.1@ == part_texts@);
                        assert(forall|q: int|
                            0 <= q < ct.1@.len() ==> #[trigger] part_of(ct.1@[q]@) is Some) by {
                            assert(forall|q: int|
                                0 <= q < part_texts@.len() ==> #[trigger] part_of(part_texts@[q]@)
                                    is Some);
                        }
                        assert(cand_ok(ctext@));
                        assert(parts@ =~= cand_parts_spec(ctext@));
                    }
                    Some(
                        GeminiCandidate {
                            content: Some(GeminiContent { role, parts }),
                            finish_reason: finish,
                            index,
                        },
                    )
                },
            }
        },
    }
}

/// Decode one frame payload: the envelope, then every candidate; a payload
/// with a candidate that does not fit the schema is dropped whole.
pub fn decode_frame(s: &str) -> (r: Option<GeminiResponse>)
    ensures
        r is Some <==> decode_ok(s@),
        r matches Some(g) ==> ({
            &&& (g.candidates is Some <==> (frame_cands_of(s@) matches Some(sh) && sh is Some))
            &&& candidates_seq(g).len() == shell_cands(s@).len()
            &&& (forall|k: int|
                0 <= k < shell_cands(s@).len() ==> cand_rel(
                    shell_cands(s@)[k],
                    #[trigger] candidates_seq(g)[k],
                ))
            &&& g.usage_metadata == decoded_usage(s@)
        }),
{
    let shell = frame_cands(s);
    match shell {
        None => None,
        Some(cands_opt) => {
            let usage = frame_usage(s);
            match cands_opt {
                None => {
                    proof {
                        assert(shell_cands(s@) =~= Seq::<Seq<char>>::empty());
                        assert(candidates_seq(
                            GeminiResponse { candidates: None, usage_metadata: usage },
                        ) =~= Seq::<GeminiCandidate>::empty());
                    }
                    Some(GeminiResponse { candidates: None, usage_metadata: usage })
                },
                Some(texts) => {
                    proof {
                        assert(shell_cands(s@) =~= views_of(texts@));
                    }
                    let mut cands: Vec<GeminiCandidate> = Vec::new();
                    let n = texts.len();
                    let mut k: usize = 0;
                    while k < n
                        invariant
                            n == texts@.len(),
                            0 <= k <= n,
                            shell_cands(s@) == views_of(texts@),
                            cands@.len() == k,
                            forall|q: int|
                                0 <= q < k ==> cand_ok(#[trigger] texts@[q]@) && cand_rel(
                                    texts@[q]@,
                                    cands@[q],
                                ),
                        decreases n - k,
                    {
                        match decode_candidate(texts[k].as_str()) {
                            Some(c) => {
                                cands.push(c);
                            },
                            None => {
                                proof {
                                    assert(shell_cands(s@)[k as int] == texts@[k as int]@);
                                    assert(!cand_ok(shell_cands(s@)[k as int]));
                                    assert(!decode_ok(s@));
                                }
                                return None;
                            },
                        }
                        k += 1;
                    }
                    let g = GeminiResponse { candidates: Some(cands), usage_metadata: usage };
                    proof {
                        assert(candidates_seq(g) == cands@);
                    }
                    Some(g)
                },
            }
        },
    }
}

// ---------------------------------------------------------------------------
// Streamed chunks
// ---------------------------------------------------------------------------
/// One outbound stream chunk: its delta carries the candidate's concatenated
/// text.
pub struct ChatChunk {
    pub id: String,
    pub created: u64,
    pub model: String,
    pub index: u32,
    pub content: String,
    pub finish_reason: Option<String>,
}

/// The candidates of a response that emit a chunk — those with non-empty
/// text — each with its position.
pub open spec fn emit_list(cands: Seq<GeminiCandidate>) -> Seq<(GeminiCandidate, int)>
    decreases cands.len(),
{
    if cands.len() == 0 {
        Seq::empty()
    } else {
        emit_list(cands.drop_last()) + (if texts_of(candidate_parts(cands.last())).len() > 0 {
            seq![(cands.last(), cands.len() - 1int)]
        } else {
            Seq::empty()
        })
    }
}

/// How a decoded candidate at position `i` maps to one outbound chunk.
pub open spec fn chunk_matches(cand: GeminiCandidate, i: int, ck: ChatChunk, model: Seq<char>) -> bool {
    &&& is_response_id(ck.id@)
    &&& ck.model@ == model
    &&& ck.index as int == (match cand.index {
        Some(x) => x as int,
        None => i,
    })
    &&& ck.content@ == texts_of(candidate_parts(cand))
    &&& ck.finish_reason matches Some(f) && f@ == finish_of(cand)
}

proof fn lemma_emit_push(s: Seq<GeminiCandidate>, c: GeminiCandidate)
    ensures
        emit_list(s.push(c)) == emit_list(s) + (if texts_of(candidate_parts(c)).len() > 0 {
            seq![(c, s.len() as int)]
        } else {
            Seq::<(GeminiCandidate, int)>::empty()
        }),
{
    assert(s.push(c).drop_last() =~= s);
    assert(s.push(c).last() == c);
}

/// The chunks one decoded backend fragment produces: one per candidate with
/// non-empty text, in candidate order; tool-call deltas are not chunked. All
/// chunks of the fragment share one response id and the given creation time.
pub fn chat_chunks(res: &GeminiResponse, model: &str, created: u64) -> (r: Vec<ChatChunk>)
    requires
        candidates_seq(*res).len() <= u32::MAX,
    ensures
        r@.len() == emit_list(candidates_seq(*res)).len(),
        forall|k: int|
            0 <= k < r@.len() ==> chunk_matches(
                emit_list(candidates_seq(*res))[k].0,
                emit_list(candidates_seq(*res))[k].1,
                #[trigger] r@[k],
                model@,
            ),
        forall|k: int| 0 <= k < r@.len() ==> (#[trigger] r@[k]).created == created,
        forall|k1: int, k2: int|
            0 <= k1 < r@.len() && 0 <= k2 < r@.len() ==> #[trigger] r@[k1].id@ == #[trigger] r@[k2].id@,
{
    let o = transform_gemini_to_openai(res, model, created);
    let ghost cands = candidates_seq(*res);
    let mut out: Vec<ChatChunk> = Vec::new();
    proof {
        assert(cands.subrange(0, 0) =~= Seq::<GeminiCandidate>::empty());
    }
    let n = o.choices.len();
    let mut k: usize = 0;
    while k < n
        invariant
            n == o.choices@.len(),
            n == cands.len(),
            0 <= k <= n,
            is_response_id(o.id@),
            o.model@ == model@,
            o.created == created,
            forall|q: int| 0 <= q < n ==> choice_matches(cands[q], q, #[trigger] o.choices@[q]),
            forall|q: int|
                0 <= q < out@.len() ==> (#[trigger] out@[q]).created == created && out@[q].id@
                    == o.id@,
            out@.len() == emit_list(cands.subrange(0, k as int)).len(),
            forall|q: int|
                0 <= q < out@.len() ==> chunk_matches(
                    emit_list(cands.subrange(0, k as int))[q].0,
                    emit_list(cands.subrange(0, k as int))[q].1,
                    #[trigger] out@[q],
                    model@,
                ),
        decreases n - k,
    {
        proof {
            assert(cands.subrange(0, k + 1) =~= cands.subrange(0, k as int).push(cands[k as int]));
            lemma_emit_push(cands.subrange(0, k as int), cands[k as int]);
        }
        let ch = &o.choices[k];
        match &ch.message.content {
            Some(c) => {
                let finish: Option<String> = match &ch.finish_reason {
                    Some(f) => Some(f.clone()),
                    None => None,
                };
                out.push(
                    ChatChunk {
                        id: o.id.clone(),
                        created: o.created,
                        model: o.model.clone(),
                        index: ch.index,
                        content: c.clone(),
                        finish_reason: finish,
                    },
                );
                proof {
                    assert(emit_list(cands.subrange(0, k + 1)) =~= emit_list(
                        cands.subrange(0, k as int),
                    ).push((cands[k as int], k as int)));
                }
            },
            None => {
                proof {
                    assert(emit_list(cands.subrange(0, k as int)) + Seq::<(
                        GeminiCandidate,
                        int,
                    )>::empty() =~= emit_list(cands.subrange(0, k as int)));
                }
            },
        }
        k += 1;
    }
    proof {
        assert(cands.subrange(0, n as int) =~= cands);
    }
    out
}

// ---------------------------------------------------------------------------
// Per-frame and per-chunk-of-text processing
// ---------------------------------------------------------------------------
/// Whether a frame payload decodes and its candidates are countably indexed.
pub open spec fn frame_ok(s: Seq<char>) -> bool {
    decode_ok(s) && shell_cands(s).len() <= u32::MAX
}

/// The candidates of a frame payload that emit a chunk, by their JSON texts.
pub open spec fn emit_texts(cands: Seq<Seq<char>>) -> Seq<(Seq<char>, int)>
    decreases cands.len(),
{
    if cands.len() == 0 {
        Seq::empty()
    } else {
        emit_texts(cands.drop_last()) + (if texts_of(cand_parts_spec(cands.last())).len() > 0 {
            seq![(cands.last(), cands.len() - 1int)]
        } else {
            Seq::empty()
        })
    }
}

/// What one frame payload emits: nothing when it does not decode, else one
/// chunk per candidate with non-empty text.
pub open spec fn frame_emits(s: Seq<char>) -> Seq<(Seq<char>, int)> {
    if frame_ok(s) {
        emit_texts(shell_cands(s))
    } else {
        Seq::empty()
    }
}

/// How a candidate's JSON text at position `i` maps to one outbound chunk.
pub open spec fn chunk_matches_payload(
    ctext: Seq<char>,
    i: int,
    ck: ChatChunk,
    model: Seq<char>,
) -> bool {
    &&& is_response_id(ck.id@)
    &&& ck.model@ == model
    &&& ck.index as int == (match cand_index_spec(ctext) {
        Some(x) => x as int,
        None => i,
    })
    &&& ck.content@ == texts_of(cand_parts_spec(ctext))
    &&& ck.finish_reason matches Some(f) && f@ == cand_finish_spec(ctext)
}

proof fn lemma_emit_bridge(texts: Seq<Seq<char>>, cands: Seq<GeminiCandidate>)
    requires
        cands.len() == texts.len(),
        forall|k: int| 0 <= k < texts.len() ==> cand_rel(#[trigger] texts[k], cands[k]),
    ensures
        emit_texts(texts).len() == emit_list(cands).len(),
        forall|q: int|
            0 <= q < emit_texts(texts).len() ==> (#[trigger] emit_texts(texts)[q]).1 == emit_list(
                cands,
            )[q].1 && cand_rel(emit_texts(texts)[q].0, emit_list(cands)[q].0),
    decreases texts.len(),
{
    if texts.len() > 0 {
        assert(forall|k: int|
            0 <= k < texts.drop_last().len() ==> cand_rel(
                #[trigger] texts.drop_last()[k],
                cands.drop_last()[k],
            ));
        lemma_emit_bridge(texts.drop_last(), cands.drop_last());
        assert(cand_rel(texts.last(), cands.last()));
        assert(candidate_parts(cands.last()) == cand_parts_spec(texts.last()));
    }
}

/// Process one frame payload: decode it and emit its chunks, all sharing one
/// response id and the given creation time; a payload that does not decode
/// is dropped, yielding nothing, never an error.
pub fn process_frame(payload: &str, model: &str, created: u64) -> (r: Vec<ChatChunk>)
    ensures
        r@.len() == frame_emits(payload@).len(),
        forall|k: int|
            0 <= k < r@.len() ==> chunk_matches_payload(
                frame_emits(payload@)[k].0,
                frame_emits(payload@)[k].1,
                #[trigger] r@[k],
                model@,
            ),
        forall|k: int| 0 <= k < r@.len() ==> (#[trigger] r@[k]).created == created,
        forall|k1: int, k2: int|
            0 <= k1 < r@.len() && 0 <= k2 < r@.len() ==> #[trigger] r@[k1].id@ == #[trigger] r@[k2].id@,
{
    match decode_frame(payload) {
        None => Vec::new(),
        Some(g) => {
            let fits: bool = match &g.candidates {
                Some(c) => c.len() <= (u32::MAX as usize),
                None => true,
            };
            if fits {
                proof {
                    lemma_emit_bridge(shell_cands(payload@), candidates_seq(g));
                }
                let chunks = chat_chunks(&g, model, created);
                proof {
                    assert(forall|k: int|
                        0 <= k < chunks@.len() ==> chunk_matches_payload(
                            frame_emits(payload@)[k].0,
                            frame_emits(payload@)[k].1,
                            #[trigger] chunks@[k],
                            model@,
                        ));
                }
                chunks
            } else {
                proof {
                    assert(!frame_ok(payload@));
                }
                Vec::new()
            }
        },
    }
}

/// What a sequence of frame payloads emits, frame order kept.
pub open spec fn emits_of_payloads(ps: Seq<Seq<char>>) -> Seq<(Seq<char>, int)>
    decreases ps.len(),
{
    if ps.len() == 0 {
        Seq::empty()
    } else {
        emits_of_payloads(ps.drop_last()) + frame_emits(ps.last())
    }
}

proof fn lemma_emits_push(ps: Seq<Seq<char>>, p: Seq<char>)
    ensures
        emits_of_payloads(ps.push(p)) == emits_of_payloads(ps) + frame_emits(p),
{
    assert(ps.push(p).drop_last() =~= ps);
    assert(ps.push(p).last() == p);
}

/// Process one chunk of backend stream text: extract its `data: ` frames in
/// order, drop the `[DONE]` sentinel and every frame that does not decode,
/// and emit the chunks of the rest, in frame order and candidate order, all
/// carrying the given creation time.
pub fn process_chunk_text(text: &str, model: &str, created: u64) -> (r: Vec<ChatChunk>)
    ensures
        r@.len() == emits_of_payloads(frame_payloads(text@)).len(),
        forall|k: int|
            0 <= k < r@.len() ==> chunk_matches_payload(
                emits_of_payloads(frame_payloads(text@))[k].0,
                emits_of_payloads(frame_payloads(text@))[k].1,
                #[trigger] r@[k],
                model@,
            ),
        forall|k: int| 0 <= k < r@.len() ==> (#[trigger] r@[k]).created == created,
{
    let frames = extract_frames(text);
    let ghost ps = frame_payloads(text@);
    let mut out: Vec<ChatChunk> = Vec::new();
    proof {
        assert(ps.subrange(0, 0) =~= Seq::<Seq<char>>::empty());
    }
    let n = frames.len();
    let mut j: usize = 0;
    while j < n
        invariant
            views_of(frames@) == ps,
            n == frames@.len(),
            n == ps.len(),
            0 <= j <= n,
            forall|q: int| 0 <= q < out@.len() ==> (#[trigger] out@[q]).created == created,
            out@.len() == emits_of_payloads(ps.subrange(0, j as int)).len(),
            forall|q: int|
                0 <= q < out@.len() ==> chunk_matches_payload(
                    emits_of_payloads(ps.subrange(0, j as int))[q].0,
                    emits_of_payloads(ps.subrange(0, j as int))[q].1,
                    #[trigger] out@[q],
                    model@,
                ),
        decreases n - j,
    {
        proof {
            assert(ps[j as int] == frames@[j as int]@);
            assert(ps.subrange(0, j + 1) =~= ps.subrange(0, j as int).push(ps[j as int]));
            lemma_emits_push(ps.subrange(0, j as int), ps[j as int]);
        }
        let mut chunks = process_frame(frames[j].as_str(), model, created);
        let ghost old_out = out@;
        let ghost ch = chunks@;
        out.append(&mut chunks);
        proof {
            assert(out@ == old_out + ch);
            assert(forall|q: int| 0 <= q < old_out.len() ==> out@[q] == old_out[q]);
            assert(forall|q: int|
                old_out.len() <= q < out@.len() ==> out@[q] == ch[q - old_out.len()]);
        }
        j += 1;
    }
    proof {
        assert(ps.subrange(0, n as int) =~= ps);
    }
    out
}

/// How a candidate's JSON text at position `i` maps to one outbound choice.
pub open spec fn choice_matches_payload(ctext: Seq<char>, i: int, ch: OpenAIChoice) -> bool {
    let txt = texts_of(cand_parts_spec(ctext));
    let calls = calls_of(cand_parts_spec(ctext));
    &&& ch.index as int == (match cand_index_spec(ctext) {
        Some(x) => x as int,
        None => i,
    })
    &&& ch.message.role@ == "assistant"@
    &&& (txt.len() == 0 ==> ch.message.content is None)
    &&& (txt.len() > 0 ==> (ch.message.content matches Some(s) && s@ == txt))
    &&& (calls.len() == 0 ==> ch.message.tool_calls is None)
    &&& (calls.len() > 0 ==> (ch.message.tool_calls matches Some(tcs) && tcs@.len() == calls.len()
        && forall|q: int|
        0 <= q < calls.len() ==> tool_call_matches(calls[q], #[trigger] tcs@[q], i, q)))
    &&& ch.message.tool_call_id is None
    &&& ch.finish_reason matches Some(f) && f@ == cand_finish_spec(ctext)
}

/// Process a unary response body: decode it (unwrapping the envelope) and
/// translate it into a response created at time `created`; nothing is
/// returned when the body does not decode, and the caller reports that as an
/// error.
pub fn process_unary(body: &str, model: &str, created: u64) -> (r: Option<OpenAIResponse>)
    ensures
        r is Some <==> frame_ok(body@),
        r matches Some(o) ==> ({
            &&& o.object@ == "chat.completion"@
            &&& o.model@ == model@
            &&& o.created == created
            &&& is_response_id(o.id@)
            &&& o.choices@.len() == shell_cands(body@).len()
            &&& (forall|i: int|
                0 <= i < o.choices@.len() ==> choice_matches_payload(
                    shell_cands(body@)[i],
                    i,
                    #[trigger] o.choices@[i],
                ))
            &&& usage_matches(decoded_usage(body@), o.usage)
        }),
{
    match decode_frame(body) {
        None => None,
        Some(g) => {
            let fits: bool = match &g.candidates {
                Some(c) => c.len() <= (u32::MAX as usize),
                None => true,
            };
            if fits {
                let o = transform_gemini_to_openai(&g, model, created);
                proof {
                    assert(forall|i: int|
                        0 <= i < o.choices@.len() ==> choice_matches_payload(
                            shell_cands(body@)[i],
                            i,
                            #[trigger] o.choices@[i],
                        )) by {
                        assert(forall|i: int|
                            0 <= i < o.choices@.len() ==> cand_rel(
                                shell_cands(body@)[i],
                                #[trigger] candidates_seq(g)[i],
                            ));
                    }
                }
                Some(o)
            } else {
                proof {
                    assert(!frame_ok(body@));
                }
                None
            }
        },
    }
}

// ---------------------------------------------------------------------------
// Stream laws
// ---------------------------------------------------------------------------
/// The sentinel line that terminates a backend stream.
pub open spec fn done_line() -> Seq<char> {
    "data: [DONE]\n"@
}

proof fn lemma_payloads_append(s: Seq<char>, t: Seq<char>, cur: Seq<char>)
    requires
        s.len() > 0,
        s.last() == '\n',
    ensures
        payloads_rec(s + t, cur) == payloads_rec(s, cur) + payloads_rec(t, Seq::empty()),
    decreases s.len(),
{
    assert((s + t).len() == s.len() + t.len());
    assert((s + t)[0] == s[0]);
    assert((s + t).drop_first() =~= s.drop_first() + t);
    if s[0] == '\n' {
        if s.len() == 1 {
            assert(s.drop_first() =~= Seq::<char>::empty());
            assert(s.drop_first() + t =~= t);
            assert(line_payload(Seq::<char>::empty()) is None);
            assert(payloads_rec(s.drop_first(), Seq::empty()) =~= Seq::<Seq<char>>::empty());
            assert(payloads_rec(s, cur) == (match line_payload(cur) {
                Some(p) => seq![p],
                None => Seq::<Seq<char>>::empty(),
            }) + Seq::<Seq<char>>::empty());
            assert(payloads_rec(s, cur) + payloads_rec(t, Seq::empty()) =~= (match line_payload(
                cur,
            ) {
                Some(p) => seq![p],
                None => Seq::<Seq<char>>::empty(),
            }) + payloads_rec(t, Seq::empty()));
        } else {
            assert(s.drop_first().last() == '\n');
            lemma_payloads_append(s.drop_first(), t, Seq::empty());
            assert((match line_payload(cur) {
                Some(p) => seq![p],
                None => Seq::<Seq<char>>::empty(),
            }) + (payloads_rec(s.drop_first(), Seq::empty()) + payloads_rec(t, Seq::empty()))
                =~= ((match line_payload(cur) {
                Some(p) => seq![p],
                None => Seq::<Seq<char>>::empty(),
            }) + payloads_rec(s.drop_first(), Seq::empty())) + payloads_rec(t, Seq::empty()));
        }
    } else {
        assert(s.len() > 1) by {
            if s.len() == 1 {
                assert(s.last() == s[0]);
            }
        }
        assert(s.drop_first().last() == '\n');
        lemma_payloads_append(s.drop_first(), t, cur.push(s[0]));
    }
}

proof fn lemma_done_line_payloads()
    ensures
        frame_payloads(done_line()) == Seq::<Seq<char>>::empty(),
{
    reveal_strlit("data: [DONE]\n");
    let s = done_line();
    assert(s.len() == 13);
    let cur = s.subrange(0, 12);
    assert(forall|q: int| 0 <= q < 12 ==> s.subrange(0, 12)[q] == s[q]);
    assert(line_payload(cur) is None) by {
        assert(trim_leading(cur) == cur) by {
            assert(!is_space(cur[0]));
        }
        assert(trim_trailing(cur) == cur) by {
            assert(!is_space(cur.last()));
        }
        assert(trimmed(cur) == cur);
        reveal_strlit("data: ");
        assert(cur.subrange(0, 6) =~= "data: "@);
        reveal_strlit("[DONE]");
        assert(cur.subrange(6, 12) =~= "[DONE]"@);
    }
    assert(payloads_rec(s, Seq::empty()) =~= Seq::<Seq<char>>::empty()) by {
        reveal_with_fuel(payloads_rec, 15);
        assert(forall|k: int|
            0 <= k < 13 ==> #[trigger] s.subrange(k, 13).len() == 13 - k && (k < 12
                ==> s.subrange(k, 13)[0] == s[k]));
        assert(s[12] == '\n');
        assert(forall|k: int| 0 <= k < 12 ==> s[k] != '\n');
        assert(forall|k: int|
            0 <= k < 12 ==> #[trigger] s.subrange(k, 13).drop_first() =~= s.subrange(k + 1, 13));
        assert(forall|k: int|
            0 <= k <= 12 ==> #[trigger] s.subrange(0, k).push(s[k as int]) =~= s.subrange(
                0,
                k + 1,
            ));
        assert(s.subrange(0, 13) =~= s);
        assert(s.subrange(0, 0) =~= Seq::<char>::empty());
    }
}

/// Streaming termination law: a stream of frames followed by the `[DONE]`
/// sentinel yields exactly the payloads of those frames; the sentinel itself
/// contributes nothing, so no chunk ever corresponds to it, and the outbound
/// stream simply closes.
pub proof fn lemma_stream_termination(body: Seq<char>)
    requires
        body.len() == 0 || body.last() == '\n',
    ensures
        frame_payloads(body + done_line()) == frame_payloads(body),
{
    lemma_done_line_payloads();
    if body.len() == 0 {
        assert(body + done_line() =~= done_line());
        assert(frame_payloads(body) =~= Seq::<Seq<char>>::empty()) by {
            assert(line_payload(Seq::<char>::empty()) is None);
        }
    } else {
        lemma_payloads_append(body, done_line(), Seq::empty());
        assert(frame_payloads(body) + Seq::<Seq<char>>::empty() =~= frame_payloads(body));
    }
}

/// Malformed-frame resilience law: a payload that does not decode, standing
/// between two others, contributes nothing; the stream yields exactly the
/// chunks of its neighbours and goes on.
pub proof fn lemma_malformed_frame_dropped(p1: Seq<char>, bad: Seq<char>, p2: Seq<char>)
    requires
        !frame_ok(bad),
    ensures
        emits_of_payloads(seq![p1, bad, p2]) == emits_of_payloads(seq![p1, p2]),
{
    let a = seq![p1, bad, p2];
    let b = seq![p1, p2];
    assert(a.drop_last() =~= seq![p1, bad]);
    assert(seq![p1, bad].drop_last() =~= seq![p1]);
    assert(seq![p1].drop_last() =~= Seq::<Seq<char>>::empty());
    assert(b.drop_last() =~= seq![p1]);
    assert(frame_emits(bad) == Seq::<(Seq<char>, int)>::empty());
    assert(emits_of_payloads(seq![p1, bad]) =~= emits_of_payloads(seq![p1]));
    assert(emits_of_payloads(a) =~= emits_of_payloads(b));
}

} // verus!
