//! OpenAI-compatible chat messages, their flattening to text, the
//! DeepSeek-V4 prompt encoding, and the extraction of tool calls from model
//! output.

use vstd::prelude::*;

use crate::json::{
    json_arguments, json_arguments_of, json_arguments_view, json_escape, json_member_text,
    json_member_text_of, json_quote, json_str_member, json_str_member_of, JsonArgument,
    JsonArguments,
};
use crate::text::{
    chars_eq, ends_with, matches_at, occurs_at, push_all, push_str, slice_to_vec, str_chars,
    string_from_chars, trim_bounds, trim_spec,
};

verus! {

/// The `image_url` field of a content part.
#[derive(Clone, Debug, PartialEq, Eq)]
pub enum OpenAiImageUrl {
    /// The string shortcut `"image_url": "<url>"`.
    Url(String),
    /// The object form `"image_url": {"url": ..., "detail": ...}`; a member
    /// that is absent or not a string is `None`.
    Object { url: Option<String>, detail: Option<String> },
    /// Any other JSON value.
    Other,
}

/// One element of a part-array message content, reduced to the members the
/// server reads: `type`, `text` (each when it is a string) and `image_url`.
#[derive(Clone, Debug, PartialEq, Eq)]
pub struct OpenAiContentPart {
    pub part_type: Option<String>,
    pub text: Option<String>,
    pub image_url: Option<OpenAiImageUrl>,
}

/// Message content as sent by OpenAI-compatible clients: a plain string or
/// an array of typed parts.
#[derive(Clone, Debug, PartialEq, Eq)]
pub enum OpenAiChatContent {
    Text(String),
    Parts(Vec<OpenAiContentPart>),
}

/// Image input embedded in a chat content part.
#[derive(Clone, Debug, PartialEq, Eq)]
pub struct OpenAiImageInput {
    pub url: String,
    pub detail: Option<String>,
}

/// The characters of an optional string.
pub open spec fn opt_chars(o: Option<String>) -> Option<Seq<char>> {
    match o {
        Some(s) => Some(s@),
        None => None,
    }
}

/// `o` is a string equal to `lit`.
pub open spec fn opt_is(o: Option<String>, lit: Seq<char>) -> bool {
    o matches Some(s) && s@ == lit
}

/// The text a part contributes: the text of a `text` part.
pub open spec fn part_text(p: OpenAiContentPart) -> Seq<char> {
    if opt_is(p.part_type, "text"@) && p.text is Some {
        p.text.unwrap()@
    } else {
        Seq::empty()
    }
}

/// The texts of the `text` parts, concatenated in order.
pub open spec fn parts_text(parts: Seq<OpenAiContentPart>) -> Seq<char>
    decreases parts.len(),
{
    if parts.len() == 0 {
        Seq::empty()
    } else {
        parts_text(parts.drop_last()) + part_text(parts.last())
    }
}

/// The text of a message content.
pub open spec fn content_text(c: OpenAiChatContent) -> Seq<char> {
    match c {
        OpenAiChatContent::Text(s) => s@,
        OpenAiChatContent::Parts(p) => parts_text(p@),
    }
}

/// The image a part carries: an `image_url` part with a URL string or an
/// object with a string `url`.
pub open spec fn part_image(p: OpenAiContentPart) -> Option<(Seq<char>, Option<Seq<char>>)> {
    if opt_is(p.part_type, "image_url"@) {
        match p.image_url {
            Some(OpenAiImageUrl::Url(u)) => Some((u@, None)),
            Some(OpenAiImageUrl::Object { url: Some(u), detail }) => Some((u@, opt_chars(detail))),
            _ => None,
        }
    } else {
        None
    }
}

/// The images of the parts, in order.
pub open spec fn parts_images(parts: Seq<OpenAiContentPart>) -> Seq<(Seq<char>, Option<Seq<char>>)>
    decreases parts.len(),
{
    if parts.len() == 0 {
        Seq::empty()
    } else {
        let rest = parts_images(parts.drop_last());
        match part_image(parts.last()) {
            Some(i) => rest.push(i),
            None => rest,
        }
    }
}

/// The images of a message content.
pub open spec fn content_images(c: OpenAiChatContent) -> Seq<(Seq<char>, Option<Seq<char>>)> {
    match c {
        OpenAiChatContent::Text(_) => Seq::empty(),
        OpenAiChatContent::Parts(p) => parts_images(p@),
    }
}

/// An image input as plain values.
pub open spec fn image_view(i: OpenAiImageInput) -> (Seq<char>, Option<Seq<char>>) {
    (i.url@, opt_chars(i.detail))
}

fn opt_eq_lit(o: &Option<String>, lit: &str) -> (r: bool)
    ensures
        r == opt_is(*o, lit@),
{
    match o {
        Some(s) => {
            let a = str_chars(s.as_str());
            let b = str_chars(lit);
            chars_eq(a.as_slice(), b.as_slice())
        },
        None => false,
    }
}

fn clone_opt_string(o: &Option<String>) -> (r: Option<String>)
    ensures
        opt_chars(r) == opt_chars(*o),
{
    match o {
        Some(s) => Some(s.clone()),
        None => None,
    }
}

impl OpenAiChatContent {
    /// Flattens to plain text: a string content as is; for parts, the texts
    /// of the `text` parts concatenated in order, other parts skipped.
    pub fn to_text(&self) -> (r: String)
        ensures
            r@ == content_text(*self),
    {
        match self {
            OpenAiChatContent::Text(s) => s.clone(),
            OpenAiChatContent::Parts(parts) => {
                let mut out: Vec<char> = Vec::new();
                let mut i: usize = 0;
                while i < parts.len()
                    invariant
                        i <= parts@.len(),
                        out@ == parts_text(parts@.subrange(0, i as int)),
                    decreases parts.len() - i,
                {
                    let ghost sub = parts@.subrange(0, i + 1);
                    assert(sub.drop_last() =~= parts@.subrange(0, i as int));
                    let part = &parts[i];
                    if opt_eq_lit(&part.part_type, "text") {
                        match &part.text {
                            Some(t) => push_str(&mut out, t.as_str()),
                            None => {},
                        }
                    }
                    assert(out@ =~= parts_text(sub));
                    i = i + 1;
                }
                assert(parts@.subrange(0, parts@.len() as int) =~= parts@);
                string_from_chars(out.as_slice())
            },
        }
    }

    /// The `image_url` parts, in order, in the string form or the object
    /// form with a string `url`.
    pub fn image_inputs(&self) -> (r: Vec<OpenAiImageInput>)
        ensures
            r@.map_values(|i: OpenAiImageInput| image_view(i)) == content_images(*self),
    {
        let mut out: Vec<OpenAiImageInput> = Vec::new();
        match self {
            OpenAiChatContent::Text(_) => {
                assert(out@.map_values(|i: OpenAiImageInput| image_view(i)) =~= Seq::<
                    (Seq<char>, Option<Seq<char>>),
                >::empty());
            },
            OpenAiChatContent::Parts(parts) => {
                let mut i: usize = 0;
                while i < parts.len()
                    invariant
                        i <= parts@.len(),
                        out@.map_values(|i: OpenAiImageInput| image_view(i)) == parts_images(
                            parts@.subrange(0, i as int),
                        ),
                    decreases parts.len() - i,
                {
                    let ghost sub = parts@.subrange(0, i + 1);
                    assert(sub.drop_last() =~= parts@.subrange(0, i as int));
                    let ghost before = out@;
                    match parse_image_input_part(&parts[i]) {
                        Some(img) => {
                            out.push(img);
                            assert(out@.map_values(|i: OpenAiImageInput| image_view(i)) =~= before.map_values(
                                |i: OpenAiImageInput| image_view(i),
                            ).push(image_view(img)));
                        },
                        None => {},
                    }
                    i = i + 1;
                }
                assert(parts@.subrange(0, parts@.len() as int) =~= parts@);
            },
        }
        out
    }
}

impl From<String> for OpenAiChatContent {
    /// A plain string content.
    fn from(text: String) -> (r: Self) {
        OpenAiChatContent::Text(text)
    }
}

impl vstd::std_specs::convert::FromSpecImpl<String> for OpenAiChatContent {
    open spec fn obeys_from_spec() -> bool {
        true
    }

    open spec fn from_spec(v: String) -> Self {
        OpenAiChatContent::Text(v)
    }
}

/// The image of one content part, if it is an `image_url` part.
pub fn parse_image_input_part(part: &OpenAiContentPart) -> (r: Option<OpenAiImageInput>)
    ensures
        match r {
            Some(i) => part_image(*part) == Some(image_view(i)),
            None => part_image(*part) is None,
        },
{
    if !opt_eq_lit(&part.part_type, "image_url") {
        return None;
    }
    match &part.image_url {
        Some(OpenAiImageUrl::Url(url)) => Some(OpenAiImageInput { url: url.clone(), detail: None }),
        Some(OpenAiImageUrl::Object { url: Some(url), detail }) => Some(
            OpenAiImageInput { url: url.clone(), detail: clone_opt_string(detail) },
        ),
        _ => None,
    }
}

/// A tool call the model made: the function name and its arguments as
/// compact JSON text.
#[derive(Clone, Debug, PartialEq, Eq)]
pub struct ToolCall {
    pub name: String,
    pub arguments: String,
}

/// The first occurrence of `pat` at or after position `i`.
pub open spec fn find_from(text: Seq<char>, pat: Seq<char>, i: int) -> Option<int>
    decreases text.len() - i,
{
    if i < 0 || i + pat.len() > text.len() {
        None
    } else if occurs_at(text, pat, i) {
        Some(i)
    } else if i >= text.len() {
        None
    } else {
        find_from(text, pat, i + 1)
    }
}

/// Splits model output from position `i` into the visible text and the
/// bodies of its `<tool_call>...</tool_call>` blocks. `<think>...</think>`
/// blocks are dropped, an unterminated `<think>` drops the rest of the text,
/// and an unterminated `<tool_call>` stays visible.
pub open spec fn split_output(text: Seq<char>, i: int) -> (Seq<char>, Seq<Seq<char>>)
    decreases text.len() - i,
{
    if i < 0 || i >= text.len() {
        (Seq::empty(), Seq::empty())
    } else if occurs_at(text, "<think>"@, i) {
        match find_from(text, "</think>"@, i + 7) {
            Some(c) => if c + 8 > i && c + 8 <= text.len() {
                split_output(text, c + 8)
            } else {
                (Seq::empty(), Seq::empty())
            },
            None => (Seq::empty(), Seq::empty()),
        }
    } else if occurs_at(text, "<tool_call>"@, i) && find_from(text, "</tool_call>"@, i + 11) is Some {
        let c = find_from(text, "</tool_call>"@, i + 11).unwrap();
        if c + 12 > i && c + 12 <= text.len() {
            let rest = split_output(text, c + 12);
            (rest.0, seq![text.subrange(i + 11, c)] + rest.1)
        } else {
            (Seq::empty(), Seq::empty())
        }
    } else {
        let rest = split_output(text, i + 1);
        (seq![text[i]] + rest.0, rest.1)
    }
}

/// The arguments of the tool-call bodies that are JSON objects with a
/// string `name`, in order: the `arguments` member as compact JSON, or `{}`
/// when the body has none.
pub open spec fn tool_call_arguments(bodies: Seq<Seq<char>>) -> Seq<Seq<char>>
    decreases bodies.len(),
{
    if bodies.len() == 0 {
        Seq::empty()
    } else {
        let rest = tool_call_arguments(bodies.drop_last());
        match json_str_member_of(bodies.last(), "name"@) {
            Some(_) => rest.push(
                match json_member_text_of(bodies.last(), "arguments"@) {
                    Some(a) => a,
                    None => "{}"@,
                },
            ),
            None => rest,
        }
    }
}

/// The names of the tool-call bodies that are JSON objects with a string
/// `name`, in order.
pub open spec fn tool_call_names(bodies: Seq<Seq<char>>) -> Seq<Seq<char>>
    decreases bodies.len(),
{
    if bodies.len() == 0 {
        Seq::empty()
    } else {
        let rest = tool_call_names(bodies.drop_last());
        match json_str_member_of(bodies.last(), "name"@) {
            Some(n) => rest.push(n),
            None => rest,
        }
    }
}

proof fn lemma_find_from(text: Seq<char>, pat: Seq<char>, i: int)
    requires
        0 <= i,
    ensures
        match find_from(text, pat, i) {
            Some(c) => i <= c && c + pat.len() <= text.len() && occurs_at(text, pat, c),
            None => true,
        },
    decreases text.len() - i,
{
    if i + pat.len() <= text.len() && !occurs_at(text, pat, i) && i < text.len() {
        lemma_find_from(text, pat, i + 1);
    }
}

/// The first occurrence of `pat` in `text` at or after `i`.
fn find_chars_from(text: &[char], pat: &[char], i: usize) -> (r: Option<usize>)
    requires
        pat@.len() > 0,
    ensures
        r == match find_from(text@, pat@, i as int) {
            Some(c) => Some(c as usize),
            None => None::<usize>,
        },
{
    let mut j = i;
    loop
        invariant
            i <= j,
            pat@.len() > 0,
            find_from(text@, pat@, i as int) == find_from(text@, pat@, j as int),
        decreases text.len() + 1 - j,
    {
        if j > text.len() || pat.len() > text.len() - j {
            return None;
        }
        if matches_at(text, pat, j) {
            return Some(j);
        }
        j = j + 1;
    }
}

/// Splits model output into its visible text (tool-call and think blocks
/// removed) and the bodies of its tool-call blocks.
fn split_assistant_output(text: &[char]) -> (r: (Vec<char>, Vec<Vec<char>>))
    ensures
        r.0@ == split_output(text@, 0).0,
        r.1@.map_values(|b: Vec<char>| b@) == split_output(text@, 0).1,
{
    let think_open = str_chars("<think>");
    let think_close = str_chars("</think>");
    let call_open = str_chars("<tool_call>");
    let call_close = str_chars("</tool_call>");
    proof {
        reveal_strlit("<think>");
        reveal_strlit("</think>");
        reveal_strlit("<tool_call>");
        reveal_strlit("</tool_call>");
    }
    let mut visible: Vec<char> = Vec::new();
    let mut bodies: Vec<Vec<char>> = Vec::new();
    let mut i: usize = 0;
    loop
        invariant
            think_open@ == "<think>"@,
            think_close@ == "</think>"@,
            call_open@ == "<tool_call>"@,
            call_close@ == "</tool_call>"@,
            "<think>"@.len() == 7,
            "</think>"@.len() == 8,
            "<tool_call>"@.len() == 11,
            "</tool_call>"@.len() == 12,
            i <= text@.len(),
            split_output(text@, 0).0 == visible@ + split_output(text@, i as int).0,
            split_output(text@, 0).1 == bodies@.map_values(|b: Vec<char>| b@) + split_output(
                text@,
                i as int,
            ).1,
        ensures
            visible@ == split_output(text@, 0).0,
            bodies@.map_values(|b: Vec<char>| b@) == split_output(text@, 0).1,
        decreases text.len() - i,
    {
        if i >= text.len() {
            assert(visible@ + split_output(text@, i as int).0 =~= visible@);
            assert(bodies@.map_values(|b: Vec<char>| b@) + split_output(text@, i as int).1 =~= bodies@.map_values(
                |b: Vec<char>| b@,
            ));
            break;
        }
        let ghost rest_before = split_output(text@, i as int);
        if matches_at(text, think_open.as_slice(), i) {
            proof {
                lemma_find_from(text@, "</think>"@, i + 7);
            }
            match find_chars_from(text, think_close.as_slice(), i + 7) {
                Some(c) => {
                    i = c + 8;
                },
                None => {
                    assert(rest_before.0 =~= Seq::<char>::empty());
                    assert(visible@ + rest_before.0 =~= visible@);
                    assert(bodies@.map_values(|b: Vec<char>| b@) + rest_before.1 =~= bodies@.map_values(
                        |b: Vec<char>| b@,
                    ));
                    break;
                },
            }
        } else {
            let close = if matches_at(text, call_open.as_slice(), i) {
                proof {
                    lemma_find_from(text@, "</tool_call>"@, i + 11);
                }
                find_chars_from(text, call_close.as_slice(), i + 11)
            } else {
                None
            };
            match close {
                Some(c) => {
                    let body = slice_to_vec(text, i + 11, c);
                    let ghost before = bodies@.map_values(|b: Vec<char>| b@);
                    bodies.push(body);
                    assert(bodies@.map_values(|b: Vec<char>| b@) =~= before.push(body@));
                    assert(before + rest_before.1 =~= before.push(body@) + split_output(
                        text@,
                        c + 12,
                    ).1);
                    i = c + 12;
                },
                None => {
                    let ghost vb = visible@;
                    visible.push(text[i]);
                    assert(vb + rest_before.0 =~= visible@ + split_output(text@, i + 1).0);
                    i = i + 1;
                },
            }
        }
    }
    (visible, bodies)
}

/// The tool call of a block body, given its string `name` member and the
/// compact JSON text of its `arguments` member: none without a name, and
/// `{}` as the arguments when the body has none.
pub fn tool_call_from_members(name: Option<String>, arguments: Option<String>) -> (r: Option<
    ToolCall,
>)
    ensures
        match name {
            None => r is None,
            Some(n) => r matches Some(c) && c.name@ == n@ && c.arguments@ == match arguments {
                Some(a) => a@,
                None => "{}"@,
            },
        },
{
    match name {
        None => None,
        Some(name) => {
            let arguments = match arguments {
                Some(a) => a,
                None => {
                    let mut empty: Vec<char> = Vec::new();
                    push_str(&mut empty, "{}");
                    string_from_chars(empty.as_slice())
                },
            };
            Some(ToolCall { name, arguments })
        },
    }
}

/// Parses `<tool_call>...</tool_call>` blocks from model output. Returns the
/// visible content, with tool-call and `<think>` blocks stripped and
/// surrounding white space trimmed, and the tool calls: one per block whose
/// body is a JSON object with a string `name`, in order, its arguments the
/// `arguments` member (an empty object when absent).
pub fn openai_parse_tool_calls(text: &str) -> (r: (String, Vec<ToolCall>))
    ensures
        r.0@ == trim_spec(split_output(text@, 0).0),
        r.1@.map_values(|c: ToolCall| c.name@) == tool_call_names(split_output(text@, 0).1),
        r.1@.map_values(|c: ToolCall| c.arguments@) == tool_call_arguments(split_output(text@, 0).1),
{
    let chars = str_chars(text);
    let (visible, bodies) = split_assistant_output(chars.as_slice());
    let (a, b) = trim_bounds(visible.as_slice());
    let content = string_from_chars(slice_to_vec(visible.as_slice(), a, b).as_slice());
    let ghost bv = bodies@.map_values(|b: Vec<char>| b@);
    let mut calls: Vec<ToolCall> = Vec::new();
    let mut k: usize = 0;
    while k < bodies.len()
        invariant
            k <= bodies@.len(),
            bv == bodies@.map_values(|b: Vec<char>| b@),
            calls@.map_values(|c: ToolCall| c.name@) == tool_call_names(bv.subrange(0, k as int)),
            calls@.map_values(|c: ToolCall| c.arguments@) == tool_call_arguments(
                bv.subrange(0, k as int),
            ),
        decreases bodies.len() - k,
    {
        let ghost sub = bv.subrange(0, k + 1);
        assert(sub.drop_last() =~= bv.subrange(0, k as int));
        assert(sub.last() == bodies@[k as int]@);
        let body = string_from_chars(bodies[k].as_slice());
        let ghost before = calls@.map_values(|c: ToolCall| c.name@);
        let ghost before_args = calls@.map_values(|c: ToolCall| c.arguments@);
        let name = json_str_member(body.as_str(), "name");
        let arguments = json_member_text(body.as_str(), "arguments");
        match tool_call_from_members(name, arguments) {
            Some(call) => {
                calls.push(call);
                assert(calls@.map_values(|c: ToolCall| c.name@) =~= before.push(call.name@));
                assert(calls@.map_values(|c: ToolCall| c.arguments@) =~= before_args.push(
                    call.arguments@,
                ));
            },
            None => {},
        }
        k = k + 1;
    }
    assert(bv.subrange(0, bv.len() as int) =~= bv);
    (content, calls)
}

/// Function name and JSON-encoded arguments of an assistant tool call.
#[derive(Clone, Debug, PartialEq, Eq)]
pub struct OpenAiFunctionCall {
    pub name: String,
    /// JSON text, as on the wire.
    pub arguments: String,
}

/// A tool call embedded in an assistant message.
#[derive(Clone, Debug, PartialEq, Eq)]
pub struct OpenAiToolCall {
    pub id: String,
    pub call_type: String,
    pub function: OpenAiFunctionCall,
}

/// A function a request offers the model.
#[derive(Clone, Debug, PartialEq, Eq)]
pub struct OpenAiFunctionDefinition {
    pub name: String,
    pub description: Option<String>,
    /// The JSON schema of the parameters, as compact JSON text.
    pub parameters: Option<String>,
}

/// A tool definition of a chat completion request.
#[derive(Clone, Debug, PartialEq, Eq)]
pub struct OpenAiToolDefinition {
    pub tool_type: String,
    pub function: OpenAiFunctionDefinition,
}

/// One message of a chat conversation.
#[derive(Clone, Debug, PartialEq, Eq)]
pub struct OpenAiChatMessage {
    pub role: String,
    /// `None` when an assistant message holds only tool calls.
    pub content: Option<OpenAiChatContent>,
    pub tool_calls: Vec<OpenAiToolCall>,
    pub tool_call_id: Option<String>,
    pub name: Option<String>,
}

/// How the DeepSeek-V4 prompt opens the assistant turn.
#[derive(Clone, Debug, PartialEq, Eq)]
pub struct DeepSeekV4ChatTemplateOptions {
    /// `false` opens the turn with `</think>`, `true` with `<think>`.
    pub thinking: bool,
    /// Only `"max"` emits the long reasoning-effort prefix (when thinking).
    pub reasoning_effort: Option<String>,
}

impl Default for DeepSeekV4ChatTemplateOptions {
    fn default() -> (r: Self)
        ensures
            !r.thinking,
            r.reasoning_effort is None,
    {
        DeepSeekV4ChatTemplateOptions { thinking: false, reasoning_effort: None }
    }
}

pub open spec fn dsv4_bos() -> Seq<char> {
    "<\u{ff5c}begin\u{2581}of\u{2581}sentence\u{ff5c}>"@
}

pub open spec fn dsv4_eos() -> Seq<char> {
    "<\u{ff5c}end\u{2581}of\u{2581}sentence\u{ff5c}>"@
}

pub open spec fn dsv4_user() -> Seq<char> {
    "<\u{ff5c}User\u{ff5c}>"@
}

pub open spec fn dsv4_assistant() -> Seq<char> {
    "<\u{ff5c}Assistant\u{ff5c}>"@
}

pub open spec fn dsv4_reasoning_effort_max() -> Seq<char> {
    "Reasoning Effort: Absolute maximum with no shortcuts permitted.\nYou MUST be very thorough in your thinking and comprehensively decompose the problem to resolve the root cause, rigorously stress-testing your logic against all potential paths, edge cases, and adversarial scenarios.\nExplicitly write out your entire deliberation process, documenting every intermediate step, considered alternative, and rejected hypothesis to ensure absolutely no assumption is left unchecked.\n\n"@
}

pub open spec fn dsv4_tools_intro() -> Seq<char> {
    "## Tools\n\nYou have access to a set of tools to help answer the user's question. You can invoke tools by writing a \"<\u{ff5c}DSML\u{ff5c}tool_calls>\" block like the following:\n\n<\u{ff5c}DSML\u{ff5c}tool_calls>\n<\u{ff5c}DSML\u{ff5c}invoke name=\"$TOOL_NAME\">\n<\u{ff5c}DSML\u{ff5c}parameter name=\"$PARAMETER_NAME\" string=\"true|false\">$PARAMETER_VALUE</\u{ff5c}DSML\u{ff5c}parameter>\n...\n</\u{ff5c}DSML\u{ff5c}invoke>\n</\u{ff5c}DSML\u{ff5c}tool_calls>\n\nString parameters should be specified as is and set `string=\"true\"`. For all other types (numbers, booleans, arrays, objects), pass the value in JSON format and set `string=\"false\"`.\n\nIf thinking_mode is enabled (triggered by <think>), you MUST output your complete reasoning inside <think>...</think> BEFORE any tool calls or final response.\n\nOtherwise, output directly after </think> with tool calls or final response.\n\n### Available Tool Schemas\n\n"@
}

pub open spec fn dsv4_tools_outro() -> Seq<char> {
    "\n\nYou MUST strictly follow the above defined tool name and parameter schemas to invoke tool calls."@
}

/// A string as a JSON string literal.
pub open spec fn json_quoted(s: Seq<char>) -> Seq<char> {
    seq!['"'] + json_escape(s) + seq!['"']
}

/// The characters of an optional string, empty when absent.
pub open spec fn chars_or_empty(o: Option<String>) -> Seq<char> {
    match o {
        Some(s) => s@,
        None => Seq::empty(),
    }
}

/// The compact JSON schema line of a tool: its members in key order.
pub open spec fn tool_schema(t: OpenAiToolDefinition) -> Seq<char> {
    "{\"description\":"@ + json_quoted(chars_or_empty(t.function.description)) + ",\"name\":"@
        + json_quoted(t.function.name@) + ",\"parameters\":"@ + match t.function.parameters {
        Some(p) => p@,
        None => "{}"@,
    } + "}"@
}

/// Lines joined by `\n`.
pub open spec fn join_lines(parts: Seq<Seq<char>>) -> Seq<char>
    decreases parts.len(),
{
    if parts.len() == 0 {
        Seq::empty()
    } else if parts.len() == 1 {
        parts[0]
    } else {
        join_lines(parts.drop_last()) + seq!['\n'] + parts.last()
    }
}

/// The tool section of the DeepSeek-V4 system prompt.
pub open spec fn tools_block(tools: Seq<OpenAiToolDefinition>) -> Seq<char> {
    dsv4_tools_intro() + join_lines(tools.map_values(|t: OpenAiToolDefinition| tool_schema(t)))
        + dsv4_tools_outro()
}

/// One DSML parameter of a tool call.
pub open spec fn param_line(key: Seq<char>, is_string: bool, rendered: Seq<char>) -> Seq<char> {
    "<\u{ff5c}DSML\u{ff5c}parameter name=\""@ + key + "\" string=\""@ + (if is_string {
        "true"@
    } else {
        "false"@
    }) + "\">"@ + rendered + "</\u{ff5c}DSML\u{ff5c}parameter>"@
}

/// The DSML parameters of a tool call's argument text: one per member of a
/// JSON object; a non-object value as a single non-string `arguments`
/// parameter; text that is not JSON as a single string `arguments`
/// parameter.
pub open spec fn render_arguments(raw: Seq<char>) -> Seq<char> {
    render_parsed_arguments(raw, json_arguments_of(raw))
}

/// The DSML parameters of the argument text `raw`, given the shape `v` that
/// parsing it gave (as `json_arguments_view` describes it).
pub open spec fn render_parsed_arguments(
    raw: Seq<char>,
    v: (int, Seq<char>, Seq<(Seq<char>, bool, Seq<char>)>),
) -> Seq<char> {
    if v.0 == 0 {
        param_line("arguments"@, true, raw)
    } else if v.0 == 1 {
        param_line("arguments"@, false, v.1)
    } else {
        join_lines(
            v.2.map_values(|m: (Seq<char>, bool, Seq<char>)| param_line(m.0, m.1, m.2)),
        )
    }
}

/// The DSML invocation of one tool call.
pub open spec fn render_call(c: OpenAiToolCall) -> Seq<char> {
    "<\u{ff5c}DSML\u{ff5c}invoke name=\""@ + c.function.name@ + "\">\n"@ + render_arguments(
        c.function.arguments@,
    ) + "\n</\u{ff5c}DSML\u{ff5c}invoke>"@
}

/// The DSML block of an assistant's tool calls (empty without calls).
pub open spec fn render_calls(calls: Seq<OpenAiToolCall>) -> Seq<char> {
    if calls.len() == 0 {
        Seq::empty()
    } else {
        "\n\n<\u{ff5c}DSML\u{ff5c}tool_calls>\n"@ + join_lines(
            calls.map_values(|c: OpenAiToolCall| render_call(c)),
        ) + "\n</\u{ff5c}DSML\u{ff5c}tool_calls>"@
    }
}

/// The text of a message, empty without content.
pub open spec fn message_text(m: OpenAiChatMessage) -> Seq<char> {
    match m.content {
        Some(c) => content_text(c),
        None => Seq::empty(),
    }
}

/// Some message has role `system`.
pub open spec fn has_system(msgs: Seq<OpenAiChatMessage>) -> bool {
    exists|i: int| 0 <= i < msgs.len() && (#[trigger] msgs[i]).role@ == "system"@
}

/// One message in the DeepSeek-V4 encoding; `append_tools` puts the tool
/// section after a system message.
pub open spec fn render_message(
    m: OpenAiChatMessage,
    append_tools: bool,
    tools: Seq<OpenAiToolDefinition>,
) -> Seq<char> {
    let r = m.role@;
    if r == "system"@ {
        message_text(m) + if append_tools {
            "\n\n"@ + tools_block(tools)
        } else {
            Seq::empty()
        }
    } else if r == "user"@ {
        dsv4_user() + message_text(m)
    } else if r == "assistant"@ {
        dsv4_assistant() + message_text(m) + render_calls(m.tool_calls@) + dsv4_eos()
    } else if r == "tool"@ {
        dsv4_user() + "<tool_result>"@ + message_text(m) + "</tool_result>"@
    } else {
        dsv4_user() + message_text(m)
    }
}

/// The messages in order; the tool section follows the first system
/// message.
pub open spec fn render_messages(
    msgs: Seq<OpenAiChatMessage>,
    tools: Seq<OpenAiToolDefinition>,
) -> Seq<char>
    decreases msgs.len(),
{
    if msgs.len() == 0 {
        Seq::empty()
    } else {
        let prev = msgs.drop_last();
        let m = msgs.last();
        render_messages(prev, tools) + render_message(
            m,
            m.role@ == "system"@ && !has_system(prev) && tools.len() > 0,
            tools,
        )
    }
}

/// A role after which the prompt opens an assistant turn.
pub open spec fn opens_assistant_turn(role: Seq<char>) -> bool {
    role == "system"@ || role == "user"@ || role == "tool"@ || role == "developer"@
}

/// The beginning of the DeepSeek-V4 prompt: BOS, the reasoning-effort
/// prefix, and the tool section when no system message will carry it.
pub open spec fn deepseek_v4_header(
    msgs: Seq<OpenAiChatMessage>,
    tools: Seq<OpenAiToolDefinition>,
    options: DeepSeekV4ChatTemplateOptions,
) -> Seq<char> {
    dsv4_bos() + (if options.thinking && opt_is(options.reasoning_effort, "max"@) {
        dsv4_reasoning_effort_max()
    } else {
        Seq::empty()
    }) + if tools.len() > 0 && !has_system(msgs) {
        tools_block(tools)
    } else {
        Seq::empty()
    }
}

/// The generation prefix that ends the prompt.
pub open spec fn deepseek_v4_footer(
    msgs: Seq<OpenAiChatMessage>,
    options: DeepSeekV4ChatTemplateOptions,
) -> Seq<char> {
    if msgs.len() > 0 && opens_assistant_turn(msgs.last().role@) {
        dsv4_assistant() + if options.thinking {
            "<think>"@
        } else {
            "</think>"@
        }
    } else {
        Seq::empty()
    }
}

/// The whole DeepSeek-V4 prompt.
pub open spec fn deepseek_v4_prompt(
    msgs: Seq<OpenAiChatMessage>,
    tools: Seq<OpenAiToolDefinition>,
    options: DeepSeekV4ChatTemplateOptions,
) -> Seq<char> {
    deepseek_v4_header(msgs, tools, options) + render_messages(msgs, tools) + deepseek_v4_footer(
        msgs,
        options,
    )
}

fn push_join_newline(out: &mut Vec<char>, first: bool)
    ensures
        final(out)@ == old(out)@ + if first {
            Seq::<char>::empty()
        } else {
            seq!['\n']
        },
{
    if !first {
        out.push('\n');
    }
}

proof fn lemma_join_lines_step(parts: Seq<Seq<char>>, k: int)
    requires
        0 <= k < parts.len(),
    ensures
        join_lines(parts.subrange(0, k + 1)) == join_lines(parts.subrange(0, k)) + (if k == 0 {
            Seq::<char>::empty()
        } else {
            seq!['\n']
        }) + parts[k],
{
    let sub = parts.subrange(0, k + 1);
    assert(sub.drop_last() =~= parts.subrange(0, k));
    if k == 0 {
        assert(join_lines(parts.subrange(0, 0)) =~= Seq::<char>::empty());
        assert(join_lines(sub) == sub[0]);
        assert(Seq::<char>::empty() + Seq::<char>::empty() + parts[0] =~= parts[0]);
    }
}

/// The compact JSON schema line of a tool.
fn render_tool_schema(t: &OpenAiToolDefinition) -> (r: Vec<char>)
    ensures
        r@ == tool_schema(*t),
{
    let mut out: Vec<char> = Vec::new();
    push_str(&mut out, "{\"description\":");
    match &t.function.description {
        Some(d) => push_str(&mut out, json_quote(d.as_str()).as_str()),
        None => push_str(&mut out, json_quote("").as_str()),
    }
    push_str(&mut out, ",\"name\":");
    push_str(&mut out, json_quote(t.function.name.as_str()).as_str());
    push_str(&mut out, ",\"parameters\":");
    match &t.function.parameters {
        Some(p) => push_str(&mut out, p.as_str()),
        None => push_str(&mut out, "{}"),
    }
    push_str(&mut out, "}");
    proof {
        reveal_strlit("");
    }
    assert(out@ =~= tool_schema(*t));
    out
}

/// The tool section of the system prompt: the DSML calling convention and
/// one JSON schema line per tool.
pub fn render_deepseek_v4_tools(tools: &[OpenAiToolDefinition]) -> (r: Vec<char>)
    ensures
        r@ == tools_block(tools@),
{
    let mut out: Vec<char> = Vec::new();
    push_str(&mut out, "## Tools\n\nYou have access to a set of tools to help answer the user's question. You can invoke tools by writing a \"<\u{ff5c}DSML\u{ff5c}tool_calls>\" block like the following:\n\n<\u{ff5c}DSML\u{ff5c}tool_calls>\n<\u{ff5c}DSML\u{ff5c}invoke name=\"$TOOL_NAME\">\n<\u{ff5c}DSML\u{ff5c}parameter name=\"$PARAMETER_NAME\" string=\"true|false\">$PARAMETER_VALUE</\u{ff5c}DSML\u{ff5c}parameter>\n...\n</\u{ff5c}DSML\u{ff5c}invoke>\n</\u{ff5c}DSML\u{ff5c}tool_calls>\n\nString parameters should be specified as is and set `string=\"true\"`. For all other types (numbers, booleans, arrays, objects), pass the value in JSON format and set `string=\"false\"`.\n\nIf thinking_mode is enabled (triggered by <think>), you MUST output your complete reasoning inside <think>...</think> BEFORE any tool calls or final response.\n\nOtherwise, output directly after </think> with tool calls or final response.\n\n### Available Tool Schemas\n\n");
    let ghost schemas = tools@.map_values(|t: OpenAiToolDefinition| tool_schema(t));
    let ghost intro = out@;
    let mut k: usize = 0;
    while k < tools.len()
        invariant
            k <= tools@.len(),
            schemas == tools@.map_values(|t: OpenAiToolDefinition| tool_schema(t)),
            out@ == intro + join_lines(schemas.subrange(0, k as int)),
        decreases tools.len() - k,
    {
        proof {
            lemma_join_lines_step(schemas, k as int);
        }
        push_join_newline(&mut out, k == 0);
        let line = render_tool_schema(&tools[k]);
        push_all(&mut out, line.as_slice());
        k = k + 1;
    }
    assert(schemas.subrange(0, schemas.len() as int) =~= schemas);
    push_str(&mut out, "\n\nYou MUST strictly follow the above defined tool name and parameter schemas to invoke tool calls.");
    out
}

/// One DSML parameter line.
fn render_param_line(key: &str, is_string: bool, rendered: &str) -> (r: Vec<char>)
    ensures
        r@ == param_line(key@, is_string, rendered@),
{
    let mut out: Vec<char> = Vec::new();
    push_str(&mut out, "<\u{ff5c}DSML\u{ff5c}parameter name=\"");
    push_str(&mut out, key);
    push_str(&mut out, "\" string=\"");
    if is_string {
        push_str(&mut out, "true");
    } else {
        push_str(&mut out, "false");
    }
    push_str(&mut out, "\">");
    push_str(&mut out, rendered);
    push_str(&mut out, "</\u{ff5c}DSML\u{ff5c}parameter>");
    assert(out@ =~= param_line(key@, is_string, rendered@));
    out
}

/// The DSML parameters of a tool call's JSON argument text.
pub fn render_deepseek_v4_tool_arguments(arguments: &str) -> (r: Vec<char>)
    ensures
        r@ == render_arguments(arguments@),
{
    let parsed = json_arguments(arguments);
    render_json_arguments(arguments, &parsed)
}

/// The DSML parameters of the argument text `arguments`, given what parsing
/// it as JSON gave: text that is not JSON becomes one string `arguments`
/// parameter, a non-object value one non-string `arguments` parameter, and
/// an object one parameter per member, one per line.
pub fn render_json_arguments(arguments: &str, parsed: &JsonArguments) -> (r: Vec<char>)
    ensures
        r@ == render_parsed_arguments(arguments@, json_arguments_view(*parsed)),
{
    match parsed {
        JsonArguments::Invalid => render_param_line("arguments", true, arguments),
        JsonArguments::Scalar(value) => render_param_line("arguments", false, value.as_str()),
        JsonArguments::Object(members) => {
            let ghost lines = members@.map_values(
                |m: JsonArgument| (m.key@, m.is_string, m.rendered@),
            ).map_values(|m: (Seq<char>, bool, Seq<char>)| param_line(m.0, m.1, m.2));
            let mut out: Vec<char> = Vec::new();
            let mut k: usize = 0;
            while k < members.len()
                invariant
                    k <= members@.len(),
                    lines == members@.map_values(
                        |m: JsonArgument| (m.key@, m.is_string, m.rendered@),
                    ).map_values(|m: (Seq<char>, bool, Seq<char>)| param_line(m.0, m.1, m.2)),
                    out@ == join_lines(lines.subrange(0, k as int)),
                decreases members.len() - k,
            {
                proof {
                    lemma_join_lines_step(lines, k as int);
                }
                push_join_newline(&mut out, k == 0);
                let m = &members[k];
                let line = render_param_line(m.key.as_str(), m.is_string, m.rendered.as_str());
                push_all(&mut out, line.as_slice());
                k = k + 1;
            }
            assert(lines.subrange(0, lines.len() as int) =~= lines);
            out
        },
    }
}

/// The DSML invocation of one tool call.
fn render_tool_call(c: &OpenAiToolCall) -> (r: Vec<char>)
    ensures
        r@ == render_call(*c),
{
    let mut out: Vec<char> = Vec::new();
    push_str(&mut out, "<\u{ff5c}DSML\u{ff5c}invoke name=\"");
    push_str(&mut out, c.function.name.as_str());
    push_str(&mut out, "\">\n");
    let args = render_deepseek_v4_tool_arguments(c.function.arguments.as_str());
    push_all(&mut out, args.as_slice());
    push_str(&mut out, "\n</\u{ff5c}DSML\u{ff5c}invoke>");
    assert(out@ =~= render_call(*c));
    out
}

/// The DSML block of an assistant's tool calls; empty without calls.
pub fn render_deepseek_v4_tool_calls(tool_calls: &[OpenAiToolCall]) -> (r: Vec<char>)
    ensures
        r@ == render_calls(tool_calls@),
{
    let mut out: Vec<char> = Vec::new();
    if tool_calls.len() == 0 {
        return out;
    }
    push_str(&mut out, "\n\n<\u{ff5c}DSML\u{ff5c}tool_calls>\n");
    let ghost head = out@;
    let ghost calls = tool_calls@.map_values(|c: OpenAiToolCall| render_call(c));
    let mut k: usize = 0;
    while k < tool_calls.len()
        invariant
            k <= tool_calls@.len(),
            calls == tool_calls@.map_values(|c: OpenAiToolCall| render_call(c)),
            out@ == head + join_lines(calls.subrange(0, k as int)),
        decreases tool_calls.len() - k,
    {
        proof {
            lemma_join_lines_step(calls, k as int);
        }
        push_join_newline(&mut out, k == 0);
        let call = render_tool_call(&tool_calls[k]);
        push_all(&mut out, call.as_slice());
        k = k + 1;
    }
    assert(calls.subrange(0, calls.len() as int) =~= calls);
    push_str(&mut out, "\n</\u{ff5c}DSML\u{ff5c}tool_calls>");
    out
}

fn role_is(role: &String, lit: &str) -> (r: bool)
    ensures
        r == (role@ == lit@),
{
    let a = str_chars(role.as_str());
    let b = str_chars(lit);
    chars_eq(a.as_slice(), b.as_slice())
}

fn push_message_text(out: &mut Vec<char>, m: &OpenAiChatMessage)
    ensures
        final(out)@ == old(out)@ + message_text(*m),
{
    match &m.content {
        Some(c) => {
            let t = c.to_text();
            push_str(out, t.as_str());
        },
        None => {},
    }
}

/// Converts chat messages to the DeepSeek-V4 encoding: BOS, the optional
/// reasoning-effort prefix, the tool section (after the first system
/// message, or up front when there is none), each message with its role
/// marker, and, after a trailing system/user/tool/developer message, the
/// assistant marker with `<think>` or `</think>`.
pub fn openai_messages_to_deepseek_v4_prompt(
    messages: &[OpenAiChatMessage],
    tools: &[OpenAiToolDefinition],
    options: &DeepSeekV4ChatTemplateOptions,
) -> (r: String)
    ensures
        r@ == deepseek_v4_prompt(messages@, tools@, *options),
{
    let ghost msgs = messages@;
    let mut out: Vec<char> = Vec::new();
    push_str(&mut out, "<\u{ff5c}begin\u{2581}of\u{2581}sentence\u{ff5c}>");
    if options.thinking && opt_eq_lit(&options.reasoning_effort, "max") {
        push_str(&mut out, "Reasoning Effort: Absolute maximum with no shortcuts permitted.\nYou MUST be very thorough in your thinking and comprehensively decompose the problem to resolve the root cause, rigorously stress-testing your logic against all potential paths, edge cases, and adversarial scenarios.\nExplicitly write out your entire deliberation process, documenting every intermediate step, considered alternative, and rejected hypothesis to ensure absolutely no assumption is left unchecked.\n\n");
    }
    let block: Vec<char> = if tools.len() > 0 {
        render_deepseek_v4_tools(tools)
    } else {
        Vec::new()
    };
    let mut any_system = false;
    let mut j: usize = 0;
    while j < messages.len()
        invariant
            j <= messages@.len(),
            any_system == exists|i: int| 0 <= i < j && (#[trigger] messages@[i]).role@ == "system"@,
        decreases messages.len() - j,
    {
        if role_is(&messages[j].role, "system") {
            any_system = true;
        }
        j = j + 1;
    }
    assert(any_system == has_system(msgs));
    let mut rendered_tools = false;
    if tools.len() > 0 && !any_system {
        push_all(&mut out, block.as_slice());
        rendered_tools = true;
    }
    let ghost header = out@;
    assert(header == deepseek_v4_header(msgs, tools@, *options));
    assert(render_messages(msgs.subrange(0, 0), tools@) =~= Seq::<char>::empty());
    let mut idx: usize = 0;
    while idx < messages.len()
        invariant
            msgs == messages@,
            idx <= msgs.len(),
            tools.len() > 0 ==> block@ == tools_block(tools@),
            rendered_tools == (tools@.len() > 0 && (!has_system(msgs) || has_system(
                msgs.subrange(0, idx as int),
            ))),
            out@ == header + render_messages(msgs.subrange(0, idx as int), tools@),
        decreases messages.len() - idx,
    {
        let message = &messages[idx];
        let ghost prev = msgs.subrange(0, idx as int);
        let ghost sub = msgs.subrange(0, idx + 1);
        assert(sub.drop_last() =~= prev);
        assert(sub.last() == *message);
        let ghost before = out@;
        let ghost append = message.role@ == "system"@ && !has_system(prev) && tools@.len() > 0;
        if role_is(&message.role, "system") {
            push_message_text(&mut out, message);
            if !rendered_tools && tools.len() > 0 {
                push_str(&mut out, "\n\n");
                push_all(&mut out, block.as_slice());
                rendered_tools = true;
            }
        } else if role_is(&message.role, "user") {
            push_str(&mut out, "<\u{ff5c}User\u{ff5c}>");
            push_message_text(&mut out, message);
        } else if role_is(&message.role, "assistant") {
            push_str(&mut out, "<\u{ff5c}Assistant\u{ff5c}>");
            push_message_text(&mut out, message);
            let calls = render_deepseek_v4_tool_calls(message.tool_calls.as_slice());
            push_all(&mut out, calls.as_slice());
            push_str(&mut out, "<\u{ff5c}end\u{2581}of\u{2581}sentence\u{ff5c}>");
        } else if role_is(&message.role, "tool") {
            push_str(&mut out, "<\u{ff5c}User\u{ff5c}>");
            push_str(&mut out, "<tool_result>");
            push_message_text(&mut out, message);
            push_str(&mut out, "</tool_result>");
        } else {
            push_str(&mut out, "<\u{ff5c}User\u{ff5c}>");
            push_message_text(&mut out, message);
        }
        proof {
            lemma_has_system_step(msgs, idx as int);
            assert(out@ =~= before + render_message(*message, append, tools@));
        }
        idx = idx + 1;
    }
    assert(msgs.subrange(0, msgs.len() as int) =~= msgs);
    if messages.len() > 0 {
        let last = &messages[messages.len() - 1];
        if role_is(&last.role, "system") || role_is(&last.role, "user") || role_is(&last.role, "tool")
            || role_is(&last.role, "developer") {
            push_str(&mut out, "<\u{ff5c}Assistant\u{ff5c}>");
            if options.thinking {
                push_str(&mut out, "<think>");
            } else {
                push_str(&mut out, "</think>");
            }
        }
    }
    let r = string_from_chars(out.as_slice());
    assert(r@ =~= deepseek_v4_prompt(msgs, tools@, *options));
    r
}

proof fn lemma_has_system_step(msgs: Seq<OpenAiChatMessage>, k: int)
    requires
        0 <= k < msgs.len(),
    ensures
        has_system(msgs.subrange(0, k + 1)) == (has_system(msgs.subrange(0, k)) || msgs[k].role@
            == "system"@),
{
    let a = msgs.subrange(0, k);
    let b = msgs.subrange(0, k + 1);
    if has_system(b) {
        let i = choose|i: int| 0 <= i < b.len() && (#[trigger] b[i]).role@ == "system"@;
        if i < k {
            assert(a[i] == b[i]);
        }
    }
    if has_system(a) {
        let i = choose|i: int| 0 <= i < a.len() && (#[trigger] a[i]).role@ == "system"@;
        assert(b[i] == a[i]);
    }
    if msgs[k].role@ == "system"@ {
        assert(b[k] == msgs[k]);
    }
}

/// How many messages of `msgs` carry the tool section after them: the
/// first system message, when tools are offered.
pub open spec fn tool_sections_in_messages(
    msgs: Seq<OpenAiChatMessage>,
    tools: Seq<OpenAiToolDefinition>,
) -> nat
    decreases msgs.len(),
{
    if msgs.len() == 0 {
        0
    } else {
        let prev = msgs.drop_last();
        tool_sections_in_messages(prev, tools) + if msgs.last().role@ == "system"@ && !has_system(
            prev,
        ) && tools.len() > 0 {
            1nat
        } else {
            0nat
        }
    }
}

proof fn lemma_tool_sections_in_messages(
    msgs: Seq<OpenAiChatMessage>,
    tools: Seq<OpenAiToolDefinition>,
)
    ensures
        tool_sections_in_messages(msgs, tools) == if has_system(msgs) && tools.len() > 0 {
            1nat
        } else {
            0nat
        },
    decreases msgs.len(),
{
    if msgs.len() > 0 {
        let prev = msgs.drop_last();
        lemma_tool_sections_in_messages(prev, tools);
        assert(has_system(msgs) == (has_system(prev) || msgs.last().role@ == "system"@)) by {
            if has_system(prev) {
                let i = choose|i: int| 0 <= i < prev.len() && (#[trigger] prev[i]).role@ == "system"@;
                assert(msgs[i] == prev[i]);
            }
            if msgs.last().role@ == "system"@ {
                assert(msgs[msgs.len() - 1] == msgs.last());
            }
            if has_system(msgs) {
                let i = choose|i: int| 0 <= i < msgs.len() && (#[trigger] msgs[i]).role@ == "system"@;
                if i < msgs.len() - 1 {
                    assert(prev[i] == msgs[i]);
                }
            }
        }
    }
}

/// When tools are offered, the DeepSeek-V4 prompt carries the tool section
/// exactly once: up front when no message is a system message, otherwise
/// after the first system message only. Without tools it carries none.
pub proof fn lemma_tool_section_rendered_once(
    msgs: Seq<OpenAiChatMessage>,
    tools: Seq<OpenAiToolDefinition>,
)
    ensures
        (if tools.len() > 0 && !has_system(msgs) {
            1nat
        } else {
            0nat
        }) + tool_sections_in_messages(msgs, tools) == if tools.len() > 0 {
            1nat
        } else {
            0nat
        },
{
    lemma_tool_sections_in_messages(msgs, tools);
}

/// Every DeepSeek-V4 prompt starts with the beginning-of-sentence token.
pub proof fn lemma_prompt_starts_with_bos(
    msgs: Seq<OpenAiChatMessage>,
    tools: Seq<OpenAiToolDefinition>,
    options: DeepSeekV4ChatTemplateOptions,
)
    ensures
        deepseek_v4_prompt(msgs, tools, options).len() >= dsv4_bos().len(),
        deepseek_v4_prompt(msgs, tools, options).subrange(0, dsv4_bos().len() as int) == dsv4_bos(),
{
    let p = deepseek_v4_prompt(msgs, tools, options);
    let h = deepseek_v4_header(msgs, tools, options);
    let rest = (if options.thinking && opt_is(options.reasoning_effort, "max"@) {
        dsv4_reasoning_effort_max()
    } else {
        Seq::empty()
    }) + (if tools.len() > 0 && !has_system(msgs) {
        tools_block(tools)
    } else {
        Seq::empty()
    }) + render_messages(msgs, tools) + deepseek_v4_footer(msgs, options);
    assert(p =~= dsv4_bos() + rest);
    assert(p.subrange(0, dsv4_bos().len() as int) =~= dsv4_bos());
}

/// A prompt whose last message is a system, user, tool or developer message
/// ends by opening the assistant turn, with `<think>` when thinking and
/// `</think>` otherwise; after a trailing assistant message (or no message)
/// no turn is opened.
pub proof fn lemma_prompt_opens_generation_turn(
    msgs: Seq<OpenAiChatMessage>,
    tools: Seq<OpenAiToolDefinition>,
    options: DeepSeekV4ChatTemplateOptions,
)
    ensures
        ({
            let p = deepseek_v4_prompt(msgs, tools, options);
            let turn = dsv4_assistant() + if options.thinking {
                "<think>"@
            } else {
                "</think>"@
            };
            msgs.len() > 0 && opens_assistant_turn(msgs.last().role@) ==> p.len() >= turn.len()
                && p.subrange(p.len() - turn.len(), p.len() as int) == turn
        }),
        !(msgs.len() > 0 && opens_assistant_turn(msgs.last().role@)) ==> deepseek_v4_prompt(
            msgs,
            tools,
            options,
        ) == deepseek_v4_header(msgs, tools, options) + render_messages(msgs, tools),
{
    let head = deepseek_v4_header(msgs, tools, options) + render_messages(msgs, tools);
    let p = deepseek_v4_prompt(msgs, tools, options);
    if msgs.len() > 0 && opens_assistant_turn(msgs.last().role@) {
        let turn = dsv4_assistant() + if options.thinking {
            "<think>"@
        } else {
            "</think>"@
        };
        assert(p == head + turn);
        assert(p.subrange(p.len() - turn.len(), p.len() as int) =~= turn);
    } else {
        assert(p =~= head);
    }
}

/// Appending an assistant message to a conversation appends its turn to
/// the prompt: the assistant marker, then the message's text, then the DSML
/// block of its tool calls (empty without calls), then the end-of-sentence
/// marker; the rendering of the earlier messages is unchanged, and no
/// generation turn is opened after it.
pub proof fn lemma_assistant_turn_rendering(
    msgs: Seq<OpenAiChatMessage>,
    tools: Seq<OpenAiToolDefinition>,
    options: DeepSeekV4ChatTemplateOptions,
    m: OpenAiChatMessage,
)
    requires
        m.role@ == "assistant"@,
    ensures
        deepseek_v4_prompt(msgs.push(m), tools, options) == deepseek_v4_header(msgs, tools, options)
            + render_messages(msgs, tools) + "<\u{ff5c}Assistant\u{ff5c}>"@ + message_text(m)
            + render_calls(m.tool_calls@) + "<\u{ff5c}end\u{2581}of\u{2581}sentence\u{ff5c}>"@,
        ends_with(
            deepseek_v4_prompt(msgs.push(m), tools, options),
            "<\u{ff5c}Assistant\u{ff5c}>"@ + message_text(m) + render_calls(m.tool_calls@)
                + "<\u{ff5c}end\u{2581}of\u{2581}sentence\u{ff5c}>"@,
        ),
{
    reveal_strlit("assistant");
    reveal_strlit("system");
    reveal_strlit("user");
    reveal_strlit("tool");
    reveal_strlit("developer");
    let all = msgs.push(m);
    assert(all.drop_last() =~= msgs);
    assert(all.subrange(0, msgs.len() as int) =~= msgs);
    assert(all.subrange(0, msgs.len() as int + 1) =~= all);
    lemma_has_system_step(all, msgs.len() as int);
    assert("assistant"@.len() == 9 && "system"@.len() == 6 && "user"@.len() == 4);
    assert("tool"@.len() == 4 && "developer"@.len() == 9);
    assert("assistant"@[0] != "developer"@[0]);
    assert(m.role@ != "system"@);
    assert(!opens_assistant_turn(m.role@));
    let turn = "<\u{ff5c}Assistant\u{ff5c}>"@ + message_text(m) + render_calls(m.tool_calls@)
        + "<\u{ff5c}end\u{2581}of\u{2581}sentence\u{ff5c}>"@;
    assert(render_message(m, false, tools) == turn);
    assert(render_messages(all, tools) == render_messages(msgs, tools) + turn);
    assert(deepseek_v4_footer(all, options) =~= Seq::<char>::empty());
    let p = deepseek_v4_prompt(all, tools, options);
    assert(p =~= deepseek_v4_header(msgs, tools, options) + render_messages(msgs, tools) + turn);
    assert(p.subrange(p.len() - turn.len(), p.len() as int) =~= turn);
}

/// Appending a user message, or a tool result, to a conversation appends
/// its turn to the earlier rendering and then opens the assistant's turn:
/// the user marker and the text (a tool result wrapped in
/// `<tool_result>...</tool_result>`), then the assistant marker and
/// `<think>` when thinking, `</think>` otherwise.
pub proof fn lemma_user_turn_rendering(
    msgs: Seq<OpenAiChatMessage>,
    tools: Seq<OpenAiToolDefinition>,
    options: DeepSeekV4ChatTemplateOptions,
    m: OpenAiChatMessage,
)
    requires
        m.role@ == "user"@ || m.role@ == "tool"@,
    ensures
        deepseek_v4_prompt(msgs.push(m), tools, options) == deepseek_v4_header(msgs, tools, options)
            + render_messages(msgs, tools) + "<\u{ff5c}User\u{ff5c}>"@ + (if m.role@ == "tool"@ {
            "<tool_result>"@ + message_text(m) + "</tool_result>"@
        } else {
            message_text(m)
        }) + "<\u{ff5c}Assistant\u{ff5c}>"@ + (if options.thinking {
            "<think>"@
        } else {
            "</think>"@
        }),
{
    reveal_strlit("assistant");
    reveal_strlit("system");
    reveal_strlit("user");
    reveal_strlit("tool");
    let all = msgs.push(m);
    assert(all.drop_last() =~= msgs);
    assert(all.subrange(0, msgs.len() as int) =~= msgs);
    assert(all.subrange(0, msgs.len() as int + 1) =~= all);
    lemma_has_system_step(all, msgs.len() as int);
    assert("assistant"@.len() == 9 && "system"@.len() == 6 && "user"@.len() == 4);
    assert("tool"@.len() == 4 && "user"@[0] != "tool"@[0]);
    assert(m.role@ != "system"@ && m.role@ != "assistant"@);
    let body = if m.role@ == "tool"@ {
        "<tool_result>"@ + message_text(m) + "</tool_result>"@
    } else {
        message_text(m)
    };
    let turn = "<\u{ff5c}User\u{ff5c}>"@ + body;
    assert(render_message(m, false, tools) =~= turn);
    assert(render_messages(all, tools) == render_messages(msgs, tools) + turn);
    assert(opens_assistant_turn(m.role@));
    let p = deepseek_v4_prompt(all, tools, options);
    assert(p =~= deepseek_v4_header(msgs, tools, options) + render_messages(msgs, tools) + turn
        + deepseek_v4_footer(all, options));
}

} // verus!
