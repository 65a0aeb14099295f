//! The control-markup delimiter inventory and its matcher.
//!
//! Chat templates address their models through control markup: role headers,
//! turn boundaries, tool-call envelopes, media placeholders, and document
//! boundaries. Untrusted content quoting one verbatim can forge a turn or
//! close a block that the template opened, so the envelope's encoding spaces
//! the opener of every delimiter listed here. The inventory is closed on
//! purpose: `<div>`, `List<String>`, `[1]`, and lowercase `[inst]` are prose
//! and stay as typed.
//!
//! DeepSeek's fullwidth markers (U+FF5C bars) are the one open name class, so
//! they match as a bounded class rather than as table entries.

use crate::text::{
    ascii_letter, hex_lower, is_ascii_letter, is_whitespace, lemma_occurs_skip,
    lemma_text_bytes_add, lemma_text_bytes_encodes, lemma_text_bytes_many, occurs, occurs_at,
    prefix_bytes, whitespace,
};
use vstd::prelude::*;
use vstd::utf8::encode_utf8;

verus! {

/// The opener shape shared by every entry in a [`DelimiterGroup`].
#[derive(Clone, Copy, Debug, PartialEq, Eq, Structural)]
pub enum Shape {
    /// Pipe tokens: `<|name|>` and `<|name>`, plus the `<|/name|>` and
    /// `<|/name>` closers.
    Pipe,
    /// Bare XML-style tags: `<name>` and `</name>`.
    BareTag,
    /// A literal opener matched verbatim.
    Literal,
    /// The doubled-angle block `<<name>>`, anchored on the second bracket.
    DoubledAngle,
}

/// One family group of the inventory.
#[derive(Debug)]
pub struct DelimiterGroup {
    /// The model family or protocol whose templates emit these delimiters.
    pub family: &'static str,
    /// How each entry in `names` spells its opener.
    pub shape: Shape,
    /// Delimiter names or literal openers, read per `shape`.
    pub names: Vec<&'static str>,
}

/// What a group says, as plain values.
pub struct GroupModel {
    pub family: Seq<char>,
    pub shape: Shape,
    pub names: Seq<Seq<char>>,
}

/// The texts of a list of names.
pub open spec fn spelled(names: Seq<&'static str>) -> Seq<Seq<char>> {
    Seq::new(names.len(), |i: int| names[i]@)
}

/// A group of the inventory.
pub open spec fn group_model(
    family: Seq<char>,
    shape: Shape,
    names: Seq<&'static str>,
) -> GroupModel {
    GroupModel { family, shape, names: spelled(names) }
}

impl View for DelimiterGroup {
    type V = GroupModel;

    open spec fn view(&self) -> GroupModel {
        group_model(self.family@, self.shape, self.names@)
    }
}

/// The models of a list of groups.
pub open spec fn group_models(groups: Seq<DelimiterGroup>) -> Seq<GroupModel> {
    Seq::new(groups.len(), |i: int| groups[i]@)
}

/// Llama-3 role and turn structure.
pub const LLAMA_3: [&'static str; 4] = [
    "start_header_id",
    "end_header_id",
    "start_of_role",
    "end_of_role",
];

/// Phi-4 Mini's tool envelope, which closes with `<|/tool|>`.
pub const PHI_4_TOOL_ENVELOPE: [&'static str; 3] = [
    "tool",
    "tool_call",
    "tool_response",
];

/// Kimi K2 and Moonshot wrap history in a section and each call in a begin/end pair.
pub const KIMI_K2_TOOL_SECTIONS: [&'static str; 9] = [
    "tool_call_begin",
    "tool_call_end",
    "tool_calls_begin",
    "tool_calls_end",
    "tool_call_section_begin",
    "tool_call_section_end",
    "tool_calls_section_begin",
    "tool_calls_section_end",
    "tool_call_argument_begin",
];

/// Turn and text terminators shared across families.
pub const TURN_TERMINATORS: [&'static str; 3] = [
    "end",
    "end_of_turn",
    "end_of_text",
];

/// Document boundaries of the Llama-3.1 and GPT-2 lineages.
pub const DOCUMENT_BOUNDARIES: [&'static str; 2] = [
    "begin_of_text",
    "endoftext",
];

/// Llama-4's spelling of the role headers.
pub const LLAMA_4_HEADERS: [&'static str; 2] = [
    "header_start",
    "header_end",
];

/// The ChatML three, Phi-4's role separator, and Kimi K2's pair.
pub const CHATML_AND_KIMI_K2_ROLE_SENTINELS: [&'static str; 7] = [
    "im_start",
    "im_end",
    "im_sep",
    "im_system",
    "im_middle",
    "im_user",
    "im_assistant",
];

/// DeepSeek-V4 role boundaries, with ASCII bars and a capital.
pub const DEEPSEEK_V4_ROLE_BOUNDARIES: [&'static str; 3] = [
    "User",
    "Assistant",
    "System",
];

/// gpt-oss Harmony channels and message sentinels.
pub const GPT_OSS_HARMONY: [&'static str; 9] = [
    "assistant",
    "constrain",
    "channel",
    "message",
    "eot",
    "eom",
    "eot_id",
    "eom_id",
    "final",
];

/// TML Inkling's call envelope.
pub const TML_INKLING_CALL_ENVELOPE: [&'static str; 3] = [
    "message_model",
    "content_invoke_tool_json",
    "end_message",
];

/// Command-R and Aya spell every delimiter in caps.
pub const COMMAND_R_TURN_TOKENS: [&'static str; 5] = [
    "START_OF_TURN_TOKEN",
    "END_OF_TURN_TOKEN",
    "USER_TOKEN",
    "SYSTEM_TOKEN",
    "CHATBOT_TOKEN",
];

/// Gemma-4 media placeholders and Llama-3.1's built-in-tool sentinel.
pub const MEDIA_PLACEHOLDERS: [&'static str; 4] = [
    "image",
    "audio",
    "video",
    "python_tag",
];

/// Qwen 2.5 Coder's fill-in-the-middle prompt tokens.
pub const QWEN_FILL_IN_THE_MIDDLE: [&'static str; 3] = [
    "fim_prefix",
    "fim_suffix",
    "fim_middle",
];

/// Qwen2-VL placeholders that the processor expands per patch.
pub const QWEN_VISION_PLACEHOLDERS: [&'static str; 5] = [
    "vision_start",
    "vision_end",
    "vision_pad",
    "image_pad",
    "video_pad",
];

/// Structural tokens that not every tokenizer flags as special.
pub const NON_SPECIAL_STRUCTURAL_TOKENS: [&'static str; 7] = [
    "return",
    "system",
    "start",
    "think",
    "turn",
    "user",
    "call",
];

/// Gemma's turn boundaries.
pub const GEMMA_TURN_BOUNDARIES: [&'static str; 2] = [
    "start_of_turn",
    "end_of_turn",
];

/// Qwen and Hermes tool catalog and call blocks.
pub const QWEN_AND_HERMES_TOOL_BLOCKS: [&'static str; 3] = [
    "tool_call",
    "tool_response",
    "tools",
];

/// Reasoning blocks.
pub const REASONING_BLOCKS: [&'static str; 1] = [
    "think",
];

/// Llama-2, Mistral, and Zephyr document boundaries.
pub const LLAMA_2_AND_MISTRAL_DOCUMENT_BOUNDARIES: [&'static str; 4] = [
    "eos",
    "bos",
    "s",
    "sop",
];

/// Gemma 3 and 3n media placeholders.
pub const GEMMA_MEDIA_PLACEHOLDERS: [&'static str; 3] = [
    "start_of_image",
    "image_soft_token",
    "audio_soft_token",
];

/// GLM-4.5 and Qwen3.5 nest their call protocol inside the outer tag.
pub const GLM_AND_QWEN_CALL_PROTOCOL: [&'static str; 5] = [
    "arg_key",
    "arg_value",
    "function",
    "parameter",
    "param",
];

/// Opening halves that carry `=value`.
pub const FUNCTION_ATTRIBUTE_OPENERS: [&'static str; 5] = [
    "<function=",
    "<parameter=",
    "<function name=\"",
    "<param name=\"",
    "<parameter name=\"",
];

/// Phi-4 Mini and Harmony reverse pairs, closed with `|>`.
pub const REVERSE_PAIR_CLOSERS: [&'static str; 5] = [
    "<tool|>",
    "<tool_call|>",
    "<tool_response|>",
    "<channel|>",
    "<turn|>",
];

/// Mistral instruct brackets.
pub const MISTRAL_INSTRUCT_BRACKETS: [&'static str; 2] = [
    "[INST]",
    "[/INST]",
];

/// Mistral system prompt block.
pub const MISTRAL_SYSTEM_PROMPT_BLOCK: [&'static str; 2] = [
    "[SYSTEM_PROMPT]",
    "[/SYSTEM_PROMPT]",
];

/// Hermes and Mistral observation and catalog blocks.
pub const HERMES_AND_MISTRAL_TOOL_BLOCKS: [&'static str; 6] = [
    "[AVAILABLE_TOOLS]",
    "[/AVAILABLE_TOOLS]",
    "[TOOL_RESULTS]",
    "[/TOOL_RESULTS]",
    "[TOOL_CALLS]",
    "[/TOOL_CALLS]",
];

/// Codestral builds its fill-in-the-middle prompt from these.
pub const CODESTRAL_FILL_IN_THE_MIDDLE: [&'static str; 6] = [
    "[PREFIX]",
    "[/PREFIX]",
    "[MIDDLE]",
    "[/MIDDLE]",
    "[SUFFIX]",
    "[/SUFFIX]",
];

/// GLM masks.
pub const GLM_MASKS: [&'static str; 2] = [
    "[gMASK]",
    "[/gMASK]",
];

/// Llama-2's system block.
pub const LLAMA_2_SYSTEM_BLOCK: [&'static str; 1] = [
    "SYS",
];

/// The delimiter inventory, grouped by emitting family.
pub open spec fn inventory() -> Seq<GroupModel> {
    seq![
        group_model("llama-3"@, Shape::Pipe, LLAMA_3@),
        group_model("phi-4 tool envelope"@, Shape::Pipe, PHI_4_TOOL_ENVELOPE@),
        group_model("kimi k2 tool sections"@, Shape::Pipe, KIMI_K2_TOOL_SECTIONS@),
        group_model("turn terminators"@, Shape::Pipe, TURN_TERMINATORS@),
        group_model("document boundaries"@, Shape::Pipe, DOCUMENT_BOUNDARIES@),
        group_model("llama-4 headers"@, Shape::Pipe, LLAMA_4_HEADERS@),
        group_model("chatml and kimi k2 role sentinels"@, Shape::Pipe, CHATML_AND_KIMI_K2_ROLE_SENTINELS@),
        group_model("deepseek v4 role boundaries"@, Shape::Pipe, DEEPSEEK_V4_ROLE_BOUNDARIES@),
        group_model("gpt-oss harmony"@, Shape::Pipe, GPT_OSS_HARMONY@),
        group_model("tml inkling call envelope"@, Shape::Pipe, TML_INKLING_CALL_ENVELOPE@),
        group_model("command-r turn tokens"@, Shape::Pipe, COMMAND_R_TURN_TOKENS@),
        group_model("media placeholders"@, Shape::Pipe, MEDIA_PLACEHOLDERS@),
        group_model("qwen fill-in-the-middle"@, Shape::Pipe, QWEN_FILL_IN_THE_MIDDLE@),
        group_model("qwen vision placeholders"@, Shape::Pipe, QWEN_VISION_PLACEHOLDERS@),
        group_model("non-special structural tokens"@, Shape::Pipe, NON_SPECIAL_STRUCTURAL_TOKENS@),
        group_model("gemma turn boundaries"@, Shape::BareTag, GEMMA_TURN_BOUNDARIES@),
        group_model("qwen and hermes tool blocks"@, Shape::BareTag, QWEN_AND_HERMES_TOOL_BLOCKS@),
        group_model("reasoning blocks"@, Shape::BareTag, REASONING_BLOCKS@),
        group_model("llama-2 and mistral document boundaries"@, Shape::BareTag, LLAMA_2_AND_MISTRAL_DOCUMENT_BOUNDARIES@),
        group_model("gemma media placeholders"@, Shape::BareTag, GEMMA_MEDIA_PLACEHOLDERS@),
        group_model("glm and qwen call protocol"@, Shape::BareTag, GLM_AND_QWEN_CALL_PROTOCOL@),
        group_model("function attribute openers"@, Shape::Literal, FUNCTION_ATTRIBUTE_OPENERS@),
        group_model("reverse-pair closers"@, Shape::Literal, REVERSE_PAIR_CLOSERS@),
        group_model("mistral instruct brackets"@, Shape::Literal, MISTRAL_INSTRUCT_BRACKETS@),
        group_model("mistral system prompt block"@, Shape::Literal, MISTRAL_SYSTEM_PROMPT_BLOCK@),
        group_model("hermes and mistral tool blocks"@, Shape::Literal, HERMES_AND_MISTRAL_TOOL_BLOCKS@),
        group_model("codestral fill-in-the-middle"@, Shape::Literal, CODESTRAL_FILL_IN_THE_MIDDLE@),
        group_model("glm masks"@, Shape::Literal, GLM_MASKS@),
        group_model("llama-2 system block"@, Shape::DoubledAngle, LLAMA_2_SYSTEM_BLOCK@),
    ]
}

fn group<const N: usize>(family: &'static str, shape: Shape, names: [&'static str; N]) -> (g:
    DelimiterGroup)
    ensures
        g@ == group_model(family@, shape, names@),
{
    let mut list: Vec<&'static str> = Vec::new();
    for i in 0..N
        invariant
            list@ == names@.take(i as int),
            names@.len() == N,
    {
        list.push(names[i]);
    }
    assert(list@ == names@);
    DelimiterGroup { family, shape, names: list }
}

/// The delimiter inventory, grouped by emitting family.
///
/// Matching only ever needs the opener: one space inserted after the opening
/// `<` or `[` breaks the delimiter while leaving the text readable.
pub fn control_markup() -> (groups: Vec<DelimiterGroup>)
    ensures
        group_models(groups@) == inventory(),
{
    let mut groups: Vec<DelimiterGroup> = Vec::new();
    groups.push(group("llama-3", Shape::Pipe, LLAMA_3));
    groups.push(group("phi-4 tool envelope", Shape::Pipe, PHI_4_TOOL_ENVELOPE));
    groups.push(group("kimi k2 tool sections", Shape::Pipe, KIMI_K2_TOOL_SECTIONS));
    groups.push(group("turn terminators", Shape::Pipe, TURN_TERMINATORS));
    groups.push(group("document boundaries", Shape::Pipe, DOCUMENT_BOUNDARIES));
    groups.push(group("llama-4 headers", Shape::Pipe, LLAMA_4_HEADERS));
    groups.push(group("chatml and kimi k2 role sentinels", Shape::Pipe, CHATML_AND_KIMI_K2_ROLE_SENTINELS));
    groups.push(group("deepseek v4 role boundaries", Shape::Pipe, DEEPSEEK_V4_ROLE_BOUNDARIES));
    groups.push(group("gpt-oss harmony", Shape::Pipe, GPT_OSS_HARMONY));
    groups.push(group("tml inkling call envelope", Shape::Pipe, TML_INKLING_CALL_ENVELOPE));
    groups.push(group("command-r turn tokens", Shape::Pipe, COMMAND_R_TURN_TOKENS));
    groups.push(group("media placeholders", Shape::Pipe, MEDIA_PLACEHOLDERS));
    groups.push(group("qwen fill-in-the-middle", Shape::Pipe, QWEN_FILL_IN_THE_MIDDLE));
    groups.push(group("qwen vision placeholders", Shape::Pipe, QWEN_VISION_PLACEHOLDERS));
    groups.push(group("non-special structural tokens", Shape::Pipe, NON_SPECIAL_STRUCTURAL_TOKENS));
    groups.push(group("gemma turn boundaries", Shape::BareTag, GEMMA_TURN_BOUNDARIES));
    groups.push(group("qwen and hermes tool blocks", Shape::BareTag, QWEN_AND_HERMES_TOOL_BLOCKS));
    groups.push(group("reasoning blocks", Shape::BareTag, REASONING_BLOCKS));
    groups.push(group("llama-2 and mistral document boundaries", Shape::BareTag, LLAMA_2_AND_MISTRAL_DOCUMENT_BOUNDARIES));
    groups.push(group("gemma media placeholders", Shape::BareTag, GEMMA_MEDIA_PLACEHOLDERS));
    groups.push(group("glm and qwen call protocol", Shape::BareTag, GLM_AND_QWEN_CALL_PROTOCOL));
    groups.push(group("function attribute openers", Shape::Literal, FUNCTION_ATTRIBUTE_OPENERS));
    groups.push(group("reverse-pair closers", Shape::Literal, REVERSE_PAIR_CLOSERS));
    groups.push(group("mistral instruct brackets", Shape::Literal, MISTRAL_INSTRUCT_BRACKETS));
    groups.push(group("mistral system prompt block", Shape::Literal, MISTRAL_SYSTEM_PROMPT_BLOCK));
    groups.push(group("hermes and mistral tool blocks", Shape::Literal, HERMES_AND_MISTRAL_TOOL_BLOCKS));
    groups.push(group("codestral fill-in-the-middle", Shape::Literal, CODESTRAL_FILL_IN_THE_MIDDLE));
    groups.push(group("glm masks", Shape::Literal, GLM_MASKS));
    groups.push(group("llama-2 system block", Shape::DoubledAngle, LLAMA_2_SYSTEM_BLOCK));
    groups
}

/// The fullwidth vertical bar that frames the open marker class.
pub const FULLWIDTH_BAR: char = '\u{ff5c}';

/// The most characters allowed after the first letter of a fullwidth marker
/// name.
pub const FULLWIDTH_NAME_MAX: usize = 39;

/// One where a `/` stands in `s` at `at`, else zero.
pub open spec fn slash(s: Seq<char>, at: int) -> int {
    if 0 <= at < s.len() && s[at] == '/' {
        1
    } else {
        0
    }
}

/// The length of the pipe token for `name` at the start of `s`.
pub open spec fn pipe_of(s: Seq<char>, name: Seq<char>) -> Option<int> {
    let start = 2 + slash(s, 2);
    let end = start + name.len();
    if !occurs(s, 0, "<|"@) || !occurs(s, start, name) {
        None
    } else if occurs(s, end, "|>"@) {
        Some(end + 2)
    } else if occurs(s, end, ">"@) {
        Some(end + 1)
    } else {
        None
    }
}

/// The length of the bare tag for `name` at the start of `s`.
pub open spec fn bare_tag_of(s: Seq<char>, name: Seq<char>) -> Option<int> {
    let start = 1 + slash(s, 1);
    let end = start + name.len();
    if occurs(s, 0, "<"@) && occurs(s, start, name) && occurs(s, end, ">"@) {
        Some(end + 1)
    } else {
        None
    }
}

/// The length of the literal `lit` at the start of `s`, where it starts with
/// `open`.
pub open spec fn literal_of(s: Seq<char>, open: char, lit: Seq<char>) -> Option<int> {
    if lit.len() > 0 && lit[0] == open && occurs(s, 0, lit) {
        Some(lit.len() as int)
    } else {
        None
    }
}

/// The length of the doubled-angle opener for `name`, from its second bracket.
pub open spec fn doubled_angle_of(s: Seq<char>, name: Seq<char>) -> Option<int> {
    let start = 1 + slash(s, 1);
    let end = start + name.len();
    if occurs(s, 0, "<"@) && occurs(s, start, name) && occurs(s, end, ">>"@) {
        Some(end + 2)
    } else {
        None
    }
}

/// The length of `<name=` at the start of `s`.
pub open spec fn assigned_of(s: Seq<char>, name: Seq<char>) -> Option<int> {
    if occurs(s, 0, "<"@) && occurs(s, 1, name) && occurs(s, 1 + name.len() as int, "="@) {
        Some(name.len() as int + 2)
    } else {
        None
    }
}

/// The number of white space characters at the start of `s`.
pub open spec fn whitespace_run(s: Seq<char>) -> nat
    decreases s.len(),
{
    if s.len() > 0 && whitespace(s[0]) {
        whitespace_run(s.skip(1)) + 1
    } else {
        0
    }
}

/// The length of `<name`, white space, and `name="` at the start of `s`.
pub open spec fn named_of(s: Seq<char>, name: Seq<char>) -> Option<int> {
    let start = 1 + name.len() as int;
    let run = whitespace_run(s.skip(start)) as int;
    if occurs(s, 0, "<"@) && occurs(s, 1, name) && run > 0 && occurs(s, start + run, "name=\""@) {
        Some(start + run + 6)
    } else {
        None
    }
}

/// Whether `c` may continue a fullwidth marker name.
pub open spec fn fullwidth_name_char(c: char) -> bool {
    ascii_letter(c) || c == '\u{2581}' || c == '_' || c == ' ' || c == '\\'
}

/// The number of marker name characters at the start of `s`.
pub open spec fn fullwidth_run(s: Seq<char>) -> nat
    decreases s.len(),
{
    if s.len() > 0 && fullwidth_name_char(s[0]) {
        fullwidth_run(s.skip(1)) + 1
    } else {
        0
    }
}

/// The length of the fullwidth marker at the start of `s`: a `<`, a bar, an
/// ASCII letter, at most [`FULLWIDTH_NAME_MAX`] further name characters, a
/// bar, and a `>`.
pub open spec fn fullwidth(s: Seq<char>) -> Option<int> {
    let run = fullwidth_run(s.skip(3)) as int;
    if s.len() >= run + 5 && s[0] == '<' && s[1] == FULLWIDTH_BAR && ascii_letter(s[2]) && run
        <= FULLWIDTH_NAME_MAX && s[3 + run] == FULLWIDTH_BAR && s[4 + run] == '>' {
        Some(run + 5)
    } else {
        None
    }
}

/// What `f` gives for the first name, from `i` on, for which it gives a
/// length.
pub open spec fn first_name(
    names: Seq<Seq<char>>,
    f: spec_fn(Seq<char>) -> Option<int>,
    i: int,
) -> Option<int>
    decreases names.len() - i,
{
    if i < 0 || i >= names.len() {
        None
    } else if f(names[i]) is Some {
        f(names[i])
    } else {
        first_name(names, f, i + 1)
    }
}

/// What `f` gives for the first name of the groups of `shape`, from group `i`
/// on, for which it gives a length.
pub open spec fn first_in(
    groups: Seq<GroupModel>,
    shape: Shape,
    f: spec_fn(Seq<char>) -> Option<int>,
    i: int,
) -> Option<int>
    decreases groups.len() - i,
{
    if i < 0 || i >= groups.len() {
        None
    } else if groups[i].shape == shape && first_name(groups[i].names, f, 0) is Some {
        first_name(groups[i].names, f, 0)
    } else {
        first_in(groups, shape, f, i + 1)
    }
}

pub open spec fn pipe_fn(s: Seq<char>) -> spec_fn(Seq<char>) -> Option<int> {
    |name: Seq<char>| pipe_of(s, name)
}

pub open spec fn bare_tag_fn(s: Seq<char>) -> spec_fn(Seq<char>) -> Option<int> {
    |name: Seq<char>| bare_tag_of(s, name)
}

pub open spec fn literal_fn(s: Seq<char>, open: char) -> spec_fn(Seq<char>) -> Option<int> {
    |name: Seq<char>| literal_of(s, open, name)
}

pub open spec fn doubled_angle_fn(s: Seq<char>) -> spec_fn(Seq<char>) -> Option<int> {
    |name: Seq<char>| doubled_angle_of(s, name)
}

pub open spec fn assigned_fn(s: Seq<char>) -> spec_fn(Seq<char>) -> Option<int> {
    |name: Seq<char>| assigned_of(s, name)
}

pub open spec fn named_fn(s: Seq<char>) -> spec_fn(Seq<char>) -> Option<int> {
    |name: Seq<char>| named_of(s, name)
}

/// The length of the pipe token at the start of `s`.
pub open spec fn pipe(s: Seq<char>) -> Option<int> {
    first_in(inventory(), Shape::Pipe, pipe_fn(s), 0)
}

/// The length of the bare tag at the start of `s`.
pub open spec fn bare_tag(s: Seq<char>) -> Option<int> {
    first_in(inventory(), Shape::BareTag, bare_tag_fn(s), 0)
}

/// The length of the literal opener at the start of `s` that starts with
/// `open`.
pub open spec fn literal(s: Seq<char>, open: char) -> Option<int> {
    first_in(inventory(), Shape::Literal, literal_fn(s, open), 0)
}

/// The length of the doubled-angle opener at the start of `s`.
pub open spec fn doubled_angle(s: Seq<char>, prev_lt: bool) -> Option<int> {
    if prev_lt {
        first_in(inventory(), Shape::DoubledAngle, doubled_angle_fn(s), 0)
    } else {
        None
    }
}

/// The length of the attribute opener at the start of `s`.
pub open spec fn attribute(s: Seq<char>) -> Option<int> {
    let assigned = first_name(seq!["function"@, "parameter"@], assigned_fn(s), 0);
    if assigned is Some {
        assigned
    } else {
        first_name(seq!["function"@, "parameter"@, "param"@], named_fn(s), 0)
    }
}

/// The length of the angle-bracket delimiter at the start of `s`.
pub open spec fn angle(s: Seq<char>, prev_lt: bool) -> Option<int> {
    if pipe(s) is Some {
        pipe(s)
    } else if bare_tag(s) is Some {
        bare_tag(s)
    } else if literal(s, '<') is Some {
        literal(s, '<')
    } else if attribute(s) is Some {
        attribute(s)
    } else if fullwidth(s) is Some {
        fullwidth(s)
    } else {
        doubled_angle(s, prev_lt)
    }
}

/// The length, in characters, of the inventory delimiter at the start of `s`.
/// `prev_lt` says that a `<` stands before `s`.
pub open spec fn delimiter(s: Seq<char>, prev_lt: bool) -> Option<int> {
    if s.len() == 0 {
        None
    } else if s[0] == '[' {
        literal(s, '[')
    } else if s[0] == '<' {
        angle(s, prev_lt)
    } else {
        None
    }
}

/// An executable length and a specified one agree.
pub open spec fn same_len(r: Option<usize>, m: Option<int>) -> bool {
    match (r, m) {
        (Some(n), Some(k)) => n == k,
        (None, None) => true,
        _ => false,
    }
}

fn slash_at(text: &Vec<char>, at: usize) -> (n: usize)
    ensures
        n == slash(text@, at as int),
        at + n <= usize::MAX,
{
    if at < text.len() && text[at] == '/' {
        1
    } else {
        0
    }
}

fn pipe_name_len(text: &Vec<char>, at: usize, name: &str) -> (len: Option<usize>)
    requires
        at <= text@.len(),
    ensures
        same_len(len, pipe_of(text@.skip(at as int), name@)),
{
    proof {
        let s = text@.skip(at as int);
        reveal_strlit("<|");
        reveal_strlit("|>");
        reveal_strlit(">");
        lemma_occurs_skip(text@, at as int, 0, "<|"@);
        lemma_occurs_skip(text@, at as int, 2 + slash(s, 2), name@);
        lemma_occurs_skip(text@, at as int, 2 + slash(s, 2) + name@.len(), "|>"@);
        lemma_occurs_skip(text@, at as int, 2 + slash(s, 2) + name@.len(), ">"@);
    }
    if !occurs_at(text, at, "<|") {
        return None;
    }
    let start: usize = at + 2 + slash_at(text, at + 2);
    if !occurs_at(text, start, name) {
        return None;
    }
    let end: usize = start + name.unicode_len();
    if occurs_at(text, end, "|>") {
        Some(end + 2 - at)
    } else if occurs_at(text, end, ">") {
        Some(end + 1 - at)
    } else {
        None
    }
}

fn bare_tag_name_len(text: &Vec<char>, at: usize, name: &str) -> (len: Option<usize>)
    requires
        at <= text@.len(),
    ensures
        same_len(len, bare_tag_of(text@.skip(at as int), name@)),
{
    proof {
        let s = text@.skip(at as int);
        reveal_strlit("<");
        reveal_strlit(">");
        lemma_occurs_skip(text@, at as int, 0, "<"@);
        lemma_occurs_skip(text@, at as int, 1 + slash(s, 1), name@);
        lemma_occurs_skip(text@, at as int, 1 + slash(s, 1) + name@.len(), ">"@);
    }
    if !occurs_at(text, at, "<") {
        return None;
    }
    let start: usize = at + 1 + slash_at(text, at + 1);
    if !occurs_at(text, start, name) {
        return None;
    }
    let end: usize = start + name.unicode_len();
    if occurs_at(text, end, ">") {
        Some(end + 1 - at)
    } else {
        None
    }
}

fn doubled_angle_name_len(text: &Vec<char>, at: usize, name: &str) -> (len: Option<usize>)
    requires
        at <= text@.len(),
    ensures
        same_len(len, doubled_angle_of(text@.skip(at as int), name@)),
{
    proof {
        let s = text@.skip(at as int);
        reveal_strlit("<");
        reveal_strlit(">>");
        lemma_occurs_skip(text@, at as int, 0, "<"@);
        lemma_occurs_skip(text@, at as int, 1 + slash(s, 1), name@);
        lemma_occurs_skip(text@, at as int, 1 + slash(s, 1) + name@.len(), ">>"@);
    }
    if !occurs_at(text, at, "<") {
        return None;
    }
    let start: usize = at + 1 + slash_at(text, at + 1);
    if !occurs_at(text, start, name) {
        return None;
    }
    let end: usize = start + name.unicode_len();
    if occurs_at(text, end, ">>") {
        Some(end + 2 - at)
    } else {
        None
    }
}

fn literal_opener_len(text: &Vec<char>, at: usize, open: char, lit: &str) -> (len: Option<usize>)
    requires
        at <= text@.len(),
    ensures
        same_len(len, literal_of(text@.skip(at as int), open, lit@)),
{
    proof {
        lemma_occurs_skip(text@, at as int, 0, lit@);
    }
    let n: usize = lit.unicode_len();
    if n > 0 && lit.get_char(0) == open && occurs_at(text, at, lit) {
        Some(n)
    } else {
        None
    }
}

fn assigned_name_len(text: &Vec<char>, at: usize, name: &str) -> (len: Option<usize>)
    requires
        at <= text@.len(),
    ensures
        same_len(len, assigned_of(text@.skip(at as int), name@)),
{
    proof {
        reveal_strlit("<");
        reveal_strlit("=");
        lemma_occurs_skip(text@, at as int, 0, "<"@);
        lemma_occurs_skip(text@, at as int, 1, name@);
        lemma_occurs_skip(text@, at as int, 1 + name@.len() as int, "="@);
    }
    if !occurs_at(text, at, "<") || !occurs_at(text, at + 1, name) {
        return None;
    }
    let end: usize = at + 1 + name.unicode_len();
    if occurs_at(text, end, "=") {
        Some(end + 1 - at)
    } else {
        None
    }
}

fn whitespace_run_len(text: &Vec<char>, at: usize) -> (run: usize)
    requires
        at <= text@.len(),
    ensures
        run == whitespace_run(text@.skip(at as int)),
        at + run <= text@.len() <= usize::MAX,
{
    let mut i: usize = at;
    while i < text.len() && is_whitespace(text[i])
        invariant
            at <= i <= text@.len(),
            i - at + whitespace_run(text@.skip(i as int)) == whitespace_run(text@.skip(at as int)),
        decreases text@.len() - i,
    {
        assert(text@.skip(i as int).skip(1) == text@.skip(i + 1));
        i = i + 1;
    }
    i - at
}

fn named_name_len(text: &Vec<char>, at: usize, name: &str) -> (len: Option<usize>)
    requires
        at <= text@.len(),
    ensures
        same_len(len, named_of(text@.skip(at as int), name@)),
{
    proof {
        let s = text@.skip(at as int);
        let start = 1 + name@.len() as int;
        reveal_strlit("<");
        reveal_strlit("name=\"");
        lemma_occurs_skip(text@, at as int, 0, "<"@);
        lemma_occurs_skip(text@, at as int, 1, name@);
        lemma_occurs_skip(
            text@,
            at as int,
            start + whitespace_run(s.skip(start)),
            "name=\""@,
        );
        if at + start <= text@.len() {
            assert(s.skip(start) == text@.skip(at + start));
        }
    }
    if !occurs_at(text, at, "<") || !occurs_at(text, at + 1, name) {
        return None;
    }
    let start: usize = at + 1 + name.unicode_len();
    let run: usize = whitespace_run_len(text, start);
    if run > 0 && occurs_at(text, start + run, "name=\"") {
        Some(start + run + 6 - at)
    } else {
        None
    }
}

/// The length of the pipe token at `at`.
///
/// The name must be followed by `|>` or `>`, so `<|tool_call|>` cannot match
/// as the shorter `tool`.
fn pipe_len(table: &Vec<DelimiterGroup>, text: &Vec<char>, at: usize) -> (len: Option<usize>)
    requires
        group_models(table@) == inventory(),
        at <= text@.len(),
    ensures
        same_len(len, pipe(text@.skip(at as int))),
{
    let ghost f = pipe_fn(text@.skip(at as int));
    for g in 0..table.len()
        invariant
            group_models(table@) == inventory(),
            at <= text@.len(),
            f == pipe_fn(text@.skip(at as int)),
            first_in(inventory(), Shape::Pipe, f, 0) == first_in(
                inventory(),
                Shape::Pipe,
                f,
                g as int,
            ),
    {
        assert(inventory()[g as int] == table@[g as int]@);
        if table[g].shape == Shape::Pipe {
            let ghost names = inventory()[g as int].names;
            let list = &table[g].names;
            for i in 0..list.len()
                invariant
                    list@ == table@[g as int].names@,
                    g < table@.len(),
                    at <= text@.len(),
                    names == spelled(table@[g as int].names@),
                    f == pipe_fn(text@.skip(at as int)),
                    first_name(names, f, 0) == first_name(names, f, i as int),
                    inventory()[g as int].names == names,
                    inventory()[g as int].shape == Shape::Pipe,
                    g < inventory().len(),
                    first_in(inventory(), Shape::Pipe, f, 0) == first_in(
                        inventory(),
                        Shape::Pipe,
                        f,
                        g as int,
                    ),
            {
                let found = pipe_name_len(text, at, list[i]);
                assert(names[i as int] == table@[g as int].names@[i as int]@);
                assert(f(names[i as int]) == pipe_of(text@.skip(at as int), names[i as int]));
                if found.is_some() {
                    return found;
                }
            }
        }
    }
    None
}

/// The length of the bare tag at `at`.
fn bare_tag_len(table: &Vec<DelimiterGroup>, text: &Vec<char>, at: usize) -> (len: Option<usize>)
    requires
        group_models(table@) == inventory(),
        at <= text@.len(),
    ensures
        same_len(len, bare_tag(text@.skip(at as int))),
{
    let ghost f = bare_tag_fn(text@.skip(at as int));
    for g in 0..table.len()
        invariant
            group_models(table@) == inventory(),
            at <= text@.len(),
            f == bare_tag_fn(text@.skip(at as int)),
            first_in(inventory(), Shape::BareTag, f, 0) == first_in(
                inventory(),
                Shape::BareTag,
                f,
                g as int,
            ),
    {
        assert(inventory()[g as int] == table@[g as int]@);
        if table[g].shape == Shape::BareTag {
            let ghost names = inventory()[g as int].names;
            let list = &table[g].names;
            for i in 0..list.len()
                invariant
                    list@ == table@[g as int].names@,
                    g < table@.len(),
                    at <= text@.len(),
                    names == spelled(table@[g as int].names@),
                    f == bare_tag_fn(text@.skip(at as int)),
                    first_name(names, f, 0) == first_name(names, f, i as int),
                    inventory()[g as int].names == names,
                    inventory()[g as int].shape == Shape::BareTag,
                    g < inventory().len(),
                    first_in(inventory(), Shape::BareTag, f, 0) == first_in(
                        inventory(),
                        Shape::BareTag,
                        f,
                        g as int,
                    ),
            {
                let found = bare_tag_name_len(text, at, list[i]);
                assert(names[i as int] == table@[g as int].names@[i as int]@);
                assert(f(names[i as int]) == bare_tag_of(text@.skip(at as int), names[i as int]));
                if found.is_some() {
                    return found;
                }
            }
        }
    }
    None
}

/// The length of the literal opener at `at` whose first character is `open`.
fn literal_len(table: &Vec<DelimiterGroup>, text: &Vec<char>, at: usize, open: char) -> (len:
    Option<usize>)
    requires
        group_models(table@) == inventory(),
        at <= text@.len(),
    ensures
        same_len(len, literal(text@.skip(at as int), open)),
{
    let ghost f = literal_fn(text@.skip(at as int), open);
    for g in 0..table.len()
        invariant
            group_models(table@) == inventory(),
            at <= text@.len(),
            f == literal_fn(text@.skip(at as int), open),
            first_in(inventory(), Shape::Literal, f, 0) == first_in(
                inventory(),
                Shape::Literal,
                f,
                g as int,
            ),
    {
        assert(inventory()[g as int] == table@[g as int]@);
        if table[g].shape == Shape::Literal {
            let ghost names = inventory()[g as int].names;
            let list = &table[g].names;
            for i in 0..list.len()
                invariant
                    list@ == table@[g as int].names@,
                    g < table@.len(),
                    at <= text@.len(),
                    names == spelled(table@[g as int].names@),
                    f == literal_fn(text@.skip(at as int), open),
                    first_name(names, f, 0) == first_name(names, f, i as int),
                    inventory()[g as int].names == names,
                    inventory()[g as int].shape == Shape::Literal,
                    g < inventory().len(),
                    first_in(inventory(), Shape::Literal, f, 0) == first_in(
                        inventory(),
                        Shape::Literal,
                        f,
                        g as int,
                    ),
            {
                let found = literal_opener_len(text, at, open, list[i]);
                assert(names[i as int] == table@[g as int].names@[i as int]@);
                assert(f(names[i as int]) == literal_of(
                    text@.skip(at as int),
                    open,
                    names[i as int],
                ));
                if found.is_some() {
                    return found;
                }
            }
        }
    }
    None
}

/// The length of the `<<name>>` opener at `at`, anchored on the second bracket
/// via `prev_lt`.
fn doubled_angle_len(table: &Vec<DelimiterGroup>, text: &Vec<char>, at: usize, prev_lt: bool) -> (len:
    Option<usize>)
    requires
        group_models(table@) == inventory(),
        at <= text@.len(),
    ensures
        same_len(len, doubled_angle(text@.skip(at as int), prev_lt)),
{
    if !prev_lt {
        return None;
    }
    let ghost f = doubled_angle_fn(text@.skip(at as int));
    for g in 0..table.len()
        invariant
            prev_lt,
            group_models(table@) == inventory(),
            at <= text@.len(),
            f == doubled_angle_fn(text@.skip(at as int)),
            first_in(inventory(), Shape::DoubledAngle, f, 0) == first_in(
                inventory(),
                Shape::DoubledAngle,
                f,
                g as int,
            ),
    {
        assert(inventory()[g as int] == table@[g as int]@);
        if table[g].shape == Shape::DoubledAngle {
            let ghost names = inventory()[g as int].names;
            let list = &table[g].names;
            for i in 0..list.len()
                invariant
                    list@ == table@[g as int].names@,
                    prev_lt,
                    g < table@.len(),
                    at <= text@.len(),
                    names == spelled(table@[g as int].names@),
                    f == doubled_angle_fn(text@.skip(at as int)),
                    first_name(names, f, 0) == first_name(names, f, i as int),
                    inventory()[g as int].names == names,
                    inventory()[g as int].shape == Shape::DoubledAngle,
                    g < inventory().len(),
                    first_in(inventory(), Shape::DoubledAngle, f, 0) == first_in(
                        inventory(),
                        Shape::DoubledAngle,
                        f,
                        g as int,
                    ),
            {
                let found = doubled_angle_name_len(text, at, list[i]);
                assert(names[i as int] == table@[g as int].names@[i as int]@);
                assert(f(names[i as int]) == doubled_angle_of(
                    text@.skip(at as int),
                    names[i as int],
                ));
                if found.is_some() {
                    return found;
                }
            }
        }
    }
    None
}

/// The length of the `<function=` or `<param name="` attribute opener at `at`,
/// where the `name=` form allows any white space run.
fn attribute_len(text: &Vec<char>, at: usize) -> (len: Option<usize>)
    requires
        at <= text@.len(),
    ensures
        same_len(len, attribute(text@.skip(at as int))),
{
    proof {
        let s = text@.skip(at as int);
        let pair = seq!["function"@, "parameter"@];
        let all = seq!["function"@, "parameter"@, "param"@];
        reveal_with_fuel(first_name, 4);
        assert(assigned_fn(s)(pair[0]) == assigned_of(s, "function"@));
        assert(assigned_fn(s)(pair[1]) == assigned_of(s, "parameter"@));
        assert(named_fn(s)(all[0]) == named_of(s, "function"@));
        assert(named_fn(s)(all[1]) == named_of(s, "parameter"@));
        assert(named_fn(s)(all[2]) == named_of(s, "param"@));
    }
    let found = assigned_name_len(text, at, "function");
    if found.is_some() {
        return found;
    }
    let found = assigned_name_len(text, at, "parameter");
    if found.is_some() {
        return found;
    }
    let found = named_name_len(text, at, "function");
    if found.is_some() {
        return found;
    }
    let found = named_name_len(text, at, "parameter");
    if found.is_some() {
        return found;
    }
    named_name_len(text, at, "param")
}

/// Whether `c` may continue a fullwidth marker name: ASCII letters, the
/// one-quarter-block joiner, underscore, space, or backslash.
fn is_fullwidth_name_char(c: char) -> (yes: bool)
    ensures
        yes == fullwidth_name_char(c),
{
    is_ascii_letter(c) || c == '\u{2581}' || c == '_' || c == ' ' || c == '\\'
}

proof fn lemma_fullwidth_run(s: Seq<char>, n: int)
    requires
        0 <= n <= s.len(),
        forall|i: int| 0 <= i < n ==> fullwidth_name_char(#[trigger] s[i]),
    ensures
        fullwidth_run(s) == n + fullwidth_run(s.skip(n)),
    decreases n,
{
    if n == 0 {
        assert(s.skip(0) == s);
    } else {
        assert(fullwidth_name_char(s[0]));
        assert forall|i: int| 0 <= i < n - 1 implies fullwidth_name_char(#[trigger] s.skip(1)[i]) by {
            assert(s.skip(1)[i] == s[i + 1]);
        }
        lemma_fullwidth_run(s.skip(1), n - 1);
        assert(s.skip(1).skip(n - 1) == s.skip(n));
    }
}

/// The length of the fullwidth marker at `at`.
///
/// The one open name class. The charset restriction keeps the class off real
/// CJK content, and the name is bounded.
fn fullwidth_len(text: &Vec<char>, at: usize) -> (len: Option<usize>)
    requires
        at <= text@.len(),
    ensures
        same_len(len, fullwidth(text@.skip(at as int))),
{
    let ghost s = text@.skip(at as int);
    if text.len() - at < 3 || text[at] != '<' || text[at + 1] != FULLWIDTH_BAR || !is_ascii_letter(
        text[at + 2],
    ) {
        return None;
    }
    let ghost name = s.skip(3);
    let mut i: usize = at + 3;
    let mut extra: usize = 0;
    loop
        invariant
            s == text@.skip(at as int),
            name == s.skip(3),
            at + 3 <= i <= text@.len(),
            s[0] == '<',
            s[1] == FULLWIDTH_BAR,
            ascii_letter(s[2]),
            extra == i - at - 3,
            extra <= FULLWIDTH_NAME_MAX,
            forall|k: int| 0 <= k < extra ==> fullwidth_name_char(#[trigger] name[k]),
        decreases text@.len() - i,
    {
        proof {
            lemma_fullwidth_run(name, extra as int);
        }
        if i >= text.len() {
            return None;
        }
        let c = text[i];
        assert(name.skip(extra as int)[0] == c);
        assert(s[3 + extra as int] == c);
        if c == FULLWIDTH_BAR {
            if i + 1 < text.len() && text[i + 1] == '>' {
                return Some(i + 2 - at);
            }
            return None;
        }
        if extra >= FULLWIDTH_NAME_MAX || !is_fullwidth_name_char(c) {
            proof {
                if fullwidth_name_char(c) {
                    assert(name[extra as int] == c);
                    assert forall|k: int| 0 <= k < extra + 1 implies fullwidth_name_char(
                        #[trigger] name[k],
                    ) by {
                        if k == extra {
                        }
                    }
                    lemma_fullwidth_run(name, extra + 1);
                }
            }
            return None;
        }
        assert(name[extra as int] == c);
        extra = extra + 1;
        i = i + 1;
    }
}

/// The length of the angle-bracket delimiter at `at`.
fn angle_len(table: &Vec<DelimiterGroup>, text: &Vec<char>, at: usize, prev_lt: bool) -> (len: Option<
    usize,
>)
    requires
        group_models(table@) == inventory(),
        at <= text@.len(),
    ensures
        same_len(len, angle(text@.skip(at as int), prev_lt)),
{
    let found = pipe_len(table, text, at);
    if found.is_some() {
        return found;
    }
    let found = bare_tag_len(table, text, at);
    if found.is_some() {
        return found;
    }
    let found = literal_len(table, text, at, '<');
    if found.is_some() {
        return found;
    }
    let found = attribute_len(text, at);
    if found.is_some() {
        return found;
    }
    let found = fullwidth_len(text, at);
    if found.is_some() {
        return found;
    }
    doubled_angle_len(table, text, at, prev_lt)
}

/// The length, in characters, of the inventory delimiter that opens in `text`
/// at `at`, if one does.
pub fn delimiter_chars(table: &Vec<DelimiterGroup>, text: &Vec<char>, at: usize, prev_lt: bool) -> (len:
    Option<usize>)
    requires
        group_models(table@) == inventory(),
        at <= text@.len(),
    ensures
        same_len(len, delimiter(text@.skip(at as int), prev_lt)),
{
    if at >= text.len() {
        return None;
    }
    assert(text@.skip(at as int)[0] == text@[at as int]);
    if text[at] == '[' {
        literal_len(table, text, at, '[')
    } else if text[at] == '<' {
        angle_len(table, text, at, prev_lt)
    } else {
        None
    }
}

/// The length in bytes of the inventory delimiter opening at the start of
/// `text`, if one does.
///
/// `prev_lt` records whether the character before `text` was a `<`, which
/// anchors the doubled-angle form on its second bracket.
pub fn delimiter_len(text: &str, prev_lt: bool) -> (len: Option<usize>)
    ensures
        len is Some <==> delimiter(text@, prev_lt) is Some,
        len matches Some(n) ==> {
            &&& n == encode_utf8(text@.take(delimiter(text@, prev_lt)->0)).len()
            &&& 1 < n <= encode_utf8(text@).len()
            &&& text@[0] == '<' || text@[0] == '['
        },
{
    let table = control_markup();
    let chars = crate::text::chars_of(text);
    assert(text@.skip(0) == text@);
    proof {
        lemma_delimiter_fits(text@, prev_lt);
        if delimiter(text@, prev_lt) is Some {
            let n = delimiter(text@, prev_lt)->0;
            law_a_match_depends_on_itself(text@, text@, prev_lt);
            lemma_text_bytes_encodes(text@);
            lemma_text_bytes_encodes(text@.take(n));
            lemma_text_bytes_add(text@.take(n), text@.skip(n));
            lemma_text_bytes_many(text@.take(n));
            assert(text@ == text@.take(n) + text@.skip(n));
        }
    }
    match delimiter_chars(&table, &chars, 0, prev_lt) {
        Some(n) => Some(prefix_bytes(text, n)),
        None => None,
    }
}

/// Where `first_name` finds a length, some name gave it.
pub proof fn lemma_first_name(
    names: Seq<Seq<char>>,
    f: spec_fn(Seq<char>) -> Option<int>,
    i: int,
) -> (at: int)
    requires
        0 <= i,
        first_name(names, f, i) is Some,
    ensures
        i <= at < names.len(),
        f(names[at]) == first_name(names, f, i),
    decreases names.len() - i,
{
    if f(names[i]) is Some {
        i
    } else {
        lemma_first_name(names, f, i + 1)
    }
}

/// Where some name gives a length, `first_name` finds one.
pub proof fn lemma_first_name_finds(
    names: Seq<Seq<char>>,
    f: spec_fn(Seq<char>) -> Option<int>,
    i: int,
    at: int,
)
    requires
        0 <= i <= at < names.len(),
        f(names[at]) is Some,
    ensures
        first_name(names, f, i) is Some,
    decreases names.len() - i,
{
    if i < at && f(names[i]) is None {
        lemma_first_name_finds(names, f, i + 1, at);
    }
}

/// Where `first_in` finds a length, some name of a group of the shape gave it.
pub proof fn lemma_first_in(
    groups: Seq<GroupModel>,
    shape: Shape,
    f: spec_fn(Seq<char>) -> Option<int>,
    i: int,
) -> (at: (int, int))
    requires
        0 <= i,
        first_in(groups, shape, f, i) is Some,
    ensures
        i <= at.0 < groups.len(),
        groups[at.0].shape == shape,
        0 <= at.1 < groups[at.0].names.len(),
        f(groups[at.0].names[at.1]) == first_in(groups, shape, f, i),
    decreases groups.len() - i,
{
    if groups[i].shape == shape && first_name(groups[i].names, f, 0) is Some {
        (i, lemma_first_name(groups[i].names, f, 0))
    } else {
        lemma_first_in(groups, shape, f, i + 1)
    }
}

/// Where some name of a group of the shape gives a length, `first_in` finds
/// one.
pub proof fn lemma_first_in_finds(
    groups: Seq<GroupModel>,
    shape: Shape,
    f: spec_fn(Seq<char>) -> Option<int>,
    i: int,
    at: (int, int),
)
    requires
        0 <= i <= at.0 < groups.len(),
        groups[at.0].shape == shape,
        0 <= at.1 < groups[at.0].names.len(),
        f(groups[at.0].names[at.1]) is Some,
    ensures
        first_in(groups, shape, f, i) is Some,
    decreases groups.len() - i,
{
    if i == at.0 {
        lemma_first_name_finds(groups[i].names, f, 0, at.1);
    } else if !(groups[i].shape == shape && first_name(groups[i].names, f, 0) is Some) {
        lemma_first_in_finds(groups, shape, f, i + 1, at);
    }
}

/// A delimiter lies inside the text that it opens.
pub proof fn lemma_delimiter_fits(s: Seq<char>, prev_lt: bool)
    ensures
        delimiter(s, prev_lt) matches Some(n) ==> 0 <= n <= s.len(),
{
    if pipe(s) is Some {
        let at = lemma_first_in(inventory(), Shape::Pipe, pipe_fn(s), 0);
        reveal_strlit("|>");
        reveal_strlit(">");
    }
    if bare_tag(s) is Some {
        let at = lemma_first_in(inventory(), Shape::BareTag, bare_tag_fn(s), 0);
        reveal_strlit(">");
    }
    if literal(s, '<') is Some {
        let at = lemma_first_in(inventory(), Shape::Literal, literal_fn(s, '<'), 0);
    }
    if literal(s, '[') is Some {
        let at = lemma_first_in(inventory(), Shape::Literal, literal_fn(s, '['), 0);
    }
    if doubled_angle(s, prev_lt) is Some {
        let at = lemma_first_in(inventory(), Shape::DoubledAngle, doubled_angle_fn(s), 0);
        reveal_strlit(">>");
    }
    if attribute(s) is Some {
        reveal_strlit("=");
        reveal_strlit("name=\"");
        let pair = seq!["function"@, "parameter"@];
        if first_name(pair, assigned_fn(s), 0) is Some {
            let at = lemma_first_name(pair, assigned_fn(s), 0);
        } else {
            let at = lemma_first_name(
                seq!["function"@, "parameter"@, "param"@],
                named_fn(s),
                0,
            );
        }
    }
}

/// A character after which the encoding may insert a space: the start of a
/// delimiter or of a nonce.
pub open spec fn opener_char(c: char) -> bool {
    c == '<' || c == '[' || hex_lower(c)
}

/// `p` holds no space.
pub open spec fn spaceless(p: Seq<char>) -> bool {
    forall|k: int| 0 <= k < p.len() ==> #[trigger] p[k] != ' '
}

/// `p` holds no space behind a character after which one may be inserted.
pub open spec fn unspaced(p: Seq<char>) -> bool {
    forall|k: int| 0 <= k < p.len() - 1 && p[k + 1] == ' ' ==> !opener_char(#[trigger] p[k])
}

/// Whether `c` may stand in a name of the inventory: ASCII letters and the
/// underscore.
pub open spec fn name_char(c: char) -> bool {
    ascii_letter(c) || c == '_'
}

/// A name of the inventory that no second `>` follows.
pub open spec fn plain_name(p: Seq<char>) -> bool {
    &&& p.len() > 0
    &&& forall|k: int| 0 <= k < p.len() ==> name_char(#[trigger] p[k])
    &&& p.len() != 3 || p[0] != 'S'
}

/// The name of the doubled-angle block.
pub open spec fn system_name(p: Seq<char>) -> bool {
    &&& p.len() == 3
    &&& p[0] == 'S'
    &&& forall|k: int| 0 <= k < p.len() ==> name_char(#[trigger] p[k])
}

/// The first name in `s` stands from `lead` to `end`.
pub open spec fn framed_name(s: Seq<char>, lead: int, end: int) -> bool {
    &&& 0 < lead < end < s.len()
    &&& forall|i: int| 0 <= i < lead ==> !name_char(#[trigger] s[i])
    &&& forall|i: int| lead <= i < end ==> name_char(#[trigger] s[i])
    &&& !name_char(s[end])
}

/// How many characters of a delimiter follow the name that stands from `lead`
/// to `end`.
pub open spec fn tail_len(s: Seq<char>, lead: int, end: int) -> int {
    if s[end] == '|' {
        2
    } else if whitespace(s[end]) {
        whitespace_run(s.skip(end)) as int + 6
    } else if s[end] == '>' && end - lead == 3 && s[lead] == 'S' {
        2
    } else {
        1
    }
}

/// A delimiter around a listed name may take the first `n` characters of `s`.
pub open spec fn spans(s: Seq<char>, n: int) -> bool {
    &&& 2 <= n <= s.len()
    &&& s[1] != FULLWIDTH_BAR
    &&& exists|lead: int, end: int| #[trigger]
        framed_name(s, lead, end) && n == end + tail_len(s, lead, end)
}

/// A literal opener: it spans itself, and holds no space behind an opener.
pub open spec fn opener_literal(p: Seq<char>) -> bool {
    p.len() >= 2 && opener_char(p[0]) && unspaced(p) && spans(p, p.len() as int)
}

proof fn lemma_llama_3()
    ensures
        forall|i: int| 0 <= i < LLAMA_3@.len() ==> plain_name(#[trigger] LLAMA_3@[i]@),
{
    reveal_strlit("start_header_id");
    assert(plain_name("start_header_id"@));
    reveal_strlit("end_header_id");
    assert(plain_name("end_header_id"@));
    reveal_strlit("start_of_role");
    assert(plain_name("start_of_role"@));
    reveal_strlit("end_of_role");
    assert(plain_name("end_of_role"@));
}

proof fn lemma_phi_4_tool_envelope()
    ensures
        forall|i: int| 0 <= i < PHI_4_TOOL_ENVELOPE@.len() ==> plain_name(#[trigger] PHI_4_TOOL_ENVELOPE@[i]@),
{
    reveal_strlit("tool");
    assert(plain_name("tool"@));
    reveal_strlit("tool_call");
    assert(plain_name("tool_call"@));
    reveal_strlit("tool_response");
    assert(plain_name("tool_response"@));
}

proof fn lemma_kimi_k2_tool_sections()
    ensures
        forall|i: int| 0 <= i < KIMI_K2_TOOL_SECTIONS@.len() ==> plain_name(#[trigger] KIMI_K2_TOOL_SECTIONS@[i]@),
{
    reveal_strlit("tool_call_begin");
    assert(plain_name("tool_call_begin"@));
    reveal_strlit("tool_call_end");
    assert(plain_name("tool_call_end"@));
    reveal_strlit("tool_calls_begin");
    assert(plain_name("tool_calls_begin"@));
    reveal_strlit("tool_calls_end");
    assert(plain_name("tool_calls_end"@));
    reveal_strlit("tool_call_section_begin");
    assert(plain_name("tool_call_section_begin"@));
    reveal_strlit("tool_call_section_end");
    assert(plain_name("tool_call_section_end"@));
    reveal_strlit("tool_calls_section_begin");
    assert(plain_name("tool_calls_section_begin"@));
    reveal_strlit("tool_calls_section_end");
    assert(plain_name("tool_calls_section_end"@));
    reveal_strlit("tool_call_argument_begin");
    assert(plain_name("tool_call_argument_begin"@));
}

proof fn lemma_turn_terminators()
    ensures
        forall|i: int| 0 <= i < TURN_TERMINATORS@.len() ==> plain_name(#[trigger] TURN_TERMINATORS@[i]@),
{
    reveal_strlit("end");
    assert(plain_name("end"@));
    reveal_strlit("end_of_turn");
    assert(plain_name("end_of_turn"@));
    reveal_strlit("end_of_text");
    assert(plain_name("end_of_text"@));
}

proof fn lemma_document_boundaries()
    ensures
        forall|i: int| 0 <= i < DOCUMENT_BOUNDARIES@.len() ==> plain_name(#[trigger] DOCUMENT_BOUNDARIES@[i]@),
{
    reveal_strlit("begin_of_text");
    assert(plain_name("begin_of_text"@));
    reveal_strlit("endoftext");
    assert(plain_name("endoftext"@));
}

proof fn lemma_llama_4_headers()
    ensures
        forall|i: int| 0 <= i < LLAMA_4_HEADERS@.len() ==> plain_name(#[trigger] LLAMA_4_HEADERS@[i]@),
{
    reveal_strlit("header_start");
    assert(plain_name("header_start"@));
    reveal_strlit("header_end");
    assert(plain_name("header_end"@));
}

proof fn lemma_chatml_and_kimi_k2_role_sentinels()
    ensures
        forall|i: int| 0 <= i < CHATML_AND_KIMI_K2_ROLE_SENTINELS@.len() ==> plain_name(#[trigger] CHATML_AND_KIMI_K2_ROLE_SENTINELS@[i]@),
{
    reveal_strlit("im_start");
    assert(plain_name("im_start"@));
    reveal_strlit("im_end");
    assert(plain_name("im_end"@));
    reveal_strlit("im_sep");
    assert(plain_name("im_sep"@));
    reveal_strlit("im_system");
    assert(plain_name("im_system"@));
    reveal_strlit("im_middle");
    assert(plain_name("im_middle"@));
    reveal_strlit("im_user");
    assert(plain_name("im_user"@));
    reveal_strlit("im_assistant");
    assert(plain_name("im_assistant"@));
}

proof fn lemma_deepseek_v4_role_boundaries()
    ensures
        forall|i: int| 0 <= i < DEEPSEEK_V4_ROLE_BOUNDARIES@.len() ==> plain_name(#[trigger] DEEPSEEK_V4_ROLE_BOUNDARIES@[i]@),
{
    reveal_strlit("User");
    assert(plain_name("User"@));
    reveal_strlit("Assistant");
    assert(plain_name("Assistant"@));
    reveal_strlit("System");
    assert(plain_name("System"@));
}

proof fn lemma_gpt_oss_harmony()
    ensures
        forall|i: int| 0 <= i < GPT_OSS_HARMONY@.len() ==> plain_name(#[trigger] GPT_OSS_HARMONY@[i]@),
{
    reveal_strlit("assistant");
    assert(plain_name("assistant"@));
    reveal_strlit("constrain");
    assert(plain_name("constrain"@));
    reveal_strlit("channel");
    assert(plain_name("channel"@));
    reveal_strlit("message");
    assert(plain_name("message"@));
    reveal_strlit("eot");
    assert(plain_name("eot"@));
    reveal_strlit("eom");
    assert(plain_name("eom"@));
    reveal_strlit("eot_id");
    assert(plain_name("eot_id"@));
    reveal_strlit("eom_id");
    assert(plain_name("eom_id"@));
    reveal_strlit("final");
    assert(plain_name("final"@));
}

proof fn lemma_tml_inkling_call_envelope()
    ensures
        forall|i: int| 0 <= i < TML_INKLING_CALL_ENVELOPE@.len() ==> plain_name(#[trigger] TML_INKLING_CALL_ENVELOPE@[i]@),
{
    reveal_strlit("message_model");
    assert(plain_name("message_model"@));
    reveal_strlit("content_invoke_tool_json");
    assert(plain_name("content_invoke_tool_json"@));
    reveal_strlit("end_message");
    assert(plain_name("end_message"@));
}

proof fn lemma_command_r_turn_tokens()
    ensures
        forall|i: int| 0 <= i < COMMAND_R_TURN_TOKENS@.len() ==> plain_name(#[trigger] COMMAND_R_TURN_TOKENS@[i]@),
{
    reveal_strlit("START_OF_TURN_TOKEN");
    assert(plain_name("START_OF_TURN_TOKEN"@));
    reveal_strlit("END_OF_TURN_TOKEN");
    assert(plain_name("END_OF_TURN_TOKEN"@));
    reveal_strlit("USER_TOKEN");
    assert(plain_name("USER_TOKEN"@));
    reveal_strlit("SYSTEM_TOKEN");
    assert(plain_name("SYSTEM_TOKEN"@));
    reveal_strlit("CHATBOT_TOKEN");
    assert(plain_name("CHATBOT_TOKEN"@));
}

proof fn lemma_media_placeholders()
    ensures
        forall|i: int| 0 <= i < MEDIA_PLACEHOLDERS@.len() ==> plain_name(#[trigger] MEDIA_PLACEHOLDERS@[i]@),
{
    reveal_strlit("image");
    assert(plain_name("image"@));
    reveal_strlit("audio");
    assert(plain_name("audio"@));
    reveal_strlit("video");
    assert(plain_name("video"@));
    reveal_strlit("python_tag");
    assert(plain_name("python_tag"@));
}

proof fn lemma_qwen_fill_in_the_middle()
    ensures
        forall|i: int| 0 <= i < QWEN_FILL_IN_THE_MIDDLE@.len() ==> plain_name(#[trigger] QWEN_FILL_IN_THE_MIDDLE@[i]@),
{
    reveal_strlit("fim_prefix");
    assert(plain_name("fim_prefix"@));
    reveal_strlit("fim_suffix");
    assert(plain_name("fim_suffix"@));
    reveal_strlit("fim_middle");
    assert(plain_name("fim_middle"@));
}

proof fn lemma_qwen_vision_placeholders()
    ensures
        forall|i: int| 0 <= i < QWEN_VISION_PLACEHOLDERS@.len() ==> plain_name(#[trigger] QWEN_VISION_PLACEHOLDERS@[i]@),
{
    reveal_strlit("vision_start");
    assert(plain_name("vision_start"@));
    reveal_strlit("vision_end");
    assert(plain_name("vision_end"@));
    reveal_strlit("vision_pad");
    assert(plain_name("vision_pad"@));
    reveal_strlit("image_pad");
    assert(plain_name("image_pad"@));
    reveal_strlit("video_pad");
    assert(plain_name("video_pad"@));
}

proof fn lemma_non_special_structural_tokens()
    ensures
        forall|i: int| 0 <= i < NON_SPECIAL_STRUCTURAL_TOKENS@.len() ==> plain_name(#[trigger] NON_SPECIAL_STRUCTURAL_TOKENS@[i]@),
{
    reveal_strlit("return");
    assert(plain_name("return"@));
    reveal_strlit("system");
    assert(plain_name("system"@));
    reveal_strlit("start");
    assert(plain_name("start"@));
    reveal_strlit("think");
    assert(plain_name("think"@));
    reveal_strlit("turn");
    assert(plain_name("turn"@));
    reveal_strlit("user");
    assert(plain_name("user"@));
    reveal_strlit("call");
    assert(plain_name("call"@));
}

proof fn lemma_gemma_turn_boundaries()
    ensures
        forall|i: int| 0 <= i < GEMMA_TURN_BOUNDARIES@.len() ==> plain_name(#[trigger] GEMMA_TURN_BOUNDARIES@[i]@),
{
    reveal_strlit("start_of_turn");
    assert(plain_name("start_of_turn"@));
    reveal_strlit("end_of_turn");
    assert(plain_name("end_of_turn"@));
}

proof fn lemma_qwen_and_hermes_tool_blocks()
    ensures
        forall|i: int| 0 <= i < QWEN_AND_HERMES_TOOL_BLOCKS@.len() ==> plain_name(#[trigger] QWEN_AND_HERMES_TOOL_BLOCKS@[i]@),
{
    reveal_strlit("tool_call");
    assert(plain_name("tool_call"@));
    reveal_strlit("tool_response");
    assert(plain_name("tool_response"@));
    reveal_strlit("tools");
    assert(plain_name("tools"@));
}

proof fn lemma_reasoning_blocks()
    ensures
        forall|i: int| 0 <= i < REASONING_BLOCKS@.len() ==> plain_name(#[trigger] REASONING_BLOCKS@[i]@),
{
    reveal_strlit("think");
    assert(plain_name("think"@));
}

proof fn lemma_llama_2_and_mistral_document_boundaries()
    ensures
        forall|i: int| 0 <= i < LLAMA_2_AND_MISTRAL_DOCUMENT_BOUNDARIES@.len() ==> plain_name(#[trigger] LLAMA_2_AND_MISTRAL_DOCUMENT_BOUNDARIES@[i]@),
{
    reveal_strlit("eos");
    assert(plain_name("eos"@));
    reveal_strlit("bos");
    assert(plain_name("bos"@));
    reveal_strlit("s");
    assert(plain_name("s"@));
    reveal_strlit("sop");
    assert(plain_name("sop"@));
}

proof fn lemma_gemma_media_placeholders()
    ensures
        forall|i: int| 0 <= i < GEMMA_MEDIA_PLACEHOLDERS@.len() ==> plain_name(#[trigger] GEMMA_MEDIA_PLACEHOLDERS@[i]@),
{
    reveal_strlit("start_of_image");
    assert(plain_name("start_of_image"@));
    reveal_strlit("image_soft_token");
    assert(plain_name("image_soft_token"@));
    reveal_strlit("audio_soft_token");
    assert(plain_name("audio_soft_token"@));
}

proof fn lemma_glm_and_qwen_call_protocol()
    ensures
        forall|i: int| 0 <= i < GLM_AND_QWEN_CALL_PROTOCOL@.len() ==> plain_name(#[trigger] GLM_AND_QWEN_CALL_PROTOCOL@[i]@),
{
    reveal_strlit("arg_key");
    assert(plain_name("arg_key"@));
    reveal_strlit("arg_value");
    assert(plain_name("arg_value"@));
    reveal_strlit("function");
    assert(plain_name("function"@));
    reveal_strlit("parameter");
    assert(plain_name("parameter"@));
    reveal_strlit("param");
    assert(plain_name("param"@));
}

proof fn lemma_function_attribute_openers()
    ensures
        forall|i: int| 0 <= i < FUNCTION_ATTRIBUTE_OPENERS@.len() ==> opener_literal(#[trigger] FUNCTION_ATTRIBUTE_OPENERS@[i]@),
{
    reveal_strlit("<function=");
    assert(framed_name("<function="@, 1, 9));
    assert(opener_literal("<function="@));
    reveal_strlit("<parameter=");
    assert(framed_name("<parameter="@, 1, 10));
    assert(opener_literal("<parameter="@));
    reveal_strlit("<function name=\"");
    assert(framed_name("<function name=\""@, 1, 9));
    assert(whitespace_run("<function name=\""@.skip(9)) == 1) by {
        reveal_with_fuel(whitespace_run, 2);
    }
    assert(opener_literal("<function name=\""@));
    reveal_strlit("<param name=\"");
    assert(framed_name("<param name=\""@, 1, 6));
    assert(whitespace_run("<param name=\""@.skip(6)) == 1) by {
        reveal_with_fuel(whitespace_run, 2);
    }
    assert(opener_literal("<param name=\""@));
    reveal_strlit("<parameter name=\"");
    assert(framed_name("<parameter name=\""@, 1, 10));
    assert(whitespace_run("<parameter name=\""@.skip(10)) == 1) by {
        reveal_with_fuel(whitespace_run, 2);
    }
    assert(opener_literal("<parameter name=\""@));
}

proof fn lemma_reverse_pair_closers()
    ensures
        forall|i: int| 0 <= i < REVERSE_PAIR_CLOSERS@.len() ==> opener_literal(#[trigger] REVERSE_PAIR_CLOSERS@[i]@),
{
    reveal_strlit("<tool|>");
    assert(framed_name("<tool|>"@, 1, 5));
    assert(opener_literal("<tool|>"@));
    reveal_strlit("<tool_call|>");
    assert(framed_name("<tool_call|>"@, 1, 10));
    assert(opener_literal("<tool_call|>"@));
    reveal_strlit("<tool_response|>");
    assert(framed_name("<tool_response|>"@, 1, 14));
    assert(opener_literal("<tool_response|>"@));
    reveal_strlit("<channel|>");
    assert(framed_name("<channel|>"@, 1, 8));
    assert(opener_literal("<channel|>"@));
    reveal_strlit("<turn|>");
    assert(framed_name("<turn|>"@, 1, 5));
    assert(opener_literal("<turn|>"@));
}

proof fn lemma_mistral_instruct_brackets()
    ensures
        forall|i: int| 0 <= i < MISTRAL_INSTRUCT_BRACKETS@.len() ==> opener_literal(#[trigger] MISTRAL_INSTRUCT_BRACKETS@[i]@),
{
    reveal_strlit("[INST]");
    assert(framed_name("[INST]"@, 1, 5));
    assert(opener_literal("[INST]"@));
    reveal_strlit("[/INST]");
    assert(framed_name("[/INST]"@, 2, 6));
    assert(opener_literal("[/INST]"@));
}

proof fn lemma_mistral_system_prompt_block()
    ensures
        forall|i: int| 0 <= i < MISTRAL_SYSTEM_PROMPT_BLOCK@.len() ==> opener_literal(#[trigger] MISTRAL_SYSTEM_PROMPT_BLOCK@[i]@),
{
    reveal_strlit("[SYSTEM_PROMPT]");
    assert(framed_name("[SYSTEM_PROMPT]"@, 1, 14));
    assert(opener_literal("[SYSTEM_PROMPT]"@));
    reveal_strlit("[/SYSTEM_PROMPT]");
    assert(framed_name("[/SYSTEM_PROMPT]"@, 2, 15));
    assert(opener_literal("[/SYSTEM_PROMPT]"@));
}

proof fn lemma_hermes_and_mistral_tool_blocks()
    ensures
        forall|i: int| 0 <= i < HERMES_AND_MISTRAL_TOOL_BLOCKS@.len() ==> opener_literal(#[trigger] HERMES_AND_MISTRAL_TOOL_BLOCKS@[i]@),
{
    reveal_strlit("[AVAILABLE_TOOLS]");
    assert(framed_name("[AVAILABLE_TOOLS]"@, 1, 16));
    assert(opener_literal("[AVAILABLE_TOOLS]"@));
    reveal_strlit("[/AVAILABLE_TOOLS]");
    assert(framed_name("[/AVAILABLE_TOOLS]"@, 2, 17));
    assert(opener_literal("[/AVAILABLE_TOOLS]"@));
    reveal_strlit("[TOOL_RESULTS]");
    assert(framed_name("[TOOL_RESULTS]"@, 1, 13));
    assert(opener_literal("[TOOL_RESULTS]"@));
    reveal_strlit("[/TOOL_RESULTS]");
    assert(framed_name("[/TOOL_RESULTS]"@, 2, 14));
    assert(opener_literal("[/TOOL_RESULTS]"@));
    reveal_strlit("[TOOL_CALLS]");
    assert(framed_name("[TOOL_CALLS]"@, 1, 11));
    assert(opener_literal("[TOOL_CALLS]"@));
    reveal_strlit("[/TOOL_CALLS]");
    assert(framed_name("[/TOOL_CALLS]"@, 2, 12));
    assert(opener_literal("[/TOOL_CALLS]"@));
}

proof fn lemma_codestral_fill_in_the_middle()
    ensures
        forall|i: int| 0 <= i < CODESTRAL_FILL_IN_THE_MIDDLE@.len() ==> opener_literal(#[trigger] CODESTRAL_FILL_IN_THE_MIDDLE@[i]@),
{
    reveal_strlit("[PREFIX]");
    assert(framed_name("[PREFIX]"@, 1, 7));
    assert(opener_literal("[PREFIX]"@));
    reveal_strlit("[/PREFIX]");
    assert(framed_name("[/PREFIX]"@, 2, 8));
    assert(opener_literal("[/PREFIX]"@));
    reveal_strlit("[MIDDLE]");
    assert(framed_name("[MIDDLE]"@, 1, 7));
    assert(opener_literal("[MIDDLE]"@));
    reveal_strlit("[/MIDDLE]");
    assert(framed_name("[/MIDDLE]"@, 2, 8));
    assert(opener_literal("[/MIDDLE]"@));
    reveal_strlit("[SUFFIX]");
    assert(framed_name("[SUFFIX]"@, 1, 7));
    assert(opener_literal("[SUFFIX]"@));
    reveal_strlit("[/SUFFIX]");
    assert(framed_name("[/SUFFIX]"@, 2, 8));
    assert(opener_literal("[/SUFFIX]"@));
}

proof fn lemma_glm_masks()
    ensures
        forall|i: int| 0 <= i < GLM_MASKS@.len() ==> opener_literal(#[trigger] GLM_MASKS@[i]@),
{
    reveal_strlit("[gMASK]");
    assert(framed_name("[gMASK]"@, 1, 6));
    assert(opener_literal("[gMASK]"@));
    reveal_strlit("[/gMASK]");
    assert(framed_name("[/gMASK]"@, 2, 7));
    assert(opener_literal("[/gMASK]"@));
}

proof fn lemma_llama_2_system_block()
    ensures
        forall|i: int| 0 <= i < LLAMA_2_SYSTEM_BLOCK@.len() ==> system_name(#[trigger] LLAMA_2_SYSTEM_BLOCK@[i]@),
{
    reveal_strlit("SYS");
    assert(system_name("SYS"@));
}

/// How the entries of a group are spelled.
pub open spec fn well_spelled(g: GroupModel) -> bool {
    forall|i: int|
        0 <= i < g.names.len() ==> match g.shape {
            Shape::Literal => opener_literal(#[trigger] g.names[i]),
            Shape::DoubledAngle => system_name(g.names[i]),
            _ => plain_name(g.names[i]),
        }
}

/// Every name of the inventory is made of name characters, and every literal
/// opener of a name and what frames it.
pub proof fn lemma_inventory_spelling()
    ensures
        forall|g: int| 0 <= g < inventory().len() ==> well_spelled(#[trigger] inventory()[g]),
{
    lemma_llama_3();
    lemma_phi_4_tool_envelope();
    lemma_kimi_k2_tool_sections();
    lemma_turn_terminators();
    lemma_document_boundaries();
    lemma_llama_4_headers();
    lemma_chatml_and_kimi_k2_role_sentinels();
    lemma_deepseek_v4_role_boundaries();
    lemma_gpt_oss_harmony();
    lemma_tml_inkling_call_envelope();
    lemma_command_r_turn_tokens();
    lemma_media_placeholders();
    lemma_qwen_fill_in_the_middle();
    lemma_qwen_vision_placeholders();
    lemma_non_special_structural_tokens();
    lemma_gemma_turn_boundaries();
    lemma_qwen_and_hermes_tool_blocks();
    lemma_reasoning_blocks();
    lemma_llama_2_and_mistral_document_boundaries();
    lemma_gemma_media_placeholders();
    lemma_glm_and_qwen_call_protocol();
    lemma_function_attribute_openers();
    lemma_reverse_pair_closers();
    lemma_mistral_instruct_brackets();
    lemma_mistral_system_prompt_block();
    lemma_hermes_and_mistral_tool_blocks();
    lemma_codestral_fill_in_the_middle();
    lemma_glm_masks();
    lemma_llama_2_system_block();
    assert forall|g: int| 0 <= g < inventory().len() implies well_spelled(
        #[trigger] inventory()[g],
    ) by {}
}

proof fn lemma_occurs_take(s: Seq<char>, t: Seq<char>, n: int, k: int, p: Seq<char>)
    requires
        0 <= n <= s.len(),
        n <= t.len(),
        s.take(n) == t.take(n),
        occurs(s, k, p),
        k + p.len() <= n,
    ensures
        occurs(t, k, p),
{
    assert forall|i: int| 0 <= i < p.len() implies t.subrange(k, k + p.len())[i] == p[i] by {
        assert(s.subrange(k, k + p.len())[i] == p[i]);
        assert(s.take(n)[k + i] == s[k + i]);
        assert(t.take(n)[k + i] == t[k + i]);
    }
    assert(t.subrange(k, k + p.len()) == p);
}

proof fn lemma_occurs_char(s: Seq<char>, k: int, p: Seq<char>, i: int)
    requires
        occurs(s, k, p),
        k <= i < k + p.len(),
    ensures
        s[i] == p[i - k],
{
    assert(s.subrange(k, k + p.len())[i - k] == p[i - k]);
}

/// What a matched length `n` says of `s`, and of any text that starts alike.
pub open spec fn sound_match(s: Seq<char>, n: int) -> bool {
    2 <= n <= s.len() && unspaced(s.take(n))
}

proof fn lemma_pipe_of(s: Seq<char>, name: Seq<char>, t: Seq<char>)
    requires
        spaceless(name),
        pipe_of(s, name) is Some,
    ensures
        sound_match(s, pipe_of(s, name)->0),
        pipe_of(s, name)->0 <= t.len() && s.take(pipe_of(s, name)->0) == t.take(
            pipe_of(s, name)->0,
        ) ==> pipe_of(t, name) is Some,
{
    let n = pipe_of(s, name)->0;
    let start = 2 + slash(s, 2);
    let end = start + name.len();
    reveal_strlit("<|");
    reveal_strlit("|>");
    reveal_strlit(">");
    assert forall|i: int| 0 <= i < n implies #[trigger] s.take(n)[i] != ' ' by {
        if i < 2 {
            lemma_occurs_char(s, 0, "<|"@, i);
        } else if start <= i < end {
            lemma_occurs_char(s, start, name, i);
        } else if end <= i {
            if occurs(s, end, "|>"@) {
                lemma_occurs_char(s, end, "|>"@, i);
            } else {
                lemma_occurs_char(s, end, ">"@, i);
            }
        }
    }
    if n <= t.len() && s.take(n) == t.take(n) {
        assert(s.take(n)[2] == t.take(n)[2]);
        lemma_occurs_take(s, t, n, 0, "<|"@);
        lemma_occurs_take(s, t, n, start, name);
        if occurs(s, end, "|>"@) {
            lemma_occurs_take(s, t, n, end, "|>"@);
        } else {
            lemma_occurs_take(s, t, n, end, ">"@);
        }
    }
}

proof fn lemma_bare_tag_of(s: Seq<char>, name: Seq<char>, t: Seq<char>)
    requires
        spaceless(name),
        bare_tag_of(s, name) is Some,
    ensures
        sound_match(s, bare_tag_of(s, name)->0),
        bare_tag_of(s, name)->0 <= t.len() && s.take(bare_tag_of(s, name)->0) == t.take(
            bare_tag_of(s, name)->0,
        ) ==> bare_tag_of(t, name) is Some,
{
    let n = bare_tag_of(s, name)->0;
    let start = 1 + slash(s, 1);
    let end = start + name.len();
    reveal_strlit("<");
    reveal_strlit(">");
    assert forall|i: int| 0 <= i < n implies #[trigger] s.take(n)[i] != ' ' by {
        if i < 1 {
            lemma_occurs_char(s, 0, "<"@, i);
        } else if start <= i < end {
            lemma_occurs_char(s, start, name, i);
        } else if end <= i {
            lemma_occurs_char(s, end, ">"@, i);
        }
    }
    if n <= t.len() && s.take(n) == t.take(n) {
        assert(s.take(n)[1] == t.take(n)[1]);
        lemma_occurs_take(s, t, n, 0, "<"@);
        lemma_occurs_take(s, t, n, start, name);
        lemma_occurs_take(s, t, n, end, ">"@);
    }
}

proof fn lemma_doubled_angle_of(s: Seq<char>, name: Seq<char>, t: Seq<char>)
    requires
        spaceless(name),
        doubled_angle_of(s, name) is Some,
    ensures
        sound_match(s, doubled_angle_of(s, name)->0),
        doubled_angle_of(s, name)->0 <= t.len() && s.take(doubled_angle_of(s, name)->0) == t.take(
            doubled_angle_of(s, name)->0,
        ) ==> doubled_angle_of(t, name) is Some,
{
    let n = doubled_angle_of(s, name)->0;
    let start = 1 + slash(s, 1);
    let end = start + name.len();
    reveal_strlit("<");
    reveal_strlit(">>");
    assert forall|i: int| 0 <= i < n implies #[trigger] s.take(n)[i] != ' ' by {
        if i < 1 {
            lemma_occurs_char(s, 0, "<"@, i);
        } else if start <= i < end {
            lemma_occurs_char(s, start, name, i);
        } else if end <= i {
            lemma_occurs_char(s, end, ">>"@, i);
        }
    }
    if n <= t.len() && s.take(n) == t.take(n) {
        assert(s.take(n)[1] == t.take(n)[1]);
        lemma_occurs_take(s, t, n, 0, "<"@);
        lemma_occurs_take(s, t, n, start, name);
        lemma_occurs_take(s, t, n, end, ">>"@);
    }
}

proof fn lemma_literal_of(s: Seq<char>, open: char, lit: Seq<char>, t: Seq<char>)
    requires
        opener_literal(lit),
        literal_of(s, open, lit) is Some,
    ensures
        sound_match(s, literal_of(s, open, lit)->0),
        literal_of(s, open, lit)->0 <= t.len() && s.take(literal_of(s, open, lit)->0) == t.take(
            literal_of(s, open, lit)->0,
        ) ==> literal_of(t, open, lit) is Some,
{
    let n = literal_of(s, open, lit)->0;
    assert(s.take(n) == lit);
    if n <= t.len() && s.take(n) == t.take(n) {
        lemma_occurs_take(s, t, n, 0, lit);
    }
}

proof fn lemma_assigned_of(s: Seq<char>, name: Seq<char>, t: Seq<char>)
    requires
        spaceless(name),
        assigned_of(s, name) is Some,
    ensures
        sound_match(s, assigned_of(s, name)->0),
        assigned_of(s, name)->0 <= t.len() && s.take(assigned_of(s, name)->0) == t.take(
            assigned_of(s, name)->0,
        ) ==> assigned_of(t, name) is Some,
{
    let n = assigned_of(s, name)->0;
    let end = 1 + name.len() as int;
    reveal_strlit("<");
    reveal_strlit("=");
    assert forall|i: int| 0 <= i < n implies #[trigger] s.take(n)[i] != ' ' by {
        if i < 1 {
            lemma_occurs_char(s, 0, "<"@, i);
        } else if i < end {
            lemma_occurs_char(s, 1, name, i);
        } else {
            lemma_occurs_char(s, end, "="@, i);
        }
    }
    if n <= t.len() && s.take(n) == t.take(n) {
        lemma_occurs_take(s, t, n, 0, "<"@);
        lemma_occurs_take(s, t, n, 1, name);
        lemma_occurs_take(s, t, n, end, "="@);
    }
}

proof fn lemma_whitespace_run(s: Seq<char>)
    ensures
        whitespace_run(s) <= s.len(),
        forall|i: int| 0 <= i < whitespace_run(s) ==> whitespace(#[trigger] s[i]),
        whitespace_run(s) < s.len() ==> !whitespace(s[whitespace_run(s) as int]),
    decreases s.len(),
{
    if s.len() > 0 && whitespace(s[0]) {
        let rest = s.skip(1);
        lemma_whitespace_run(rest);
        assert forall|i: int| 0 <= i < whitespace_run(s) implies whitespace(#[trigger] s[i]) by {
            if i > 0 {
                assert(rest[i - 1] == s[i]);
            }
        }
        if whitespace_run(s) < s.len() {
            assert(rest[whitespace_run(rest) as int] == s[whitespace_run(s) as int]);
        }
    }
}

proof fn lemma_whitespace_run_is(s: Seq<char>, n: int)
    requires
        0 <= n < s.len(),
        forall|i: int| 0 <= i < n ==> whitespace(#[trigger] s[i]),
        !whitespace(s[n]),
    ensures
        whitespace_run(s) == n,
    decreases n,
{
    if n > 0 {
        let rest = s.skip(1);
        assert(whitespace(s[0]));
        assert forall|i: int| 0 <= i < n - 1 implies whitespace(#[trigger] rest[i]) by {
            assert(rest[i] == s[i + 1]);
        }
        lemma_whitespace_run_is(rest, n - 1);
    }
}

proof fn lemma_named_of(s: Seq<char>, name: Seq<char>, t: Seq<char>)
    requires
        spaceless(name),
        name.len() > 0,
        !opener_char(name.last()),
        named_of(s, name) is Some,
    ensures
        sound_match(s, named_of(s, name)->0),
        named_of(s, name)->0 <= t.len() && s.take(named_of(s, name)->0) == t.take(
            named_of(s, name)->0,
        ) ==> named_of(t, name) is Some,
{
    let n = named_of(s, name)->0;
    let start = 1 + name.len() as int;
    let rest = s.skip(start);
    let run = whitespace_run(rest) as int;
    reveal_strlit("<");
    reveal_strlit("name=\"");
    lemma_whitespace_run(rest);
    assert forall|k: int| 0 <= k < n - 1 && s.take(n)[k + 1] == ' ' implies !opener_char(
        #[trigger] s.take(n)[k],
    ) by {
        if k + 1 < start {
            lemma_occurs_char(s, 1, name, k + 1);
        } else if k + 1 == start {
            lemma_occurs_char(s, 1, name, k);
        } else if k + 1 < start + run {
            assert(whitespace(rest[k - start]));
            assert(rest[k - start] == s[k]);
        } else {
            lemma_occurs_char(s, start + run, "name=\""@, k + 1);
        }
    }
    if n <= t.len() && s.take(n) == t.take(n) {
        lemma_occurs_take(s, t, n, 0, "<"@);
        lemma_occurs_take(s, t, n, 1, name);
        lemma_occurs_take(s, t, n, start + run, "name=\""@);
        let other = t.skip(start);
        assert forall|i: int| 0 <= i < run implies whitespace(#[trigger] other[i]) by {
            assert(whitespace(rest[i]));
            assert(s.take(n)[start + i] == t.take(n)[start + i]);
        }
        lemma_occurs_char(t, start + run, "name=\""@, start + run);
        lemma_whitespace_run_is(other, run);
    }
}

/// A delimiter other than a fullwidth marker is told by its characters alone:
/// a text that starts with them opens the delimiter too. And it holds no space
/// behind an opener.
pub proof fn lemma_delimiter_prefix(s: Seq<char>, prev_lt: bool, t: Seq<char>, t_prev_lt: bool)
    requires
        delimiter(s, prev_lt) is Some,
        fullwidth(s) is None,
        prev_lt ==> t_prev_lt,
    ensures
        sound_match(s, delimiter(s, prev_lt)->0),
        delimiter(s, prev_lt)->0 <= t.len() && s.take(delimiter(s, prev_lt)->0) == t.take(
            delimiter(s, prev_lt)->0,
        ) ==> delimiter(t, t_prev_lt) is Some,
{
    let n = delimiter(s, prev_lt)->0;
    lemma_inventory_spelling();
    if s[0] == '[' {
        let at = lemma_first_in(inventory(), Shape::Literal, literal_fn(s, '['), 0);
        let lit = inventory()[at.0].names[at.1];
        assert(well_spelled(inventory()[at.0]));
        lemma_literal_of(s, '[', lit, t);
        if n <= t.len() && s.take(n) == t.take(n) {
            assert(s.take(n)[0] == t.take(n)[0]);
            assert(literal_fn(t, '[')(lit) is Some);
            lemma_first_in_finds(inventory(), Shape::Literal, literal_fn(t, '['), 0, at);
        }
    } else if pipe(s) is Some {
        let at = lemma_first_in(inventory(), Shape::Pipe, pipe_fn(s), 0);
        let name = inventory()[at.0].names[at.1];
        assert(well_spelled(inventory()[at.0]));
        lemma_pipe_of(s, name, t);
        if n <= t.len() && s.take(n) == t.take(n) {
            assert(s.take(n)[0] == t.take(n)[0]);
            assert(pipe_fn(t)(name) is Some);
            lemma_first_in_finds(inventory(), Shape::Pipe, pipe_fn(t), 0, at);
        }
    } else if bare_tag(s) is Some {
        let at = lemma_first_in(inventory(), Shape::BareTag, bare_tag_fn(s), 0);
        let name = inventory()[at.0].names[at.1];
        assert(well_spelled(inventory()[at.0]));
        lemma_bare_tag_of(s, name, t);
        if n <= t.len() && s.take(n) == t.take(n) {
            assert(s.take(n)[0] == t.take(n)[0]);
            assert(bare_tag_fn(t)(name) is Some);
            lemma_first_in_finds(inventory(), Shape::BareTag, bare_tag_fn(t), 0, at);
        }
    } else if literal(s, '<') is Some {
        let at = lemma_first_in(inventory(), Shape::Literal, literal_fn(s, '<'), 0);
        let lit = inventory()[at.0].names[at.1];
        assert(well_spelled(inventory()[at.0]));
        lemma_literal_of(s, '<', lit, t);
        if n <= t.len() && s.take(n) == t.take(n) {
            assert(s.take(n)[0] == t.take(n)[0]);
            assert(literal_fn(t, '<')(lit) is Some);
            lemma_first_in_finds(inventory(), Shape::Literal, literal_fn(t, '<'), 0, at);
        }
    } else if attribute(s) is Some {
        lemma_attribute_prefix(s, t);
        if n <= t.len() && s.take(n) == t.take(n) {
            assert(s.take(n)[0] == t.take(n)[0]);
        }
    } else {
        let at = lemma_first_in(inventory(), Shape::DoubledAngle, doubled_angle_fn(s), 0);
        let name = inventory()[at.0].names[at.1];
        assert(well_spelled(inventory()[at.0]));
        lemma_doubled_angle_of(s, name, t);
        if n <= t.len() && s.take(n) == t.take(n) {
            assert(s.take(n)[0] == t.take(n)[0]);
            assert(doubled_angle_fn(t)(name) is Some);
            lemma_first_in_finds(inventory(), Shape::DoubledAngle, doubled_angle_fn(t), 0, at);
        }
    }
}

proof fn lemma_attribute_prefix(s: Seq<char>, t: Seq<char>)
    requires
        attribute(s) is Some,
    ensures
        sound_match(s, attribute(s)->0),
        attribute(s)->0 <= t.len() && s.take(attribute(s)->0) == t.take(attribute(s)->0)
            ==> attribute(t) is Some,
{
    let n = attribute(s)->0;
    let pair = seq!["function"@, "parameter"@];
    let all = seq!["function"@, "parameter"@, "param"@];
    reveal_strlit("function");
    reveal_strlit("parameter");
    reveal_strlit("param");
    if first_name(pair, assigned_fn(s), 0) is Some {
        let at = lemma_first_name(pair, assigned_fn(s), 0);
        lemma_assigned_of(s, pair[at], t);
        if n <= t.len() && s.take(n) == t.take(n) {
            assert(assigned_fn(t)(pair[at]) is Some);
            lemma_first_name_finds(pair, assigned_fn(t), 0, at);
        }
    } else {
        let at = lemma_first_name(all, named_fn(s), 0);
        lemma_named_of(s, all[at], t);
        if n <= t.len() && s.take(n) == t.take(n) {
            assert(named_fn(t)(all[at]) is Some);
            lemma_first_name_finds(all, named_fn(t), 0, at);
        }
    }
}

/// The run of marker name characters in `s` is `n` where `n` of them stand
/// before one that is none.
pub proof fn lemma_fullwidth_run_is(s: Seq<char>, n: int)
    requires
        0 <= n < s.len(),
        forall|i: int| 0 <= i < n ==> fullwidth_name_char(#[trigger] s[i]),
        !fullwidth_name_char(s[n]),
    ensures
        fullwidth_run(s) == n,
{
    lemma_fullwidth_run(s, n);
    assert(s.skip(n)[0] == s[n]);
}

/// Every character of the run is a marker name character.
pub proof fn lemma_fullwidth_run_chars(s: Seq<char>)
    ensures
        fullwidth_run(s) <= s.len(),
        forall|i: int| 0 <= i < fullwidth_run(s) ==> fullwidth_name_char(#[trigger] s[i]),
    decreases s.len(),
{
    if s.len() > 0 && fullwidth_name_char(s[0]) {
        let rest = s.skip(1);
        lemma_fullwidth_run_chars(rest);
        assert forall|i: int| 0 <= i < fullwidth_run(s) implies fullwidth_name_char(
            #[trigger] s[i],
        ) by {
            if i > 0 {
                assert(rest[i - 1] == s[i]);
            }
        }
    }
}

/// The first name stands in one place.
proof fn lemma_one_name(s: Seq<char>, lead: int, end: int, other_lead: int, other_end: int)
    requires
        framed_name(s, lead, end),
        framed_name(s, other_lead, other_end),
    ensures
        lead == other_lead,
        end == other_end,
{
    assert(name_char(s[lead]));
    assert(name_char(s[other_lead]));
    if end < other_end {
        assert(name_char(s[end]));
    } else if other_end < end {
        assert(name_char(s[other_end]));
    }
}

/// At most one length spans.
proof fn lemma_one_span(s: Seq<char>, n: int, m: int)
    requires
        spans(s, n),
        spans(s, m),
    ensures
        n == m,
{
    let (l1, e1) = choose|lead: int, end: int| #[trigger]
        framed_name(s, lead, end) && n == end + tail_len(s, lead, end);
    let (l2, e2) = choose|lead: int, end: int| #[trigger]
        framed_name(s, lead, end) && m == end + tail_len(s, lead, end);
    lemma_one_name(s, l1, e1, l2, e2);
}

/// Where `n` characters are spanned, they are in every text that starts with
/// them.
proof fn lemma_span_take(s: Seq<char>, t: Seq<char>, n: int)
    requires
        spans(s, n),
        n <= t.len(),
        s.take(n) == t.take(n),
    ensures
        spans(t, n),
{
    let (lead, end) = choose|lead: int, end: int| #[trigger]
        framed_name(s, lead, end) && n == end + tail_len(s, lead, end);
    assert forall|i: int| 0 <= i < n implies #[trigger] s[i] == t[i] by {
        assert(s.take(n)[i] == s[i]);
        assert(t.take(n)[i] == t[i]);
    }
    assert(s[1] == t[1]);
    assert(s[lead] == t[lead]);
    assert(s[end] == t[end]);
    assert forall|i: int| 0 <= i < lead implies !name_char(#[trigger] t[i]) by {
        assert(!name_char(s[i]));
    }
    assert forall|i: int| lead <= i < end implies name_char(#[trigger] t[i]) by {
        assert(name_char(s[i]));
    }
    assert(framed_name(t, lead, end));
    if whitespace(s[end]) {
        let rest = s.skip(end);
        let other = t.skip(end);
        let run = whitespace_run(rest) as int;
        lemma_whitespace_run(rest);
        assert forall|i: int| 0 <= i < run implies whitespace(#[trigger] other[i]) by {
            assert(whitespace(rest[i]));
            assert(rest[i] == s[end + i]);
        }
        assert(rest[run] == s[end + run]);
        assert(other[run] == t[end + run]);
        lemma_whitespace_run_is(other, run);
    }
}

proof fn lemma_pipe_spans(s: Seq<char>, name: Seq<char>)
    requires
        plain_name(name),
        pipe_of(s, name) is Some,
    ensures
        spans(s, pipe_of(s, name)->0),
{
    let start = 2 + slash(s, 2);
    let end = start + name.len();
    reveal_strlit("<|");
    reveal_strlit("|>");
    reveal_strlit(">");
    lemma_occurs_char(s, 0, "<|"@, 0);
    lemma_occurs_char(s, 0, "<|"@, 1);
    lemma_name_at(s, start, name);
    if occurs(s, end, "|>"@) {
        lemma_occurs_char(s, end, "|>"@, end);
    } else {
        lemma_occurs_char(s, end, ">"@, end);
    }
    assert(framed_name(s, start, end));
}

/// The characters of a name that stands in `s`.
proof fn lemma_name_at(s: Seq<char>, at: int, name: Seq<char>)
    requires
        occurs(s, at, name),
        forall|k: int| 0 <= k < name.len() ==> name_char(#[trigger] name[k]),
    ensures
        forall|i: int| at <= i < at + name.len() ==> name_char(#[trigger] s[i]),
        name.len() > 0 ==> s[at] == name[0],
{
    assert forall|i: int| at <= i < at + name.len() implies name_char(#[trigger] s[i]) by {
        lemma_occurs_char(s, at, name, i);
        assert(name_char(name[i - at]));
    }
    if name.len() > 0 {
        lemma_occurs_char(s, at, name, at);
    }
}

proof fn lemma_bare_tag_spans(s: Seq<char>, name: Seq<char>)
    requires
        plain_name(name),
        bare_tag_of(s, name) is Some,
    ensures
        spans(s, bare_tag_of(s, name)->0),
{
    let start = 1 + slash(s, 1);
    let end = start + name.len();
    reveal_strlit("<");
    reveal_strlit(">");
    lemma_occurs_char(s, 0, "<"@, 0);
    lemma_name_at(s, start, name);
    lemma_occurs_char(s, end, ">"@, end);
    assert(framed_name(s, start, end));
    assert(name_char(s[start]));
}

proof fn lemma_doubled_angle_spans(s: Seq<char>, name: Seq<char>)
    requires
        system_name(name),
        doubled_angle_of(s, name) is Some,
    ensures
        spans(s, doubled_angle_of(s, name)->0),
{
    let start = 1 + slash(s, 1);
    let end = start + name.len();
    reveal_strlit("<");
    reveal_strlit(">>");
    lemma_occurs_char(s, 0, "<"@, 0);
    lemma_name_at(s, start, name);
    lemma_occurs_char(s, end, ">>"@, end);
    assert(framed_name(s, start, end));
    assert(name_char(s[start]));
}

proof fn lemma_literal_spans(s: Seq<char>, open: char, lit: Seq<char>)
    requires
        opener_literal(lit),
        literal_of(s, open, lit) is Some,
    ensures
        spans(s, literal_of(s, open, lit)->0),
{
    let n = lit.len() as int;
    assert(s.take(n) =~= lit);
    assert(lit.take(n) =~= lit);
    lemma_span_take(lit, s, n);
}

proof fn lemma_attribute_spans(s: Seq<char>)
    requires
        attribute(s) is Some,
    ensures
        spans(s, attribute(s)->0),
{
    let pair = seq!["function"@, "parameter"@];
    let all = seq!["function"@, "parameter"@, "param"@];
    reveal_strlit("function");
    reveal_strlit("parameter");
    reveal_strlit("param");
    reveal_strlit("<");
    reveal_strlit("=");
    reveal_strlit("name=\"");
    if first_name(pair, assigned_fn(s), 0) is Some {
        let at = lemma_first_name(pair, assigned_fn(s), 0);
        let name = pair[at];
        let end = 1 + name.len() as int;
        assert(plain_name(name));
        lemma_occurs_char(s, 0, "<"@, 0);
        lemma_name_at(s, 1, name);
        lemma_occurs_char(s, end, "="@, end);
        assert(name_char(s[1]));
        assert(framed_name(s, 1, end));
    } else {
        let at = lemma_first_name(all, named_fn(s), 0);
        let name = all[at];
        let end = 1 + name.len() as int;
        let rest = s.skip(end);
        assert(plain_name(name));
        lemma_occurs_char(s, 0, "<"@, 0);
        lemma_name_at(s, 1, name);
        assert(name_char(s[1]));
        lemma_whitespace_run(rest);
        assert(rest[0] == s[end]);
        assert(whitespace(rest[0]));
        assert(framed_name(s, 1, end));
    }
}

/// Every delimiter but a fullwidth marker spans its length.
#[verifier::spinoff_prover]
proof fn lemma_delimiter_spans(s: Seq<char>, prev_lt: bool)
    requires
        delimiter(s, prev_lt) is Some,
    ensures
        spans(s, delimiter(s, prev_lt)->0) || s[0] == '<' && delimiter(s, prev_lt) == fullwidth(s),
{
    lemma_inventory_spelling();
    if s[0] == '[' {
        let at = lemma_first_in(inventory(), Shape::Literal, literal_fn(s, '['), 0);
        assert(well_spelled(inventory()[at.0]));
        lemma_literal_spans(s, '[', inventory()[at.0].names[at.1]);
    } else if pipe(s) is Some {
        let at = lemma_first_in(inventory(), Shape::Pipe, pipe_fn(s), 0);
        assert(well_spelled(inventory()[at.0]));
        lemma_pipe_spans(s, inventory()[at.0].names[at.1]);
    } else if bare_tag(s) is Some {
        let at = lemma_first_in(inventory(), Shape::BareTag, bare_tag_fn(s), 0);
        assert(well_spelled(inventory()[at.0]));
        lemma_bare_tag_spans(s, inventory()[at.0].names[at.1]);
    } else if literal(s, '<') is Some {
        let at = lemma_first_in(inventory(), Shape::Literal, literal_fn(s, '<'), 0);
        assert(well_spelled(inventory()[at.0]));
        lemma_literal_spans(s, '<', inventory()[at.0].names[at.1]);
    } else if attribute(s) is Some {
        lemma_attribute_spans(s);
    } else if fullwidth(s) is Some {
    } else {
        let at = lemma_first_in(inventory(), Shape::DoubledAngle, doubled_angle_fn(s), 0);
        assert(well_spelled(inventory()[at.0]));
        lemma_doubled_angle_spans(s, inventory()[at.0].names[at.1]);
    }
}

/// A fullwidth marker is told by its characters alone.
proof fn lemma_fullwidth_prefix(s: Seq<char>, t: Seq<char>)
    requires
        fullwidth(s) is Some,
        fullwidth(s)->0 <= t.len(),
        s.take(fullwidth(s)->0) == t.take(fullwidth(s)->0),
    ensures
        fullwidth(t) == fullwidth(s),
{
    let n = fullwidth(s)->0;
    let run = n - 5;
    assert forall|i: int| 0 <= i < n implies #[trigger] s[i] == t[i] by {
        assert(s.take(n)[i] == s[i]);
        assert(t.take(n)[i] == t[i]);
    }
    lemma_fullwidth_run_chars(s.skip(3));
    let other = t.skip(3);
    assert forall|i: int| 0 <= i < run implies fullwidth_name_char(#[trigger] other[i]) by {
        assert(fullwidth_name_char(s.skip(3)[i]));
        assert(s[3 + i] == t[3 + i]);
    }
    assert(other[run] == s[3 + run]);
    lemma_fullwidth_run_is(other, run);
    assert(s[0] == t[0] && s[1] == t[1] && s[2] == t[2]);
    assert(s[4 + run] == t[4 + run]);
}

/// A match depends on the characters that it takes alone: every text that
/// starts with them opens a delimiter of the same length, whatever follows.
/// A match takes two characters or more, and starts with `<` or `[`.
pub proof fn law_a_match_depends_on_itself(s: Seq<char>, t: Seq<char>, prev_lt: bool)
    requires
        delimiter(s, prev_lt) is Some,
        delimiter(s, prev_lt)->0 <= t.len(),
        s.take(delimiter(s, prev_lt)->0) == t.take(delimiter(s, prev_lt)->0),
    ensures
        1 < delimiter(s, prev_lt)->0 <= s.len(),
        s[0] == '<' || s[0] == '[',
        delimiter(t, prev_lt) == delimiter(s, prev_lt),
{
    let n = delimiter(s, prev_lt)->0;
    lemma_delimiter_spans(s, prev_lt);
    lemma_delimiter_fits(s, prev_lt);
    assert forall|i: int| 0 <= i < n implies #[trigger] s[i] == t[i] by {
        assert(s.take(n)[i] == s[i]);
        assert(t.take(n)[i] == t[i]);
    }
    assert(s[0] == t[0] && s[1] == t[1]);
    if spans(s, n) {
        lemma_delimiter_prefix(s, prev_lt, t, prev_lt);
        lemma_span_take(s, t, n);
        lemma_delimiter_spans(t, prev_lt);
        lemma_one_span(t, n, delimiter(t, prev_lt)->0);
    } else {
        lemma_fullwidth_prefix(s, t);
        lemma_delimiter_spans(t, prev_lt);
    }
}

/// The inventory lists `name` under `shape`.
pub open spec fn lists(shape: Shape, name: Seq<char>) -> bool {
    exists|g: int, i: int|
        0 <= g < inventory().len() && inventory()[g].shape == shape && 0 <= i
            < inventory()[g].names.len() && #[trigger] inventory()[g].names[i] == name
}

/// A listed name is well spelled, and found where it gives a length.
proof fn lemma_listed(shape: Shape, name: Seq<char>, f: spec_fn(Seq<char>) -> Option<int>)
    requires
        lists(shape, name),
    ensures
        f(name) is Some ==> first_in(inventory(), shape, f, 0) is Some,
        match shape {
            Shape::Literal => opener_literal(name),
            Shape::DoubledAngle => system_name(name),
            _ => plain_name(name),
        },
{
    lemma_inventory_spelling();
    let (g, i) = choose|g: int, i: int|
        0 <= g < inventory().len() && inventory()[g].shape == shape && 0 <= i
            < inventory()[g].names.len() && #[trigger] inventory()[g].names[i] == name;
    assert(well_spelled(inventory()[g]));
    if f(name) is Some {
        lemma_first_in_finds(inventory(), shape, f, 0, (g, i));
    }
}

/// Three parts that stand one behind the other make up the start of a text.
proof fn lemma_three_parts(s: Seq<char>, head: Seq<char>, name: Seq<char>, tail: Seq<char>)
    requires
        occurs(s, 0, head),
        occurs(s, head.len() as int, name),
        occurs(s, (head.len() + name.len()) as int, tail),
    ensures
        s.take((head.len() + name.len() + tail.len()) as int) == head + name + tail,
{
    let n = (head.len() + name.len() + tail.len()) as int;
    assert forall|i: int| 0 <= i < n implies s[i] == (head + name + tail)[i] by {
        if i < head.len() {
            lemma_occurs_char(s, 0, head, i);
        } else if i < head.len() + name.len() {
            lemma_occurs_char(s, head.len() as int, name, i);
        } else {
            lemma_occurs_char(s, (head.len() + name.len()) as int, tail, i);
        }
    }
    assert(s.take(n) =~= head + name + tail);
}

/// A text that is made of parts holds each of them.
proof fn lemma_parts_occur(head: Seq<char>, name: Seq<char>, tail: Seq<char>, rest: Seq<char>)
    ensures
        occurs(head + name + tail + rest, 0, head),
        occurs(head + name + tail + rest, head.len() as int, name),
        occurs(head + name + tail + rest, (head.len() + name.len()) as int, tail),
{
    let s = head + name + tail + rest;
    assert(s.subrange(0, head.len() as int) =~= head);
    assert(s.subrange(head.len() as int, (head.len() + name.len()) as int) =~= name);
    assert(s.subrange(
        (head.len() + name.len()) as int,
        (head.len() + name.len() + tail.len()) as int,
    ) =~= tail);
}

/// A length that spans is the delimiter's, where there is a delimiter.
proof fn lemma_span_is_the_delimiter(s: Seq<char>, prev_lt: bool, n: int)
    requires
        delimiter(s, prev_lt) is Some,
        spans(s, n),
    ensures
        delimiter(s, prev_lt) == Some(n),
{
    lemma_delimiter_spans(s, prev_lt);
    assert(fullwidth(s) is None);
    lemma_one_span(s, n, delimiter(s, prev_lt)->0);
}

/// A listed pipe name is a delimiter behind `<|` or `<|/` and before `|>` or
/// `>`, whatever stands around it, and the delimiter is just that.
#[verifier::rlimit(40)]
pub proof fn law_a_listed_pipe_name_is_a_delimiter(
    head: Seq<char>,
    name: Seq<char>,
    tail: Seq<char>,
    rest: Seq<char>,
    prev_lt: bool,
)
    requires
        lists(Shape::Pipe, name),
        head == seq!['<', '|'] || head == seq!['<', '|', '/'],
        tail == seq!['|', '>'] || tail == seq!['>'],
    ensures
        delimiter(head + name + tail + rest, prev_lt) == Some(
            (head.len() + name.len() + tail.len()) as int,
        ),
{
    let s = head + name + tail + rest;
    let end = (head.len() + name.len()) as int;
    reveal_strlit("<|");
    reveal_strlit("|>");
    reveal_strlit(">");
    lemma_listed(Shape::Pipe, name, pipe_fn(s));
    lemma_parts_occur(head, name, tail, rest);
    assert(s[0] == '<' && s[1] == '|');
    assert(s.subrange(0, 2) =~= "<|"@);
    assert(name_char(name[0]));
    assert(s[head.len() as int] == name[0]);
    assert(slash(s, 2) == head.len() - 2);
    assert(s[end] == tail[0]);
    if tail.len() == 2 {
        assert(tail =~= "|>"@);
    } else {
        assert(tail =~= ">"@);
        assert(!occurs(s, end, "|>"@)) by {
            if occurs(s, end, "|>"@) {
                lemma_occurs_char(s, end, "|>"@, end);
            }
        }
    }
    assert(pipe_of(s, name) == Some(end + tail.len()));
    lemma_pipe_spans(s, name);
    assert(pipe_fn(s)(name) is Some);
    assert(pipe(s) is Some);
    lemma_span_is_the_delimiter(s, prev_lt, end + tail.len());
}

/// A listed tag name is a delimiter behind `<` or `</` and before `>`,
/// whatever stands around it, and the delimiter is just that.
pub proof fn law_a_listed_tag_is_a_delimiter(
    head: Seq<char>,
    name: Seq<char>,
    rest: Seq<char>,
    prev_lt: bool,
)
    requires
        lists(Shape::BareTag, name),
        head == seq!['<'] || head == seq!['<', '/'],
    ensures
        delimiter(head + name + seq!['>'] + rest, prev_lt) == Some(
            (head.len() + name.len() + 1) as int,
        ),
{
    let tail = seq!['>'];
    let s = head + name + tail + rest;
    let end = (head.len() + name.len()) as int;
    reveal_strlit("<");
    reveal_strlit(">");
    lemma_listed(Shape::BareTag, name, bare_tag_fn(s));
    lemma_parts_occur(head, name, tail, rest);
    assert(s[0] == '<');
    assert(s.subrange(0, 1) =~= "<"@);
    assert(name_char(name[0]));
    assert(s[head.len() as int] == name[0]);
    assert(slash(s, 1) == head.len() - 1);
    assert(tail =~= ">"@);
    assert(bare_tag_of(s, name) == Some(end + 1));
    lemma_bare_tag_spans(s, name);
    assert(bare_tag_fn(s)(name) is Some);
    assert(bare_tag(s) is Some);
    lemma_span_is_the_delimiter(s, prev_lt, end + 1);
}

/// A listed literal is a delimiter as it is spelled, whatever stands around
/// it, and the delimiter is just that.
pub proof fn law_a_listed_literal_is_a_delimiter(lit: Seq<char>, rest: Seq<char>, prev_lt: bool)
    requires
        lists(Shape::Literal, lit),
        lit[0] == '<' || lit[0] == '[',
    ensures
        delimiter(lit + rest, prev_lt) == Some(lit.len() as int),
{
    let s = lit + rest;
    let open = lit[0];
    lemma_listed(Shape::Literal, lit, literal_fn(s, open));
    assert(s[0] == open);
    assert(s.subrange(0, lit.len() as int) =~= lit);
    assert(literal_of(s, open, lit) == Some(lit.len() as int));
    lemma_literal_spans(s, open, lit);
    assert(literal_fn(s, open)(lit) is Some);
    assert(literal(s, open) is Some);
    lemma_span_is_the_delimiter(s, prev_lt, lit.len() as int);
}

/// The listed block name is a delimiter between doubled angle brackets, from
/// the second of them on.
pub proof fn law_the_doubled_angle_block_is_a_delimiter(
    head: Seq<char>,
    name: Seq<char>,
    rest: Seq<char>,
)
    requires
        lists(Shape::DoubledAngle, name),
        head == seq!['<'] || head == seq!['<', '/'],
    ensures
        delimiter(head + name + seq!['>', '>'] + rest, true) == Some(
            (head.len() + name.len() + 2) as int,
        ),
{
    let tail = seq!['>', '>'];
    let s = head + name + tail + rest;
    let end = (head.len() + name.len()) as int;
    reveal_strlit("<");
    reveal_strlit(">>");
    lemma_listed(Shape::DoubledAngle, name, doubled_angle_fn(s));
    lemma_parts_occur(head, name, tail, rest);
    assert(s[0] == '<');
    assert(s.subrange(0, 1) =~= "<"@);
    assert(name_char(name[0]));
    assert(s[head.len() as int] == name[0]);
    assert(slash(s, 1) == head.len() - 1);
    assert(tail =~= ">>"@);
    assert(doubled_angle_of(s, name) == Some(end + 2));
    lemma_doubled_angle_spans(s, name);
    assert(doubled_angle_fn(s)(name) is Some);
    assert(doubled_angle(s, true) is Some);
    lemma_span_is_the_delimiter(s, true, end + 2);
}

/// An opening half that carries a value is a delimiter: `function` and
/// `parameter` behind `<` and before `=`.
pub proof fn law_an_assigned_opener_is_a_delimiter(
    name: Seq<char>,
    rest: Seq<char>,
    prev_lt: bool,
)
    requires
        name == "function"@ || name == "parameter"@,
    ensures
        delimiter(seq!['<'] + name + seq!['='] + rest, prev_lt) == Some((name.len() + 2) as int),
{
    let s = seq!['<'] + name + seq!['='] + rest;
    let pair = seq!["function"@, "parameter"@];
    reveal_strlit("function");
    reveal_strlit("parameter");
    reveal_strlit("<");
    reveal_strlit("=");
    lemma_parts_occur(seq!['<'], name, seq!['='], rest);
    assert(seq!['<'] =~= "<"@);
    assert(seq!['='] =~= "="@);
    assert(s[0] == '<');
    let at: int = if name == "function"@ {
        0
    } else {
        1
    };
    assert(pair[at] == name);
    let end = 1 + name.len() as int;
    assert(assigned_of(s, name) == Some(end + 1));
    assert(assigned_fn(s)(pair[at]) is Some);
    lemma_first_name_finds(pair, assigned_fn(s), 0, at);
    assert(attribute(s) is Some);
    assert(plain_name(name));
    lemma_name_at(s, 1, name);
    lemma_occurs_char(s, end, "="@, end);
    assert(name_char(s[1]));
    assert(framed_name(s, 1, end));
    assert(spans(s, end + 1));
    lemma_span_is_the_delimiter(s, prev_lt, end + 1);
}

/// An opening half with a `name` attribute is a delimiter: `function`,
/// `parameter`, and `param` behind `<` and before white space, however much,
/// and `name="`.
#[verifier::rlimit(40)]
pub proof fn law_a_named_opener_is_a_delimiter(
    name: Seq<char>,
    gap: Seq<char>,
    rest: Seq<char>,
    prev_lt: bool,
)
    requires
        name == "function"@ || name == "parameter"@ || name == "param"@,
        gap.len() > 0,
        forall|i: int| 0 <= i < gap.len() ==> whitespace(#[trigger] gap[i]),
    ensures
        delimiter(
            seq!['<'] + name + (gap + seq!['n', 'a', 'm', 'e', '=', '"']) + rest,
            prev_lt,
        ) == Some((name.len() + gap.len() + 7) as int),
{
    let word = seq!['n', 'a', 'm', 'e', '=', '"'];
    let tail = gap + word;
    let s = seq!['<'] + name + tail + rest;
    let all = seq!["function"@, "parameter"@, "param"@];
    reveal_strlit("function");
    reveal_strlit("parameter");
    reveal_strlit("param");
    reveal_strlit("<");
    reveal_strlit("name=\"");
    lemma_parts_occur(seq!['<'], name, tail, rest);
    assert(seq!['<'] =~= "<"@);
    assert(word =~= "name=\""@);
    assert(s[0] == '<');
    let end = 1 + name.len() as int;
    let behind = s.skip(end);
    let run = gap.len() as int;
    assert forall|i: int| 0 <= i < run implies whitespace(#[trigger] behind[i]) by {
        assert(behind[i] == gap[i]);
    }
    assert(behind[run] == 'n');
    lemma_whitespace_run_is(behind, run);
    assert(s.subrange(end + run, end + run + 6) =~= word);
    assert(named_of(s, name) == Some(end + run + 6));
    let at: int = if name == "function"@ {
        0
    } else if name == "parameter"@ {
        1
    } else {
        2
    };
    assert(all[at] == name);
    assert(named_fn(s)(all[at]) is Some);
    lemma_first_name_finds(all, named_fn(s), 0, at);
    assert(attribute(s) is Some);
    assert(plain_name(name));
    lemma_name_at(s, 1, name);
    assert(name_char(s[1]));
    assert(s[end] == gap[0]);
    assert(whitespace(s[end]));
    assert(framed_name(s, 1, end));
    assert(spans(s, end + run + 6));
    lemma_span_is_the_delimiter(s, prev_lt, end + run + 6);
}

/// A fullwidth marker is a delimiter whatever its name: a letter and up to
/// thirty-nine characters more, each a letter, a block, an underscore, a
/// space, or a backslash.
pub proof fn law_a_fullwidth_marker_is_a_delimiter(
    name: Seq<char>,
    rest: Seq<char>,
    prev_lt: bool,
)
    requires
        1 <= name.len() <= 40,
        ascii_letter(name[0]),
        forall|i: int|
            1 <= i < name.len() ==> {
                ||| ascii_letter(#[trigger] name[i])
                ||| name[i] == '\u{2581}'
                ||| name[i] == '_'
                ||| name[i] == ' '
                ||| name[i] == '\\'
            },
    ensures
        delimiter(seq!['<', '\u{ff5c}'] + name + seq!['\u{ff5c}', '>'] + rest, prev_lt) == Some(
            (name.len() + 4) as int,
        ),
{
    let s = seq!['<', '\u{ff5c}'] + name + seq!['\u{ff5c}', '>'] + rest;
    let behind = s.skip(3);
    let run = name.len() - 1;
    assert forall|i: int| 0 <= i < run implies fullwidth_name_char(#[trigger] behind[i]) by {
        assert(behind[i] == name[i + 1]);
    }
    assert(behind[run] == '\u{ff5c}');
    lemma_fullwidth_run_is(behind, run);
    assert(s[0] == '<' && s[1] == '\u{ff5c}' && s[2] == name[0]);
    assert(s[3 + run] == '\u{ff5c}' && s[4 + run] == '>');
    assert(fullwidth(s) == Some(run + 5));
    assert(delimiter(s, prev_lt) is Some);
    lemma_delimiter_spans(s, prev_lt);
}

/// What is found in the inventory is listed there.
proof fn lemma_found_is_listed(shape: Shape, f: spec_fn(Seq<char>) -> Option<int>) -> (name: Seq<
    char,
>)
    requires
        first_in(inventory(), shape, f, 0) is Some,
    ensures
        lists(shape, name),
        f(name) == first_in(inventory(), shape, f, 0),
{
    let at = lemma_first_in(inventory(), shape, f, 0);
    let name = inventory()[at.0].names[at.1];
    assert(inventory()[at.0].names[at.1] == name);
    name
}

/// The head in front of a name that may be closed by a slash.
proof fn lemma_slashed_head(s: Seq<char>, open: Seq<char>, at: int) -> (head: Seq<char>)
    requires
        occurs(s, 0, open),
        at == open.len(),
        at < s.len(),
    ensures
        occurs(s, 0, head),
        head.len() == at + slash(s, at),
        head == open || head == open.push('/'),
{
    if s[at] == '/' {
        let head = open.push('/');
        assert forall|i: int| 0 <= i < head.len() implies s[i] == head[i] by {
            if i < open.len() {
                lemma_occurs_char(s, 0, open, i);
            }
        }
        assert(s.subrange(0, head.len() as int) =~= head);
        head
    } else {
        open
    }
}

/// A delimiter is spelled in one of the ways of the inventory and in no other:
/// it falls into a head, a name, and a tail that are those of a shape, the
/// name listed under it; or it is an attribute opener; or a fullwidth marker.
#[verifier::spinoff_prover]
#[verifier::rlimit(40)]
pub proof fn law_only_listed_spellings_are_delimiters(s: Seq<char>, prev_lt: bool) -> (parts: (
    Seq<char>,
    Seq<char>,
    Seq<char>,
))
    requires
        delimiter(s, prev_lt) is Some,
    ensures
        delimiter(s, prev_lt) == Some((parts.0.len() + parts.1.len() + parts.2.len()) as int),
        s.take((parts.0.len() + parts.1.len() + parts.2.len()) as int) == parts.0 + parts.1
            + parts.2,
        ({
            let (head, name, tail) = parts;
            ||| lists(Shape::Pipe, name) && (head == seq!['<', '|'] || head == seq!['<', '|', '/'])
                && (tail == seq!['|', '>'] || tail == seq!['>'])
            ||| lists(Shape::BareTag, name) && (head == seq!['<'] || head == seq!['<', '/']) && tail
                == seq!['>']
            ||| lists(Shape::Literal, name) && head.len() == 0 && tail.len() == 0 && name.len() > 0
                && (name[0] == '<' || name[0] == '[')
            ||| prev_lt && lists(Shape::DoubledAngle, name) && (head == seq!['<'] || head == seq![
                '<',
                '/',
            ]) && tail == seq!['>', '>']
            ||| head == seq!['<'] && (name == "function"@ || name == "parameter"@) && tail == seq![
                '=',
            ]
            ||| head == seq!['<'] && (name == "function"@ || name == "parameter"@ || name
                == "param"@) && tail.len() > 6 && tail.skip(tail.len() - 6) == seq![
                'n',
                'a',
                'm',
                'e',
                '=',
                '"',
            ] && forall|i: int| 0 <= i < tail.len() - 6 ==> whitespace(#[trigger] tail[i])
            ||| head == seq!['<', '\u{ff5c}'] && tail == seq!['\u{ff5c}', '>'] && 1 <= name.len()
                <= 40 && ascii_letter(name[0]) && forall|i: int|
                1 <= i < name.len() ==> {
                    ||| ascii_letter(#[trigger] name[i])
                    ||| name[i] == '\u{2581}'
                    ||| name[i] == '_'
                    ||| name[i] == ' '
                    ||| name[i] == '\\'
                }
        }),
{
    reveal_strlit("<|");
    reveal_strlit("|>");
    reveal_strlit("<");
    reveal_strlit(">");
    reveal_strlit(">>");
    reveal_strlit("=");
    reveal_strlit("name=\"");
    assert("<|"@ =~= seq!['<', '|']);
    assert("|>"@ =~= seq!['|', '>']);
    assert("<"@ =~= seq!['<']);
    assert(">"@ =~= seq!['>']);
    assert(">>"@ =~= seq!['>', '>']);
    assert("="@ =~= seq!['=']);
    assert(seq!['<', '|'].push('/') =~= seq!['<', '|', '/']);
    assert(seq!['<'].push('/') =~= seq!['<', '/']);
    let none = Seq::<char>::empty();
    if s[0] == '[' {
        let lit = lemma_found_is_listed(Shape::Literal, literal_fn(s, '['));
        assert(s.take(lit.len() as int) =~= lit);
        assert(none + lit + none =~= lit);
        (none, lit, none)
    } else if pipe(s) is Some {
        let name = lemma_found_is_listed(Shape::Pipe, pipe_fn(s));
        let head = lemma_slashed_head(s, "<|"@, 2);
        let tail = if occurs(s, (head.len() + name.len()) as int, "|>"@) {
            "|>"@
        } else {
            ">"@
        };
        lemma_three_parts(s, head, name, tail);
        (head, name, tail)
    } else if bare_tag(s) is Some {
        let name = lemma_found_is_listed(Shape::BareTag, bare_tag_fn(s));
        let head = lemma_slashed_head(s, "<"@, 1);
        lemma_three_parts(s, head, name, ">"@);
        (head, name, ">"@)
    } else if literal(s, '<') is Some {
        let lit = lemma_found_is_listed(Shape::Literal, literal_fn(s, '<'));
        assert(s.take(lit.len() as int) =~= lit);
        assert(none + lit + none =~= lit);
        (none, lit, none)
    } else if attribute(s) is Some {
        let pair = seq!["function"@, "parameter"@];
        let all = seq!["function"@, "parameter"@, "param"@];
        if first_name(pair, assigned_fn(s), 0) is Some {
            let at = lemma_first_name(pair, assigned_fn(s), 0);
            lemma_three_parts(s, "<"@, pair[at], "="@);
            ("<"@, pair[at], "="@)
        } else {
            let at = lemma_first_name(all, named_fn(s), 0);
            let name = all[at];
            let start = 1 + name.len() as int;
            let behind = s.skip(start);
            let run = whitespace_run(behind) as int;
            lemma_whitespace_run(behind);
            let tail = s.subrange(start, start + run + 6);
            assert(occurs(s, start, tail));
            assert forall|i: int| 0 <= i < tail.len() - 6 implies whitespace(#[trigger] tail[i]) by {
                assert(tail[i] == behind[i]);
            }
            assert(tail.skip(run) =~= s.subrange(start + run, start + run + 6));
            assert("name=\""@ =~= seq!['n', 'a', 'm', 'e', '=', '"']);
            lemma_three_parts(s, "<"@, name, tail);
            ("<"@, name, tail)
        }
    } else if fullwidth(s) is Some {
        let behind = s.skip(3);
        let run = fullwidth_run(behind) as int;
        lemma_fullwidth_run_chars(behind);
        let name = s.subrange(2, 3 + run);
        assert forall|i: int| 1 <= i < name.len() implies fullwidth_name_char(#[trigger] name[i]) by {
            assert(name[i] == behind[i - 1]);
        }
        let head = seq!['<', '\u{ff5c}'];
        let tail = seq!['\u{ff5c}', '>'];
        assert(s.subrange(0, 2) =~= head);
        assert(s.subrange(3 + run, 5 + run) =~= tail);
        lemma_three_parts(s, head, name, tail);
        (head, name, tail)
    } else {
        let name = lemma_found_is_listed(Shape::DoubledAngle, doubled_angle_fn(s));
        let head = lemma_slashed_head(s, "<"@, 1);
        lemma_three_parts(s, head, name, ">>"@);
        (head, name, ">>"@)
    }
}

/// The names that pipe tokens are spelled with.
#[verifier::rlimit(40)]
#[verifier::spinoff_prover]
pub proof fn law_the_pipe_names(name: Seq<char>)
    ensures
        lists(Shape::Pipe, name) <==> {
            ||| name == "Assistant"@
            ||| name == "CHATBOT_TOKEN"@
            ||| name == "END_OF_TURN_TOKEN"@
            ||| name == "START_OF_TURN_TOKEN"@
            ||| name == "SYSTEM_TOKEN"@
            ||| name == "System"@
            ||| name == "USER_TOKEN"@
            ||| name == "User"@
            ||| name == "assistant"@
            ||| name == "audio"@
            ||| name == "begin_of_text"@
            ||| name == "call"@
            ||| name == "channel"@
            ||| name == "constrain"@
            ||| name == "content_invoke_tool_json"@
            ||| name == "end"@
            ||| name == "end_header_id"@
            ||| name == "end_message"@
            ||| name == "end_of_role"@
            ||| name == "end_of_text"@
            ||| name == "end_of_turn"@
            ||| name == "endoftext"@
            ||| name == "eom"@
            ||| name == "eom_id"@
            ||| name == "eot"@
            ||| name == "eot_id"@
            ||| name == "fim_middle"@
            ||| name == "fim_prefix"@
            ||| name == "fim_suffix"@
            ||| name == "final"@
            ||| name == "header_end"@
            ||| name == "header_start"@
            ||| name == "im_assistant"@
            ||| name == "im_end"@
            ||| name == "im_middle"@
            ||| name == "im_sep"@
            ||| name == "im_start"@
            ||| name == "im_system"@
            ||| name == "im_user"@
            ||| name == "image"@
            ||| name == "image_pad"@
            ||| name == "message"@
            ||| name == "message_model"@
            ||| name == "python_tag"@
            ||| name == "return"@
            ||| name == "start"@
            ||| name == "start_header_id"@
            ||| name == "start_of_role"@
            ||| name == "system"@
            ||| name == "think"@
            ||| name == "tool"@
            ||| name == "tool_call"@
            ||| name == "tool_call_argument_begin"@
            ||| name == "tool_call_begin"@
            ||| name == "tool_call_end"@
            ||| name == "tool_call_section_begin"@
            ||| name == "tool_call_section_end"@
            ||| name == "tool_calls_begin"@
            ||| name == "tool_calls_end"@
            ||| name == "tool_calls_section_begin"@
            ||| name == "tool_calls_section_end"@
            ||| name == "tool_response"@
            ||| name == "turn"@
            ||| name == "user"@
            ||| name == "video"@
            ||| name == "video_pad"@
            ||| name == "vision_end"@
            ||| name == "vision_pad"@
            ||| name == "vision_start"@
        },
{
    assert(inventory()[0].names[0] == "start_header_id"@);
    assert(inventory()[0].names[1] == "end_header_id"@);
    assert(inventory()[0].names[2] == "start_of_role"@);
    assert(inventory()[0].names[3] == "end_of_role"@);
    assert(inventory()[1].names[0] == "tool"@);
    assert(inventory()[1].names[1] == "tool_call"@);
    assert(inventory()[1].names[2] == "tool_response"@);
    assert(inventory()[2].names[0] == "tool_call_begin"@);
    assert(inventory()[2].names[1] == "tool_call_end"@);
    assert(inventory()[2].names[2] == "tool_calls_begin"@);
    assert(inventory()[2].names[3] == "tool_calls_end"@);
    assert(inventory()[2].names[4] == "tool_call_section_begin"@);
    assert(inventory()[2].names[5] == "tool_call_section_end"@);
    assert(inventory()[2].names[6] == "tool_calls_section_begin"@);
    assert(inventory()[2].names[7] == "tool_calls_section_end"@);
    assert(inventory()[2].names[8] == "tool_call_argument_begin"@);
    assert(inventory()[3].names[0] == "end"@);
    assert(inventory()[3].names[1] == "end_of_turn"@);
    assert(inventory()[3].names[2] == "end_of_text"@);
    assert(inventory()[4].names[0] == "begin_of_text"@);
    assert(inventory()[4].names[1] == "endoftext"@);
    assert(inventory()[5].names[0] == "header_start"@);
    assert(inventory()[5].names[1] == "header_end"@);
    assert(inventory()[6].names[0] == "im_start"@);
    assert(inventory()[6].names[1] == "im_end"@);
    assert(inventory()[6].names[2] == "im_sep"@);
    assert(inventory()[6].names[3] == "im_system"@);
    assert(inventory()[6].names[4] == "im_middle"@);
    assert(inventory()[6].names[5] == "im_user"@);
    assert(inventory()[6].names[6] == "im_assistant"@);
    assert(inventory()[7].names[0] == "User"@);
    assert(inventory()[7].names[1] == "Assistant"@);
    assert(inventory()[7].names[2] == "System"@);
    assert(inventory()[8].names[0] == "assistant"@);
    assert(inventory()[8].names[1] == "constrain"@);
    assert(inventory()[8].names[2] == "channel"@);
    assert(inventory()[8].names[3] == "message"@);
    assert(inventory()[8].names[4] == "eot"@);
    assert(inventory()[8].names[5] == "eom"@);
    assert(inventory()[8].names[6] == "eot_id"@);
    assert(inventory()[8].names[7] == "eom_id"@);
    assert(inventory()[8].names[8] == "final"@);
    assert(inventory()[9].names[0] == "message_model"@);
    assert(inventory()[9].names[1] == "content_invoke_tool_json"@);
    assert(inventory()[9].names[2] == "end_message"@);
    assert(inventory()[10].names[0] == "START_OF_TURN_TOKEN"@);
    assert(inventory()[10].names[1] == "END_OF_TURN_TOKEN"@);
    assert(inventory()[10].names[2] == "USER_TOKEN"@);
    assert(inventory()[10].names[3] == "SYSTEM_TOKEN"@);
    assert(inventory()[10].names[4] == "CHATBOT_TOKEN"@);
    assert(inventory()[11].names[0] == "image"@);
    assert(inventory()[11].names[1] == "audio"@);
    assert(inventory()[11].names[2] == "video"@);
    assert(inventory()[11].names[3] == "python_tag"@);
    assert(inventory()[12].names[0] == "fim_prefix"@);
    assert(inventory()[12].names[1] == "fim_suffix"@);
    assert(inventory()[12].names[2] == "fim_middle"@);
    assert(inventory()[13].names[0] == "vision_start"@);
    assert(inventory()[13].names[1] == "vision_end"@);
    assert(inventory()[13].names[2] == "vision_pad"@);
    assert(inventory()[13].names[3] == "image_pad"@);
    assert(inventory()[13].names[4] == "video_pad"@);
    assert(inventory()[14].names[0] == "return"@);
    assert(inventory()[14].names[1] == "system"@);
    assert(inventory()[14].names[2] == "start"@);
    assert(inventory()[14].names[3] == "think"@);
    assert(inventory()[14].names[4] == "turn"@);
    assert(inventory()[14].names[5] == "user"@);
    assert(inventory()[14].names[6] == "call"@);
}

/// The names that bare tags are spelled with.
#[verifier::rlimit(40)]
#[verifier::spinoff_prover]
pub proof fn law_the_tag_names(name: Seq<char>)
    ensures
        lists(Shape::BareTag, name) <==> {
            ||| name == "arg_key"@
            ||| name == "arg_value"@
            ||| name == "audio_soft_token"@
            ||| name == "bos"@
            ||| name == "end_of_turn"@
            ||| name == "eos"@
            ||| name == "function"@
            ||| name == "image_soft_token"@
            ||| name == "param"@
            ||| name == "parameter"@
            ||| name == "s"@
            ||| name == "sop"@
            ||| name == "start_of_image"@
            ||| name == "start_of_turn"@
            ||| name == "think"@
            ||| name == "tool_call"@
            ||| name == "tool_response"@
            ||| name == "tools"@
        },
{
    assert(inventory()[15].names[0] == "start_of_turn"@);
    assert(inventory()[15].names[1] == "end_of_turn"@);
    assert(inventory()[16].names[0] == "tool_call"@);
    assert(inventory()[16].names[1] == "tool_response"@);
    assert(inventory()[16].names[2] == "tools"@);
    assert(inventory()[17].names[0] == "think"@);
    assert(inventory()[18].names[0] == "eos"@);
    assert(inventory()[18].names[1] == "bos"@);
    assert(inventory()[18].names[2] == "s"@);
    assert(inventory()[18].names[3] == "sop"@);
    assert(inventory()[19].names[0] == "start_of_image"@);
    assert(inventory()[19].names[1] == "image_soft_token"@);
    assert(inventory()[19].names[2] == "audio_soft_token"@);
    assert(inventory()[20].names[0] == "arg_key"@);
    assert(inventory()[20].names[1] == "arg_value"@);
    assert(inventory()[20].names[2] == "function"@);
    assert(inventory()[20].names[3] == "parameter"@);
    assert(inventory()[20].names[4] == "param"@);
}

/// The openers that are matched as they are spelled.
#[verifier::rlimit(40)]
#[verifier::spinoff_prover]
pub proof fn law_the_literal_openers(name: Seq<char>)
    ensures
        lists(Shape::Literal, name) <==> {
            ||| name == "<channel|>"@
            ||| name == "<function name=\""@
            ||| name == "<function="@
            ||| name == "<param name=\""@
            ||| name == "<parameter name=\""@
            ||| name == "<parameter="@
            ||| name == "<tool_call|>"@
            ||| name == "<tool_response|>"@
            ||| name == "<tool|>"@
            ||| name == "<turn|>"@
            ||| name == "[/AVAILABLE_TOOLS]"@
            ||| name == "[/INST]"@
            ||| name == "[/MIDDLE]"@
            ||| name == "[/PREFIX]"@
            ||| name == "[/SUFFIX]"@
            ||| name == "[/SYSTEM_PROMPT]"@
            ||| name == "[/TOOL_CALLS]"@
            ||| name == "[/TOOL_RESULTS]"@
            ||| name == "[/gMASK]"@
            ||| name == "[AVAILABLE_TOOLS]"@
            ||| name == "[INST]"@
            ||| name == "[MIDDLE]"@
            ||| name == "[PREFIX]"@
            ||| name == "[SUFFIX]"@
            ||| name == "[SYSTEM_PROMPT]"@
            ||| name == "[TOOL_CALLS]"@
            ||| name == "[TOOL_RESULTS]"@
            ||| name == "[gMASK]"@
        },
{
    assert(inventory()[21].names[0] == "<function="@);
    assert(inventory()[21].names[1] == "<parameter="@);
    assert(inventory()[21].names[2] == "<function name=\""@);
    assert(inventory()[21].names[3] == "<param name=\""@);
    assert(inventory()[21].names[4] == "<parameter name=\""@);
    assert(inventory()[22].names[0] == "<tool|>"@);
    assert(inventory()[22].names[1] == "<tool_call|>"@);
    assert(inventory()[22].names[2] == "<tool_response|>"@);
    assert(inventory()[22].names[3] == "<channel|>"@);
    assert(inventory()[22].names[4] == "<turn|>"@);
    assert(inventory()[23].names[0] == "[INST]"@);
    assert(inventory()[23].names[1] == "[/INST]"@);
    assert(inventory()[24].names[0] == "[SYSTEM_PROMPT]"@);
    assert(inventory()[24].names[1] == "[/SYSTEM_PROMPT]"@);
    assert(inventory()[25].names[0] == "[AVAILABLE_TOOLS]"@);
    assert(inventory()[25].names[1] == "[/AVAILABLE_TOOLS]"@);
    assert(inventory()[25].names[2] == "[TOOL_RESULTS]"@);
    assert(inventory()[25].names[3] == "[/TOOL_RESULTS]"@);
    assert(inventory()[25].names[4] == "[TOOL_CALLS]"@);
    assert(inventory()[25].names[5] == "[/TOOL_CALLS]"@);
    assert(inventory()[26].names[0] == "[PREFIX]"@);
    assert(inventory()[26].names[1] == "[/PREFIX]"@);
    assert(inventory()[26].names[2] == "[MIDDLE]"@);
    assert(inventory()[26].names[3] == "[/MIDDLE]"@);
    assert(inventory()[26].names[4] == "[SUFFIX]"@);
    assert(inventory()[26].names[5] == "[/SUFFIX]"@);
    assert(inventory()[27].names[0] == "[gMASK]"@);
    assert(inventory()[27].names[1] == "[/gMASK]"@);
}

/// The name of the doubled-angle block.
#[verifier::rlimit(40)]
#[verifier::spinoff_prover]
pub proof fn law_the_doubled_angle_name(name: Seq<char>)
    ensures
        lists(Shape::DoubledAngle, name) <==> {
            ||| name == "SYS"@
        },
{
    assert(inventory()[28].names[0] == "SYS"@);
}

} // verus!
