//! Anthropic Messages API wire format, and conversions to and from the
//! provider-neutral types. The request body is written as JSON text with its
//! object keys in ascending order, the order in which `serde_json` writes a
//! `serde_json::Value`.
use vstd::prelude::*;
use crate::json::{
    lemma_join_commas_holds_each, lemma_occurs_between, lemma_occurs_trans, occurs_in, JsonText,
    decimal, join_commas, json_bool, json_quote, json_quoted, lemma_join_commas_push,
    push_decimal,
};
use crate::provider::types::{
    contents_view, opt_view, AgentRequest, AgentRequestView, AgentResponse, AgentResponseView,
    Content, ContentView, Message, MessageView, Role, StopReason, StopReasonView, ToolSpec,
    ToolSpecView, Usage,
};

verus! {

// ---------- Request encoding ----------

/// The wire text of one content block.
pub open spec fn wire_content(c: ContentView) -> Seq<char> {
    match c {
        ContentView::Text { text } => "{\"text\":"@ + json_quoted(text) + ",\"type\":\"text\"}"@,
        ContentView::ToolUse { id, name, input } => "{\"id\":"@ + json_quoted(id) + ",\"input\":"@
            + input + ",\"name\":"@ + json_quoted(name) + ",\"type\":\"tool_use\"}"@,
        ContentView::ToolResult { tool_use_id, content, is_error } => "{\"content\":"@
            + json_quoted(content) + ",\"is_error\":"@ + json_bool(is_error)
            + ",\"tool_use_id\":"@ + json_quoted(tool_use_id) + ",\"type\":\"tool_result\"}"@,
    }
}

/// The wire name of a role, as a JSON string.
pub open spec fn wire_role(r: Role) -> Seq<char> {
    match r {
        Role::User => "\"user\""@,
        Role::Assistant => "\"assistant\""@,
    }
}

/// The wire text of one message.
pub open spec fn wire_message(m: MessageView) -> Seq<char> {
    "{\"content\":["@ + join_commas(Seq::new(m.content.len(), |i: int| wire_content(m.content[i])))
        + "],\"role\":"@ + wire_role(m.role) + "}"@
}

/// The wire text of one tool declaration.
pub open spec fn wire_tool(t: ToolSpecView) -> Seq<char> {
    "{\"description\":"@ + json_quoted(t.description) + ",\"input_schema\":"@ + t.input_schema
        + ",\"name\":"@ + json_quoted(t.name) + "}"@
}

/// The optional `system` member of a request body, with its leading comma.
pub open spec fn wire_system(system: Option<Seq<char>>) -> Seq<char> {
    match system {
        Some(s) => ",\"system\":"@ + json_quoted(s),
        None => Seq::empty(),
    }
}

/// The optional `temperature` member of a request body, with its leading comma.
pub open spec fn wire_temperature(temperature: Option<Seq<char>>) -> Seq<char> {
    match temperature {
        Some(t) => ",\"temperature\":"@ + t,
        None => Seq::empty(),
    }
}

/// The `tools` member of a request body, with its leading comma; absent when
/// no tool is declared.
pub open spec fn wire_tools(tools: Seq<ToolSpecView>) -> Seq<char> {
    if tools.len() == 0 {
        Seq::empty()
    } else {
        ",\"tools\":["@ + join_commas(Seq::new(tools.len(), |i: int| wire_tool(tools[i]))) + "]"@
    }
}

/// The JSON body of a Messages API request for `model`.
pub open spec fn wire_request(model: Seq<char>, request: AgentRequestView, stream: bool) -> Seq<
    char,
> {
    "{\"max_tokens\":"@ + decimal(request.max_tokens as nat) + ",\"messages\":["@ + join_commas(
        Seq::new(request.messages.len(), |i: int| wire_message(request.messages[i])),
    ) + "],\"model\":"@ + json_quoted(model) + ",\"stream\":"@ + json_bool(stream) + wire_system(
        request.system,
    ) + wire_temperature(request.temperature) + wire_tools(request.tools) + "}"@
}

fn push_bool(out: &mut String, b: bool)
    ensures
        final(out)@ == old(out)@ + json_bool(b),
{
    if b {
        out.append("true");
    } else {
        out.append("false");
    }
}

fn push_content(out: &mut String, c: &Content)
    ensures
        final(out)@ == old(out)@ + wire_content(c@),
{
    let ghost start = out@;
    match c {
        Content::Text { text } => {
            out.append("{\"text\":");
            out.append(json_quote(text.as_str()).as_str());
            out.append(",\"type\":\"text\"}");
        },
        Content::ToolUse { id, name, input } => {
            out.append("{\"id\":");
            out.append(json_quote(id.as_str()).as_str());
            out.append(",\"input\":");
            out.append(input.as_str());
            out.append(",\"name\":");
            out.append(json_quote(name.as_str()).as_str());
            out.append(",\"type\":\"tool_use\"}");
        },
        Content::ToolResult { tool_use_id, content, is_error } => {
            out.append("{\"content\":");
            out.append(json_quote(content.as_str()).as_str());
            out.append(",\"is_error\":");
            push_bool(out, *is_error);
            out.append(",\"tool_use_id\":");
            out.append(json_quote(tool_use_id.as_str()).as_str());
            out.append(",\"type\":\"tool_result\"}");
        },
    }
    assert(out@ =~= start + wire_content(c@));
}

fn push_message(out: &mut String, m: &Message)
    ensures
        final(out)@ == old(out)@ + wire_message(m@),
{
    let ghost start = out@;
    let ghost items = Seq::new(m@.content.len(), |i: int| wire_content(m@.content[i]));
    out.append("{\"content\":[");
    let ghost head = out@;
    let mut i: usize = 0;
    while i < m.content.len()
        invariant
            i <= m.content@.len(),
            items.len() == m.content@.len(),
            items == Seq::new(m@.content.len(), |i: int| wire_content(m@.content[i])),
            m@.content == contents_view(m.content@),
            out@ == head + join_commas(items.take(i as int)),
        decreases m.content@.len() - i,
    {
        proof {
            lemma_join_commas_push(items, i as int);
        }
        if i > 0 {
            out.append(",");
        }
        push_content(out, &m.content[i]);
        assert(out@ =~= head + join_commas(items.take(i + 1)));
        i = i + 1;
    }
    assert(items.take(i as int) =~= items);
    out.append("],\"role\":");
    match m.role {
        Role::User => out.append("\"user\""),
        Role::Assistant => out.append("\"assistant\""),
    }
    out.append("}");
    assert(out@ =~= start + wire_message(m@));
}

fn push_tool(out: &mut String, t: &ToolSpec)
    ensures
        final(out)@ == old(out)@ + wire_tool(t@),
{
    let ghost start = out@;
    out.append("{\"description\":");
    out.append(json_quote(t.description.as_str()).as_str());
    out.append(",\"input_schema\":");
    out.append(t.input_schema.as_str());
    out.append(",\"name\":");
    out.append(json_quote(t.name.as_str()).as_str());
    out.append("}");
    assert(out@ =~= start + wire_tool(t@));
}

/// Writes the JSON body of a Messages API request: the model, the token limit,
/// the whole conversation and the streaming flag, plus the system prompt, the
/// temperature and the tool declarations where the request has them.
pub fn to_wire_request(model: &str, request: &AgentRequest, stream: bool) -> (res: String)
    ensures
        res@ == wire_request(model@, request@, stream),
{
    let mut out = String::new();
    out.append("{\"max_tokens\":");
    push_decimal(&mut out, request.max_tokens);
    out.append(",\"messages\":[");
    let ghost head = out@;
    let ghost items = Seq::new(
        request@.messages.len(),
        |i: int| wire_message(request@.messages[i]),
    );
    let mut i: usize = 0;
    while i < request.messages.len()
        invariant
            i <= request.messages@.len(),
            items.len() == request.messages@.len(),
            items == Seq::new(
                request@.messages.len(),
                |i: int| wire_message(request@.messages[i]),
            ),
            out@ == head + join_commas(items.take(i as int)),
        decreases request.messages@.len() - i,
    {
        proof {
            lemma_join_commas_push(items, i as int);
        }
        if i > 0 {
            out.append(",");
        }
        push_message(&mut out, &request.messages[i]);
        assert(out@ =~= head + join_commas(items.take(i + 1)));
        i = i + 1;
    }
    assert(items.take(i as int) =~= items);
    out.append("],\"model\":");
    out.append(json_quote(model).as_str());
    out.append(",\"stream\":");
    push_bool(&mut out, stream);
    let ghost before_optional = out@;
    match &request.system {
        Some(system) => {
            out.append(",\"system\":");
            out.append(json_quote(system.as_str()).as_str());
        },
        None => {},
    }
    assert(out@ =~= before_optional + wire_system(request@.system));
    let ghost before_temperature = out@;
    match &request.temperature {
        Some(t) => {
            out.append(",\"temperature\":");
            out.append(t.as_str());
        },
        None => {},
    }
    assert(out@ =~= before_temperature + wire_temperature(request@.temperature));
    let ghost before_tools = out@;
    if request.tools.len() > 0 {
        out.append(",\"tools\":[");
        let ghost tools_head = out@;
        let ghost titems = Seq::new(request@.tools.len(), |i: int| wire_tool(request@.tools[i]));
        let mut j: usize = 0;
        while j < request.tools.len()
            invariant
                j <= request.tools@.len(),
                titems.len() == request.tools@.len(),
                titems == Seq::new(request@.tools.len(), |i: int| wire_tool(request@.tools[i])),
                out@ == tools_head + join_commas(titems.take(j as int)),
            decreases request.tools@.len() - j,
        {
            proof {
                lemma_join_commas_push(titems, j as int);
            }
            if j > 0 {
                out.append(",");
            }
            push_tool(&mut out, &request.tools[j]);
            assert(out@ =~= tools_head + join_commas(titems.take(j + 1)));
            j = j + 1;
        }
        assert(titems.take(j as int) =~= titems);
        out.append("]");
    }
    assert(out@ =~= before_tools + wire_tools(request@.tools));
    out.append("}");
    assert(out@ =~= wire_request(model@, request@, stream));
    out
}

// ---------- Response decoding ----------

/// A complete (non-streamed) Messages API response.
#[derive(Debug)]
pub struct MessageResponse {
    pub content: Vec<ResponseContentBlock>,
    pub stop_reason: Option<String>,
    pub usage: ResponseUsage,
}

/// One content block of a response; a block of a type this library does not
/// know is `Unknown`.
#[derive(Debug)]
pub enum ResponseContentBlock {
    Text { text: String },
    ToolUse { id: String, name: String, input: JsonText },
    Unknown,
}

/// Token counts of a response.
#[derive(Debug, Clone, Copy, PartialEq, Eq, Structural)]
pub struct ResponseUsage {
    pub input_tokens: u32,
    pub output_tokens: u32,
}

/// The view of the stop reason that the wire string `raw` names.
pub open spec fn stop_reason_view(raw: Option<Seq<char>>) -> StopReasonView {
    match raw {
        Some(s) => if s == "end_turn"@ {
            StopReasonView::EndTurn
        } else if s == "tool_use"@ {
            StopReasonView::ToolUse
        } else if s == "max_tokens"@ {
            StopReasonView::MaxTokens
        } else if s == "stop_sequence"@ {
            StopReasonView::StopSequence
        } else {
            StopReasonView::Other(s)
        },
        None => StopReasonView::Other("unknown"@),
    }
}

/// Maps a wire stop reason to the neutral one; an unrecognised reason is kept
/// as `Other`, and a missing one becomes `Other("unknown")`.
pub fn stop_reason_from_wire(raw: Option<&str>) -> (res: StopReason)
    ensures
        res@ == stop_reason_view(
            match raw {
                Some(r) => Some(r@),
                None => None,
            },
        ),
        match raw {
            Some(r) => {
                &&& r@ == "end_turn"@ ==> res@ == StopReasonView::EndTurn
                &&& r@ == "tool_use"@ ==> res@ == StopReasonView::ToolUse
                &&& r@ == "max_tokens"@ ==> res@ == StopReasonView::MaxTokens
                &&& r@ == "stop_sequence"@ ==> res@ == StopReasonView::StopSequence
                &&& res@ matches StopReasonView::Other(o) ==> o == r@
            },
            None => res@ == StopReasonView::Other("unknown"@),
        },
{
    proof {
        if let Some(r) = raw {
            lemma_stop_reason_names(r@);
        }
    }
    match raw {
        Some(r) => {
            let s = r.to_owned();
            if s == "end_turn".to_owned() {
                StopReason::EndTurn
            } else if s == "tool_use".to_owned() {
                StopReason::ToolUse
            } else if s == "max_tokens".to_owned() {
                StopReason::MaxTokens
            } else if s == "stop_sequence".to_owned() {
                StopReason::StopSequence
            } else {
                StopReason::Other(s)
            }
        },
        None => StopReason::Other("unknown".to_owned()),
    }
}

/// The content blocks a response keeps: text and tool use, in order; blocks
/// of unknown type are dropped.
pub open spec fn kept_contents(blocks: Seq<ResponseContentBlock>) -> Seq<ContentView>
    decreases blocks.len(),
{
    if blocks.len() == 0 {
        Seq::empty()
    } else {
        let rest = kept_contents(blocks.drop_last());
        match blocks.last() {
            ResponseContentBlock::Text { text } => rest.push(ContentView::Text { text: text@ }),
            ResponseContentBlock::ToolUse { id, name, input } => rest.push(
                ContentView::ToolUse { id: id@, name: name@, input: input@ },
            ),
            ResponseContentBlock::Unknown => rest,
        }
    }
}

/// The neutral response a complete wire response stands for.
pub open spec fn response_view(response: MessageResponse) -> AgentResponseView {
    AgentResponseView {
        message: MessageView {
            role: Role::Assistant,
            content: kept_contents(response.content@),
        },
        stop_reason: stop_reason_view(opt_view(response.stop_reason)),
        usage: Usage {
            input_tokens: response.usage.input_tokens,
            output_tokens: response.usage.output_tokens,
        },
    }
}

impl AgentResponse {
    /// Converts a complete wire response: an assistant message of its text and
    /// tool-use blocks, its stop reason and its token counts.
    pub fn from_wire(response: MessageResponse) -> (res: AgentResponse)
        ensures
            res@ == response_view(response),
            res@.message.role == Role::Assistant,
            res@.usage.input_tokens == response.usage.input_tokens,
            res@.usage.output_tokens == response.usage.output_tokens,
            res@.stop_reason == stop_reason_view(opt_view(response.stop_reason)),
            res@.message.content.len() == count_known(response.content@),
            forall|j: int|
                0 <= j < response.content@.len() ==> match #[trigger] response.content@[j] {
                    ResponseContentBlock::Text { text } => res@.message.content[count_known(
                        response.content@.take(j),
                    ) as int] == ContentView::Text { text: text@ },
                    ResponseContentBlock::ToolUse { id, name, input } => res@.message.content[count_known(
                        response.content@.take(j),
                    ) as int] == ContentView::ToolUse { id: id@, name: name@, input: input@ },
                    ResponseContentBlock::Unknown => true,
                },
    {
        proof {
            lemma_kept_contents_keep_each_block(response.content@);
        }
        let mut content: Vec<Content> = Vec::new();
        let mut i: usize = 0;
        while i < response.content.len()
            invariant
                i <= response.content@.len(),
                contents_view(content@) == kept_contents(response.content@.take(i as int)),
            decreases response.content@.len() - i,
        {
            assert(response.content@.take(i + 1).drop_last() =~= response.content@.take(i as int));
            match &response.content[i] {
                ResponseContentBlock::Text { text } => {
                    content.push(Content::Text { text: text.clone() });
                },
                ResponseContentBlock::ToolUse { id, name, input } => {
                    content.push(
                        Content::ToolUse { id: id.clone(), name: name.clone(), input: input.clone() },
                    );
                },
                ResponseContentBlock::Unknown => {},
            }
            assert(contents_view(content@) =~= kept_contents(response.content@.take(i + 1)));
            i = i + 1;
        }
        assert(response.content@.take(i as int) =~= response.content@);
        let stop_reason = match &response.stop_reason {
            Some(s) => stop_reason_from_wire(Some(s.as_str())),
            None => stop_reason_from_wire(None),
        };
        AgentResponse {
            message: Message { role: Role::Assistant, content },
            stop_reason,
            usage: Usage {
                input_tokens: response.usage.input_tokens,
                output_tokens: response.usage.output_tokens,
            },
        }
    }
}

// ---------- Laws ----------

/// The number of text and tool-use blocks among `blocks`.
pub open spec fn count_known(blocks: Seq<ResponseContentBlock>) -> nat
    decreases blocks.len(),
{
    if blocks.len() == 0 {
        0
    } else {
        count_known(blocks.drop_last()) + if blocks.last() is Unknown {
            0nat
        } else {
            1nat
        }
    }
}

/// A complete response keeps every text and tool-use block, in order and
/// unchanged: the `k`-th such block, counting from zero, becomes the `k`-th
/// content block of the message, with the same text, or the same id, name and
/// input; nothing else is kept.
pub proof fn lemma_kept_contents_keep_each_block(blocks: Seq<ResponseContentBlock>)
    ensures
        kept_contents(blocks).len() == count_known(blocks),
        forall|j: int|
            0 <= j < blocks.len() && !(blocks[j] is Unknown) ==> count_known(blocks.take(j))
                < count_known(blocks),
        forall|j: int|
            0 <= j < blocks.len() ==> match #[trigger] blocks[j] {
                ResponseContentBlock::Text { text } => kept_contents(blocks)[count_known(
                    blocks.take(j),
                ) as int] == ContentView::Text { text: text@ },
                ResponseContentBlock::ToolUse { id, name, input } => kept_contents(
                    blocks,
                )[count_known(blocks.take(j)) as int] == ContentView::ToolUse {
                    id: id@,
                    name: name@,
                    input: input@,
                },
                ResponseContentBlock::Unknown => true,
            },
    decreases blocks.len(),
{
    if blocks.len() > 0 {
        let p = blocks.drop_last();
        let n = blocks.len() - 1;
        lemma_kept_contents_keep_each_block(p);
        assert(blocks.take(n) =~= p);
        assert forall|j: int| 0 <= j < n implies #[trigger] blocks.take(j) == p.take(j) && blocks[j]
            == p[j] by {
            assert(blocks.take(j) =~= p.take(j));
        }
        assert forall|j: int|
            0 <= j < blocks.len() && !(blocks[j] is Unknown) implies count_known(blocks.take(j))
            < count_known(blocks) by {
            if j < n {
                assert(blocks.take(j) == p.take(j));
                assert(blocks[j] == p[j]);
            }
        }
        assert forall|j: int| 0 <= j < blocks.len() implies match #[trigger] blocks[j] {
            ResponseContentBlock::Text { text } => kept_contents(blocks)[count_known(
                blocks.take(j),
            ) as int] == ContentView::Text { text: text@ },
            ResponseContentBlock::ToolUse { id, name, input } => kept_contents(
                blocks,
            )[count_known(blocks.take(j)) as int] == ContentView::ToolUse {
                id: id@,
                name: name@,
                input: input@,
            },
            ResponseContentBlock::Unknown => true,
        } by {
            if j < n {
                assert(blocks.take(j) == p.take(j));
                assert(blocks[j] == p[j]);
                if !(p[j] is Unknown) {
                    assert(count_known(p.take(j)) < count_known(p));
                }
            }
        }
    }
}

/// A tool result reports its failure flag: right after the text
/// `{"content":` , the result's content as a JSON string and `,"is_error":`
/// stands `true` exactly when the flag is set and `false` otherwise, so a
/// failed tool call and a successful one are written differently.
pub proof fn lemma_tool_result_reports_is_error(
    tool_use_id: Seq<char>,
    content: Seq<char>,
    is_error: bool,
)
    ensures
        ({
            let w = wire_content(ContentView::ToolResult { tool_use_id, content, is_error });
            let k = ("{\"content\":"@ + json_quoted(content) + ",\"is_error\":"@).len();
            if is_error {
                w.subrange(k as int, (k + "true"@.len()) as int) == "true"@
            } else {
                w.subrange(k as int, (k + "false"@.len()) as int) == "false"@
            }
        }),
        wire_content(ContentView::ToolResult { tool_use_id, content, is_error: true })
            != wire_content(ContentView::ToolResult { tool_use_id, content, is_error: false }),
{
    let pre = "{\"content\":"@ + json_quoted(content) + ",\"is_error\":"@;
    let post = ",\"tool_use_id\":"@ + json_quoted(tool_use_id) + ",\"type\":\"tool_result\"}"@;
    let wt = wire_content(ContentView::ToolResult { tool_use_id, content, is_error: true });
    let wf = wire_content(ContentView::ToolResult { tool_use_id, content, is_error: false });
    assert(wt =~= pre + "true"@ + post);
    assert(wf =~= pre + "false"@ + post);
    assert((pre + "true"@ + post).subrange(pre.len() as int, (pre.len() + "true"@.len()) as int) =~= "true"@);
    assert((pre + "false"@ + post).subrange(pre.len() as int, (pre.len() + "false"@.len()) as int)
        =~= "false"@);
    reveal_strlit("true");
    reveal_strlit("false");
    assert(wt[pre.len() as int] == 't');
    assert(wf[pre.len() as int] == 'f');
}

/// The four stop reasons the API names map to their own variants, no other
/// text maps to one of them, an unrecognised reason is kept verbatim, and a
/// missing one is `Other("unknown")`.
pub proof fn lemma_stop_reason_names(s: Seq<char>)
    ensures
        stop_reason_view(Some("end_turn"@)) == StopReasonView::EndTurn,
        stop_reason_view(Some("tool_use"@)) == StopReasonView::ToolUse,
        stop_reason_view(Some("max_tokens"@)) == StopReasonView::MaxTokens,
        stop_reason_view(Some("stop_sequence"@)) == StopReasonView::StopSequence,
        stop_reason_view(None) == StopReasonView::Other("unknown"@),
        s != "end_turn"@ && s != "tool_use"@ && s != "max_tokens"@ && s != "stop_sequence"@
            ==> stop_reason_view(Some(s)) == StopReasonView::Other(s),
        stop_reason_view(Some(s)) is EndTurn ==> s == "end_turn"@,
        stop_reason_view(Some(s)) is ToolUse ==> s == "tool_use"@,
        stop_reason_view(Some(s)) is MaxTokens ==> s == "max_tokens"@,
        stop_reason_view(Some(s)) is StopSequence ==> s == "stop_sequence"@,
{
    reveal_strlit("end_turn");
    reveal_strlit("tool_use");
    reveal_strlit("max_tokens");
    reveal_strlit("stop_sequence");
    assert("tool_use"@[0] != "end_turn"@[0]);
    assert("max_tokens"@.len() != "end_turn"@.len());
    assert("max_tokens"@.len() != "tool_use"@.len());
    assert("stop_sequence"@.len() != "end_turn"@.len());
    assert("stop_sequence"@.len() != "tool_use"@.len());
    assert("stop_sequence"@.len() != "max_tokens"@.len());
}

/// Every content block of a message stands in the message's wire text.
pub proof fn lemma_message_holds_each_block(m: MessageView, j: int)
    requires
        0 <= j < m.content.len(),
    ensures
        occurs_in(wire_content(m.content[j]), wire_message(m)),
{
    let cs = Seq::new(m.content.len(), |k: int| wire_content(m.content[k]));
    lemma_join_commas_holds_each(cs);
    assert(cs[j] == wire_content(m.content[j]));
    let tail = "],\"role\":"@ + wire_role(m.role) + "}"@;
    lemma_occurs_between("{\"content\":["@, join_commas(cs), tail);
    assert("{\"content\":["@ + join_commas(cs) + tail =~= wire_message(m));
    lemma_occurs_trans(wire_content(m.content[j]), join_commas(cs), wire_message(m));
}

/// The request body carries the whole conversation: every content block of
/// every message stands in it, written as `wire_content` says, and so does
/// the model's name as a JSON string.
pub proof fn lemma_body_holds_every_block(model: Seq<char>, request: AgentRequestView, stream: bool)
    ensures
        forall|i: int, j: int|
            0 <= i < request.messages.len() && 0 <= j < request.messages[i].content.len()
                ==> occurs_in(
                wire_content(#[trigger] request.messages[i].content[j]),
                wire_request(model, request, stream),
            ),
        occurs_in(json_quoted(model), wire_request(model, request, stream)),
{
    let body = wire_request(model, request, stream);
    let msgs = Seq::new(request.messages.len(), |i: int| wire_message(request.messages[i]));
    let before = "{\"max_tokens\":"@ + decimal(request.max_tokens as nat) + ",\"messages\":["@;
    let after = "],\"model\":"@ + json_quoted(model) + ",\"stream\":"@ + json_bool(stream)
        + wire_system(request.system) + wire_temperature(request.temperature) + wire_tools(
        request.tools,
    ) + "}"@;
    assert(body =~= before + join_commas(msgs) + after);
    lemma_occurs_between(before, join_commas(msgs), after);
    lemma_join_commas_holds_each(msgs);
    assert forall|i: int, j: int|
        0 <= i < request.messages.len() && 0 <= j < request.messages[i].content.len()
            implies occurs_in(wire_content(#[trigger] request.messages[i].content[j]), body) by {
        let m = request.messages[i];
        lemma_message_holds_each_block(m, j);
        assert(msgs[i] == wire_message(m));
        lemma_occurs_trans(wire_content(m.content[j]), wire_message(m), join_commas(msgs));
        lemma_occurs_trans(wire_content(m.content[j]), join_commas(msgs), body);
    }
    let pre = before + join_commas(msgs) + "],\"model\":"@;
    let post = ",\"stream\":"@ + json_bool(stream) + wire_system(request.system) + wire_temperature(
        request.temperature,
    ) + wire_tools(request.tools) + "}"@;
    assert(body =~= pre + json_quoted(model) + post);
    lemma_occurs_between(pre, json_quoted(model), post);
}

/// Asking for a stream and asking for a complete reply give different bodies.
pub proof fn lemma_stream_flag_is_written(model: Seq<char>, request: AgentRequestView)
    ensures
        wire_request(model, request, true) != wire_request(model, request, false),
{
    reveal_strlit("true");
    reveal_strlit("false");
    let pre = "{\"max_tokens\":"@ + decimal(request.max_tokens as nat) + ",\"messages\":["@
        + join_commas(Seq::new(request.messages.len(), |i: int| wire_message(request.messages[i])))
        + "],\"model\":"@ + json_quoted(model) + ",\"stream\":"@;
    let post = wire_system(request.system) + wire_temperature(request.temperature) + wire_tools(
        request.tools,
    ) + "}"@;
    assert(wire_request(model, request, true) =~= pre + "true"@ + post);
    assert(wire_request(model, request, false) =~= pre + "false"@ + post);
    assert((pre + "true"@ + post)[pre.len() as int] == 't');
    assert((pre + "false"@ + post)[pre.len() as int] == 'f');
}

/// The request body carries the system prompt, the temperature and every
/// tool declaration the request has.
pub proof fn lemma_body_holds_settings(model: Seq<char>, request: AgentRequestView, stream: bool)
    ensures
        request.system matches Some(sys) ==> occurs_in(
            json_quoted(sys),
            wire_request(model, request, stream),
        ),
        request.temperature matches Some(t) ==> occurs_in(t, wire_request(model, request, stream)),
        forall|i: int|
            0 <= i < request.tools.len() ==> occurs_in(
                wire_tool(#[trigger] request.tools[i]),
                wire_request(model, request, stream),
            ),
{
    let body = wire_request(model, request, stream);
    let head = "{\"max_tokens\":"@ + decimal(request.max_tokens as nat) + ",\"messages\":["@
        + join_commas(Seq::new(request.messages.len(), |i: int| wire_message(request.messages[i])))
        + "],\"model\":"@ + json_quoted(model) + ",\"stream\":"@ + json_bool(stream);
    let sys = wire_system(request.system);
    let temp = wire_temperature(request.temperature);
    let tools = wire_tools(request.tools);
    assert(body =~= head + sys + temp + tools + "}"@);
    if let Some(x) = request.system {
        lemma_occurs_between(head + ",\"system\":"@, json_quoted(x), temp + tools + "}"@);
        assert(head + ",\"system\":"@ + json_quoted(x) + (temp + tools + "}"@) =~= body);
    }
    if let Some(t) = request.temperature {
        lemma_occurs_between(head + sys + ",\"temperature\":"@, t, tools + "}"@);
        assert(head + sys + ",\"temperature\":"@ + t + (tools + "}"@) =~= body);
    }
    if request.tools.len() > 0 {
        let ts = Seq::new(request.tools.len(), |i: int| wire_tool(request.tools[i]));
        lemma_join_commas_holds_each(ts);
        lemma_occurs_between(head + sys + temp + ",\"tools\":["@, join_commas(ts), "]"@ + "}"@);
        assert(head + sys + temp + ",\"tools\":["@ + join_commas(ts) + ("]"@ + "}"@) =~= body);
        assert forall|i: int| 0 <= i < request.tools.len() implies occurs_in(
            wire_tool(#[trigger] request.tools[i]),
            body,
        ) by {
            assert(ts[i] == wire_tool(request.tools[i]));
            lemma_occurs_trans(wire_tool(request.tools[i]), join_commas(ts), body);
        }
    }
}

/// The two roles are written differently.
pub proof fn lemma_roles_written_apart()
    ensures
        wire_role(Role::User) != wire_role(Role::Assistant),
{
    reveal_strlit("\"user\"");
    reveal_strlit("\"assistant\"");
    assert(wire_role(Role::User).len() != wire_role(Role::Assistant).len());
}

} // verus!
