//! MCP tools: servers' tools offered to the model under qualified names
//! `mcp__<server>__<tool>`, and calls routed back by those names; the
//! JSON-RPC replies the servers write are read here (matched to their
//! request, tool lists, call results). Running the processes is the caller's.

use vstd::prelude::*;

use crate::llm::types::ToolSpec;
use crate::json::{get_str, json_array_items, json_as_u64, json_get, spec_json_array_items, spec_json_as_u64, spec_json_get, str_at_key};
use crate::text::{join, join_strings, trim, trim_str};
use crate::text::{append, chars_of, find_chars, first_match, lemma_first_match, owned, seq_contains, seq_starts_with, str_eq, str_starts_with, string_of_range, views};

verus! {

/// The state of a configured server.
#[derive(Debug, Clone)]
pub struct McpServerStatus {
    pub name: String,
    pub connected: bool,
    pub tool_count: usize,
    pub tools: Vec<String>,
    pub error: Option<String>,
}

/// A tool a server offers; `input_schema` is JSON text.
#[derive(Debug, Clone)]
pub struct McpToolDef {
    pub name: String,
    pub description: String,
    pub input_schema: String,
}

/// What std `char::is_alphanumeric` says of a character (Unicode alphabetic
/// or numeric).
pub uninterp spec fn spec_is_alphanumeric(c: char) -> bool;

/// std `char::is_alphanumeric`.
#[verifier::external_body]
fn is_alphanumeric(c: char) -> (r: bool)
    ensures
        r == spec_is_alphanumeric(c),
{
    c.is_alphanumeric()
}

/// A name with every character other than a letter, a digit or `_` made `_`.
pub open spec fn normalized(s: Seq<char>) -> Seq<char> {
    s.map_values(|c: char| if spec_is_alphanumeric(c) || c == '_' {
        c
    } else {
        '_'
    })
}

fn normalize(s: &str) -> (r: String)
    ensures
        r@ == normalized(s@),
{
    let v = chars_of(s);
    let mut out = String::new();
    let mut i: usize = 0;
    while i < v.len()
        invariant
            i <= v@.len(),
            v@ == s@,
            out@ == normalized(s@).take(i as int),
        decreases v@.len() - i,
    {
        let c = v[i];
        let d = if is_alphanumeric(c) || c == '_' {
            c
        } else {
            '_'
        };
        crate::text::push_char(&mut out, d);
        assert(normalized(s@).take(i + 1) =~= normalized(s@).take(i as int).push(d));
        i += 1;
    }
    assert(normalized(s@).take(v@.len() as int) =~= normalized(s@));
    out
}

/// The name under which a server's tool is offered.
pub open spec fn qualified(server: Seq<char>, tool: Seq<char>) -> Seq<char> {
    "mcp__"@ + normalized(server) + "__"@ + normalized(tool)
}

/// The name under which a server's tool is offered: `mcp__<server>__<tool>`,
/// both normalized.
pub fn qualified_name(server: &str, tool: &str) -> (r: String)
    ensures
        r@ == qualified(server@, tool@),
{
    let mut s = owned("mcp__");
    let a = normalize(server);
    append(&mut s, a.as_str());
    append(&mut s, "__");
    let b = normalize(tool);
    append(&mut s, b.as_str());
    s
}

/// The value of a tool definition.
pub open spec fn def_view(t: McpToolDef) -> (Seq<char>, Seq<char>, Seq<char>) {
    (t.name@, t.description@, t.input_schema@)
}

/// A connected server: its name and its tools.
#[derive(Debug, Clone)]
pub struct McpServer {
    pub name: String,
    pub tools: Vec<McpToolDef>,
}

/// The definition a server's tool is offered with.
pub open spec fn offered(server: Seq<char>, t: (Seq<char>, Seq<char>, Seq<char>)) -> (Seq<char>, Seq<char>, Seq<char>) {
    (qualified(server, t.0), "[MCP:"@ + server + "] "@ + t.1, t.2)
}

/// The definitions of all tools of the servers, server after server.
pub open spec fn offered_all(servers: Seq<McpServer>) -> Seq<(Seq<char>, Seq<char>, Seq<char>)>
    decreases servers.len(),
{
    if servers.len() == 0 {
        Seq::empty()
    } else {
        let s = servers.last();
        offered_all(servers.drop_last()) + s.tools@.map_values(|t: McpToolDef| offered(s.name@, def_view(t)))
    }
}

/// The definitions of the servers' tools for the model.
pub fn tool_specs(servers: &Vec<McpServer>) -> (r: Vec<ToolSpec>)
    ensures
        r@.map_values(|t: ToolSpec| (t.name@, t.description@, t.input_schema@)) == offered_all(servers@),
{
    let mut out: Vec<ToolSpec> = Vec::new();
    let mut i: usize = 0;
    while i < servers.len()
        invariant
            i <= servers@.len(),
            out@.map_values(|t: ToolSpec| (t.name@, t.description@, t.input_schema@)) == offered_all(servers@.take(i as int)),
        decreases servers@.len() - i,
    {
        let s = &servers[i];
        let ghost base = out@.map_values(|t: ToolSpec| (t.name@, t.description@, t.input_schema@));
        let ghost tv = s.tools@.map_values(|t: McpToolDef| offered(s.name@, def_view(t)));
        let mut k: usize = 0;
        while k < s.tools.len()
            invariant
                k <= s.tools@.len(),
                tv == s.tools@.map_values(|t: McpToolDef| offered(s.name@, def_view(t))),
                out@.map_values(|t: ToolSpec| (t.name@, t.description@, t.input_schema@)) == base + tv.take(k as int),
            decreases s.tools@.len() - k,
        {
            let t = &s.tools[k];
            let mut d = owned("[MCP:");
            append(&mut d, s.name.as_str());
            append(&mut d, "] ");
            append(&mut d, t.description.as_str());
            let spec = ToolSpec {
                name: qualified_name(s.name.as_str(), t.name.as_str()),
                description: d,
                input_schema: t.input_schema.clone(),
            };
            let ghost prev = out@;
            out.push(spec);
            assert(out@.map_values(|t: ToolSpec| (t.name@, t.description@, t.input_schema@)) =~= prev.map_values(
                |t: ToolSpec| (t.name@, t.description@, t.input_schema@),
            ).push(tv[k as int]));
            assert(out@.map_values(|t: ToolSpec| (t.name@, t.description@, t.input_schema@)) =~= base + tv.take(k + 1));
            k += 1;
        }
        assert(tv.take(s.tools@.len() as int) =~= tv);
        assert(servers@.take(i + 1).drop_last() =~= servers@.take(i as int));
        assert(servers@.take(i + 1).last() == *s);
        i += 1;
    }
    assert(servers@.take(servers@.len() as int) =~= servers@);
    out
}

/// A server that a qualified server part designates: its normalized name
/// begins with that part followed by `__`, or its name is that part.
pub open spec fn server_matches(name: Seq<char>, part: Seq<char>) -> bool {
    seq_starts_with(qualified(name, Seq::empty()), "mcp__"@ + part + "__"@) || name == part
}

/// The first tool of the servers, server after server, designated by the
/// parts of a qualified name, as (server position, tool's own name).
pub open spec fn route_in(servers: Seq<McpServer>, server: Seq<char>, tool: Seq<char>) -> Option<(int, Seq<char>)>
    decreases servers.len(),
{
    if servers.len() == 0 {
        None
    } else {
        match route_in(servers.drop_last(), server, tool) {
            Some(r) => Some(r),
            None => {
                let s = servers.last();
                if server_matches(s.name@, server) && exists|k: int|
                    0 <= k < s.tools@.len() && normalized((#[trigger] s.tools@[k]).name@) == tool {
                    let k = choose|k: int|
                        0 <= k < s.tools@.len() && normalized((#[trigger] s.tools@[k]).name@) == tool && forall|m: int|
                            0 <= m < k ==> normalized(s.tools@[m].name@) != tool;
                    Some((servers.len() - 1, s.tools@[k].name@))
                } else {
                    None
                }
            },
        }
    }
}

/// Where a call of a qualified tool name goes: refused without the `mcp__`
/// prefix or without `__` after it; else the first designated tool, or a
/// refusal naming the tool.
pub open spec fn route(servers: Seq<McpServer>, q: Seq<char>) -> Result<(int, Seq<char>), Seq<char>> {
    if !seq_starts_with(q, "mcp__"@) {
        Err("非 MCP 工具名"@)
    } else {
        let rest = q.skip(5);
        if !seq_contains(rest, "__"@) {
            Err("MCP 工具名格式错误"@)
        } else {
            let i = first_match(rest, "__"@);
            match route_in(servers, rest.take(i), rest.skip(i + 2)) {
                Some(r) => Ok(r),
                None => Err("未找到 MCP 工具: "@ + q),
            }
        }
    }
}

/// Where a call of a qualified tool name goes: the server's position and
/// the tool's own name.
pub fn route_call(servers: &Vec<McpServer>, q: &str) -> (r: Result<(usize, String), String>)
    ensures
        match route(servers@, q@) {
            Ok((i, t)) => r matches Ok((x, y)) && x == i && y@ == t,
            Err(m) => r matches Err(x) && x@ == m,
        },
{
    proof {
        reveal_strlit("mcp__");
        reveal_strlit("__");
    }
    if !str_starts_with(q, "mcp__") {
        return Err(owned("非 MCP 工具名"));
    }
    let qv = chars_of(q);
    let rest = string_of_range(&qv, 5, qv.len());
    assert(rest@ =~= q@.skip(5));
    let rv = chars_of(rest.as_str());
    let sep = chars_of("__");
    let i = match find_chars(&rv, &sep) {
        Some(i) => i,
        None => return Err(owned("MCP 工具名格式错误")),
    };
    proof {
        lemma_first_match(rest@, "__"@, i as int);
    }
    let server = string_of_range(&rv, 0, i);
    let tool = string_of_range(&rv, i + 2, rv.len());
    assert(server@ =~= rest@.take(i as int));
    assert(tool@ =~= rest@.skip(i + 2));
    assert(sep@ == "__"@);
    assert(seq_contains(rest@, "__"@));
    let ghost outcome = match route_in(servers@, server@, tool@) {
        Some(r) => Ok(r),
        None => Err("未找到 MCP 工具: "@ + q@),
    };
    assert(route(servers@, q@) == outcome);
    let mut s: usize = 0;
    while s < servers.len()
        invariant
            s <= servers@.len(),
            route(servers@, q@) == outcome,
            outcome == match route_in(servers@, server@, tool@) {
                Some(r) => Ok(r),
                None => Err("未找到 MCP 工具: "@ + q@),
            },
            route_in(servers@.take(s as int), server@, tool@) is None,
        decreases servers@.len() - s,
    {
        let sv = &servers[s];
        let qn = qualified_name(sv.name.as_str(), "");
        let mut prefix = owned("mcp__");
        append(&mut prefix, server.as_str());
        append(&mut prefix, "__");
        proof {
            reveal_strlit("");
            assert(""@ =~= Seq::<char>::empty());
        }
        let designated = str_starts_with(qn.as_str(), prefix.as_str()) || str_eq(sv.name.as_str(), server.as_str());
        proof {
            assert(servers@.take(s + 1).drop_last() =~= servers@.take(s as int));
            assert(servers@.take(s + 1).last() == *sv);
        }
        if designated {
            let mut k: usize = 0;
            while k < sv.tools.len()
                invariant
                    k <= sv.tools@.len(),
                    s < servers@.len(),
                    route(servers@, q@) == outcome,
                    outcome == match route_in(servers@, server@, tool@) {
                        Some(r) => Ok(r),
                        None => Err("未找到 MCP 工具: "@ + q@),
                    },
                    *sv == servers@[s as int],
                    route_in(servers@.take(s as int), server@, tool@) is None,
                    server_matches(sv.name@, server@),
                    forall|m: int| 0 <= m < k ==> normalized(#[trigger] sv.tools@[m].name@) != tool@,
                decreases sv.tools@.len() - k,
            {
                let nt = normalize(sv.tools[k].name.as_str());
                if str_eq(nt.as_str(), tool.as_str()) {
                    proof {
                        lemma_route_found(servers@, s as int, server@, tool@, k as int);
                    }
                    return Ok((s, sv.tools[k].name.clone()));
                }
                k += 1;
            }
        }
        s += 1;
    }
    assert(servers@.take(servers@.len() as int) =~= servers@);
    let mut m = owned("未找到 MCP 工具: ");
    append(&mut m, q);
    Err(m)
}

/// The first matching tool of the first designating server is the route.
proof fn lemma_route_found(servers: Seq<McpServer>, s: int, server: Seq<char>, tool: Seq<char>, k: int)
    requires
        0 <= s < servers.len(),
        route_in(servers.take(s), server, tool) is None,
        server_matches(servers[s].name@, server),
        0 <= k < servers[s].tools@.len(),
        normalized(servers[s].tools@[k].name@) == tool,
        forall|m: int| 0 <= m < k ==> normalized(#[trigger] servers[s].tools@[m].name@) != tool,
    ensures
        route_in(servers, server, tool) == Some((s, servers[s].tools@[k].name@)),
{
    let t = servers[s].tools@;
    assert(servers.take(s + 1).drop_last() =~= servers.take(s));
    assert(servers.take(s + 1).last() == servers[s]);
    let c = choose|c: int|
        0 <= c < t.len() && normalized((#[trigger] t[c]).name@) == tool && forall|m: int|
            0 <= m < c ==> normalized(t[m].name@) != tool;
    if c < k {
        assert(normalized(t[c].name@) != tool);
    }
    if c > k {
        assert(normalized(t[k].name@) != tool);
    }
    assert(route_in(servers.take(s + 1), server, tool) == Some((s, t[k].name@)));
    lemma_route_prefix(servers, s + 1, server, tool);
}

/// A route found among the first servers stays the route among all.
proof fn lemma_route_prefix(servers: Seq<McpServer>, n: int, server: Seq<char>, tool: Seq<char>)
    requires
        0 <= n <= servers.len(),
        route_in(servers.take(n), server, tool) is Some,
    ensures
        route_in(servers, server, tool) == route_in(servers.take(n), server, tool),
    decreases servers.len() - n,
{
    if n < servers.len() {
        assert(servers.take(n + 1).drop_last() =~= servers.take(n));
        lemma_route_prefix(servers, n + 1, server, tool);
    } else {
        assert(servers.take(n) =~= servers);
    }
}

/// The state of a server that connected with these tools.
pub fn connected_status(name: &str, tools: &Vec<McpToolDef>) -> (r: McpServerStatus)
    ensures
        r.name@ == name@,
        r.connected,
        r.tool_count == tools@.len(),
        views(r.tools@) == tools@.map_values(|t: McpToolDef| t.name@),
        r.error is None,
{
    let mut names: Vec<String> = Vec::new();
    let mut i: usize = 0;
    while i < tools.len()
        invariant
            i <= tools@.len(),
            views(names@) == tools@.take(i as int).map_values(|t: McpToolDef| t.name@),
        decreases tools@.len() - i,
    {
        let ghost prev = names@;
        names.push(tools[i].name.clone());
        assert(views(names@) =~= views(prev).push(tools@[i as int].name@));
        assert(views(names@) =~= tools@.take(i + 1).map_values(|t: McpToolDef| t.name@));
        i += 1;
    }
    assert(tools@.take(tools@.len() as int) =~= tools@);
    McpServerStatus { name: owned(name), connected: true, tool_count: tools.len(), tools: names, error: None }
}

/// The state of a server that failed to connect.
pub fn failed_status(name: &str, error: String) -> (r: McpServerStatus)
    ensures
        r.name@ == name@,
        !r.connected,
        r.tool_count == 0,
        r.tools@.len() == 0,
        r.error matches Some(e) && e@ == error@,
{
    McpServerStatus { name: owned(name), connected: false, tool_count: 0, tools: Vec::new(), error: Some(error) }
}

/// A server's state once disconnected: no tools, nothing else changed.
pub fn disconnected(s: &mut McpServerStatus)
    ensures
        final(s).name@ == old(s).name@,
        !final(s).connected,
        final(s).tool_count == 0,
        final(s).tools@.len() == 0,
        crate::tasks::opt_view(final(s).error) == crate::tasks::opt_view(old(s).error),
{
    s.connected = false;
    s.tool_count = 0;
    s.tools = Vec::new();
}

} // verus!

verus! {

/// What a line a server wrote says of request `id`: `None` when the line is
/// not a JSON object carrying that id (it is skipped); the error, when the
/// reply has one; else the result (`null` when there is none), as JSON text.
pub open spec fn rpc_reply_of(line: Seq<char>, id: u64) -> Option<Result<Seq<char>, Seq<char>>> {
    let t = trim(line);
    match spec_json_get(t, "id"@) {
        Some(i) => if spec_json_as_u64(i) == Some(id) {
            match spec_json_get(t, "error"@) {
                Some(e) => Some(Err("MCP 错误: "@ + e)),
                None => Some(
                    Ok(
                        match spec_json_get(t, "result"@) {
                            Some(r) => r,
                            None => "null"@,
                        },
                    ),
                ),
            }
        } else {
            None
        },
        None => None,
    }
}

/// The reply to request `id` in a line a server wrote, if the line is one.
pub fn rpc_reply(line: &str, id: u64) -> (r: Option<Result<String, String>>)
    ensures
        match rpc_reply_of(line@, id) {
            None => r is None,
            Some(Ok(x)) => r matches Some(Ok(y)) && y@ == x,
            Some(Err(x)) => r matches Some(Err(y)) && y@ == x,
        },
{
    let t = trim_str(line);
    let i = match json_get(t.as_str(), "id") {
        Some(i) => i,
        None => return None,
    };
    match json_as_u64(i.as_str()) {
        Some(n) => if n != id {
            return None;
        },
        None => return None,
    }
    match json_get(t.as_str(), "error") {
        Some(e) => {
            let mut m = owned("MCP 错误: ");
            append(&mut m, e.as_str());
            Some(Err(m))
        },
        None => match json_get(t.as_str(), "result") {
            Some(r) => Some(Ok(r)),
            None => Some(Ok(owned("null"))),
        },
    }
}

/// A tool definition from an element of a `tools/list` reply: its name and
/// description (empty when missing), and its input schema as JSON text
/// (`{"type":"object"}` when missing).
pub open spec fn tool_def_of(item: Seq<char>) -> (Seq<char>, Seq<char>, Seq<char>) {
    (
        match str_at_key(item, "name"@) {
            Some(n) => n,
            None => Seq::empty(),
        },
        match str_at_key(item, "description"@) {
            Some(d) => d,
            None => Seq::empty(),
        },
        match spec_json_get(item, "inputSchema"@) {
            Some(s) => s,
            None => "{\"type\":\"object\"}"@,
        },
    )
}

/// The tool definitions of a `tools/list` result: one per element of its
/// `tools` array, in order; none when there is no such array.
pub open spec fn tool_defs_of(items: Option<Seq<Seq<char>>>) -> Seq<(Seq<char>, Seq<char>, Seq<char>)> {
    match items {
        Some(v) => v.map_values(|i: Seq<char>| tool_def_of(i)),
        None => Seq::empty(),
    }
}

/// The tools a server lists, from the result of its `tools/list` request.
pub fn mcp_tool_defs(list: &str) -> (r: Vec<McpToolDef>)
    ensures
        r@.map_values(|t: McpToolDef| def_view(t)) == tool_defs_of(spec_json_array_items(list@, "tools"@)),
{
    let mut out: Vec<McpToolDef> = Vec::new();
    let items = match json_array_items(list, "tools") {
        Some(v) => v,
        None => {
            assert(out@.map_values(|t: McpToolDef| def_view(t)) =~= Seq::<(Seq<char>, Seq<char>, Seq<char>)>::empty());
            return out;
        },
    };
    let ghost iv = items@.map_values(|s: String| s@);
    let mut i: usize = 0;
    while i < items.len()
        invariant
            i <= items@.len(),
            iv == items@.map_values(|s: String| s@),
            out@.map_values(|t: McpToolDef| def_view(t)) == iv.take(i as int).map_values(|x: Seq<char>| tool_def_of(x)),
        decreases items@.len() - i,
    {
        let it = items[i].as_str();
        let name = match get_str(it, "name") {
            Some(n) => n,
            None => String::new(),
        };
        let description = match get_str(it, "description") {
            Some(d) => d,
            None => String::new(),
        };
        let input_schema = match json_get(it, "inputSchema") {
            Some(s) => s,
            None => owned("{\"type\":\"object\"}"),
        };
        let ghost prev = out@;
        out.push(McpToolDef { name, description, input_schema });
        assert(iv[i as int] == items@[i as int]@);
        assert(out@.map_values(|t: McpToolDef| def_view(t)) =~= prev.map_values(|t: McpToolDef| def_view(t)).push(
            tool_def_of(iv[i as int]),
        ));
        assert(iv.take(i + 1).map_values(|x: Seq<char>| tool_def_of(x)) =~= iv.take(i as int).map_values(
            |x: Seq<char>| tool_def_of(x),
        ).push(tool_def_of(iv[i as int])));
        i += 1;
    }
    assert(iv.take(items@.len() as int) =~= iv);
    out
}

/// The texts of the elements that have a string `text`, in order.
pub open spec fn content_texts(cs: Seq<Seq<char>>) -> Seq<Seq<char>>
    decreases cs.len(),
{
    if cs.len() == 0 {
        Seq::empty()
    } else {
        match str_at_key(cs.last(), "text"@) {
            Some(t) => content_texts(cs.drop_last()).push(t),
            None => content_texts(cs.drop_last()),
        }
    }
}

/// What a tool call gives back, from the call's result (JSON text): the
/// texts of its `content` elements joined with newlines, or, when that is
/// empty or there is no `content` array, the result itself.
pub open spec fn call_text_of(result: Seq<char>) -> Seq<char> {
    match spec_json_array_items(result, "content"@) {
        Some(cs) => {
            let j = join(content_texts(cs), "\n"@);
            if j.len() > 0 {
                j
            } else {
                result
            }
        },
        None => result,
    }
}

/// The text a tool call gives back, from the call's result (JSON text as
/// `rpc_reply` gives it).
pub fn tool_call_text(result: &str) -> (r: String)
    ensures
        r@ == call_text_of(result@),
{
    let cs = match json_array_items(result, "content") {
        Some(v) => v,
        None => return owned(result),
    };
    let ghost cv = cs@.map_values(|s: String| s@);
    let mut texts: Vec<String> = Vec::new();
    let mut i: usize = 0;
    while i < cs.len()
        invariant
            i <= cs@.len(),
            cv == cs@.map_values(|s: String| s@),
            views(texts@) == content_texts(cv.take(i as int)),
        decreases cs@.len() - i,
    {
        assert(cv.take(i + 1).drop_last() =~= cv.take(i as int));
        assert(cv.take(i + 1).last() == cs@[i as int]@);
        match get_str(cs[i].as_str(), "text") {
            Some(t) => {
                let ghost prev = texts@;
                texts.push(t);
                assert(views(texts@) =~= views(prev).push(texts@[texts@.len() - 1]@));
            },
            None => {},
        }
        i += 1;
    }
    assert(cv.take(cs@.len() as int) =~= cv);
    let j = join_strings(&texts, "\n");
    if j.unicode_len() > 0 {
        j
    } else {
        owned(result)
    }
}

} // verus!
