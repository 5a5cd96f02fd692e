//! The chat panel's and sidebar's views of the connected MCP servers: the
//! servers in name order, the `/mcp` summary, and one server's tool page.

use vstd::prelude::*;
use vstd::string::StringExecFns;
use crate::digits::{dec_chars, push_decimal};
use crate::order::{insert_sorted, strictly_sorted};
use crate::slash::join_lines;
use crate::strs::{chars_eq, chars_of, string_of};

verus! {

/// One tool of a connected server.
#[derive(Debug, Clone)]
pub struct ToolEntry {
    pub server: String,
    pub name: String,
}

/// A tool's documentation as the server page shows it.
#[derive(Debug, Clone)]
pub struct ToolDoc {
    pub name: String,
    pub description: String,
    /// The input schema, pretty-printed as JSON (`null` when absent).
    pub schema_json: String,
}

/// The set of server names among `tools`.
pub open spec fn server_set(tools: Seq<ToolEntry>) -> Set<Seq<char>> {
    tools.map_values(|t: ToolEntry| t.server@).to_set()
}

/// The names of the tools of `server`, in order.
pub open spec fn tools_of(tools: Seq<ToolEntry>, server: Seq<char>) -> Seq<Seq<char>>
    decreases tools.len(),
{
    if tools.len() == 0 {
        Seq::empty()
    } else {
        let prev = tools_of(tools.drop_last(), server);
        if tools.last().server@ == server {
            prev.push(tools.last().name@)
        } else {
            prev
        }
    }
}

/// The items joined by `", "`.
pub open spec fn join_comma(items: Seq<Seq<char>>) -> Seq<char>
    decreases items.len(),
{
    if items.len() == 0 {
        Seq::empty()
    } else if items.len() == 1 {
        items[0]
    } else {
        join_comma(items.drop_last()) + ", "@ + items.last()
    }
}

/// `"s"` unless `n` is one.
pub open spec fn plural(n: nat) -> Seq<char> {
    if n == 1 {
        Seq::empty()
    } else {
        "s"@
    }
}

/// One server's line group of the `/mcp` summary.
pub open spec fn server_block(server: Seq<char>, tools: Seq<ToolEntry>) -> Seq<char> {
    let names = tools_of(tools, server);
    "## "@ + server + " ("@ + dec_chars(names.len()) + " tool"@ + plural(names.len()) + ")\n"@ + join_comma(names)
}

/// The `/mcp` summary of the servers `names`, in that order.
pub open spec fn mcp_summary(names: Seq<Seq<char>>, tools: Seq<ToolEntry>) -> Seq<char> {
    "# MCP ("@ + dec_chars(names.len()) + " server"@ + plural(names.len()) + ")\n"@ + join_lines(
        names.map_values(|s: Seq<char>| server_block(s, tools)),
    )
}

/// The server names of `tools`, each once, in ascending order.
pub fn server_names(tools: &[ToolEntry]) -> (r: Vec<Vec<char>>)
    ensures
        strictly_sorted(r@.map_values(|e: Vec<char>| e@)),
        r@.map_values(|e: Vec<char>| e@).to_set() == server_set(tools@),
{
    let mut names: Vec<Vec<char>> = Vec::new();
    let mut i: usize = 0;
    proof {
        assert(names@.map_values(|e: Vec<char>| e@).to_set() =~= Set::<Seq<char>>::empty());
        assert(tools@.take(0).map_values(|t: ToolEntry| t.server@).to_set() =~= Set::<Seq<char>>::empty());
    }
    while i < tools.len()
        invariant
            i <= tools@.len(),
            strictly_sorted(names@.map_values(|e: Vec<char>| e@)),
            names@.map_values(|e: Vec<char>| e@).to_set() == server_set(tools@.take(i as int)),
        decreases tools@.len() - i,
    {
        let s = chars_of(tools[i].server.as_str());
        insert_sorted(&mut names, s);
        proof {
            let a = tools@.take(i as int).map_values(|t: ToolEntry| t.server@);
            let b = tools@.take(i + 1).map_values(|t: ToolEntry| t.server@);
            assert(b =~= a.push(tools@[i as int].server@));
            assert(b.to_set() =~= a.to_set().insert(tools@[i as int].server@)) by {
                assert forall|e: Seq<char>| b.to_set().contains(e) implies a.to_set().insert(
                    tools@[i as int].server@,
                ).contains(e) by {
                    let k = choose|k: int| 0 <= k < b.len() && b[k] == e;
                    if k < a.len() {
                        assert(a[k] == e);
                    }
                }
                assert forall|e: Seq<char>| a.to_set().insert(tools@[i as int].server@).contains(e) implies b.to_set().contains(
                    e,
                ) by {
                    if e == tools@[i as int].server@ {
                        assert(b[a.len() as int] == e);
                    } else {
                        let k = choose|k: int| 0 <= k < a.len() && a[k] == e;
                        assert(b[k] == e);
                    }
                }
            }
        }
        i = i + 1;
    }
    assert(tools@.take(tools@.len() as int) =~= tools@);
    names
}

/// The tool names of `server`, joined by `", "`, and how many there are.
fn tool_list(tools: &[ToolEntry], server: &Vec<char>) -> (r: (String, usize))
    ensures
        r.0@ == join_comma(tools_of(tools@, server@)),
        r.1 == tools_of(tools@, server@).len(),
{
    let mut out = String::new();
    let mut n: usize = 0;
    let mut i: usize = 0;
    assert(tools@.take(0) =~= Seq::<ToolEntry>::empty());
    while i < tools.len()
        invariant
            i <= tools@.len(),
            n == tools_of(tools@.take(i as int), server@).len(),
            n <= i,
            out@ == join_comma(tools_of(tools@.take(i as int), server@)),
        decreases tools@.len() - i,
    {
        let t = &tools[i];
        let ghost prev = tools_of(tools@.take(i as int), server@);
        proof {
            assert(tools@.take(i + 1).drop_last() =~= tools@.take(i as int));
            assert(tools@.take(i + 1).last() == tools@[i as int]);
        }
        if chars_eq(&chars_of(t.server.as_str()), server) {
            if n > 0 {
                out.append(", ");
            }
            out.append(t.name.as_str());
            n = n + 1;
            proof {
                let next = prev.push(t.name@);
                assert(next.drop_last() =~= prev);
                assert(out@ =~= join_comma(next));
            }
        }
        i = i + 1;
    }
    assert(tools@.take(tools@.len() as int) =~= tools@);
    (out, n)
}

/// The reply to `/mcp`: with no server connected, a note saying so; else
/// a header counting the servers, then one block per server in name order
/// listing its tools.
pub fn mcp_reply(connected: usize, tools: &[ToolEntry]) -> (r: String)
    ensures
        connected == 0 ==> r@ == "No MCP servers connected."@,
        connected > 0 ==> exists|names: Seq<Seq<char>>| {
            &&& strictly_sorted(names)
            &&& names.to_set() == server_set(tools@)
            &&& r@ == mcp_summary(names, tools@)
        },
{
    if connected == 0 {
        return String::from_str("No MCP servers connected.");
    }
    let names = server_names(tools);
    let ghost nv = names@.map_values(|e: Vec<char>| e@);
    let mut body = String::new();
    let mut k: usize = 0;
    let ghost blocks = nv.map_values(|s: Seq<char>| server_block(s, tools@));
    assert(blocks.take(0) =~= Seq::<Seq<char>>::empty());
    while k < names.len()
        invariant
            k <= names@.len(),
            nv == names@.map_values(|e: Vec<char>| e@),
            blocks == nv.map_values(|s: Seq<char>| server_block(s, tools@)),
            body@ == join_lines(blocks.take(k as int)),
        decreases names@.len() - k,
    {
        let name = &names[k];
        let (list, n) = tool_list(tools, name);
        if k > 0 {
            body.append("\n");
        }
        body.append("## ");
        let name_str = string_of(name, 0, name.len());
        body.append(name_str.as_str());
        body.append(" (");
        push_decimal(&mut body, n as u64);
        body.append(" tool");
        if n != 1 {
            body.append("s");
        }
        body.append(")\n");
        body.append(list.as_str());
        proof {
            assert(name@.subrange(0, name@.len() as int) =~= name@);
            assert(blocks.take(k + 1).drop_last() =~= blocks.take(k as int));
            assert(blocks[k as int] == server_block(nv[k as int], tools@));
            assert(body@ =~= join_lines(blocks.take(k + 1)));
        }
        k = k + 1;
    }
    assert(blocks.take(names@.len() as int) =~= blocks);
    let mut out = String::from_str("# MCP (");
    push_decimal(&mut out, names.len() as u64);
    out.append(" server");
    if names.len() != 1 {
        out.append("s");
    }
    out.append(")\n");
    out.append(body.as_str());
    assert(out@ =~= mcp_summary(nv, tools@));
    out
}

/// The `idx`-th server in name order, if there is one.
pub fn server_at(tools: &[ToolEntry], idx: usize) -> (r: Option<String>)
    ensures
        exists|names: Seq<Seq<char>>| {
            &&& strictly_sorted(names)
            &&& names.to_set() == server_set(tools@)
            &&& match r {
                Some(s) => idx < names.len() && s@ == names[idx as int],
                None => idx >= names.len(),
            }
        },
{
    let names = server_names(tools);
    if idx < names.len() {
        Some(string_of(&names[idx], 0, names[idx].len()))
    } else {
        None
    }
}

/// The number of distinct servers.
pub fn server_count(tools: &[ToolEntry]) -> (r: usize)
    ensures
        r == server_set(tools@).len(),
{
    let names = server_names(tools);
    proof {
        let nv = names@.map_values(|e: Vec<char>| e@);
        assert forall|i: int, j: int| 0 <= i < j < nv.len() implies nv[i] != nv[j] by {
            crate::order::lemma_order(nv[i], nv[j], nv[j]);
        }
        nv.unique_seq_to_set();
    }
    names.len()
}

pub open spec fn tool_doc_section(t: ToolDoc) -> Seq<char> {
    "### "@ + t.name@ + "\n"@ + (if t.description@.len() > 0 { t.description@ + "\n\n"@ } else { Seq::empty() }) + (
    if t.schema_json@ != "null"@ && t.schema_json@.len() > 0 {
        "```json\n"@ + t.schema_json@ + "\n```\n\n"@
    } else {
        Seq::empty()
    })
}

pub open spec fn tool_doc_sections(tools: Seq<ToolDoc>) -> Seq<char>
    decreases tools.len(),
{
    if tools.len() == 0 {
        Seq::empty()
    } else {
        tool_doc_sections(tools.drop_last()) + tool_doc_section(tools.last())
    }
}

/// The markdown page the info overlay shows for server `server_name`:
/// a title, then either a note that it has no tools, or a count and one
/// section per tool with its description and input schema.
pub fn mcp_overlay_content(server_name: &str, tools: &[ToolDoc]) -> (r: String)
    ensures
        r@ == "# "@ + server_name@ + "\n\n"@ + (if tools@.len() == 0 {
            "*No tools registered (server not connected or no tools).*\n"@
        } else {
            "## Tools ("@ + dec_chars(tools@.len()) + ")\n\n"@ + tool_doc_sections(tools@)
        }),
{
    let mut out = String::from_str("# ");
    out.append(server_name);
    out.append("\n\n");
    if tools.len() == 0 {
        out.append("*No tools registered (server not connected or no tools).*\n");
        return out;
    }
    out.append("## Tools (");
    push_decimal(&mut out, tools.len() as u64);
    out.append(")\n\n");
    let ghost head = out@;
    let mut i: usize = 0;
    assert(tools@.take(0) =~= Seq::<ToolDoc>::empty());
    while i < tools.len()
        invariant
            i <= tools@.len(),
            out@ == head + tool_doc_sections(tools@.take(i as int)),
        decreases tools@.len() - i,
    {
        let t = &tools[i];
        out.append("### ");
        out.append(t.name.as_str());
        out.append("\n");
        if !t.description.as_str().is_empty() {
            out.append(t.description.as_str());
            out.append("\n\n");
        }
        let schema = t.schema_json.as_str();
        if !crate::strs::str_eq(schema, "null") && !schema.is_empty() {
            out.append("```json\n");
            out.append(schema);
            out.append("\n```\n\n");
        }
        proof {
            assert(tools@.take(i + 1).drop_last() =~= tools@.take(i as int));
            assert(tools@.take(i + 1).last() == tools@[i as int]);
        }
        i = i + 1;
        assert(out@ =~= head + tool_doc_sections(tools@.take(i as int)));
    }
    assert(tools@.take(tools@.len() as int) =~= tools@);
    out
}

} // verus!
