//! How tools and results are written as JSON, and how the tools that a
//! backend reports are read from it.

use vstd::prelude::*;
use crate::aggregator::tools_view;
use crate::aggregator::{CallToolResult, ContentSpec, ResultSpec, Tool, ToolResponseContent, ToolSpec};
use crate::json::{items_view, Entry, Json, JsonTree, Member};

verus! {

/// A tool as JSON: its name, its description and its schema.
pub open spec fn tool_tree(tool: ToolSpec) -> JsonTree {
    JsonTree::Object(
        seq![
            Entry { key: "name"@, value: JsonTree::Text(tool.name) },
            Entry { key: "description"@, value: JsonTree::Text(tool.description) },
            Entry { key: "schema"@, value: tool.input_schema },
        ],
    )
}

/// A list of tools as JSON: an object with the tools, in their order, under
/// `tools`.
pub open spec fn tools_tree(tools: Seq<ToolSpec>) -> JsonTree {
    JsonTree::Object(
        seq![
            Entry {
                key: "tools"@,
                value: JsonTree::Array(Seq::new(tools.len(), |i: int| tool_tree(tools[i]))),
            },
        ],
    )
}

/// One item of content as JSON, tagged by its kind under `type`.
pub open spec fn content_tree(item: ContentSpec) -> JsonTree {
    match item {
        ContentSpec::Text { text } => JsonTree::Object(
            seq![
                Entry { key: "type"@, value: JsonTree::Text("text"@) },
                Entry { key: "text"@, value: JsonTree::Text(text) },
            ],
        ),
        ContentSpec::Json { json } => JsonTree::Object(
            seq![
                Entry { key: "type"@, value: JsonTree::Text("json"@) },
                Entry { key: "json"@, value: json },
            ],
        ),
    }
}

/// The member `is_error` of a result, where the result has the flag.
pub open spec fn flag_entries(is_error: Option<bool>) -> Seq<Entry> {
    match is_error {
        Some(flag) => seq![Entry { key: "is_error"@, value: JsonTree::Bool(flag) }],
        None => Seq::empty(),
    }
}

/// The member `meta` of a result, where the result has one.
pub open spec fn meta_entries(meta: Option<JsonTree>) -> Seq<Entry> {
    match meta {
        Some(value) => seq![Entry { key: "meta"@, value }],
        None => Seq::empty(),
    }
}

/// What a tool returned, as JSON: the items of content under `content`,
/// then `is_error` and `meta` where the result has them.
pub open spec fn result_tree(result: ResultSpec) -> JsonTree {
    JsonTree::Object(
        seq![
            Entry {
                key: "content"@,
                value: JsonTree::Array(
                    Seq::new(result.content.len(), |i: int| content_tree(result.content[i])),
                ),
            },
        ] + flag_entries(result.is_error) + meta_entries(result.meta),
    )
}

/// The tool that a backend describes by `item`: its `name`, which must be
/// a string, its `description` where that is a string (else none), and its
/// `schema` (`null` where it has none).
pub open spec fn read_tool(item: JsonTree) -> Option<ToolSpec> {
    match item.text_member("name"@) {
        Some(name) => Some(
            ToolSpec {
                name,
                description: match item.text_member("description"@) {
                    Some(description) => description,
                    None => Seq::empty(),
                },
                input_schema: match item.member("schema"@) {
                    Some(schema) => schema,
                    None => JsonTree::Null,
                },
            },
        ),
        None => None,
    }
}

/// The tools that a backend reports by `result`: the items of the array
/// under `tools`, each of which must describe a tool.
pub open spec fn read_tools(result: JsonTree) -> Option<Seq<ToolSpec>> {
    match result.member("tools"@) {
        Some(JsonTree::Array(items)) => if forall|i: int|
            0 <= i < items.len() ==> read_tool(#[trigger] items[i]) is Some {
            Some(Seq::new(items.len(), |i: int| read_tool(items[i])->0))
        } else {
            None
        },
        _ => None,
    }
}

/// Writes a tool as JSON.
pub fn tool_to_json(tool: &Tool) -> (doc: Json)
    ensures
        doc@ == tool_tree(tool@),
{
    let mut members: Vec<Member> = Vec::new();
    members.push(Member::new("name", Json::text(tool.name.as_str())));
    members.push(Member::new("description", Json::text(tool.description.as_str())));
    members.push(Member::new("schema", tool.input_schema.duplicate()));
    let doc = Json::object(members);
    assert(doc@->Object_0 =~= tool_tree(tool@)->Object_0);
    doc
}

/// Writes a list of tools as JSON.
pub fn tools_to_json(tools: &Vec<Tool>) -> (doc: Json)
    ensures
        doc@ == tools_tree(tools_view(tools@)),
{
    let mut items: Vec<Json> = Vec::new();
    let mut i: usize = 0;
    while i < tools.len()
        invariant
            i <= tools.len(),
            items.len() == i,
            forall|k: int| 0 <= k < i ==> items[k]@ == tool_tree(tools[k]@),
        decreases tools.len() - i,
    {
        items.push(tool_to_json(&tools[i]));
        i = i + 1;
    }
    let list = Json::array(items);
    assert(list@->Array_0 =~= tools_tree(tools_view(tools@))->Object_0[0].value->Array_0);
    let mut members: Vec<Member> = Vec::new();
    members.push(Member::new("tools", list));
    let doc = Json::object(members);
    assert(doc@->Object_0 =~= tools_tree(tools_view(tools@))->Object_0);
    doc
}

fn content_to_json(item: &ToolResponseContent) -> (doc: Json)
    ensures
        doc@ == content_tree(item@),
{
    let mut members: Vec<Member> = Vec::new();
    match item {
        ToolResponseContent::Text { text } => {
            members.push(Member::new("type", Json::text("text")));
            members.push(Member::new("text", Json::text(text.as_str())));
        },
        ToolResponseContent::Json { json } => {
            members.push(Member::new("type", Json::text("json")));
            members.push(Member::new("json", json.duplicate()));
        },
    }
    let doc = Json::object(members);
    assert(doc@->Object_0 =~= content_tree(item@)->Object_0);
    doc
}

/// Writes what a tool returned as JSON.
pub fn result_to_json(result: &CallToolResult) -> (doc: Json)
    ensures
        doc@ == result_tree(result@),
{
    let mut items: Vec<Json> = Vec::new();
    let mut i: usize = 0;
    while i < result.content.len()
        invariant
            i <= result.content.len(),
            items.len() == i,
            forall|k: int| 0 <= k < i ==> items[k]@ == content_tree(result.content[k]@),
        decreases result.content.len() - i,
    {
        items.push(content_to_json(&result.content[i]));
        i = i + 1;
    }
    let list = Json::array(items);
    assert(list@->Array_0 =~= result_tree(result@)->Object_0[0].value->Array_0);
    let mut members: Vec<Member> = Vec::new();
    members.push(Member::new("content", list));
    match result.is_error {
        Some(flag) => {
            members.push(Member::new("is_error", Json::Bool(flag)));
        },
        None => {},
    }
    match &result.meta {
        Some(meta) => {
            members.push(Member::new("meta", meta.duplicate()));
        },
        None => {},
    }
    let doc = Json::object(members);
    assert(doc@->Object_0 =~= result_tree(result@)->Object_0);
    doc
}

fn tool_from_json(item: &Json) -> (r: Option<Tool>)
    ensures
        match r {
            Some(tool) => read_tool(item@) == Some(tool@),
            None => read_tool(item@) is None,
        },
{
    let name = match item.get_str("name") {
        Some(name) => name.to_owned(),
        None => {
            return None;
        },
    };
    let description = match item.get_str("description") {
        Some(description) => description.to_owned(),
        None => String::new(),
    };
    let input_schema = match item.get("schema") {
        Some(schema) => schema.duplicate(),
        None => Json::Null,
    };
    Some(Tool { name, description, input_schema })
}

/// Reads the tools that a backend reports in its answer to the discovery.
/// `None` where the answer has no array `tools`, or where one of the items
/// names no tool.
pub fn tools_from_json(result: &Json) -> (r: Option<Vec<Tool>>)
    ensures
        match r {
            Some(tools) => read_tools(result@) == Some(tools_view(tools@)),
            None => read_tools(result@) is None,
        },
{
    let list = match result.get("tools") {
        Some(list) => list,
        None => {
            return None;
        },
    };
    let items = match list.as_array() {
        Some(items) => items,
        None => {
            return None;
        },
    };
    let ghost trees = items_view(items@);
    let mut tools: Vec<Tool> = Vec::new();
    let mut i: usize = 0;
    while i < items.len()
        invariant
            i <= items.len(),
            tools.len() == i,
            trees == items_view(items@),
            result@.member("tools"@) == Some(JsonTree::Array(trees)),
            forall|k: int| 0 <= k < i ==> read_tool(#[trigger] trees[k]) == Some(tools[k]@),
        decreases items.len() - i,
    {
        match tool_from_json(&items[i]) {
            Some(tool) => {
                tools.push(tool);
            },
            None => {
                assert(read_tool(trees[i as int]) is None);
                return None;
            },
        }
        i = i + 1;
    }
    assert(read_tools(result@)->0 =~= tools_view(tools@));
    Some(tools)
}

} // verus!
