//! Laws of tools: the `_meta` entries that are set on them, and texts that are too long.

use std::sync::Arc;

use vstd::prelude::*;
use vstd::utf8::encode_utf8;

use crate::anthropic_ext::anthropic_max_result_size_chars_meta;
use crate::anthropic_ext::lint::{size_warning, warn_if_over_2kb, SizeWarning};
use crate::json::{JsonObject, JsonValue, JsonView, NumberView};
use crate::laws::payloads::is_text;
use crate::model::{Meta, Tool};
use crate::sep2243_draft::{mcp_header_param_meta, record_header_param};

verus! {

/// `after` is `before` with one entry set, and every other entry as it was.
pub open spec fn sets_one_entry(
    before: Map<Seq<char>, JsonView>,
    after: Map<Seq<char>, JsonView>,
    key: Seq<char>,
) -> bool {
    &&& forall|name: Seq<char>| #[trigger]
        after.contains_key(name) <==> name == key || before.contains_key(name)
    &&& forall|name: Seq<char>|
        before.contains_key(name) && name != key ==> #[trigger] after[name] == before[name]
}

/// The `_meta` entries of a tool, none where it has no `_meta`.
pub open spec fn entries_of(tool: Tool) -> Map<Seq<char>, JsonView> {
    match tool.meta {
        Some(meta) => meta@,
        None => Map::empty(),
    }
}

/// `entry` asks for `chars` characters, or for 500,000 where that is less.
pub open spec fn asks_for(entry: JsonView, chars: u32) -> bool {
    entry matches JsonView::Number(NumberView::Integer(size)) && size <= 500_000 && size <= chars
        && (size == chars || size == 500_000)
}

/// A fresh tool has what is given, and nothing else.
pub proof fn fresh_tools_have_what_is_given(
    name: String,
    description: String,
    input_schema: Arc<JsonObject>,
    tool: Tool,
)
    requires
        call_ensures(Tool::new, (name, description, input_schema), tool),
    ensures
        tool.name@ == name@,
        tool.description == Some(description),
        tool.input_schema == input_schema,
        tool.title is None,
        tool.output_schema is None,
        tool.meta is None,
{
}

/// Asking for a size sets the one entry for it to the size, or to the highest that can be asked
/// for, and changes nothing else of the tool.
pub proof fn a_size_is_one_entry_of_a_tool(tool: Tool, chars: u32, after: Tool)
    requires
        call_ensures(Tool::with_anthropic_max_result_size_chars, (tool, chars), after),
    ensures
        after.name == tool.name,
        after.title == tool.title,
        after.description == tool.description,
        after.input_schema == tool.input_schema,
        after.output_schema == tool.output_schema,
        after.meta matches Some(meta) && {
            &&& sets_one_entry(entries_of(tool), meta@, "anthropic/maxResultSizeChars"@)
            &&& asks_for(meta@["anthropic/maxResultSizeChars"@], chars)
        },
{
}

/// A stand-alone meta for a size holds the one entry for it.
pub proof fn a_size_is_the_only_entry_of_a_meta(chars: u32, meta: Meta)
    requires
        call_ensures(anthropic_max_result_size_chars_meta, (chars,), meta),
    ensures
        sets_one_entry(Map::empty(), meta@, "anthropic/maxResultSizeChars"@),
        asks_for(meta@["anthropic/maxResultSizeChars"@], chars),
{
}

/// `entry` records `param` beside what was recorded before: a first name as a text, a second one
/// behind the first in a list, a further one at the end of the list, and none twice.
pub open spec fn records(before: Option<JsonView>, param: Seq<char>, entry: JsonView) -> bool {
    match before {
        None => is_text(entry, param),
        Some(JsonView::Array(list)) => entry matches JsonView::Array(longer) && {
            &&& longer.len() >= list.len()
            &&& forall|i: int| 0 <= i < list.len() ==> #[trigger] longer[i] == list[i]
            &&& if exists|i: int| 0 <= i < list.len() && is_text(#[trigger] list[i], param) {
                longer.len() == list.len()
            } else {
                longer.len() == list.len() + 1 && is_text(longer[list.len() as int], param)
            }
        },
        Some(one) => if is_text(one, param) {
            is_text(entry, param)
        } else {
            entry matches JsonView::Array(pair) && pair.len() == 2 && pair[0] == one && is_text(
                pair[1],
                param,
            )
        },
    }
}

/// What is recorded of a parameter beside a value that was there.
pub proof fn names_are_recorded_once_and_in_order(
    existing: Option<JsonValue>,
    param: String,
    entry: JsonValue,
)
    requires
        call_ensures(record_header_param, (existing, param), entry),
    ensures
        records(
            match existing {
                Some(value) => Some(value@),
                None => None,
            },
            param@,
            entry@,
        ),
{
    lemma_records(
        match existing {
            Some(value) => Some(value@),
            None => None,
        },
        param@,
    );
}

/// Marking a parameter records its name in the one entry for marks, and changes nothing else of
/// the tool.
pub proof fn a_mark_is_one_entry_of_a_tool(tool: Tool, param: String, after: Tool)
    requires
        call_ensures(Tool::with_mcp_header_param, (tool, param), after),
    ensures
        after.name == tool.name,
        after.title == tool.title,
        after.description == tool.description,
        after.input_schema == tool.input_schema,
        after.output_schema == tool.output_schema,
        after.meta matches Some(meta) && {
            &&& sets_one_entry(
                entries_of(tool),
                meta@,
                "io.modelcontextprotocol/x-mcp-header-param"@,
            )
            &&& records(
                entries_of(tool).get("io.modelcontextprotocol/x-mcp-header-param"@),
                param@,
                meta@["io.modelcontextprotocol/x-mcp-header-param"@],
            )
        },
{
    lemma_records(
        entries_of(tool).get("io.modelcontextprotocol/x-mcp-header-param"@),
        param@,
    );
}

/// A stand-alone meta for a mark holds the name alone.
pub proof fn a_mark_is_the_only_entry_of_a_meta(param: String, meta: Meta)
    requires
        call_ensures(mcp_header_param_meta, (param,), meta),
    ensures
        sets_one_entry(Map::empty(), meta@, "io.modelcontextprotocol/x-mcp-header-param"@),
        is_text(meta@["io.modelcontextprotocol/x-mcp-header-param"@], param@),
{
}

proof fn lemma_records(before: Option<JsonView>, param: Seq<char>)
    ensures
        records(before, param, crate::sep2243_draft::header_param_entry(before, param)),
{
    if let Some(JsonView::Array(list)) = before {
        let text = JsonView::String(param);
        if list.contains(text) {
            assert(is_text(list[list.index_of(text)], param));
        } else {
            assert forall|i: int| 0 <= i < list.len() implies !is_text(#[trigger] list[i], param) by {
                assert(list[i] == text ==> list.contains(text));
            }
        }
    }
}

/// A warning is due exactly for texts of more than 2048 bytes, and it says how long the text is
/// and what it belongs to.
pub proof fn warnings_are_due_above_the_limit(
    label: &str,
    body: &str,
    warning: Option<SizeWarning>,
    warned: bool,
)
    requires
        call_ensures(size_warning, (label, body), warning),
        call_ensures(warn_if_over_2kb, (label, body), warned),
    ensures
        warned <==> encode_utf8(body@).len() > 2048,
        warning is Some <==> encode_utf8(body@).len() > 2048,
        warning matches Some(w) ==> w.label@ == label@ && w.size == encode_utf8(body@).len()
            && w.limit == 2048,
{
}

} // verus!
