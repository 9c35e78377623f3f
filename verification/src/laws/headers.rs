//! Laws of the standard HTTP headers.

use vstd::prelude::*;

use crate::sep2243_draft::{
    first_header_values, header_names_ignore_case, McpHttpHeaders, MCP_METHOD_HEADER,
    MCP_NAME_HEADER,
};

verus! {

/// `text` is the whole of what the header with the given key, in lower case, holds: as many
/// characters as the first value has bytes, each that of its byte. There is none where the header
/// is absent, or where a byte of it is not a visible ASCII character, a space or a tab.
pub open spec fn is_whole_value(
    values: Map<Seq<char>, Seq<u8>>,
    key: Seq<char>,
    text: Option<String>,
) -> bool {
    &&& text is Some <==> values.contains_key(key) && forall|i: int|
        0 <= i < values[key].len() ==> 32 <= #[trigger] values[key][i] < 127 || values[key][i] == 9
    &&& text matches Some(t) ==> t@.len() == values[key].len() && forall|i: int|
        0 <= i < values[key].len() ==> (#[trigger] t@[i]) as int == values[key][i] as int
}

/// The two headers are read whole, each from the header of its name.
pub proof fn headers_are_read_whole(
    headers: http::HeaderMap<http::HeaderValue>,
    extracted: McpHttpHeaders,
)
    requires
        call_ensures(McpHttpHeaders::from_header_map, (&headers,), extracted),
    ensures
        is_whole_value(first_header_values(headers), "mcp-method"@, extracted.method),
        is_whole_value(first_header_values(headers), "mcp-name"@, extracted.name),
{
    header_names_ignore_case(first_header_values(headers), MCP_METHOD_HEADER@);
    header_names_ignore_case(first_header_values(headers), MCP_NAME_HEADER@);
    lemma_whole(first_header_values(headers), MCP_METHOD_HEADER@, extracted.method);
    lemma_whole(first_header_values(headers), MCP_NAME_HEADER@, extracted.name);
}

proof fn lemma_whole(values: Map<Seq<char>, Seq<u8>>, name: Seq<char>, text: Option<String>)
    requires
        crate::sep2243_draft::text_view(text) == crate::sep2243_draft::read_header(values, name),
    ensures
        is_whole_value(values, crate::sep2243_draft::header_key(name), text),
{
    let key = crate::sep2243_draft::header_key(name);
    if values.contains_key(key) {
        let bytes = values[key];
        if forall|i: int| 0 <= i < bytes.len() ==> 32 <= #[trigger] bytes[i] < 127 || bytes[i] == 9 {
            assert forall|i: int| 0 <= i < bytes.len() implies crate::sep2243_draft::is_header_text(
                #[trigger] bytes[i],
            ) by {}
            assert(text is Some);
            assert forall|i: int| 0 <= i < bytes.len() implies (#[trigger] text->0@[i]) as int
                == bytes[i] as int by {
                assert(32 <= bytes[i] < 127 || bytes[i] == 9);
            }
        } else {
            let i = choose|i: int|
                0 <= i < bytes.len() && !(32 <= #[trigger] bytes[i] < 127 || bytes[i] == 9);
            assert(!crate::sep2243_draft::is_header_text(bytes[i]));
        }
    }
}

/// Headers are populated exactly where one of them was read.
pub proof fn headers_are_populated_by_either(
    none: McpHttpHeaders,
    headers: McpHttpHeaders,
    populated: bool,
)
    requires
        call_ensures(<McpHttpHeaders as Default>::default, (), none),
        call_ensures(McpHttpHeaders::is_populated, (&headers,), populated),
    ensures
        none.method is None,
        none.name is None,
        populated <==> headers.method is Some || headers.name is Some,
{
}

} // verus!
