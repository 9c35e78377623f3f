//! Scaffold for the draft SEP-2243, which adds two conventions to Streamable HTTP transport:
//!
//! - the request headers `Mcp-Method` and `Mcp-Name`, by which load balancers and rate limiters
//!   can route without parsing the JSON body;
//! - tool parameters that a transport promotes to an `x-mcp-header` HTTP header at call time.
//!
//! The transport part of the draft is not here: tools are marked and headers are read, and an
//! adapter that understands the marks does the promotion.

use vstd::prelude::*;

use crate::json::{
    array_view, lemma_array_view, lemma_object_insert, lemma_object_remove, JsonValue, JsonView,
};
use crate::model::{meta_entries, Meta, Tool};

verus! {

/// HTTP header that carries the JSON-RPC method of the request.
pub const MCP_METHOD_HEADER: &'static str = "Mcp-Method";

/// HTTP header that carries the name of the tool, resource or prompt that the method targets.
pub const MCP_NAME_HEADER: &'static str = "Mcp-Name";

/// HTTP header to which a marked tool parameter is promoted.
pub const X_MCP_HEADER_NAME: &'static str = "x-mcp-header";

/// `_meta` key under which a tool names the parameters to promote.
pub const X_MCP_HEADER_PARAM_META_KEY: &'static str = "io.modelcontextprotocol/x-mcp-header-param";

/// The entry that records `param` beside what was recorded before: a lone parameter is a string,
/// several are an array in the order in which they came, and none is recorded twice. A value of
/// another shape is kept as the first element of the array.
pub open spec fn header_param_entry(existing: Option<JsonView>, param: Seq<char>) -> JsonView {
    match existing {
        None => JsonView::String(param),
        Some(JsonView::Array(a)) => if a.contains(JsonView::String(param)) {
            JsonView::Array(a)
        } else {
            JsonView::Array(a.push(JsonView::String(param)))
        },
        Some(JsonView::String(s)) => if s == param {
            JsonView::String(s)
        } else {
            JsonView::Array(seq![JsonView::String(s), JsonView::String(param)])
        },
        Some(other) => JsonView::Array(seq![other, JsonView::String(param)]),
    }
}

/// The `_meta` entries after `param` has been marked for promotion.
pub open spec fn with_header_param(
    entries: Map<Seq<char>, JsonView>,
    param: Seq<char>,
) -> Map<Seq<char>, JsonView> {
    entries.insert(
        X_MCP_HEADER_PARAM_META_KEY@,
        header_param_entry(entries.get(X_MCP_HEADER_PARAM_META_KEY@), param),
    )
}

/// Whether the `_meta` entries name `param` for promotion.
pub open spec fn names_header_param(entries: Map<Seq<char>, JsonView>, param: Seq<char>) -> bool {
    match entries.get(X_MCP_HEADER_PARAM_META_KEY@) {
        Some(JsonView::String(s)) => s == param,
        Some(JsonView::Array(a)) => a.contains(JsonView::String(param)),
        _ => false,
    }
}

/// Whether one of `values` is the string `text`.
fn holds_string(values: &Vec<JsonValue>, text: &str) -> (found: bool)
    ensures
        found == array_view(values@).contains(JsonView::String(text@)),
{
    let mut i: usize = 0;
    while i < values.len()
        invariant
            i <= values@.len(),
            forall|j: int| 0 <= j < i ==> #[trigger] array_view(values@)[j] != JsonView::String(text@),
        decreases values@.len() - i,
    {
        if values[i].is_string(text) {
            assert(array_view(values@)[i as int] == JsonView::String(text@));
            return true;
        }
        i = i + 1;
    }
    false
}

/// Records `param` beside the value that a tool has under [`X_MCP_HEADER_PARAM_META_KEY`].
pub fn record_header_param(existing: Option<JsonValue>, param: String) -> (entry: JsonValue)
    ensures
        entry@ == header_param_entry(
            match existing {
                Some(value) => Some(value@),
                None => None,
            },
            param@,
        ),
{
    match existing {
        None => JsonValue::String(param),
        Some(JsonValue::Array(values)) => {
            let mut values = values;
            let ghost before = array_view(values@);
            proof {
                lemma_array_view(values);
            }
            if !holds_string(&values, param.as_str()) {
                values.push(JsonValue::String(param));
                proof {
                    assert(array_view(values@) =~= before.push(JsonView::String(param@)));
                }
            }
            proof {
                lemma_array_view(values);
            }
            JsonValue::Array(values)
        },
        Some(JsonValue::String(s)) => {
            if crate::string_map::same_text(s.as_str(), param.as_str()) {
                JsonValue::String(s)
            } else {
                pair_of(JsonValue::String(s), JsonValue::String(param))
            }
        },
        Some(other) => pair_of(other, JsonValue::String(param)),
    }
}

/// The array of two values.
fn pair_of(first: JsonValue, second: JsonValue) -> (pair: JsonValue)
    ensures
        pair@ == JsonView::Array(seq![first@, second@]),
{
    let mut values: Vec<JsonValue> = Vec::new();
    values.push(first);
    values.push(second);
    proof {
        lemma_array_view(values);
        assert(array_view(values@) =~= seq![first@, second@]);
    }
    JsonValue::Array(values)
}

impl Tool {
    /// Marks a parameter of the tool for promotion to an `x-mcp-header: <param-name>=<value>`
    /// HTTP header at call time, by recording its name under [`X_MCP_HEADER_PARAM_META_KEY`].
    /// Marking several parameters records their names in an array.
    #[must_use]
    pub fn with_mcp_header_param(self, param_name: String) -> (tool: Tool)
        ensures
            tool == (Tool { meta: tool.meta, ..self }),
            tool.meta is Some,
            tool.meta->0@ == with_header_param(meta_entries(self.meta), param_name@),
    {
        let mut tool = self;
        let mut meta = match tool.meta {
            Some(meta) => meta,
            None => Meta::new(),
        };
        let ghost entries = meta@;
        let ghost object = meta.0;
        let existing = meta.0.remove(X_MCP_HEADER_PARAM_META_KEY);
        let ghost removed = meta.0;
        proof {
            lemma_object_remove(object, removed, X_MCP_HEADER_PARAM_META_KEY@);
        }
        let next = record_header_param(existing, param_name);
        let ghost entry = next;
        meta.0.insert(X_MCP_HEADER_PARAM_META_KEY.to_string(), next);
        proof {
            lemma_object_insert(removed, meta.0, X_MCP_HEADER_PARAM_META_KEY@, entry);
            assert(meta@ =~= with_header_param(entries, param_name@));
        }
        tool.meta = Some(meta);
        tool
    }
}

/// A [`Meta`] that marks one parameter for promotion, for places where a tool is described
/// without its builder methods.
#[must_use]
pub fn mcp_header_param_meta(param_name: String) -> (meta: Meta)
    ensures
        meta@ == Map::empty().insert(X_MCP_HEADER_PARAM_META_KEY@, JsonView::String(param_name@)),
{
    let mut meta = Meta::new();
    let ghost object = meta.0;
    let value = JsonValue::String(param_name);
    let ghost entry = value;
    meta.0.insert(X_MCP_HEADER_PARAM_META_KEY.to_string(), value);
    proof {
        lemma_object_insert(object, meta.0, X_MCP_HEADER_PARAM_META_KEY@, entry);
    }
    meta
}

/// HTTP headers as the `http` crate holds them.
#[verifier::external_type_specification]
#[verifier::external_body]
#[verifier::reject_recursive_types(T)]
pub struct ExHeaderMap<T>(http::HeaderMap<T>);

/// The value of an HTTP header.
#[verifier::external_type_specification]
#[verifier::external_body]
pub struct ExHeaderValue(http::HeaderValue);

/// The error of a header value that is not text.
#[verifier::external_type_specification]
#[verifier::external_body]
pub struct ExToStrError(http::header::ToStrError);

/// The bytes of the first value of each header, by the name of the header in lower case.
pub uninterp spec fn first_header_values(
    headers: http::HeaderMap<http::HeaderValue>,
) -> Map<Seq<char>, Seq<u8>>;

/// The bytes of a header value.
pub uninterp spec fn header_value_bytes(value: http::HeaderValue) -> Seq<u8>;

/// An ASCII letter in lower case, and any other character as it is.
pub open spec fn ascii_lower(c: char) -> char {
    if 'A' <= c <= 'Z' {
        ((c as u32) + 32) as char
    } else {
        c
    }
}

/// The key of a header: its name in lower case.
pub open spec fn header_key(name: Seq<char>) -> Seq<char> {
    name.map_values(|c: char| ascii_lower(c))
}

/// A byte that a header value may hold as text: a visible ASCII character, a space or a tab.
pub open spec fn is_header_text(b: u8) -> bool {
    32 <= b < 127 || b == 9
}

/// The text of a header value, where each of its bytes is text.
pub open spec fn header_text(bytes: Seq<u8>) -> Option<Seq<char>> {
    if forall|i: int| 0 <= i < bytes.len() ==> is_header_text(#[trigger] bytes[i]) {
        Some(bytes.map_values(|b: u8| b as char))
    } else {
        None
    }
}

/// The text of the first value of the header `name`.
pub open spec fn read_header(values: Map<Seq<char>, Seq<u8>>, name: Seq<char>) -> Option<Seq<char>> {
    match values.get(header_key(name)) {
        Some(bytes) => header_text(bytes),
        None => None,
    }
}

/// `http::HeaderMap::get` with a string: the first value of the header of that name, in whichever
/// case the name is written.
#[verifier::external_body]
fn first_value<'a>(
    headers: &'a http::HeaderMap<http::HeaderValue>,
    name: &str,
) -> (value: Option<&'a http::HeaderValue>)
    ensures
        value is Some <==> first_header_values(*headers).contains_key(header_key(name@)),
        value matches Some(v) ==> header_value_bytes(*v) == first_header_values(*headers)[header_key(
            name@,
        )],
{
    headers.get(name)
}

/// `http::HeaderValue::to_str`: the bytes as text, where all of them are text.
pub assume_specification[ http::HeaderValue::to_str ](value: &http::HeaderValue) -> (text: Result<
    &str,
    http::header::ToStrError,
>)
    ensures
        text is Ok <==> header_text(header_value_bytes(*value)) is Some,
        text matches Ok(t) ==> header_text(header_value_bytes(*value)) == Some(t@),
;

/// What an optional string stands for.
pub open spec fn text_view(text: Option<String>) -> Option<Seq<char>> {
    match text {
        Some(t) => Some(t@),
        None => None,
    }
}

/// The standard headers of an inbound HTTP request.
#[derive(Debug, Clone, PartialEq, Eq)]
pub struct McpHttpHeaders {
    /// Value of `Mcp-Method`, such as `tools/call`.
    pub method: Option<String>,
    /// Value of `Mcp-Name`, such as the name of the tool.
    pub name: Option<String>,
}

impl Default for McpHttpHeaders {
    fn default() -> (headers: McpHttpHeaders)
        ensures
            headers == (McpHttpHeaders { method: None, name: None }),
    {
        McpHttpHeaders { method: None, name: None }
    }
}

/// Reads the header `name` as text.
fn read(headers: &http::HeaderMap<http::HeaderValue>, name: &str) -> (text: Option<String>)
    ensures
        text_view(text) == read_header(first_header_values(*headers), name@),
{
    match first_value(headers, name) {
        Some(value) => match value.to_str() {
            Ok(text) => Some(text.to_owned()),
            Err(_) => None,
        },
        None => None,
    }
}

impl McpHttpHeaders {
    /// Reads [`MCP_METHOD_HEADER`] and [`MCP_NAME_HEADER`]. A header that is absent, or that is
    /// not text, leaves its field empty.
    pub fn from_header_map(headers: &http::HeaderMap<http::HeaderValue>) -> (extracted: McpHttpHeaders)
        ensures
            text_view(extracted.method) == read_header(
                first_header_values(*headers),
                MCP_METHOD_HEADER@,
            ),
            text_view(extracted.name) == read_header(first_header_values(*headers), MCP_NAME_HEADER@),
    {
        McpHttpHeaders {
            method: read(headers, MCP_METHOD_HEADER),
            name: read(headers, MCP_NAME_HEADER),
        }
    }

    /// Whether the request carried at least one of the standard headers.
    #[must_use]
    pub fn is_populated(&self) -> (populated: bool)
        ensures
            populated <==> self.method is Some || self.name is Some,
    {
        self.method.is_some() || self.name.is_some()
    }
}

/// Marking a parameter names it, keeps the names recorded before, and names no other.
pub proof fn marking_names_one_more_param(
    entries: Map<Seq<char>, JsonView>,
    param: Seq<char>,
    other: Seq<char>,
)
    ensures
        names_header_param(with_header_param(entries, param), other) <==> other == param
            || names_header_param(entries, other),
{
    let key = X_MCP_HEADER_PARAM_META_KEY@;
    let text = JsonView::String(other);
    match entries.get(key) {
        Some(JsonView::Array(a)) => {
            if !a.contains(JsonView::String(param)) {
                let longer = a.push(JsonView::String(param));
                if a.contains(text) {
                    assert(longer[a.index_of(text)] == text);
                }
                if other == param {
                    assert(longer[a.len() as int] == text);
                }
                if longer.contains(text) && other != param {
                    assert(a[longer.index_of(text)] == text);
                }
            }
        },
        Some(first) => {
            let pair = seq![first, JsonView::String(param)];
            assert(pair[0] == first);
            assert(pair[1] == JsonView::String(param));
        },
        None => {},
    }
}

/// Marking a parameter that is already marked changes nothing.
pub proof fn marking_again_changes_nothing(entries: Map<Seq<char>, JsonView>, param: Seq<char>)
    ensures
        with_header_param(with_header_param(entries, param), param) == with_header_param(
            entries,
            param,
        ),
{
    marking_names_one_more_param(entries, param, param);
    let once = with_header_param(entries, param);
    assert(with_header_param(once, param) =~= once);
}

/// Marking two parameters of a tool that had none marked lists both, in the order of the marks.
pub proof fn two_marks_make_a_list(
    entries: Map<Seq<char>, JsonView>,
    first: Seq<char>,
    second: Seq<char>,
)
    requires
        !entries.contains_key(X_MCP_HEADER_PARAM_META_KEY@),
        first != second,
    ensures
        with_header_param(with_header_param(entries, first), second)[X_MCP_HEADER_PARAM_META_KEY@]
            == JsonView::Array(seq![JsonView::String(first), JsonView::String(second)]),
{
}

/// A further mark goes to the end of the list.
pub proof fn a_further_mark_goes_last(
    entries: Map<Seq<char>, JsonView>,
    listed: Seq<JsonView>,
    param: Seq<char>,
)
    requires
        entries.contains_key(X_MCP_HEADER_PARAM_META_KEY@),
        entries[X_MCP_HEADER_PARAM_META_KEY@] == JsonView::Array(listed),
        !names_header_param(entries, param),
    ensures
        with_header_param(entries, param)[X_MCP_HEADER_PARAM_META_KEY@] == JsonView::Array(
            listed.push(JsonView::String(param)),
        ),
{
}

/// The `_meta` entries after the given parameters have been marked one after the other.
pub open spec fn with_header_params(
    entries: Map<Seq<char>, JsonView>,
    params: Seq<Seq<char>>,
) -> Map<Seq<char>, JsonView>
    decreases params.len(),
{
    if params.len() == 0 {
        entries
    } else {
        with_header_param(with_header_params(entries, params.drop_last()), params.last())
    }
}

/// The names in a list, each once, in the order of their first occurrence.
pub open spec fn distinct(params: Seq<Seq<char>>) -> Seq<Seq<char>>
    decreases params.len(),
{
    if params.len() == 0 {
        params
    } else {
        let before = distinct(params.drop_last());
        if before.contains(params.last()) {
            before
        } else {
            before.push(params.last())
        }
    }
}

/// The entry that lists the given names: a lone one is a string, and several are an array.
pub open spec fn names_entry(names: Seq<Seq<char>>) -> JsonView {
    if names.len() == 1 {
        JsonView::String(names[0])
    } else {
        JsonView::Array(names.map_values(|name: Seq<char>| JsonView::String(name)))
    }
}

/// Marking any number of parameters of a tool that had none marked records the distinct names in
/// the order of their first occurrence, a lone one as a string, and leaves the other entries as
/// they were.
pub proof fn marks_list_the_distinct_names(
    entries: Map<Seq<char>, JsonView>,
    params: Seq<Seq<char>>,
)
    requires
        !entries.contains_key(X_MCP_HEADER_PARAM_META_KEY@),
        params.len() > 0,
    ensures
        with_header_params(entries, params) == entries.insert(
            X_MCP_HEADER_PARAM_META_KEY@,
            names_entry(distinct(params)),
        ),
        distinct(params).len() > 0,
    decreases params.len(),
{
    let key = X_MCP_HEADER_PARAM_META_KEY@;
    let earlier = params.drop_last();
    let last = params.last();
    if earlier.len() == 0 {
        assert(with_header_params(entries, earlier) == entries);
        assert(distinct(earlier) =~= seq![]);
        assert(distinct(params) =~= seq![last]);
    } else {
        marks_list_the_distinct_names(entries, earlier);
        let names = distinct(earlier);
        let marked = with_header_params(entries, earlier);
        let listed = names.map_values(|name: Seq<char>| JsonView::String(name));
        assert(marked.get(key) == Some(names_entry(names)));
        if names.contains(last) {
            assert(listed[names.index_of(last)] == JsonView::String(last));
        } else if listed.contains(JsonView::String(last)) {
            assert(names[listed.index_of(JsonView::String(last))] == last);
        }
        if names.len() == 1 {
            if names.contains(last) {
                assert(names[0] == last);
            } else {
                assert(names[0] != last);
                assert(names.push(last).map_values(|name: Seq<char>| JsonView::String(name)) =~= seq![
                    JsonView::String(names[0]),
                    JsonView::String(last),
                ]);
            }
        } else {
            assert(names.push(last).map_values(|name: Seq<char>| JsonView::String(name))
                =~= listed.push(JsonView::String(last)));
        }
        assert(header_param_entry(marked.get(key), last) == names_entry(distinct(params)));
    }
    assert(with_header_params(entries, params) =~= entries.insert(
        key,
        names_entry(distinct(params)),
    ));
}

/// The distinct names of a list are its names, none of them twice, and one that occurs first
/// before another stands before it.
pub proof fn distinct_names_keep_their_order(params: Seq<Seq<char>>)
    ensures
        distinct(params).no_duplicates(),
        forall|name: Seq<char>| #[trigger]
            distinct(params).contains(name) <==> params.contains(name),
        forall|i: int, j: int|
            0 <= i < j < distinct(params).len() ==> #[trigger] params.index_of_first(
                distinct(params)[i],
            )->0 < #[trigger] params.index_of_first(distinct(params)[j])->0,
    decreases params.len(),
{
    broadcast use vstd::seq_lib::group_seq_properties;

    if params.len() > 0 {
        let earlier = params.drop_last();
        let last = params.last();
        distinct_names_keep_their_order(earlier);
        assert(params =~= earlier.push(last));
        assert forall|name: Seq<char>| earlier.contains(name) implies #[trigger] params.index_of_first(
            name,
        ) == earlier.index_of_first(name) by {
            lemma_first_index(earlier, name);
            lemma_first_index(params, name);
            let i = earlier.index_of_first(name)->0;
            let j = params.index_of_first(name)->0;
            assert(params[i] == name);
            assert(j <= i);
            assert(earlier[j] == name);
        }
        assert forall|name: Seq<char>| #[trigger] distinct(params).contains(name) <==> params.contains(
            name,
        ) by {
            assert(params.contains(name) <==> earlier.contains(name) || name == last);
            assert(distinct(earlier).contains(name) <==> earlier.contains(name));
        }
        assert forall|i: int, j: int|
            0 <= i < j < distinct(params).len() implies #[trigger] params.index_of_first(
            distinct(params)[i],
        )->0 < #[trigger] params.index_of_first(distinct(params)[j])->0 by {
            let names = distinct(earlier);
            let name = distinct(params)[i];
            assert(names[i] == name);
            assert(names.contains(name));
            assert(earlier.contains(name));
            lemma_first_index(earlier, name);
            if j < names.len() {
                assert(names.contains(names[j]));
                assert(earlier.contains(names[j]));
                assert(distinct(params)[j] == names[j]);
            } else {
                assert(distinct(params)[j] == last);
                assert(!earlier.contains(last));
                assert(params[params.len() - 1] == last);
                assert(params.contains(last));
                lemma_first_index(params, last);
                let k = params.index_of_first(last)->0;
                if k < earlier.len() {
                    assert(earlier[k] == last);
                }
            }
        }
    }
}

/// The place of the first occurrence of a name that occurs.
proof fn lemma_first_index(params: Seq<Seq<char>>, name: Seq<char>)
    requires
        params.contains(name),
    ensures
        params.index_of_first(name) matches Some(i) && 0 <= i < params.len() && params[i] == name
            && forall|j: int| 0 <= j < i ==> params[j] != name,
{
    params.index_of_first_ensures(name);
}

/// Marking a parameter leaves every other `_meta` entry as it was.
pub proof fn marking_keeps_other_entries(
    entries: Map<Seq<char>, JsonView>,
    param: Seq<char>,
    key: Seq<char>,
)
    requires
        key != X_MCP_HEADER_PARAM_META_KEY@,
    ensures
        with_header_param(entries, param).get(key) == entries.get(key),
{
}

/// The stand-alone meta is that of a tool without `_meta` on which the parameter was marked.
pub proof fn standalone_meta_agrees_with_the_mark(param: Seq<char>)
    ensures
        with_header_param(meta_entries(None), param) == Map::empty().insert(
            X_MCP_HEADER_PARAM_META_KEY@,
            JsonView::String(param),
        ),
{
}

/// How the name of a header is written, in upper or lower case, makes no difference.
pub proof fn header_names_ignore_case(values: Map<Seq<char>, Seq<u8>>, name: Seq<char>)
    ensures
        read_header(values, header_key(name)) == read_header(values, name),
        header_key(MCP_METHOD_HEADER@) == "mcp-method"@,
        header_key(MCP_NAME_HEADER@) == "mcp-name"@,
{
    assert(header_key(header_key(name)) =~= header_key(name));
    reveal_strlit("Mcp-Method");
    reveal_strlit("mcp-method");
    reveal_strlit("Mcp-Name");
    reveal_strlit("mcp-name");
    assert(header_key(MCP_METHOD_HEADER@) =~= "mcp-method"@);
    assert(header_key(MCP_NAME_HEADER@) =~= "mcp-name"@);
}

/// A request without the standard headers populates nothing.
pub proof fn absent_headers_populate_nothing(
    headers: http::HeaderMap<http::HeaderValue>,
    extracted: McpHttpHeaders,
)
    requires
        text_view(extracted.method) == read_header(first_header_values(headers), MCP_METHOD_HEADER@),
        text_view(extracted.name) == read_header(first_header_values(headers), MCP_NAME_HEADER@),
        !first_header_values(headers).contains_key("mcp-method"@),
        !first_header_values(headers).contains_key("mcp-name"@),
    ensures
        extracted == (McpHttpHeaders { method: None, name: None }),
{
    header_names_ignore_case(first_header_values(headers), MCP_METHOD_HEADER@);
}

} // verus!
