//! Tests for texts that the client would not show as they are. They change nothing.

use vstd::prelude::*;
use vstd::utf8::encode_utf8;

verus! {

/// Size in bytes at which the client cuts off tool descriptions and server instructions.
pub const SIZE_LIMIT_BYTES: usize = 2 * 1024;

/// A text that the client would cut off.
#[derive(Debug, PartialEq)]
pub struct SizeWarning {
    /// What the text belongs to.
    pub label: String,
    /// Its size in bytes.
    pub size: usize,
    /// The size at which it is cut off.
    pub limit: usize,
}

/// The warning that is due for a text, where it is over the limit.
pub fn size_warning(label: &str, body: &str) -> (warning: Option<SizeWarning>)
    ensures
        warning is Some <==> encode_utf8(body@).len() > SIZE_LIMIT_BYTES,
        warning matches Some(w) ==> w.label@ == label@ && w.size == encode_utf8(body@).len()
            && w.limit == SIZE_LIMIT_BYTES,
{
    let size = body.as_bytes().len();
    if size > SIZE_LIMIT_BYTES {
        Some(SizeWarning { label: label.to_string(), size, limit: SIZE_LIMIT_BYTES })
    } else {
        None
    }
}

/// Whether a warning is due for a text: whether it is longer than [`SIZE_LIMIT_BYTES`].
pub fn warn_if_over_2kb(label: &str, body: &str) -> (warned: bool)
    ensures
        warned <==> encode_utf8(body@).len() > SIZE_LIMIT_BYTES,
{
    size_warning(label, body).is_some()
}

} // verus!
