//! Lenient UTF-8 decoding of keys and strings.
use vstd::prelude::*;

verus! {

/// The text that lenient UTF-8 decoding gives for `bytes`: malformed
/// sequences become the replacement character.
pub uninterp spec fn lossy_utf8(bytes: Seq<u8>) -> Seq<char>;

/// Relies on `String::from_utf8_lossy`: the text depends on the bytes alone,
/// and no bytes give no text.
#[verifier::external_body]
fn lossy_text(bytes: &[u8]) -> (r: String)
    ensures
        r@ == lossy_utf8(bytes@),
        bytes@.len() == 0 ==> r@.len() == 0,
{
    String::from_utf8_lossy(bytes).into_owned()
}

/// Decodes `len` bytes of `data` from `start` on as lenient UTF-8.
pub fn text_at(data: &[u8], start: usize, len: usize) -> (r: String)
    requires
        start + len <= data@.len(),
    ensures
        r@ == lossy_utf8(data@.subrange(start as int, start + len)),
{
    let total: usize = data.len();
    let mut bytes: Vec<u8> = Vec::new();
    let mut i: usize = 0;
    while i < len
        invariant
            i <= len,
            start + len <= total,
            total == data@.len(),
            bytes@ == data@.subrange(start as int, start + i),
        decreases len - i,
    {
        bytes.push(data[start + i]);
        i = i + 1;
        assert(bytes@ =~= data@.subrange(start as int, start + i));
    }
    lossy_text(bytes.as_slice())
}

} // verus!
