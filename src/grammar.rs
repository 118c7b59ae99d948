//! The wire grammar, as spec functions over a byte sequence and a position.
//! Each function gives the decoded model and the position just after it, or
//! the error that a decoder meets first.
use crate::model::{DecodeError, DocumentModel, TagModel, TagType, ValueModel, end_tag_model};
use crate::text::lossy_utf8;
use vstd::prelude::*;

verus! {

/// The tag type of a wire code, if it is one.
pub open spec fn tag_type_of(b: u8) -> Option<TagType> {
    if b == 0 {
        Some(TagType::End)
    } else if b == 1 {
        Some(TagType::Byte)
    } else if b == 3 {
        Some(TagType::Int32)
    } else if b == 4 {
        Some(TagType::Int64)
    } else if b == 5 {
        Some(TagType::Float)
    } else if b == 8 {
        Some(TagType::String)
    } else if b == 9 {
        Some(TagType::List)
    } else if b == 10 {
        Some(TagType::Compound)
    } else {
        None
    }
}

/// The wire code of a tag type.
pub open spec fn code_of(t: TagType) -> u8 {
    match t {
        TagType::End => 0,
        TagType::Byte => 1,
        TagType::Int32 => 3,
        TagType::Int64 => 4,
        TagType::Float => 5,
        TagType::String => 8,
        TagType::List => 9,
        TagType::Compound => 10,
    }
}

/// Whether `n` bytes are there from `pos` on.
pub open spec fn has_bytes(data: Seq<u8>, pos: int, n: int) -> bool {
    0 <= pos && pos + n <= data.len()
}

/// Unsigned little-endian integer of the `n` bytes from `pos` on.
pub open spec fn le_unsigned(data: Seq<u8>, pos: int, n: nat) -> nat
    decreases n,
{
    if n == 0 {
        0
    } else {
        data[pos] as nat + 256 * le_unsigned(data, pos + 1, (n - 1) as nat)
    }
}

/// Two's-complement reading of the `n` bytes from `pos` on.
pub open spec fn le_signed(data: Seq<u8>, pos: int, n: nat) -> int {
    let u = le_unsigned(data, pos, n);
    if u >= pow256(n) / 2 {
        u - pow256(n)
    } else {
        u as int
    }
}

/// 256 to the power `n`.
pub open spec fn pow256(n: nat) -> nat
    decreases n,
{
    if n == 0 {
        1
    } else {
        256 * pow256((n - 1) as nat)
    }
}

/// A tag type code at `pos`.
pub open spec fn spec_tag_type(data: Seq<u8>, pos: int) -> Result<(TagType, int), DecodeError> {
    if !has_bytes(data, pos, 1) {
        Err(DecodeError::Io)
    } else {
        match tag_type_of(data[pos]) {
            Some(t) => Ok((t, pos + 1)),
            None => Err(DecodeError::InvalidFormat(Some(data[pos]))),
        }
    }
}

/// A length-prefixed text at `pos`: two bytes of length, then that many
/// bytes, decoded leniently.
pub open spec fn spec_text(data: Seq<u8>, pos: int) -> Result<(Seq<char>, int), DecodeError> {
    if !has_bytes(data, pos, 2) {
        Err(DecodeError::Io)
    } else {
        let n = le_unsigned(data, pos, 2) as int;
        if !has_bytes(data, pos + 2, n) {
            Err(DecodeError::Io)
        } else {
            Ok((lossy_utf8(data.subrange(pos + 2, pos + 2 + n)), pos + 2 + n))
        }
    }
}

/// A value of type `t` at `pos`.
pub open spec fn spec_value(data: Seq<u8>, pos: int, t: TagType) -> Result<
    (ValueModel, int),
    DecodeError,
>
    decreases data.len() - pos, 2int,
{
    match t {
        TagType::End => Err(DecodeError::InvalidFormat(None)),
        TagType::Byte => if !has_bytes(data, pos, 1) {
            Err(DecodeError::Io)
        } else {
            Ok((ValueModel::Byte(data[pos]), pos + 1))
        },
        TagType::Int32 => if !has_bytes(data, pos, 4) {
            Err(DecodeError::Io)
        } else {
            Ok((ValueModel::Int32(le_signed(data, pos, 4) as i32), pos + 4))
        },
        TagType::Int64 => if !has_bytes(data, pos, 8) {
            Err(DecodeError::Io)
        } else {
            Ok((ValueModel::Int64(le_signed(data, pos, 8) as i64), pos + 8))
        },
        TagType::Float => if !has_bytes(data, pos, 4) {
            Err(DecodeError::Io)
        } else {
            Ok((ValueModel::Float32(le_unsigned(data, pos, 4) as u32), pos + 4))
        },
        TagType::String => match spec_text(data, pos) {
            Ok((s, p)) => Ok((ValueModel::Text(s), p)),
            Err(e) => Err(e),
        },
        TagType::List => match spec_tag_type(data, pos) {
            Err(e) => Err(e),
            Ok((et, p1)) => if !has_bytes(data, p1, 4) {
                Err(DecodeError::Io)
            } else {
                let n = le_unsigned(data, p1, 4);
                match spec_list_items(data, p1 + 4, et, n) {
                    Ok((items, p2)) => Ok((ValueModel::List(et, items), p2)),
                    Err(e) => Err(e),
                }
            },
        },
        TagType::Compound => match spec_compound_items(data, pos) {
            Ok((tags, p)) => Ok((ValueModel::Compound(tags), p)),
            Err(e) => Err(e),
        },
    }
}

/// `n` values of type `t`, one after another from `pos` on.
pub open spec fn spec_list_items(data: Seq<u8>, pos: int, t: TagType, n: nat) -> Result<
    (Seq<ValueModel>, int),
    DecodeError,
>
    decreases data.len() - pos, 3int,
{
    if n == 0 {
        Ok((Seq::empty(), pos))
    } else {
        match spec_value(data, pos, t) {
            Err(e) => Err(e),
            Ok((v, p1)) => if !(pos < p1 <= data.len()) {
                Err(DecodeError::Io)
            } else {
                match spec_list_items(data, p1, t, (n - 1) as nat) {
                    Ok((rest, p2)) => Ok((seq![v] + rest, p2)),
                    Err(e) => Err(e),
                }
            },
        }
    }
}

/// Tags from `pos` on up to and including an `End` tag, which is left out of
/// the result.
pub open spec fn spec_compound_items(data: Seq<u8>, pos: int) -> Result<
    (Seq<TagModel>, int),
    DecodeError,
>
    decreases data.len() - pos, 1int,
{
    match spec_tag(data, pos) {
        Err(e) => Err(e),
        Ok((tag, p1)) => if tag.tag_type == TagType::End {
            Ok((Seq::empty(), p1))
        } else if !(pos < p1 <= data.len()) {
            Err(DecodeError::Io)
        } else {
            match spec_compound_items(data, p1) {
                Ok((rest, p2)) => Ok((seq![tag] + rest, p2)),
                Err(e) => Err(e),
            }
        },
    }
}

/// A tag at `pos`: its type code, then, unless it is `End`, its key and its
/// value.
pub open spec fn spec_tag(data: Seq<u8>, pos: int) -> Result<(TagModel, int), DecodeError>
    decreases data.len() - pos, 0int,
{
    match spec_tag_type(data, pos) {
        Err(e) => Err(e),
        Ok((t, p1)) => if t == TagType::End {
            Ok((end_tag_model(), p1))
        } else {
            match spec_text(data, p1) {
                Err(e) => Err(e),
                Ok((key, p2)) => match spec_value(data, p2, t) {
                    Err(e) => Err(e),
                    Ok((v, p3)) => Ok((TagModel { tag_type: t, key, value: Some(v) }, p3)),
                },
            }
        },
    }
}

/// The top-level tags from `pos` on, read leniently: the sequence stops
/// before an `End` tag or before the first tag that fails to decode.
pub open spec fn spec_top_tags(data: Seq<u8>, pos: int) -> Seq<TagModel>
    decreases data.len() - pos,
{
    match spec_tag(data, pos) {
        Err(_) => Seq::empty(),
        Ok((tag, p1)) => if tag.tag_type == TagType::End || !(pos < p1 <= data.len()) {
            Seq::empty()
        } else {
            seq![tag] + spec_top_tags(data, p1)
        },
    }
}

/// Size of the document header: format version and payload length.
pub open spec fn header_len() -> int {
    8
}

/// A document read leniently: the header is required, the tag stream stops
/// quietly at its first fault.
pub open spec fn spec_document(data: Seq<u8>) -> Result<DocumentModel, DecodeError> {
    if !has_bytes(data, 0, header_len()) {
        Err(DecodeError::Io)
    } else {
        Ok(
            DocumentModel {
                format_version: le_signed(data, 0, 4) as i32,
                payload_length: le_signed(data, 4, 4) as i32,
                tags: spec_top_tags(data, header_len()),
            },
        )
    }
}

/// A document read strictly: the tag stream must end with an `End` tag, and
/// the first fault in it is the result.
pub open spec fn spec_document_strict(data: Seq<u8>) -> Result<DocumentModel, DecodeError> {
    if !has_bytes(data, 0, header_len()) {
        Err(DecodeError::Io)
    } else {
        match spec_compound_items(data, header_len()) {
            Err(e) => Err(e),
            Ok((tags, _)) => Ok(
                DocumentModel {
                    format_version: le_signed(data, 0, 4) as i32,
                    payload_length: le_signed(data, 4, 4) as i32,
                    tags,
                },
            ),
        }
    }
}

} // verus!
