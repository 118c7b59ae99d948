//! The decoders: tag type, value, tag and document, each from a byte slice
//! and a position, each returning what it decoded and the position after it.
use crate::bytes::{has_room, read_i32, read_i64, read_u16, read_u32};
use crate::grammar::{
    has_bytes, le_signed, le_unsigned, spec_compound_items, spec_document, spec_document_strict,
    spec_list_items, spec_tag, spec_tag_type, spec_text, spec_top_tags, spec_value, tag_type_of,
};
use crate::model::{
    DecodeError, Document, DocumentModel, Tag, TagModel, TagType, Value, ValueModel, end_tag_model,
};
use crate::text::text_at;
use vstd::prelude::*;

verus! {

broadcast use vstd::std_specs::vec::axiom_vec_index_decreases;

/// The model of a compound built from the tags in `tags`.
pub open spec fn compound_of(tags: Seq<Tag>) -> Seq<TagModel> {
    tags.map_values(|t: Tag| t@)
}

/// The model of a list built from the values in `items`.
pub open spec fn items_of(items: Seq<Value>) -> Seq<ValueModel> {
    items.map_values(|v: Value| v@)
}

/// Reads a length-prefixed text at `pos`.
fn parse_text(data: &[u8], pos: usize) -> (r: Result<(String, usize), DecodeError>)
    requires
        pos <= data@.len(),
    ensures
        match r {
            Ok((s, p)) => spec_text(data@, pos as int) == Ok::<(Seq<char>, int), DecodeError>(
                (s@, p as int),
            ),
            Err(e) => spec_text(data@, pos as int) == Err::<(Seq<char>, int), DecodeError>(e),
        },
{
    let total: usize = data.len();
    if !has_room(data, pos, 2) {
        return Err(DecodeError::Io);
    }
    let n: usize = read_u16(data, pos);
    if !has_room(data, pos + 2, n) {
        return Err(DecodeError::Io);
    }
    let s = text_at(data, pos + 2, n);
    Ok((s, pos + 2 + n))
}

impl TagType {
    /// Decodes the one-byte tag type code at `pos`.
    pub fn parse(data: &[u8], pos: usize) -> (r: Result<(TagType, usize), DecodeError>)
        ensures
            match r {
                Ok((t, p)) => spec_tag_type(data@, pos as int) == Ok::<(TagType, int), DecodeError>(
                    (t, p as int),
                ),
                Err(e) => spec_tag_type(data@, pos as int) == Err::<(TagType, int), DecodeError>(
                    e,
                ),
            },
            r matches Ok((t, p)) ==> p == pos + 1 && tag_type_of(data@[pos as int]) == Some(t),
            r matches Err(DecodeError::InvalidFormat(b)) ==> pos < data@.len() && b == Some(
                data@[pos as int],
            ) && tag_type_of(data@[pos as int]) is None,
            r matches Err(DecodeError::Io) <==> pos >= data@.len(),
    {
        if pos >= data.len() {
            return Err(DecodeError::Io);
        }
        let b: u8 = data[pos];
        let t = match b {
            0 => TagType::End,
            1 => TagType::Byte,
            3 => TagType::Int32,
            4 => TagType::Int64,
            5 => TagType::Float,
            8 => TagType::String,
            9 => TagType::List,
            10 => TagType::Compound,
            _ => {
                return Err(DecodeError::InvalidFormat(Some(b)));
            },
        };
        Ok((t, pos + 1))
    }
}

impl Value {
    /// Decodes a value of type `tag_type` at `pos`. List elements are read
    /// as bare values; a compound reads tags up to its `End` tag.
    pub fn parse(data: &[u8], pos: usize, tag_type: TagType) -> (r: Result<
        (Value, usize),
        DecodeError,
    >)
        requires
            pos <= data@.len(),
        ensures
            match r {
                Ok((v, p)) => spec_value(data@, pos as int, tag_type) == Ok::<
                    (ValueModel, int),
                    DecodeError,
                >((v@, p as int)),
                Err(e) => spec_value(data@, pos as int, tag_type) == Err::<
                    (ValueModel, int),
                    DecodeError,
                >(e),
            },
            r matches Ok((v, p)) ==> pos < p <= data@.len(),
            tag_type is End ==> r matches Err(DecodeError::InvalidFormat(None)),
        decreases data@.len() - pos, 2int,
    {
        let total: usize = data.len();
        match tag_type {
            TagType::End => Err(DecodeError::InvalidFormat(None)),
            TagType::Byte => {
                if !has_room(data, pos, 1) {
                    return Err(DecodeError::Io);
                }
                Ok((Value::Byte(data[pos]), pos + 1))
            },
            TagType::Int32 => {
                if !has_room(data, pos, 4) {
                    return Err(DecodeError::Io);
                }
                Ok((Value::Int32(read_i32(data, pos)), pos + 4))
            },
            TagType::Int64 => {
                if !has_room(data, pos, 8) {
                    return Err(DecodeError::Io);
                }
                Ok((Value::Int64(read_i64(data, pos)), pos + 8))
            },
            TagType::Float => {
                if !has_room(data, pos, 4) {
                    return Err(DecodeError::Io);
                }
                Ok((Value::Float32(read_u32(data, pos)), pos + 4))
            },
            TagType::String => match parse_text(data, pos) {
                Ok((s, p)) => Ok((Value::Text(s), p)),
                Err(e) => Err(e),
            },
            TagType::List => {
                let (element_type, p1) = match TagType::parse(data, pos) {
                    Ok(x) => x,
                    Err(e) => {
                        return Err(e);
                    },
                };
                if !has_room(data, p1, 4) {
                    return Err(DecodeError::Io);
                }
                let count: u32 = read_u32(data, p1);
                let start: usize = p1 + 4;
                let mut items: Vec<Value> = Vec::new();
                let mut p: usize = start;
                let mut k: u32 = 0;
                while k < count
                    invariant
                        pos < start <= p <= data@.len(),
                        total == data@.len(),
                        tag_type == TagType::List,
                        spec_tag_type(data@, pos as int) == Ok::<(TagType, int), DecodeError>(
                            (element_type, p1 as int),
                        ),
                        has_bytes(data@, p1 as int, 4),
                        count as nat == le_unsigned(data@, p1 as int, 4),
                        k <= count,
                        start == p1 + 4,
                        spec_list_items(data@, start as int, element_type, count as nat) == match spec_list_items(
                            data@,
                            p as int,
                            element_type,
                            (count - k) as nat,
                        ) {
                            Ok((rest, q)) => Ok((items_of(items@) + rest, q)),
                            Err(e) => Err(e),
                        },
                    decreases count - k,
                {
                    let (v, p2) = match Value::parse(data, p, element_type) {
                        Ok(x) => x,
                        Err(e) => {
                            return Err(e);
                        },
                    };
                    let ghost old_items = items@;
                    items.push(v);
                    proof {
                        assert(items_of(items@) =~= items_of(old_items) + seq![v@]);
                        let a = spec_list_items(data@, p2 as int, element_type, (count - k - 1) as nat);
                        match a {
                            Ok((rest, q)) => {
                                assert(items_of(old_items) + (seq![v@] + rest) =~= items_of(items@) + rest);
                            },
                            Err(e) => {},
                        }
                    }
                    p = p2;
                    k = k + 1;
                }
                let ghost ms = items_of(items@);
                let r = Value::List(element_type, items);
                proof {
                    reveal_with_fuel(<Value as View>::view, 2);
                    assert(r@->List_1 =~= ms);
                    assert(ms + Seq::<ValueModel>::empty() =~= ms);
                }
                Ok((r, p))
            },
            TagType::Compound => {
                let mut tags: Vec<Tag> = Vec::new();
                let mut p: usize = pos;
                loop
                    invariant
                        pos <= p <= data@.len(),
                        total == data@.len(),
                        tag_type == TagType::Compound,
                        spec_compound_items(data@, pos as int) == match spec_compound_items(
                            data@,
                            p as int,
                        ) {
                            Ok((rest, q)) => Ok((compound_of(tags@) + rest, q)),
                            Err(e) => Err(e),
                        },
                    decreases data@.len() - p,
                {
                    let (tag, p2) = match Tag::parse(data, p) {
                        Ok(x) => x,
                        Err(e) => {
                            return Err(e);
                        },
                    };
                    if tag.tag_type == TagType::End {
                        let ghost ms = compound_of(tags@);
                        let r = Value::Compound(tags);
                        proof {
                            reveal_with_fuel(<Value as View>::view, 3);
                            assert(ms + Seq::<TagModel>::empty() =~= ms);
                            assert(r@->Compound_0 =~= ms);
                        }
                        return Ok((r, p2));
                    }
                    let ghost old_tags = tags@;
                    tags.push(tag);
                    proof {
                        assert(compound_of(tags@) =~= compound_of(old_tags) + seq![tag@]);
                        match spec_compound_items(data@, p2 as int) {
                            Ok((rest, q)) => {
                                assert(compound_of(old_tags) + (seq![tag@] + rest) =~= compound_of(tags@) + rest);
                            },
                            Err(e) => {},
                        }
                    }
                    p = p2;
                }
            },
        }
    }
}

impl Tag {
    /// Decodes a tag at `pos`: its type code, then, unless the type is
    /// `End`, its key and its value.
    pub fn parse(data: &[u8], pos: usize) -> (r: Result<(Tag, usize), DecodeError>)
        requires
            pos <= data@.len(),
        ensures
            match r {
                Ok((t, p)) => spec_tag(data@, pos as int) == Ok::<(TagModel, int), DecodeError>(
                    (t@, p as int),
                ),
                Err(e) => spec_tag(data@, pos as int) == Err::<(TagModel, int), DecodeError>(e),
            },
            r matches Ok((t, p)) ==> pos < p <= data@.len(),
        decreases data@.len() - pos, 0int,
    {
        let (tag_type, p1) = match TagType::parse(data, pos) {
            Ok(x) => x,
            Err(e) => {
                return Err(e);
            },
        };
        if tag_type == TagType::End {
            let t = Tag { tag_type, key: String::new(), value: None };
            assert(t@.key =~= end_tag_model().key);
            return Ok((t, p1));
        }
        let (key, p2) = match parse_text(data, p1) {
            Ok(x) => x,
            Err(e) => {
                return Err(e);
            },
        };
        Tag::typed_parse(data, p2, key, tag_type)
    }

    /// Decodes the value of type `tag_type` at `pos` and makes it, with
    /// `key`, a tag.
    pub fn typed_parse(data: &[u8], pos: usize, key: String, tag_type: TagType) -> (r: Result<
        (Tag, usize),
        DecodeError,
    >)
        requires
            pos <= data@.len(),
        ensures
            match spec_value(data@, pos as int, tag_type) {
                Ok((v, q)) => r matches Ok((t, p)) && p == q && t@ == TagModel {
                    tag_type,
                    key: key@,
                    value: Some(v),
                },
                Err(e) => r == Err::<(Tag, usize), DecodeError>(e),
            },
            r matches Ok((t, p)) ==> pos < p <= data@.len(),
        decreases data@.len() - pos, 3int,
    {
        let (value, p) = match Value::parse(data, pos, tag_type) {
            Ok(x) => x,
            Err(e) => {
                return Err(e);
            },
        };
        Ok((Tag { tag_type, key, value: Some(value) }, p))
    }
}

impl Document {
    /// Reads a document leniently: the 8-byte header (format version, then
    /// payload length, each a signed little-endian 32-bit integer) is
    /// required; the top-level tags are read until an `End` tag, and a tag
    /// that fails to decode ends the sequence quietly, keeping the tags read
    /// before it.
    pub fn read(data: &[u8]) -> (r: Result<Document, DecodeError>)
        ensures
            match r {
                Ok(d) => spec_document(data@) == Ok::<DocumentModel, DecodeError>(d@),
                Err(e) => spec_document(data@) == Err::<DocumentModel, DecodeError>(e),
            },
            r is Err <==> data@.len() < 8,
    {
        if !has_room(data, 0, 8) {
            return Err(DecodeError::Io);
        }
        let format_version = read_i32(data, 0);
        let payload_length = read_i32(data, 4);
        let mut tags: Vec<Tag> = Vec::new();
        let mut p: usize = 8;
        loop
            invariant
                8 <= p <= data@.len(),
                format_version as int == le_signed(data@, 0, 4),
                payload_length as int == le_signed(data@, 4, 4),
                spec_top_tags(data@, 8) == compound_of(tags@) + spec_top_tags(data@, p as int),
            ensures
                8 <= p <= data@.len(),
                format_version as int == le_signed(data@, 0, 4),
                payload_length as int == le_signed(data@, 4, 4),
                spec_top_tags(data@, 8) == compound_of(tags@) + spec_top_tags(data@, p as int),
                spec_top_tags(data@, p as int) == Seq::<TagModel>::empty(),
            decreases data@.len() - p,
        {
            let (tag, p2) = match Tag::parse(data, p) {
                Ok(x) => x,
                Err(_) => {
                    break ;
                },
            };
            if tag.tag_type == TagType::End {
                break ;
            }
            let ghost old_tags = tags@;
            tags.push(tag);
            proof {
                assert(compound_of(tags@) =~= compound_of(old_tags) + seq![tag@]);
                assert(compound_of(old_tags) + (seq![tag@] + spec_top_tags(data@, p2 as int))
                    =~= compound_of(tags@) + spec_top_tags(data@, p2 as int));
            }
            p = p2;
        }
        proof {
            assert(compound_of(tags@) + Seq::<TagModel>::empty() =~= compound_of(tags@));
        }
        let d = Document { format_version, payload_length, tags };
        assert(d@.tags =~= spec_top_tags(data@, 8));
        Ok(d)
    }

    /// Reads a document strictly: as `read`, but the top-level tags must end
    /// with an `End` tag, and the first fault is returned as the error.
    pub fn read_strict(data: &[u8]) -> (r: Result<Document, DecodeError>)
        ensures
            match r {
                Ok(d) => spec_document_strict(data@) == Ok::<DocumentModel, DecodeError>(d@),
                Err(e) => spec_document_strict(data@) == Err::<DocumentModel, DecodeError>(e),
            },
    {
        if !has_room(data, 0, 8) {
            return Err(DecodeError::Io);
        }
        let format_version = read_i32(data, 0);
        let payload_length = read_i32(data, 4);
        let mut tags: Vec<Tag> = Vec::new();
        let mut p: usize = 8;
        loop
            invariant
                8 <= p <= data@.len(),
                format_version as int == le_signed(data@, 0, 4),
                payload_length as int == le_signed(data@, 4, 4),
                spec_compound_items(data@, 8) == match spec_compound_items(data@, p as int) {
                    Ok((rest, q)) => Ok((compound_of(tags@) + rest, q)),
                    Err(e) => Err(e),
                },
            decreases data@.len() - p,
        {
            let (tag, p2) = match Tag::parse(data, p) {
                Ok(x) => x,
                Err(e) => {
                    return Err(e);
                },
            };
            if tag.tag_type == TagType::End {
                proof {
                    assert(compound_of(tags@) + Seq::<TagModel>::empty() =~= compound_of(tags@));
                }
                let d = Document { format_version, payload_length, tags };
                assert(d@.tags =~= compound_of(tags@));
                return Ok(d);
            }
            let ghost old_tags = tags@;
            tags.push(tag);
            proof {
                assert(compound_of(tags@) =~= compound_of(old_tags) + seq![tag@]);
                match spec_compound_items(data@, p2 as int) {
                    Ok((rest, q)) => {
                        assert(compound_of(old_tags) + (seq![tag@] + rest) =~= compound_of(tags@)
                            + rest);
                    },
                    Err(e) => {},
                }
            }
            p = p2;
        }
    }
}

} // verus!
