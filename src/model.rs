//! The decoded tree: tag types, values, tags and documents, with their
//! mathematical models.
use vstd::prelude::*;

verus! {

broadcast use vstd::std_specs::vec::axiom_vec_index_decreases;

/// The one-byte discriminant that says how a tag's value is laid out.
/// Wire codes: End 0, Byte 1, Int32 3, Int64 4, Float 5, String 8, List 9,
/// Compound 10; every other byte is invalid.
#[derive(Clone, Copy, Debug, PartialEq, Eq, Structural)]
pub enum TagType {
    End,
    Byte,
    Int32,
    Int64,
    Float,
    String,
    List,
    Compound,
}

/// Why a decode attempt failed.
#[derive(Clone, Copy, Debug, PartialEq, Eq, Structural)]
pub enum DecodeError {
    /// The input ended before the bytes that the grammar asks for.
    Io,
    /// A byte that is no tag type (carried here), or a value requested for
    /// the `End` type (no byte carried).
    InvalidFormat(Option<u8>),
}

/// The model of a decoded value.
pub enum ValueModel {
    Byte(u8),
    Int32(i32),
    Int64(i64),
    Float32(u32),
    Text(Seq<char>),
    List(TagType, Seq<ValueModel>),
    Compound(Seq<TagModel>),
}

/// The model of a decoded tag.
pub struct TagModel {
    pub tag_type: TagType,
    pub key: Seq<char>,
    pub value: Option<ValueModel>,
}

/// The model of a decoded document.
pub struct DocumentModel {
    pub format_version: i32,
    pub payload_length: i32,
    pub tags: Seq<TagModel>,
}

/// A decoded value. A 32-bit float is kept as its IEEE-754 bit pattern.
#[derive(Debug)]
pub enum Value {
    Byte(u8),
    Int32(i32),
    Int64(i64),
    Float32(u32),
    Text(String),
    List(TagType, Vec<Value>),
    Compound(Vec<Tag>),
}

/// A keyed, typed node of the tree. An `End` tag has an empty key and no value.
#[derive(Debug)]
pub struct Tag {
    pub tag_type: TagType,
    pub key: String,
    pub value: Option<Value>,
}

/// A decoded document: its header fields and its top-level tags.
#[derive(Debug)]
pub struct Document {
    pub format_version: i32,
    pub payload_length: i32,
    pub tags: Vec<Tag>,
}

impl View for Value {
    type V = ValueModel;

    open spec fn view(&self) -> ValueModel
        decreases self,
    {
        match self {
            Value::Byte(b) => ValueModel::Byte(*b),
            Value::Int32(n) => ValueModel::Int32(*n),
            Value::Int64(n) => ValueModel::Int64(*n),
            Value::Float32(bits) => ValueModel::Float32(*bits),
            Value::Text(s) => ValueModel::Text(s@),
            Value::List(t, items) => ValueModel::List(
                *t,
                Seq::new(
                    items.len() as nat,
                    |i: int|
                        if 0 <= i < items.len() {
                            items[i].view()
                        } else {
                            ValueModel::Byte(0)
                        },
                ),
            ),
            Value::Compound(tags) => ValueModel::Compound(
                Seq::new(
                    tags.len() as nat,
                    |i: int|
                        if 0 <= i < tags.len() {
                            tags[i].view()
                        } else {
                            end_tag_model()
                        },
                ),
            ),
        }
    }
}

impl View for Tag {
    type V = TagModel;

    open spec fn view(&self) -> TagModel
        decreases self,
    {
        TagModel {
            tag_type: self.tag_type,
            key: self.key@,
            value: match &self.value {
                Some(v) => Some(v.view()),
                None => None,
            },
        }
    }
}

impl View for Document {
    type V = DocumentModel;

    open spec fn view(&self) -> DocumentModel {
        DocumentModel {
            format_version: self.format_version,
            payload_length: self.payload_length,
            tags: self.tags@.map_values(|t: Tag| t@),
        }
    }
}

/// The terminator tag: no key, no value.
pub open spec fn end_tag_model() -> TagModel {
    TagModel { tag_type: TagType::End, key: Seq::empty(), value: None }
}

} // verus!
