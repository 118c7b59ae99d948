//! Properties of the grammar: the type-code table, rejection of unknown
//! codes, and round trips through an encoder of leaf values.
use crate::bytes::lemma_pow256_values;
use crate::grammar::{
    code_of, le_signed, le_unsigned, pow256, spec_tag, spec_tag_type, spec_text,
    spec_value, tag_type_of,
};
use crate::model::{DecodeError, TagModel, TagType, ValueModel};
use crate::text::lossy_utf8;
use vstd::prelude::*;

verus! {

/// The `n` little-endian bytes of `u`.
pub open spec fn le_bytes(u: nat, n: nat) -> Seq<u8>
    decreases n,
{
    if n == 0 {
        Seq::empty()
    } else {
        seq![(u % 256) as u8] + le_bytes(u / 256, (n - 1) as nat)
    }
}

/// The unsigned integer whose `n` bytes hold `x` in two's complement.
pub open spec fn twos_complement(x: int, n: nat) -> nat {
    if x < 0 {
        (x + pow256(n)) as nat
    } else {
        x as nat
    }
}

/// Whether a value has no children, so that its encoding is a leaf's.
pub open spec fn is_leaf(v: ValueModel) -> bool {
    v is Byte || v is Int32 || v is Int64 || v is Float32
}

/// The tag type that a value is decoded with.
pub open spec fn type_of_value(v: ValueModel) -> TagType {
    match v {
        ValueModel::Byte(_) => TagType::Byte,
        ValueModel::Int32(_) => TagType::Int32,
        ValueModel::Int64(_) => TagType::Int64,
        ValueModel::Float32(_) => TagType::Float,
        ValueModel::Text(_) => TagType::String,
        ValueModel::List(_, _) => TagType::List,
        ValueModel::Compound(_) => TagType::Compound,
    }
}

/// The wire bytes of a numeric leaf value.
pub open spec fn encode_leaf(v: ValueModel) -> Seq<u8> {
    match v {
        ValueModel::Byte(b) => seq![b],
        ValueModel::Int32(n) => le_bytes(twos_complement(n as int, 4), 4),
        ValueModel::Int64(n) => le_bytes(twos_complement(n as int, 8), 8),
        ValueModel::Float32(bits) => le_bytes(bits as nat, 4),
        _ => Seq::empty(),
    }
}

/// The wire bytes of a text value whose UTF-8 bytes are `bytes`.
pub open spec fn encode_text(bytes: Seq<u8>) -> Seq<u8> {
    le_bytes(bytes.len(), 2) + bytes
}

/// The `n` bytes at `pos` that `le_bytes` wrote are read back as `u`.
pub proof fn lemma_le_bytes_read(s: Seq<u8>, pos: int, u: nat, n: nat)
    requires
        0 <= pos,
        pos + n <= s.len(),
        u < pow256(n),
        s.subrange(pos, pos + n) == le_bytes(u, n),
    ensures
        le_unsigned(s, pos, n) == u,
    decreases n,
{
    if n > 0 {
        let p = pow256((n - 1) as nat);
        assert(pow256(n) == 256 * p);
        assert(u / 256 < p) by (nonlinear_arith)
            requires
                u < 256 * p,
        ;
        assert(le_bytes(u, n)[0] == (u % 256) as u8);
        assert(s[pos] == s.subrange(pos, pos + n)[0]);
        assert(s.subrange(pos + 1, pos + n) =~= s.subrange(pos, pos + n).subrange(1, n as int));
        assert(le_bytes(u, n).subrange(1, n as int) =~= le_bytes(u / 256, (n - 1) as nat));
        lemma_le_bytes_read(s, pos + 1, u / 256, (n - 1) as nat);
    }
}

/// `le_bytes` writes exactly `n` bytes.
pub proof fn lemma_le_bytes_len(u: nat, n: nat)
    ensures
        le_bytes(u, n).len() == n,
    decreases n,
{
    if n > 0 {
        lemma_le_bytes_len(u / 256, (n - 1) as nat);
    }
}

/// Every byte names a tag type exactly when it is one of the eight codes,
/// and the named type's code is that byte.
pub proof fn lemma_type_code_table(b: u8)
    ensures
        tag_type_of(b) is Some <==> (b == 0 || b == 1 || b == 3 || b == 4 || b == 5 || b == 8 || b
            == 9 || b == 10),
        tag_type_of(b) matches Some(t) ==> code_of(t) == b,
{
}

/// Each tag type's code names that type again.
pub proof fn lemma_code_names_type(t: TagType)
    ensures
        tag_type_of(code_of(t)) == Some(t),
{
}

/// A byte that names no tag type (such as 2), wherever a type code is
/// expected, fails that decode with `InvalidFormat` carrying the byte: as a
/// tag's type, and as a list's element type.
pub proof fn lemma_unknown_code_rejected(data: Seq<u8>, pos: int)
    requires
        0 <= pos < data.len(),
        tag_type_of(data[pos]) is None,
    ensures
        spec_tag_type(data, pos) == Err::<(TagType, int), DecodeError>(
            DecodeError::InvalidFormat(Some(data[pos])),
        ),
        spec_tag(data, pos) == Err::<(TagModel, int), DecodeError>(
            DecodeError::InvalidFormat(Some(data[pos])),
        ),
        spec_value(data, pos, TagType::List) == Err::<(ValueModel, int), DecodeError>(
            DecodeError::InvalidFormat(Some(data[pos])),
        ),
        tag_type_of(2) is None,
{
}

/// A value of type `End` never decodes: the result is `InvalidFormat`,
/// whatever the bytes.
pub proof fn lemma_end_has_no_value(data: Seq<u8>, pos: int)
    ensures
        spec_value(data, pos, TagType::End) == Err::<(ValueModel, int), DecodeError>(
            DecodeError::InvalidFormat(None),
        ),
{
}

/// Decoding the encoding of a numeric leaf value gives the value back, and
/// stops right after its bytes, whatever follows them.
pub proof fn lemma_leaf_round_trip(v: ValueModel, rest: Seq<u8>)
    requires
        is_leaf(v),
    ensures
        spec_value(encode_leaf(v) + rest, 0, type_of_value(v)) == Ok::<(ValueModel, int), DecodeError>(
            (v, encode_leaf(v).len() as int),
        ),
{
    lemma_pow256_values();
    let e = encode_leaf(v);
    let s = e + rest;
    match v {
        ValueModel::Byte(b) => {
            assert(s[0] == b);
        },
        ValueModel::Int32(n) => {
            let u = twos_complement(n as int, 4);
            lemma_le_bytes_len(u, 4);
            assert(s.subrange(0, 4) =~= e);
            lemma_le_bytes_read(s, 0, u, 4);
            assert(le_signed(s, 0, 4) == n as int);
        },
        ValueModel::Int64(n) => {
            let u = twos_complement(n as int, 8);
            lemma_le_bytes_len(u, 8);
            assert(s.subrange(0, 8) =~= e);
            lemma_le_bytes_read(s, 0, u, 8);
            assert(le_signed(s, 0, 8) == n as int);
        },
        ValueModel::Float32(bits) => {
            lemma_le_bytes_len(bits as nat, 4);
            assert(s.subrange(0, 4) =~= e);
            lemma_le_bytes_read(s, 0, bits as nat, 4);
        },
        _ => {},
    }
}

/// Decoding the encoding of a text given by its bytes gives the lenient
/// decoding of those bytes, and stops right after them, whatever follows.
pub proof fn lemma_text_round_trip(bytes: Seq<u8>, rest: Seq<u8>)
    requires
        bytes.len() < 0x1_0000,
    ensures
        spec_value(encode_text(bytes) + rest, 0, TagType::String) == Ok::<
            (ValueModel, int),
            DecodeError,
        >((ValueModel::Text(lossy_utf8(bytes)), 2 + bytes.len() as int)),
{
    lemma_pow256_values();
    let s = encode_text(bytes) + rest;
    lemma_le_bytes_len(bytes.len(), 2);
    assert(s.subrange(0, 2) =~= le_bytes(bytes.len(), 2));
    lemma_le_bytes_read(s, 0, bytes.len(), 2);
    assert(s.subrange(2, 2 + bytes.len() as int) =~= bytes);
    assert(spec_text(s, 0) == Ok::<(Seq<char>, int), DecodeError>(
        (lossy_utf8(bytes), 2 + bytes.len() as int),
    ));
}

} // verus!
