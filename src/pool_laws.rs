//! The constant pool decoder inverts the pool encoding.
use vstd::prelude::*;

use crate::error::Error;
use crate::pool::{entry_spec, fixed_entry, fixed_width, is_wide, pool_spec, slots_of, utf8_at, ConstantPool, ConstantPoolItem};
use crate::reader::{be16, be32, be64};

verus! {

/// The two big-endian bytes of `v`.
pub open spec fn be_bytes2(v: int) -> Seq<u8> {
    seq![(v / 256) as u8, (v % 256) as u8]
}

/// The four big-endian bytes of `v`.
pub open spec fn be_bytes4(v: int) -> Seq<u8> {
    be_bytes2(v / 65536) + be_bytes2(v % 65536)
}

/// The eight big-endian bytes of `v`.
pub open spec fn be_bytes8(v: int) -> Seq<u8> {
    be_bytes4(v / 0x1_0000_0000) + be_bytes4(v % 0x1_0000_0000)
}

pub open spec fn unsigned32(v: int) -> int {
    if v < 0 { v + 0x1_0000_0000 } else { v }
}

pub open spec fn unsigned64(v: int) -> int {
    if v < 0 { v + 0x1_0000_0000_0000_0000 } else { v }
}

/// The encoding of one pool entry; `text` is the content of a Utf8 entry
/// (whose location fields the encoding ignores).
pub open spec fn entry_bytes(it: ConstantPoolItem, text: Seq<u8>) -> Seq<u8> {
    match it {
        ConstantPoolItem::Utf8 { .. } => seq![1u8] + be_bytes2(text.len() as int) + text,
        ConstantPoolItem::Class { name_index } => seq![7u8] + be_bytes2(name_index.0 as int),
        ConstantPoolItem::String { string_index } => seq![8u8] + be_bytes2(string_index.0 as int),
        ConstantPoolItem::MethodType { descriptor_index } => seq![16u8] + be_bytes2(descriptor_index.0 as int),
        ConstantPoolItem::Module { name_index } => seq![19u8] + be_bytes2(name_index.0 as int),
        ConstantPoolItem::Package { name_index } => seq![20u8] + be_bytes2(name_index.0 as int),
        ConstantPoolItem::MethodHandle { reference } => seq![15u8, reference.kind] + be_bytes2(reference.index as int),
        ConstantPoolItem::Integer { value } => seq![3u8] + be_bytes4(unsigned32(value as int)),
        ConstantPoolItem::Float { bits } => seq![4u8] + be_bytes4(bits as int),
        ConstantPoolItem::Fieldref { class_index, name_and_type_index } => seq![9u8] + be_bytes2(class_index.0 as int)
            + be_bytes2(name_and_type_index.0 as int),
        ConstantPoolItem::Methodref { class_index, name_and_type_index } => seq![10u8] + be_bytes2(class_index.0 as int)
            + be_bytes2(name_and_type_index.0 as int),
        ConstantPoolItem::InterfaceMethodref { class_index, name_and_type_index } => seq![11u8] + be_bytes2(
            class_index.0 as int,
        ) + be_bytes2(name_and_type_index.0 as int),
        ConstantPoolItem::NameAndType { name_index, descriptor_index } => seq![12u8] + be_bytes2(name_index.0 as int)
            + be_bytes2(descriptor_index.0 as int),
        ConstantPoolItem::Dynamic { bootstrap_method_attr_index, name_and_type_index } => seq![17u8] + be_bytes2(
            bootstrap_method_attr_index.0 as int,
        ) + be_bytes2(name_and_type_index.0 as int),
        ConstantPoolItem::InvokeDynamic { bootstrap_method_attr_index, name_and_type_index } => seq![18u8]
            + be_bytes2(bootstrap_method_attr_index.0 as int) + be_bytes2(name_and_type_index.0 as int),
        ConstantPoolItem::Long { value } => seq![5u8] + be_bytes8(unsigned64(value as int)),
        ConstantPoolItem::Double { bits } => seq![6u8] + be_bytes8(bits as int),
        ConstantPoolItem::Skip => seq![],
    }
}

/// An entry that can be encoded: not a Skip slot, and Utf8 content that is
/// valid UTF-8 of at most 65535 bytes.
pub open spec fn encodable(it: ConstantPoolItem, text: Seq<u8>) -> bool {
    &&& !(it is Skip)
    &&& it is Utf8 ==> text.len() < 0x10000 && vstd::utf8::valid_utf8(text)
}

/// The entry as the decoder yields it when its encoding starts at `q`.
pub open spec fn placed(it: ConstantPoolItem, text: Seq<u8>, q: int) -> ConstantPoolItem {
    if it is Utf8 {
        ConstantPoolItem::Utf8 { start: (q + 3) as usize, len: text.len() as usize }
    } else {
        it
    }
}

/// The first 16-bit operand of an entry with 16-bit operands.
pub open spec fn first_u16(it: ConstantPoolItem) -> int {
    match it {
        ConstantPoolItem::Class { name_index } => name_index.0 as int,
        ConstantPoolItem::String { string_index } => string_index.0 as int,
        ConstantPoolItem::MethodType { descriptor_index } => descriptor_index.0 as int,
        ConstantPoolItem::Module { name_index } => name_index.0 as int,
        ConstantPoolItem::Package { name_index } => name_index.0 as int,
        ConstantPoolItem::Fieldref { class_index, .. } => class_index.0 as int,
        ConstantPoolItem::Methodref { class_index, .. } => class_index.0 as int,
        ConstantPoolItem::InterfaceMethodref { class_index, .. } => class_index.0 as int,
        ConstantPoolItem::NameAndType { name_index, .. } => name_index.0 as int,
        ConstantPoolItem::Dynamic { bootstrap_method_attr_index, .. } => bootstrap_method_attr_index.0 as int,
        ConstantPoolItem::InvokeDynamic { bootstrap_method_attr_index, .. } => bootstrap_method_attr_index.0 as int,
        _ => 0,
    }
}

/// The second 16-bit operand of an entry with two of them.
pub open spec fn second_u16(it: ConstantPoolItem) -> int {
    match it {
        ConstantPoolItem::Fieldref { name_and_type_index, .. } => name_and_type_index.0 as int,
        ConstantPoolItem::Methodref { name_and_type_index, .. } => name_and_type_index.0 as int,
        ConstantPoolItem::InterfaceMethodref { name_and_type_index, .. } => name_and_type_index.0 as int,
        ConstantPoolItem::NameAndType { descriptor_index, .. } => descriptor_index.0 as int,
        ConstantPoolItem::Dynamic { name_and_type_index, .. } => name_and_type_index.0 as int,
        ConstantPoolItem::InvokeDynamic { name_and_type_index, .. } => name_and_type_index.0 as int,
        _ => 0,
    }
}

proof fn lemma_be2(b: Seq<u8>, q: int, v: int)
    requires
        0 <= v < 0x10000,
        0 <= q,
        q + 2 <= b.len(),
        b.subrange(q, q + 2) == be_bytes2(v),
    ensures
        be16(b, q) == v,
{
    assert(b[q] == b.subrange(q, q + 2)[0]);
    assert(b[q + 1] == b.subrange(q, q + 2)[1]);
}

proof fn lemma_be4(b: Seq<u8>, q: int, v: int)
    requires
        0 <= v < 0x1_0000_0000,
        0 <= q,
        q + 4 <= b.len(),
        b.subrange(q, q + 4) == be_bytes4(v),
    ensures
        be32(b, q) == v,
{
    assert(b.subrange(q, q + 2) =~= b.subrange(q, q + 4).subrange(0, 2));
    assert(b.subrange(q + 2, q + 4) =~= b.subrange(q, q + 4).subrange(2, 4));
    assert(be_bytes4(v).subrange(0, 2) =~= be_bytes2(v / 65536));
    assert(be_bytes4(v).subrange(2, 4) =~= be_bytes2(v % 65536));
    lemma_be2(b, q, v / 65536);
    lemma_be2(b, q + 2, v % 65536);
}

proof fn lemma_be8(b: Seq<u8>, q: int, v: int)
    requires
        0 <= v < 0x1_0000_0000_0000_0000,
        0 <= q,
        q + 8 <= b.len(),
        b.subrange(q, q + 8) == be_bytes8(v),
    ensures
        be64(b, q) == v,
{
    assert(b.subrange(q, q + 4) =~= b.subrange(q, q + 8).subrange(0, 4));
    assert(b.subrange(q + 4, q + 8) =~= b.subrange(q, q + 8).subrange(4, 8));
    assert(be_bytes8(v).subrange(0, 4) =~= be_bytes4(v / 0x1_0000_0000));
    assert(be_bytes8(v).subrange(4, 8) =~= be_bytes4(v % 0x1_0000_0000));
    lemma_be4(b, q, v / 0x1_0000_0000);
    lemma_be4(b, q + 4, v % 0x1_0000_0000);
}

/// One encoded entry decodes to itself.
pub proof fn lemma_entry_round_trip(b: Seq<u8>, q: int, it: ConstantPoolItem, text: Seq<u8>)
    requires
        encodable(it, text),
        0 <= q,
        q + entry_bytes(it, text).len() <= b.len(),
        b.subrange(q, q + entry_bytes(it, text).len()) == entry_bytes(it, text),
    ensures
        entry_spec(b, q) == Ok::<(ConstantPoolItem, int), Error>((placed(it, text, q), q + entry_bytes(it, text).len())),
{
    let e = entry_bytes(it, text);
    let n = e.len() as int;
    assert(b[q] == e[0]);
    if it is Utf8 {
        assert(b.subrange(q + 1, q + 3) =~= e.subrange(1, 3));
        assert(e.subrange(1, 3) =~= be_bytes2(text.len() as int));
        lemma_be2(b, q + 1, text.len() as int);
        assert(b.subrange(q + 3, q + n) =~= e.subrange(3, n));
        assert(e.subrange(3, n) =~= text);
    } else {
        assert(fixed_width(e[0]) == n - 1);
        match it {
            ConstantPoolItem::Integer { value } => {
                assert(b.subrange(q + 1, q + 5) =~= e.subrange(1, 5));
                assert(e.subrange(1, 5) =~= be_bytes4(unsigned32(value as int)));
                lemma_be4(b, q + 1, unsigned32(value as int));
            },
            ConstantPoolItem::Float { bits } => {
                assert(b.subrange(q + 1, q + 5) =~= e.subrange(1, 5));
                assert(e.subrange(1, 5) =~= be_bytes4(bits as int));
                lemma_be4(b, q + 1, bits as int);
            },
            ConstantPoolItem::Long { value } => {
                assert(b.subrange(q + 1, q + 9) =~= e.subrange(1, 9));
                assert(e.subrange(1, 9) =~= be_bytes8(unsigned64(value as int)));
                lemma_be8(b, q + 1, unsigned64(value as int));
            },
            ConstantPoolItem::Double { bits } => {
                assert(b.subrange(q + 1, q + 9) =~= e.subrange(1, 9));
                assert(e.subrange(1, 9) =~= be_bytes8(bits as int));
                lemma_be8(b, q + 1, bits as int);
            },
            ConstantPoolItem::MethodHandle { reference } => {
                assert(b[q + 1] == e[1]);
                assert(b.subrange(q + 2, q + 4) =~= e.subrange(2, 4));
                assert(e.subrange(2, 4) =~= be_bytes2(reference.index as int));
                lemma_be2(b, q + 2, reference.index as int);
            },
            ConstantPoolItem::Class { .. } | ConstantPoolItem::String { .. } | ConstantPoolItem::MethodType { .. }
            | ConstantPoolItem::Module { .. } | ConstantPoolItem::Package { .. } => {
                assert(b.subrange(q + 1, q + 3) =~= e.subrange(1, 3));
                assert(e.subrange(1, 3) =~= be_bytes2(first_u16(it)));
                lemma_be2(b, q + 1, first_u16(it));
            },
            _ => {
                assert(b.subrange(q + 1, q + 3) =~= e.subrange(1, 3));
                assert(b.subrange(q + 3, q + 5) =~= e.subrange(3, 5));
                assert(e.subrange(1, 3) =~= be_bytes2(first_u16(it)));
                assert(e.subrange(3, 5) =~= be_bytes2(second_u16(it)));
                lemma_be2(b, q + 1, first_u16(it));
                lemma_be2(b, q + 3, second_u16(it));
            },
        }
        assert(fixed_entry(b, e[0], q + 1) == it);
    }
}

/// The encoding of a run of entries.
pub open spec fn pool_bytes(es: Seq<(ConstantPoolItem, Seq<u8>)>) -> Seq<u8>
    decreases es.len(),
{
    if es.len() == 0 {
        seq![]
    } else {
        entry_bytes(es[0].0, es[0].1) + pool_bytes(es.subrange(1, es.len() as int))
    }
}

/// The number of pool slots a run of entries occupies.
pub open spec fn slot_count(es: Seq<(ConstantPoolItem, Seq<u8>)>) -> int
    decreases es.len(),
{
    if es.len() == 0 {
        0
    } else {
        slots_of(es[0].0).len() + slot_count(es.subrange(1, es.len() as int))
    }
}

/// The slots the decoder yields for a run of entries encoded from `q` on.
pub open spec fn decoded(es: Seq<(ConstantPoolItem, Seq<u8>)>, q: int) -> Seq<ConstantPoolItem>
    decreases es.len(),
{
    if es.len() == 0 {
        seq![]
    } else {
        slots_of(placed(es[0].0, es[0].1, q)) + decoded(es.subrange(1, es.len() as int), q + entry_bytes(es[0].0, es[0].1).len())
    }
}

pub open spec fn all_encodable(es: Seq<(ConstantPoolItem, Seq<u8>)>) -> bool {
    forall|j: int| 0 <= j < es.len() ==> encodable(#[trigger] es[j].0, es[j].1)
}

proof fn lemma_pool_decodes(b: Seq<u8>, q: int, es: Seq<(ConstantPoolItem, Seq<u8>)>, i: int, count: int)
    requires
        all_encodable(es),
        0 <= q,
        q + pool_bytes(es).len() <= b.len(),
        b.subrange(q, q + pool_bytes(es).len()) == pool_bytes(es),
        count == i + slot_count(es),
    ensures
        pool_spec(b, q, i, count) == Ok::<(Seq<ConstantPoolItem>, int), Error>((decoded(es, q), q + pool_bytes(es).len())),
    decreases es.len(),
{
    if es.len() > 0 {
        let (it, text) = es[0];
        let e = entry_bytes(it, text);
        let rest = es.subrange(1, es.len() as int);
        assert(encodable(es[0].0, es[0].1));
        assert(pool_bytes(es) == e + pool_bytes(rest));
        assert(b.subrange(q, q + e.len()) =~= pool_bytes(es).subrange(0, e.len() as int));
        assert(pool_bytes(es).subrange(0, e.len() as int) =~= e);
        lemma_entry_round_trip(b, q, it, text);
        assert(b.subrange(q + e.len(), q + e.len() + pool_bytes(rest).len()) =~= pool_bytes(es).subrange(
            e.len() as int,
            pool_bytes(es).len() as int,
        ));
        assert(pool_bytes(es).subrange(e.len() as int, pool_bytes(es).len() as int) =~= pool_bytes(rest));
        assert forall|j: int| 0 <= j < rest.len() implies encodable(#[trigger] rest[j].0, rest[j].1) by {
            assert(rest[j] == es[j + 1]);
        }
        assert(slots_of(placed(it, text, q)).len() == slots_of(it).len());
        assert(is_wide(placed(it, text, q)) == is_wide(it));
        lemma_decoded_len(rest, q + e.len());
        assert(i < count);
        lemma_pool_decodes(b, q + e.len(), rest, i + slots_of(it).len(), count);
        assert(decoded(es, q) == slots_of(placed(it, text, q)) + decoded(rest, q + e.len()));
    }
}

proof fn lemma_decoded_index(es: Seq<(ConstantPoolItem, Seq<u8>)>, q: int, j: int)
    requires
        0 <= j < es.len(),
    ensures
        0 <= slot_count(es.take(j)) < decoded(es, q).len(),
        decoded(es, q).len() == slot_count(es),
        pool_bytes(es.take(j)).len() + entry_bytes(es[j].0, es[j].1).len() <= pool_bytes(es).len(),
        decoded(es, q)[slot_count(es.take(j))] == placed(es[j].0, es[j].1, q + pool_bytes(es.take(j)).len()),
        pool_bytes(es).subrange(
            pool_bytes(es.take(j)).len() as int,
            (pool_bytes(es.take(j)).len() + entry_bytes(es[j].0, es[j].1).len()) as int,
        ) == entry_bytes(es[j].0, es[j].1),
    decreases j,
{
    let (it, text) = es[0];
    let e = entry_bytes(it, text);
    let rest = es.subrange(1, es.len() as int);
    assert(es.take(0) =~= Seq::<(ConstantPoolItem, Seq<u8>)>::empty());
    lemma_decoded_len(rest, q + e.len());
    assert(slots_of(placed(it, text, q)).len() == slots_of(it).len());
    if j == 0 {
        assert(pool_bytes(es).subrange(0, e.len() as int) =~= e);
    } else {
        lemma_decoded_index(rest, q + e.len(), j - 1);
        assert(es.take(j).subrange(1, j) =~= rest.take(j - 1));
        assert(es.take(j)[0] == es[0]);
        assert(rest[j - 1] == es[j]);
        let pre = pool_bytes(rest.take(j - 1)).len() as int;
        let ej = entry_bytes(es[j].0, es[j].1);
        assert(pool_bytes(es) == e + pool_bytes(rest));
        assert(pool_bytes(es).subrange(e.len() + pre, e.len() + pre + ej.len()) =~= pool_bytes(rest).subrange(pre as int, pre + ej.len()));
    }
}

proof fn lemma_decoded_len(es: Seq<(ConstantPoolItem, Seq<u8>)>, q: int)
    ensures
        decoded(es, q).len() == slot_count(es),
        slot_count(es) >= 0,
    decreases es.len(),
{
    if es.len() > 0 {
        assert(slots_of(placed(es[0].0, es[0].1, q)).len() == slots_of(es[0].0).len());
        lemma_decoded_len(es.subrange(1, es.len() as int), q + entry_bytes(es[0].0, es[0].1).len());
    }
}

/// An encoded constant pool decodes: its 16-bit count followed by the
/// encodings of its entries yields exactly those entries' slots (a Skip after
/// each Long or Double), and decoding stops right after the last encoding.
pub proof fn lemma_encoded_pool_decodes(b: Seq<u8>, p: int, es: Seq<(ConstantPoolItem, Seq<u8>)>)
    requires
        all_encodable(es),
        0 <= p,
        1 + slot_count(es) < 0x10000,
        p + 2 + pool_bytes(es).len() <= b.len(),
        b.subrange(p, p + 2) == be_bytes2(1 + slot_count(es)),
        b.subrange(p + 2, p + 2 + pool_bytes(es).len()) == pool_bytes(es),
    ensures
        pool_spec(b, p + 2, 1, be16(b, p)) == Ok::<(Seq<ConstantPoolItem>, int), Error>((
            decoded(es, p + 2),
            p + 2 + pool_bytes(es).len(),
        )),
        decoded(es, p + 2).len() == slot_count(es),
{
    lemma_decoded_len(es, p + 2);
    lemma_be2(b, p, 1 + slot_count(es));
    lemma_pool_decodes(b, p + 2, es, 1, 1 + slot_count(es));
}

/// Decoding an encoded constant pool and resolving the index of any of its
/// entries gives back that entry: a Utf8 entry its text, any other entry
/// itself, field for field.
pub proof fn lemma_pool_round_trip(pool: ConstantPool, p: int, end: int, es: Seq<(ConstantPoolItem, Seq<u8>)>, j: int)
    requires
        all_encodable(es),
        0 <= j < es.len(),
        0 <= p,
        1 + slot_count(es) < 0x10000,
        p + 2 + pool_bytes(es).len() <= pool.data@.len(),
        pool.data@.subrange(p, p + 2) == be_bytes2(1 + slot_count(es)),
        pool.data@.subrange(p + 2, p + 2 + pool_bytes(es).len()) == pool_bytes(es),
        pool_spec(pool.data@, p + 2, 1, be16(pool.data@, p)) == Ok::<(Seq<ConstantPoolItem>, int), Error>((pool.items@, end)),
    ensures
        1 + slot_count(es.take(j)) < 0x10000,
        es[j].0 is Utf8 ==> utf8_at(pool, (1 + slot_count(es.take(j))) as u16) == Ok::<Seq<u8>, Error>(es[j].1),
        !(es[j].0 is Utf8) ==> pool.entry_at((1 + slot_count(es.take(j))) as u16) == Ok::<ConstantPoolItem, Error>(es[j].0),
{
    let b = pool.data@;
    assert(pool.data@.len() == pool.data.len());
    lemma_decoded_len(es, p + 2);
    lemma_be2(b, p, 1 + slot_count(es));
    lemma_pool_decodes(b, p + 2, es, 1, 1 + slot_count(es));
    lemma_decoded_index(es, p + 2, j);
    assert(pool.items@ == decoded(es, p + 2));
    let k = slot_count(es.take(j));
    let pos = p + 2 + pool_bytes(es.take(j)).len();
    let (it, text) = es[j];
    assert(encodable(es[j].0, es[j].1));
    assert(pool.items@[k] == placed(it, text, pos));
    if it is Utf8 {
        let e = entry_bytes(it, text);
        let pj = pool_bytes(es.take(j)).len() as int;
        assert forall|k: int| 0 <= k < e.len() implies #[trigger] b.subrange(pos, pos + e.len())[k] == pool_bytes(es).subrange(pj, pj + e.len())[k] by {
            assert(b.subrange(p + 2, p + 2 + pool_bytes(es).len())[pj + k] == b[p + 2 + pj + k]);
        }
        assert(b.subrange(pos, pos + e.len()) =~= pool_bytes(es).subrange(pj, pj + e.len()));
        assert(b.subrange(pos + 3, pos + 3 + text.len()) =~= e.subrange(3, e.len() as int));
        assert(e.subrange(3, e.len() as int) =~= text);
        assert(pool.items@[k] == ConstantPoolItem::Utf8 { start: (pos + 3) as usize, len: text.len() as usize });
        assert(pool.entry_at((1 + k) as u16) == Ok::<ConstantPoolItem, Error>(pool.items@[k]));
    }
}

} // verus!
