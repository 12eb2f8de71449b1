//! The constant pool: its entries, its decoder, and typed indices into it.
use vstd::prelude::*;

use crate::error::{DecodeError, EntryKind, Error, PoolError};
use crate::reader::{be16, be32, be64, read_u16, read_u32, read_u64, read_u8, signed32, signed64, truncated};

verus! {

/// An index that must name a Utf8 entry.
#[derive(Clone, Copy, Debug, PartialEq, Eq, Structural)]
pub struct Utf8Index(pub u16);

/// An index that must name a Class entry.
#[derive(Clone, Copy, Debug, PartialEq, Eq, Structural)]
pub struct ClassIndex(pub u16);

/// An index that must name a NameAndType entry.
#[derive(Clone, Copy, Debug, PartialEq, Eq, Structural)]
pub struct NameAndTypeIndex(pub u16);

/// An index that must name a MethodHandle entry.
#[derive(Clone, Copy, Debug, PartialEq, Eq, Structural)]
pub struct MethodHandleIndex(pub u16);

/// A 0-based index into the class's BootstrapMethods table.
#[derive(Clone, Copy, Debug, PartialEq, Eq, Structural)]
pub struct BootstrapMethodAttrInfo(pub u16);

/// The operand of a MethodHandle entry: a reference kind (1..=9) and the
/// index of the field or method it refers to.
#[derive(Clone, Copy, Debug, PartialEq, Eq, Structural)]
pub struct Reference {
    pub kind: u8,
    pub index: u16,
}

/// One slot of the constant pool.
///
/// Utf8 entries locate their bytes in the class file held by the pool;
/// Float and Double entries keep their IEEE 754 bit patterns.
#[allow(inconsistent_fields)]
#[derive(Clone, Copy, Debug, PartialEq, Eq, Structural)]
pub enum ConstantPoolItem {
    Class { name_index: Utf8Index },
    Fieldref { class_index: ClassIndex, name_and_type_index: NameAndTypeIndex },
    Methodref { class_index: ClassIndex, name_and_type_index: NameAndTypeIndex },
    InterfaceMethodref { class_index: ClassIndex, name_and_type_index: NameAndTypeIndex },
    String { string_index: Utf8Index },
    Integer { value: i32 },
    Float { bits: u32 },
    Long { value: i64 },
    Double { bits: u64 },
    NameAndType { name_index: Utf8Index, descriptor_index: Utf8Index },
    Utf8 { start: usize, len: usize },
    MethodHandle { reference: Reference },
    MethodType { descriptor_index: Utf8Index },
    Dynamic {
        bootstrap_method_attr_index: BootstrapMethodAttrInfo,
        name_and_type_index: NameAndTypeIndex,
    },
    InvokeDynamic {
        bootstrap_method_attr_index: BootstrapMethodAttrInfo,
        name_and_type_index: NameAndTypeIndex,
    },
    Module { name_index: Utf8Index },
    Package { name_index: Utf8Index },
    /// The unusable slot that follows a Long or Double entry.
    Skip,
}

/// The kind of an entry. A Skip slot has no kind of its own: lookups report
/// it as padding before they ever ask for a kind, so its value here is moot.
pub open spec fn kind_of(it: ConstantPoolItem) -> EntryKind {
    match it {
        ConstantPoolItem::Class { .. } => EntryKind::Class,
        ConstantPoolItem::Fieldref { .. } => EntryKind::Fieldref,
        ConstantPoolItem::Methodref { .. } => EntryKind::Methodref,
        ConstantPoolItem::InterfaceMethodref { .. } => EntryKind::InterfaceMethodref,
        ConstantPoolItem::String { .. } => EntryKind::String,
        ConstantPoolItem::Integer { .. } => EntryKind::Integer,
        ConstantPoolItem::Float { .. } => EntryKind::Float,
        ConstantPoolItem::Long { .. } => EntryKind::Long,
        ConstantPoolItem::Double { .. } => EntryKind::Double,
        ConstantPoolItem::NameAndType { .. } => EntryKind::NameAndType,
        ConstantPoolItem::Utf8 { .. } => EntryKind::Utf8,
        ConstantPoolItem::MethodHandle { .. } => EntryKind::MethodHandle,
        ConstantPoolItem::MethodType { .. } => EntryKind::MethodType,
        ConstantPoolItem::Dynamic { .. } => EntryKind::Dynamic,
        ConstantPoolItem::InvokeDynamic { .. } => EntryKind::InvokeDynamic,
        ConstantPoolItem::Module { .. } => EntryKind::Module,
        ConstantPoolItem::Package { .. } | ConstantPoolItem::Skip => EntryKind::Package,
    }
}

impl ConstantPoolItem {
    /// The kind of this entry (a Skip slot is never handed out as an entry).
    pub fn kind(&self) -> (r: EntryKind)
        requires
            !(*self is Skip),
        ensures
            r == kind_of(*self),
    {
        match self {
            ConstantPoolItem::Class { .. } => EntryKind::Class,
            ConstantPoolItem::Fieldref { .. } => EntryKind::Fieldref,
            ConstantPoolItem::Methodref { .. } => EntryKind::Methodref,
            ConstantPoolItem::InterfaceMethodref { .. } => EntryKind::InterfaceMethodref,
            ConstantPoolItem::String { .. } => EntryKind::String,
            ConstantPoolItem::Integer { .. } => EntryKind::Integer,
            ConstantPoolItem::Float { .. } => EntryKind::Float,
            ConstantPoolItem::Long { .. } => EntryKind::Long,
            ConstantPoolItem::Double { .. } => EntryKind::Double,
            ConstantPoolItem::NameAndType { .. } => EntryKind::NameAndType,
            ConstantPoolItem::Utf8 { .. } => EntryKind::Utf8,
            ConstantPoolItem::MethodHandle { .. } => EntryKind::MethodHandle,
            ConstantPoolItem::MethodType { .. } => EntryKind::MethodType,
            ConstantPoolItem::Dynamic { .. } => EntryKind::Dynamic,
            ConstantPoolItem::InvokeDynamic { .. } => EntryKind::InvokeDynamic,
            ConstantPoolItem::Module { .. } => EntryKind::Module,
            ConstantPoolItem::Package { .. } | ConstantPoolItem::Skip => EntryKind::Package,
        }
    }
}

/// The number of bytes after the tag of a fixed-size entry, or 0 for a tag
/// that names no fixed-size entry.
pub open spec fn fixed_width(tag: u8) -> int {
    if tag == 7 || tag == 8 || tag == 16 || tag == 19 || tag == 20 {
        2
    } else if tag == 15 {
        3
    } else if tag == 3 || tag == 4 || tag == 9 || tag == 10 || tag == 11 || tag == 12 || tag
        == 17 || tag == 18 {
        4
    } else if tag == 5 || tag == 6 {
        8
    } else {
        0
    }
}

/// The fixed-size entry with tag `tag` whose operand bytes start at `q`.
pub open spec fn fixed_entry(b: Seq<u8>, tag: u8, q: int) -> ConstantPoolItem {
    let u1 = be16(b, q) as u16;
    let u2 = be16(b, q + 2) as u16;
    if tag == 7 {
        ConstantPoolItem::Class { name_index: Utf8Index(u1) }
    } else if tag == 8 {
        ConstantPoolItem::String { string_index: Utf8Index(u1) }
    } else if tag == 16 {
        ConstantPoolItem::MethodType { descriptor_index: Utf8Index(u1) }
    } else if tag == 19 {
        ConstantPoolItem::Module { name_index: Utf8Index(u1) }
    } else if tag == 20 {
        ConstantPoolItem::Package { name_index: Utf8Index(u1) }
    } else if tag == 15 {
        ConstantPoolItem::MethodHandle {
            reference: Reference { kind: b[q], index: be16(b, q + 1) as u16 },
        }
    } else if tag == 3 {
        ConstantPoolItem::Integer { value: signed32(be32(b, q)) as i32 }
    } else if tag == 4 {
        ConstantPoolItem::Float { bits: be32(b, q) as u32 }
    } else if tag == 9 {
        ConstantPoolItem::Fieldref {
            class_index: ClassIndex(u1),
            name_and_type_index: NameAndTypeIndex(u2),
        }
    } else if tag == 10 {
        ConstantPoolItem::Methodref {
            class_index: ClassIndex(u1),
            name_and_type_index: NameAndTypeIndex(u2),
        }
    } else if tag == 11 {
        ConstantPoolItem::InterfaceMethodref {
            class_index: ClassIndex(u1),
            name_and_type_index: NameAndTypeIndex(u2),
        }
    } else if tag == 12 {
        ConstantPoolItem::NameAndType {
            name_index: Utf8Index(u1),
            descriptor_index: Utf8Index(u2),
        }
    } else if tag == 17 {
        ConstantPoolItem::Dynamic {
            bootstrap_method_attr_index: BootstrapMethodAttrInfo(u1),
            name_and_type_index: NameAndTypeIndex(u2),
        }
    } else if tag == 18 {
        ConstantPoolItem::InvokeDynamic {
            bootstrap_method_attr_index: BootstrapMethodAttrInfo(u1),
            name_and_type_index: NameAndTypeIndex(u2),
        }
    } else if tag == 5 {
        ConstantPoolItem::Long { value: signed64(be64(b, q)) as i64 }
    } else {
        ConstantPoolItem::Double { bits: be64(b, q) as u64 }
    }
}

/// The entry encoded at `p`, and the position just after it.
pub open spec fn entry_spec(b: Seq<u8>, p: int) -> Result<(ConstantPoolItem, int), Error> {
    if p >= b.len() {
        Err(truncated())
    } else {
        let tag = b[p];
        if tag == 1 {
            if p + 3 > b.len() {
                Err(truncated())
            } else {
                let n = be16(b, p + 1);
                if p + 3 + n > b.len() {
                    Err(truncated())
                } else if !vstd::utf8::valid_utf8(b.subrange(p + 3, p + 3 + n)) {
                    Err(Error::BinaryError(DecodeError::InvalidUtf8))
                } else {
                    Ok((ConstantPoolItem::Utf8 { start: (p + 3) as usize, len: n as usize }, p + 3 + n))
                }
            }
        } else if fixed_width(tag) == 0 {
            Err(Error::BinaryError(DecodeError::UnknownTag(tag)))
        } else if p + 1 + fixed_width(tag) > b.len() {
            Err(truncated())
        } else {
            Ok((fixed_entry(b, tag, p + 1), p + 1 + fixed_width(tag)))
        }
    }
}

/// Relies on `core::str::from_utf8`, which accepts exactly the well-formed
/// UTF-8 byte sequences.
#[verifier::external_body]
fn is_utf8(b: &[u8]) -> (r: bool)
    ensures
        r == vstd::utf8::valid_utf8(b@),
{
    core::str::from_utf8(b).is_ok()
}

/// Decodes the entry at `p`.
pub fn parse_entry(b: &[u8], p: usize) -> (r: Result<(ConstantPoolItem, usize), Error>)
    ensures
        match r {
            Ok((it, q)) => entry_spec(b@, p as int) == Ok::<(ConstantPoolItem, int), Error>((it, q as int)),
            Err(e) => entry_spec(b@, p as int) == Err::<(ConstantPoolItem, int), Error>(e),
        },
{
    if p >= b.len() {
        return Err(Error::BinaryError(DecodeError::UnexpectedEnd));
    }
    let tag = b[p];
    let q = p + 1;
    if tag == 1 {
        let n = read_u16(b, q)? as usize;
        if b.len() - q < 2 || b.len() - (q + 2) < n {
            return Err(Error::BinaryError(DecodeError::UnexpectedEnd));
        }
        let text = vstd::slice::slice_subrange(b, q + 2, q + 2 + n);
        if !is_utf8(text) {
            return Err(Error::BinaryError(DecodeError::InvalidUtf8));
        }
        return Ok((ConstantPoolItem::Utf8 { start: q + 2, len: n }, q + 2 + n));
    }
    let item = if tag == 7 || tag == 8 || tag == 16 || tag == 19 || tag == 20 {
        let u1 = read_u16(b, q)?;
        if tag == 7 {
            ConstantPoolItem::Class { name_index: Utf8Index(u1) }
        } else if tag == 8 {
            ConstantPoolItem::String { string_index: Utf8Index(u1) }
        } else if tag == 16 {
            ConstantPoolItem::MethodType { descriptor_index: Utf8Index(u1) }
        } else if tag == 19 {
            ConstantPoolItem::Module { name_index: Utf8Index(u1) }
        } else {
            ConstantPoolItem::Package { name_index: Utf8Index(u1) }
        }
    } else if tag == 15 {
        let kind = read_u8(b, q)?;
        let index = read_u16(b, q + 1)?;
        ConstantPoolItem::MethodHandle { reference: Reference { kind, index } }
    } else if tag == 3 || tag == 4 || tag == 9 || tag == 10 || tag == 11 || tag == 12 || tag == 17
        || tag == 18 {
        if b.len() - q < 4 {
            return Err(Error::BinaryError(DecodeError::UnexpectedEnd));
        }
        let w = read_u32(b, q)?;
        let u1 = read_u16(b, q)?;
        let u2 = read_u16(b, q + 2)?;
        if tag == 3 {
            let value: i32 = if w >= 0x8000_0000 {
                (w as i64 - 0x1_0000_0000) as i32
            } else {
                w as i32
            };
            ConstantPoolItem::Integer { value }
        } else if tag == 4 {
            ConstantPoolItem::Float { bits: w }
        } else if tag == 9 {
            ConstantPoolItem::Fieldref {
                class_index: ClassIndex(u1),
                name_and_type_index: NameAndTypeIndex(u2),
            }
        } else if tag == 10 {
            ConstantPoolItem::Methodref {
                class_index: ClassIndex(u1),
                name_and_type_index: NameAndTypeIndex(u2),
            }
        } else if tag == 11 {
            ConstantPoolItem::InterfaceMethodref {
                class_index: ClassIndex(u1),
                name_and_type_index: NameAndTypeIndex(u2),
            }
        } else if tag == 12 {
            ConstantPoolItem::NameAndType {
                name_index: Utf8Index(u1),
                descriptor_index: Utf8Index(u2),
            }
        } else if tag == 17 {
            ConstantPoolItem::Dynamic {
                bootstrap_method_attr_index: BootstrapMethodAttrInfo(u1),
                name_and_type_index: NameAndTypeIndex(u2),
            }
        } else {
            ConstantPoolItem::InvokeDynamic {
                bootstrap_method_attr_index: BootstrapMethodAttrInfo(u1),
                name_and_type_index: NameAndTypeIndex(u2),
            }
        }
    } else if tag == 5 || tag == 6 {
        let w = read_u64(b, q)?;
        if tag == 5 {
            let value: i64 = if w >= 0x8000_0000_0000_0000 {
                (w - 0x8000_0000_0000_0000) as i64 - 0x7fff_ffff_ffff_ffff - 1
            } else {
                w as i64
            };
            ConstantPoolItem::Long { value }
        } else {
            ConstantPoolItem::Double { bits: w }
        }
    } else {
        return Err(Error::BinaryError(DecodeError::UnknownTag(tag)));
    };
    Ok((item, q + fixed_width_exec(tag)))
}

fn fixed_width_exec(tag: u8) -> (r: usize)
    ensures
        r == fixed_width(tag),
{
    if tag == 7 || tag == 8 || tag == 16 || tag == 19 || tag == 20 {
        2
    } else if tag == 15 {
        3
    } else if tag == 3 || tag == 4 || tag == 9 || tag == 10 || tag == 11 || tag == 12 || tag
        == 17 || tag == 18 {
        4
    } else if tag == 5 || tag == 6 {
        8
    } else {
        0
    }
}

pub open spec fn is_wide(it: ConstantPoolItem) -> bool {
    it is Long || it is Double
}

/// The slots an entry occupies: Long and Double take a second, unusable one.
pub open spec fn slots_of(it: ConstantPoolItem) -> Seq<ConstantPoolItem> {
    if is_wide(it) {
        seq![it, ConstantPoolItem::Skip]
    } else {
        seq![it]
    }
}

/// The slots for logical indices `i..count` whose entries start at `p`, and
/// the position after the last of them.
pub open spec fn pool_spec(b: Seq<u8>, p: int, i: int, count: int) -> Result<
    (Seq<ConstantPoolItem>, int),
    Error,
>
    decreases (if i < count { count - i } else { 0 }),
{
    if i >= count {
        Ok((seq![], p))
    } else {
        match entry_spec(b, p) {
            Err(e) => Err(e),
            Ok((it, q)) => match pool_spec(b, q, i + if is_wide(it) { 2int } else { 1int }, count) {
                Err(e) => Err(e),
                Ok((rest, end)) => Ok((slots_of(it) + rest, end)),
            },
        }
    }
}

/// The slots a pool decode yields: every Long or Double entry is followed
/// by a Skip slot, and there are at most `count - i` slots past the first.
proof fn lemma_pool_slots(b: Seq<u8>, p: int, i: int, count: int)
    requires
        1 <= i,
        pool_spec(b, p, i, count) is Ok,
    ensures
        ({
            let items = pool_spec(b, p, i, count)->Ok_0.0;
            &&& items.len() <= if i < count { count - i + 1 } else { 0 }
            &&& forall|k: int| 0 <= k < items.len() && is_wide(#[trigger] items[k]) ==> k + 1 < items.len() && items[k + 1] is Skip
        }),
    decreases (if i < count { count - i } else { 0 }),
{
    if i < count {
        let (it, q) = entry_spec(b, p)->Ok_0;
        let ni = i + if is_wide(it) { 2int } else { 1int };
        lemma_pool_slots(b, q, ni, count);
        let rest = pool_spec(b, q, ni, count)->Ok_0.0;
        let items = pool_spec(b, p, i, count)->Ok_0.0;
        assert(items == slots_of(it) + rest);
        assert forall|k: int| 0 <= k < items.len() && is_wide(#[trigger] items[k]) implies k + 1 < items.len() && items[k + 1] is Skip by {
            if k >= slots_of(it).len() {
                assert(items[k] == rest[k - slots_of(it).len()]);
                assert(items[k + 1] == rest[k + 1 - slots_of(it).len()]);
            }
        }
    }
}

/// The constant pool of a class file. It keeps the whole file, in which its
/// Utf8 entries are located.
#[derive(Debug)]
pub struct ConstantPool {
    pub data: Vec<u8>,
    /// The slots for indices 1, 2, ...: slot `i` is `items[i - 1]`.
    pub items: Vec<ConstantPoolItem>,
}

pub open spec fn utf8_in_bounds(it: ConstantPoolItem, n: int) -> bool {
    it matches ConstantPoolItem::Utf8 { start, len } ==> start + len <= n
}

impl ConstantPool {
    /// Every Utf8 entry lies inside the data.
    pub open spec fn wf(&self) -> bool {
        forall|i: int| 0 <= i < self.items@.len() ==> #[trigger] utf8_in_bounds(self.items@[i], self.data@.len() as int)
    }

    /// What a lookup of `index` yields: the entry, or why there is none.
    pub open spec fn entry_at(&self, index: u16) -> Result<ConstantPoolItem, Error> {
        if index == 0 || index > self.items@.len() {
            Err(Error::ConstantPoolError(PoolError::BadIndex(index)))
        } else if self.items@[index - 1] is Skip {
            Err(Error::ConstantPoolError(PoolError::Padding(index)))
        } else {
            Ok(self.items@[index - 1])
        }
    }

    /// Decodes the pool whose 16-bit entry count stands at `p` in `data`;
    /// returns it with the position just after its last entry.
    pub fn parse(data: Vec<u8>, p: usize) -> (r: Result<(ConstantPool, usize), Error>)
        ensures
            match r {
                Ok((pool, end)) => {
                    &&& p + 2 <= data@.len()
                    &&& pool.data@ == data@
                    &&& pool.wf()
                    &&& pool_spec(data@, p + 2, 1, be16(data@, p as int)) == Ok::<
                        (Seq<ConstantPoolItem>, int),
                        Error,
                    >((pool.items@, end as int))
                },
                Err(e) => {
                    ||| p + 2 > data@.len() && e == truncated()
                    ||| p + 2 <= data@.len() && pool_spec(data@, p + 2, 1, be16(data@, p as int)) == Err::<
                        (Seq<ConstantPoolItem>, int),
                        Error,
                    >(e)
                },
            },
    {
        if p >= data.len() || data.len() - p < 2 {
            return Err(Error::BinaryError(DecodeError::UnexpectedEnd));
        }
        let count = match read_u16(data.as_slice(), p) {
            Ok(c) => c as u32,
            Err(e) => {
                return Err(e);
            },
        };
        let ghost b = data@;
        let ghost total = pool_spec(b, p + 2, 1, count as int);
        let mut items: Vec<ConstantPoolItem> = Vec::new();
        let mut i: u32 = 1;
        let mut pos: usize = p + 2;
        while i < count
            invariant
                b == data@,
                p + 2 <= b.len(),
                total == pool_spec(b, p + 2, 1, count as int),
                1 <= i <= count + 1,
                count < 0x10000,
                count == be16(b, p as int),
                pos <= b.len(),
                forall|k: int| 0 <= k < items@.len() ==> #[trigger] utf8_in_bounds(items@[k], b.len() as int),
                total == match pool_spec(b, pos as int, i as int, count as int) {
                    Ok((rest, end)) => Ok((items@ + rest, end)),
                    Err(e) => Err(e),
                },
            decreases count + 1 - i,
        {
            let (it, q) = match parse_entry(data.as_slice(), pos) {
                Ok(x) => x,
                Err(e) => {
                    proof {
                        assert(pool_spec(b, pos as int, i as int, count as int) == Err::<
                            (Seq<ConstantPoolItem>, int),
                            Error,
                        >(e));
                    }
                    return Err(e);
                },
            };
            let ghost before = items@;
            let ghost old_i = i;
            items.push(it);
            if let ConstantPoolItem::Long { .. } = it {
                items.push(ConstantPoolItem::Skip);
                i = i + 2;
            } else if let ConstantPoolItem::Double { .. } = it {
                items.push(ConstantPoolItem::Skip);
                i = i + 2;
            } else {
                i = i + 1;
            }
            proof {
                assert(items@ =~= before + slots_of(it));
                assert(pool_spec(b, pos as int, old_i as int, count as int) == match pool_spec(b, q as int, i as int, count as int) {
                    Ok((rest, end)) => Ok((slots_of(it) + rest, end)),
                    Err(e) => Err(e),
                });
                match pool_spec(b, q as int, i as int, count as int) {
                    Ok((rest, end)) => {
                        assert(before + (slots_of(it) + rest) =~= items@ + rest);
                    },
                    Err(e) => {},
                }
            }
            pos = q;
        }
        proof {
            assert(items@ + seq![] =~= items@);
        }
        Ok((ConstantPool { data, items }, pos))
    }
}

pub open spec fn mismatch(index: u16, expected: EntryKind, found: ConstantPoolItem) -> Error {
    Error::ConstantPoolError(PoolError::Mismatch { index, expected, found: kind_of(found) })
}

/// The bytes of the Utf8 entry at `index`.
pub open spec fn utf8_at(pool: ConstantPool, index: u16) -> Result<Seq<u8>, Error> {
    match pool.entry_at(index) {
        Ok(ConstantPoolItem::Utf8 { start, len }) => Ok(pool.data@.subrange(start as int, start + len)),
        Ok(it) => Err(mismatch(index, EntryKind::Utf8, it)),
        Err(e) => Err(e),
    }
}

/// The name of the class that the Class entry at `index` names.
pub open spec fn class_name_at(pool: ConstantPool, index: u16) -> Result<Seq<u8>, Error> {
    match pool.entry_at(index) {
        Ok(ConstantPoolItem::Class { name_index }) => utf8_at(pool, name_index.0),
        Ok(it) => Err(mismatch(index, EntryKind::Class, it)),
        Err(e) => Err(e),
    }
}

/// The name and the descriptor of the NameAndType entry at `index`.
pub open spec fn name_and_type_at(pool: ConstantPool, index: u16) -> Result<(Seq<u8>, Seq<u8>), Error> {
    match pool.entry_at(index) {
        Ok(ConstantPoolItem::NameAndType { name_index, descriptor_index }) => match utf8_at(pool, name_index.0) {
            Ok(n) => match utf8_at(pool, descriptor_index.0) {
                Ok(d) => Ok((n, d)),
                Err(e) => Err(e),
            },
            Err(e) => Err(e),
        },
        Ok(it) => Err(mismatch(index, EntryKind::NameAndType, it)),
        Err(e) => Err(e),
    }
}

pub open spec fn bytes_view(r: Result<&[u8], Error>) -> Result<Seq<u8>, Error> {
    match r {
        Ok(s) => Ok(s@),
        Err(e) => Err(e),
    }
}

pub open spec fn pair_view(r: Result<(&[u8], &[u8]), Error>) -> Result<(Seq<u8>, Seq<u8>), Error> {
    match r {
        Ok((a, b)) => Ok((a@, b@)),
        Err(e) => Err(e),
    }
}

impl ConstantPool {
    /// Looks up the entry at `index`.
    pub fn get(&self, index: u16) -> (r: Result<ConstantPoolItem, Error>)
        ensures
            r == self.entry_at(index),
    {
        if index == 0 || index as usize > self.items.len() {
            return Err(Error::ConstantPoolError(PoolError::BadIndex(index)));
        }
        let it = self.items[index as usize - 1];
        if let ConstantPoolItem::Skip = it {
            Err(Error::ConstantPoolError(PoolError::Padding(index)))
        } else {
            Ok(it)
        }
    }
}

impl Utf8Index {
    /// The bytes of the Utf8 entry this index names.
    pub fn get_as_string<'a>(&self, pool: &'a ConstantPool) -> (r: Result<&'a [u8], Error>)
        requires
            pool.wf(),
        ensures
            bytes_view(r) == utf8_at(*pool, self.0),
    {
        let it = pool.get(self.0)?;
        proof {
            assert(it == pool.items@[self.0 - 1]);
            assert(utf8_in_bounds(pool.items@[self.0 - 1], pool.data@.len() as int));
            assert(pool.data@.len() == pool.data.len());
        }
        match it {
            ConstantPoolItem::Utf8 { start, len } => {
                Ok(vstd::slice::slice_subrange(pool.data.as_slice(), start, start + len))
            },
            it => Err(Error::ConstantPoolError(
                PoolError::Mismatch { index: self.0, expected: EntryKind::Utf8, found: it.kind() },
            )),
        }
    }
}

impl ClassIndex {
    /// The name of the class this index names.
    pub fn get_as_string<'a>(&self, pool: &'a ConstantPool) -> (r: Result<&'a [u8], Error>)
        requires
            pool.wf(),
        ensures
            bytes_view(r) == class_name_at(*pool, self.0),
    {
        match pool.get(self.0)? {
            ConstantPoolItem::Class { name_index } => name_index.get_as_string(pool),
            it => Err(Error::ConstantPoolError(
                PoolError::Mismatch { index: self.0, expected: EntryKind::Class, found: it.kind() },
            )),
        }
    }
}

impl NameAndTypeIndex {
    /// The name and the descriptor of the NameAndType entry this index names.
    pub fn get<'a>(&self, pool: &'a ConstantPool) -> (r: Result<(&'a [u8], &'a [u8]), Error>)
        requires
            pool.wf(),
        ensures
            pair_view(r) == name_and_type_at(*pool, self.0),
    {
        match pool.get(self.0)? {
            ConstantPoolItem::NameAndType { name_index, descriptor_index } => {
                let name = name_index.get_as_string(pool)?;
                let descriptor = descriptor_index.get_as_string(pool)?;
                Ok((name, descriptor))
            },
            it => Err(Error::ConstantPoolError(
                PoolError::Mismatch {
                    index: self.0,
                    expected: EntryKind::NameAndType,
                    found: it.kind(),
                },
            )),
        }
    }

    /// The name of the NameAndType entry this index names.
    pub fn get_as_string<'a>(&self, pool: &'a ConstantPool) -> (r: Result<&'a [u8], Error>)
        requires
            pool.wf(),
        ensures
            bytes_view(r) == match name_and_type_at(*pool, self.0) {
                Ok((n, d)) => Ok(n),
                Err(e) => Err::<Seq<u8>, Error>(e),
            },
    {
        let (name, _) = self.get(pool)?;
        Ok(name)
    }
}

/// In a decoded pool, the index after a Long or Double entry resolves to a
/// padding error: it never reaches the next real entry.
pub proof fn lemma_wide_entry_padding(pool: ConstantPool, b: Seq<u8>, p: int, count: int, end: int, i: u16)
    requires
        0 <= count < 0x10000,
        pool_spec(b, p, 1, count) == Ok::<(Seq<ConstantPoolItem>, int), Error>((pool.items@, end)),
        pool.entry_at(i) matches Ok(it) && is_wide(it),
    ensures
        i + 1 < 0x10000,
        pool.entry_at((i + 1) as u16) == Err::<ConstantPoolItem, Error>(Error::ConstantPoolError(PoolError::Padding((i + 1) as u16))),
{
    lemma_pool_slots(b, p, 1, count);
    let k = i - 1;
    assert(is_wide(pool.items@[k]));
}

} // verus!
