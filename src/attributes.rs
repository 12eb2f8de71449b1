//! Typed decoders for the attributes that hold fixed records or counted
//! arrays of them.
use vstd::prelude::*;

use crate::error::{EntryKind, Error};
use crate::flags::InnerClassAccessFlags;
use crate::pool::{bytes_view, class_name_at, mismatch, utf8_at, ClassIndex, ConstantPool, ConstantPoolItem, NameAndTypeIndex, Utf8Index};
use crate::reader::{be16, read_u16, truncated};

verus! {

/// Reads `n` big-endian 16-bit values from `p` on.
pub fn read_u16s(b: &[u8], p: usize, n: u16) -> (r: Result<Vec<u16>, Error>)
    ensures
        match r {
            Ok(v) => p + 2 * n <= b@.len() && v@.len() == n && forall|i: int|
                0 <= i < n ==> #[trigger] v@[i] as int == be16(b@, p + 2 * i),
            Err(e) => p + 2 * n > b@.len() && e == truncated(),
        },
{
    if p > b.len() || (b.len() - p) / 2 < n as usize {
        return Err(crate::error::Error::BinaryError(crate::error::DecodeError::UnexpectedEnd));
    }
    let mut v: Vec<u16> = Vec::new();
    let mut i: usize = 0;
    while i < n as usize
        invariant
            p + 2 * n <= b@.len(),
            b@.len() <= usize::MAX,
            i <= n,
            v@.len() == i,
            forall|j: int| 0 <= j < i ==> #[trigger] v@[j] as int == be16(b@, p + 2 * j),
        decreases n - i,
    {
        let x = read_u16(b, p + 2 * i).unwrap();
        v.push(x);
        i = i + 1;
    }
    Ok(v)
}

/// The ConstantValue attribute of a field: the index of its constant.
#[derive(Clone, Copy, Debug, PartialEq, Eq, Structural)]
pub struct ConstantValue {
    pub constantvalue_index: u16,
}

impl ConstantValue {
    /// Decodes a ConstantValue payload.
    pub fn parse(b: &[u8]) -> (r: Result<ConstantValue, Error>)
        ensures
            match r {
                Ok(c) => b@.len() >= 2 && c.constantvalue_index as int == be16(b@, 0),
                Err(e) => b@.len() < 2 && e == truncated(),
            },
    {
        let constantvalue_index = read_u16(b, 0)?;
        Ok(ConstantValue { constantvalue_index })
    }

    /// The constant as an int.
    pub fn int_value(&self, pool: &ConstantPool) -> (r: Result<i32, Error>)
        ensures
            r == match pool.entry_at(self.constantvalue_index) {
                Ok(ConstantPoolItem::Integer { value }) => Ok(value),
                Ok(it) => Err(mismatch(self.constantvalue_index, EntryKind::Integer, it)),
                Err(e) => Err::<i32, Error>(e),
            },
    {
        match pool.get(self.constantvalue_index)? {
            ConstantPoolItem::Integer { value } => Ok(value),
            it => Err(Error::ConstantPoolError(crate::error::PoolError::Mismatch {
                index: self.constantvalue_index,
                expected: EntryKind::Integer,
                found: it.kind(),
            })),
        }
    }

    /// The constant as a long.
    pub fn long_value(&self, pool: &ConstantPool) -> (r: Result<i64, Error>)
        ensures
            r == match pool.entry_at(self.constantvalue_index) {
                Ok(ConstantPoolItem::Long { value }) => Ok(value),
                Ok(it) => Err(mismatch(self.constantvalue_index, EntryKind::Long, it)),
                Err(e) => Err::<i64, Error>(e),
            },
    {
        match pool.get(self.constantvalue_index)? {
            ConstantPoolItem::Long { value } => Ok(value),
            it => Err(Error::ConstantPoolError(crate::error::PoolError::Mismatch {
                index: self.constantvalue_index,
                expected: EntryKind::Long,
                found: it.kind(),
            })),
        }
    }

    /// The constant as a float, as its IEEE 754 bits.
    pub fn float_value(&self, pool: &ConstantPool) -> (r: Result<u32, Error>)
        ensures
            r == match pool.entry_at(self.constantvalue_index) {
                Ok(ConstantPoolItem::Float { bits }) => Ok(bits),
                Ok(it) => Err(mismatch(self.constantvalue_index, EntryKind::Float, it)),
                Err(e) => Err::<u32, Error>(e),
            },
    {
        match pool.get(self.constantvalue_index)? {
            ConstantPoolItem::Float { bits } => Ok(bits),
            it => Err(Error::ConstantPoolError(crate::error::PoolError::Mismatch {
                index: self.constantvalue_index,
                expected: EntryKind::Float,
                found: it.kind(),
            })),
        }
    }

    /// The constant as a double, as its IEEE 754 bits.
    pub fn double_value(&self, pool: &ConstantPool) -> (r: Result<u64, Error>)
        ensures
            r == match pool.entry_at(self.constantvalue_index) {
                Ok(ConstantPoolItem::Double { bits }) => Ok(bits),
                Ok(it) => Err(mismatch(self.constantvalue_index, EntryKind::Double, it)),
                Err(e) => Err::<u64, Error>(e),
            },
    {
        match pool.get(self.constantvalue_index)? {
            ConstantPoolItem::Double { bits } => Ok(bits),
            it => Err(Error::ConstantPoolError(crate::error::PoolError::Mismatch {
                index: self.constantvalue_index,
                expected: EntryKind::Double,
                found: it.kind(),
            })),
        }
    }

    /// The constant as a string: the bytes of the Utf8 entry its String
    /// entry names.
    pub fn string_value<'a>(&self, pool: &'a ConstantPool) -> (r: Result<&'a [u8], Error>)
        requires
            pool.wf(),
        ensures
            bytes_view(r) == match pool.entry_at(self.constantvalue_index) {
                Ok(ConstantPoolItem::String { string_index }) => utf8_at(*pool, string_index.0),
                Ok(it) => Err(mismatch(self.constantvalue_index, EntryKind::String, it)),
                Err(e) => Err::<Seq<u8>, Error>(e),
            },
    {
        match pool.get(self.constantvalue_index)? {
            ConstantPoolItem::String { string_index } => string_index.get_as_string(pool),
            it => Err(Error::ConstantPoolError(crate::error::PoolError::Mismatch {
                index: self.constantvalue_index,
                expected: EntryKind::String,
                found: it.kind(),
            })),
        }
    }
}

/// The Exceptions attribute of a method: the checked exceptions it declares.
#[derive(Debug)]
pub struct Exceptions {
    pub exception_index_table: Vec<ClassIndex>,
}

/// The names that `indices` resolve to, or the first error among them.
pub open spec fn class_names_spec(pool: ConstantPool, indices: Seq<ClassIndex>, n: int) -> Result<
    Seq<Seq<u8>>,
    Error,
>
    decreases n,
{
    if n <= 0 {
        Ok(seq![])
    } else {
        match class_names_spec(pool, indices, n - 1) {
            Err(e) => Err(e),
            Ok(names) => match class_name_at(pool, indices[n - 1].0) {
                Err(e) => Err(e),
                Ok(name) => Ok(names.push(name)),
            },
        }
    }
}

proof fn lemma_class_names_err(pool: ConstantPool, indices: Seq<ClassIndex>, k: int, m: int)
    requires
        k <= m,
        class_names_spec(pool, indices, k) is Err,
    ensures
        class_names_spec(pool, indices, m) == class_names_spec(pool, indices, k),
    decreases m - k,
{
    if k < m {
        lemma_class_names_err(pool, indices, k, m - 1);
    }
}

pub open spec fn names_view(v: Seq<&[u8]>) -> Seq<Seq<u8>> {
    v.map_values(|s: &[u8]| s@)
}

impl Exceptions {
    /// Decodes an Exceptions payload.
    pub fn parse(b: &[u8]) -> (r: Result<Exceptions, Error>)
        ensures
            match r {
                Ok(x) => b@.len() >= 2 && 2 + 2 * be16(b@, 0) <= b@.len() && x.exception_index_table@.len()
                    == be16(b@, 0) && forall|i: int|
                    0 <= i < x.exception_index_table@.len() ==> #[trigger] x.exception_index_table@[i].0 as int
                        == be16(b@, 2 + 2 * i),
                Err(e) => (b@.len() < 2 || 2 + 2 * be16(b@, 0) > b@.len()) && e == truncated(),
            },
    {
        let n = read_u16(b, 0)?;
        let raw = read_u16s(b, 2, n)?;
        let mut exception_index_table: Vec<ClassIndex> = Vec::new();
        let mut i: usize = 0;
        while i < raw.len()
            invariant
                i <= raw@.len(),
                exception_index_table@.len() == i,
                forall|j: int| 0 <= j < i ==> #[trigger] exception_index_table@[j].0 == raw@[j],
            decreases raw.len() - i,
        {
            exception_index_table.push(ClassIndex(raw[i]));
            i = i + 1;
        }
        Ok(Exceptions { exception_index_table })
    }

    /// The names of the declared exception classes, in order.
    pub fn class_names<'a>(&self, pool: &'a ConstantPool) -> (r: Result<Vec<&'a [u8]>, Error>)
        requires
            pool.wf(),
        ensures
            match r {
                Ok(v) => class_names_spec(*pool, self.exception_index_table@, self.exception_index_table@.len() as int)
                    == Ok::<Seq<Seq<u8>>, Error>(names_view(v@)),
                Err(e) => class_names_spec(*pool, self.exception_index_table@, self.exception_index_table@.len() as int)
                    == Err::<Seq<Seq<u8>>, Error>(e),
            },
    {
        let mut out: Vec<&'a [u8]> = Vec::new();
        let mut i: usize = 0;
        assert(names_view(out@) =~= Seq::<Seq<u8>>::empty());
        while i < self.exception_index_table.len()
            invariant
                pool.wf(),
                i <= self.exception_index_table@.len(),
                class_names_spec(*pool, self.exception_index_table@, i as int) == Ok::<Seq<Seq<u8>>, Error>(names_view(out@)),
            decreases self.exception_index_table.len() - i,
        {
            let name = match self.exception_index_table[i].get_as_string(pool) {
                Ok(name) => name,
                Err(e) => {
                    proof {
                        lemma_class_names_err(*pool, self.exception_index_table@, i + 1, self.exception_index_table@.len() as int);
                    }
                    return Err(e);
                },
            };
            let ghost before = out@;
            out.push(name);
            assert(names_view(out@) =~= names_view(before).push(name@));
            i = i + 1;
        }
        Ok(out)
    }
}

/// One entry of the InnerClasses attribute.
#[derive(Clone, Copy, Debug, PartialEq, Eq, Structural)]
pub struct InnerClass {
    pub inner_class_info: ClassIndex,
    /// `None` where the file holds index 0.
    pub outer_class_info: Option<ClassIndex>,
    /// `None` where the file holds index 0 (an anonymous class).
    pub inner_name: Option<Utf8Index>,
    pub inner_class_access_flags: InnerClassAccessFlags,
}

/// The InnerClass entry encoded at `p`.
pub open spec fn inner_class_at(b: Seq<u8>, p: int) -> InnerClass {
    InnerClass {
        inner_class_info: ClassIndex(be16(b, p) as u16),
        outer_class_info: if be16(b, p + 2) == 0 {
            None
        } else {
            Some(ClassIndex(be16(b, p + 2) as u16))
        },
        inner_name: if be16(b, p + 4) == 0 {
            None
        } else {
            Some(Utf8Index(be16(b, p + 4) as u16))
        },
        inner_class_access_flags: InnerClassAccessFlags((be16(b, p + 6) as u16) & crate::flags::INNER_CLASS_FLAGS),
    }
}

/// The InnerClasses attribute of a class.
#[derive(Debug)]
pub struct InnerClasses {
    pub classes: Vec<InnerClass>,
}

impl InnerClasses {
    /// Decodes an InnerClasses payload.
    pub fn parse(b: &[u8]) -> (r: Result<InnerClasses, Error>)
        ensures
            match r {
                Ok(x) => b@.len() >= 2 && 2 + 8 * be16(b@, 0) <= b@.len() && x.classes@.len() == be16(b@, 0)
                    && forall|i: int|
                    0 <= i < x.classes@.len() ==> #[trigger] x.classes@[i] == inner_class_at(b@, 2 + 8 * i),
                Err(e) => (b@.len() < 2 || 2 + 8 * be16(b@, 0) > b@.len()) && e == truncated(),
            },
    {
        let n = read_u16(b, 0)?;
        if (b.len() - 2) / 8 < n as usize {
            return Err(crate::error::Error::BinaryError(crate::error::DecodeError::UnexpectedEnd));
        }
        let mut classes: Vec<InnerClass> = Vec::new();
        let mut i: usize = 0;
        while i < n as usize
            invariant
                2 + 8 * n <= b@.len(),
                i <= n,
                classes@.len() == i,
                forall|j: int| 0 <= j < i ==> #[trigger] classes@[j] == inner_class_at(b@, 2 + 8 * j),
            decreases n - i,
        {
            let p = 2 + 8 * i;
            let inner = read_u16(b, p).unwrap();
            let outer = read_u16(b, p + 2).unwrap();
            let name = read_u16(b, p + 4).unwrap();
            let flags = read_u16(b, p + 6).unwrap();
            classes.push(InnerClass {
                inner_class_info: ClassIndex(inner),
                outer_class_info: if outer == 0 { None } else { Some(ClassIndex(outer)) },
                inner_name: if name == 0 { None } else { Some(Utf8Index(name)) },
                inner_class_access_flags: InnerClassAccessFlags::from_bits_truncate(flags),
            });
            i = i + 1;
        }
        Ok(InnerClasses { classes })
    }
}

/// The EnclosingMethod attribute of a local or anonymous class.
#[derive(Clone, Copy, Debug, PartialEq, Eq, Structural)]
pub struct EnclosingMethod {
    pub class_index: ClassIndex,
    pub method_index: NameAndTypeIndex,
}

impl EnclosingMethod {
    /// Decodes an EnclosingMethod payload.
    pub fn parse(b: &[u8]) -> (r: Result<EnclosingMethod, Error>)
        ensures
            match r {
                Ok(x) => b@.len() >= 4 && x.class_index.0 as int == be16(b@, 0) && x.method_index.0 as int
                    == be16(b@, 2),
                Err(e) => b@.len() < 4 && e == truncated(),
            },
    {
        let class_index = ClassIndex(read_u16(b, 0)?);
        let method_index = NameAndTypeIndex(read_u16(b, 2)?);
        Ok(EnclosingMethod { class_index, method_index })
    }
}

/// The SourceFile attribute of a class.
#[derive(Clone, Copy, Debug, PartialEq, Eq, Structural)]
pub struct SourceFile {
    pub sourcefile_index: Utf8Index,
}

impl SourceFile {
    /// Decodes a SourceFile payload.
    pub fn parse(b: &[u8]) -> (r: Result<SourceFile, Error>)
        ensures
            match r {
                Ok(x) => b@.len() >= 2 && x.sourcefile_index.0 as int == be16(b@, 0),
                Err(e) => b@.len() < 2 && e == truncated(),
            },
    {
        Ok(SourceFile { sourcefile_index: Utf8Index(read_u16(b, 0)?) })
    }

    /// The name of the source file.
    pub fn get<'a>(&self, pool: &'a ConstantPool) -> (r: Result<&'a [u8], Error>)
        requires
            pool.wf(),
        ensures
            bytes_view(r) == utf8_at(*pool, self.sourcefile_index.0),
    {
        self.sourcefile_index.get_as_string(pool)
    }
}

/// The LineNumberTable attribute: (start pc, line number) pairs.
#[derive(Debug)]
pub struct LineNumberTable {
    pub line_number_table: Vec<(u16, u16)>,
}

impl LineNumberTable {
    /// Decodes a LineNumberTable payload.
    pub fn parse(b: &[u8]) -> (r: Result<LineNumberTable, Error>)
        ensures
            match r {
                Ok(x) => b@.len() >= 2 && 2 + 4 * be16(b@, 0) <= b@.len() && x.line_number_table@.len()
                    == be16(b@, 0) && forall|i: int|
                    0 <= i < x.line_number_table@.len() ==> #[trigger] x.line_number_table@[i] == (
                        be16(b@, 2 + 4 * i) as u16,
                        be16(b@, 4 + 4 * i) as u16,
                    ),
                Err(e) => (b@.len() < 2 || 2 + 4 * be16(b@, 0) > b@.len()) && e == truncated(),
            },
    {
        let n = read_u16(b, 0)?;
        if (b.len() - 2) / 4 < n as usize {
            return Err(crate::error::Error::BinaryError(crate::error::DecodeError::UnexpectedEnd));
        }
        let mut line_number_table: Vec<(u16, u16)> = Vec::new();
        let mut i: usize = 0;
        while i < n as usize
            invariant
                2 + 4 * n <= b@.len(),
                i <= n,
                line_number_table@.len() == i,
                forall|j: int| 0 <= j < i ==> #[trigger] line_number_table@[j] == (
                    be16(b@, 2 + 4 * j) as u16,
                    be16(b@, 4 + 4 * j) as u16,
                ),
            decreases n - i,
        {
            let start_pc = read_u16(b, 2 + 4 * i).unwrap();
            let line = read_u16(b, 4 + 4 * i).unwrap();
            line_number_table.push((start_pc, line));
            i = i + 1;
        }
        Ok(LineNumberTable { line_number_table })
    }
}

} // verus!
