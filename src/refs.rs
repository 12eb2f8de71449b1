//! Field, method and method-handle references resolved through the
//! constant pool, and the BootstrapMethods attribute.
use vstd::prelude::*;

use crate::descriptor::{canonical, canonical_method, desc_end, encode, encode_method, method_end, MethodDescriptor, TypeDescriptor};
use crate::error::{EntryKind, Error, PoolError};
use crate::pool::{class_name_at, mismatch, name_and_type_at, ConstantPool, ConstantPoolItem, MethodHandleIndex};
use crate::reader::{be16, read_u16, truncated};

verus! {

/// A resolved field reference.
#[derive(Debug)]
pub struct FieldRef {
    pub class: Vec<u8>,
    pub name: Vec<u8>,
    pub descriptor: TypeDescriptor,
}

/// A resolved method reference.
#[derive(Debug)]
pub struct MethodRef {
    pub class: Vec<u8>,
    pub name: Vec<u8>,
    pub descriptor: MethodDescriptor,
}

/// A resolved interface method reference.
#[derive(Debug)]
pub struct InterfaceMethodRef {
    pub class: Vec<u8>,
    pub name: Vec<u8>,
    pub descriptor: MethodDescriptor,
}

/// A reference that may name a class method or an interface method.
#[derive(Debug)]
pub enum MaybeInterfaceMethodRef {
    RegularMethod(MethodRef),
    InterfaceMethod(InterfaceMethodRef),
}

/// A resolved method handle, by reference kind.
#[derive(Debug)]
pub enum MethodHandle {
    GetField(FieldRef),
    GetStatic(FieldRef),
    PutField(FieldRef),
    PutStatic(FieldRef),
    InvokeVirtual(MethodRef),
    NewInvokeSpecial(MethodRef),
    InvokeStatic(MaybeInterfaceMethodRef),
    InvokeSpecial(MaybeInterfaceMethodRef),
    InvokeInterface(InterfaceMethodRef),
}

/// The class and NameAndType indices of a member reference entry of kind `kind`.
pub open spec fn member_parts(it: ConstantPoolItem, kind: EntryKind) -> Option<(u16, u16)> {
    match it {
        ConstantPoolItem::Fieldref { class_index, name_and_type_index } => if kind == EntryKind::Fieldref {
            Some((class_index.0, name_and_type_index.0))
        } else {
            None
        },
        ConstantPoolItem::Methodref { class_index, name_and_type_index } => if kind == EntryKind::Methodref {
            Some((class_index.0, name_and_type_index.0))
        } else {
            None
        },
        ConstantPoolItem::InterfaceMethodref { class_index, name_and_type_index } => if kind
            == EntryKind::InterfaceMethodref {
            Some((class_index.0, name_and_type_index.0))
        } else {
            None
        },
        _ => None,
    }
}

/// Whether `d` is a whole descriptor of the grammar a member of `kind` uses.
pub open spec fn descriptor_ok(kind: EntryKind, d: Seq<u8>) -> bool {
    if kind == EntryKind::Fieldref {
        desc_end(d, 0) == Some(d.len() as int)
    } else {
        method_end(d, 0) == Some(d.len() as int)
    }
}

/// The class name, member name and descriptor text of the member reference
/// of kind `kind` at `index`, with the descriptor not yet parsed.
pub open spec fn member_raw_at(pool: ConstantPool, index: u16, kind: EntryKind) -> Result<
    (Seq<u8>, Seq<u8>, Seq<u8>),
    Error,
> {
    match pool.entry_at(index) {
        Err(e) => Err(e),
        Ok(it) => match member_parts(it, kind) {
            None => Err(mismatch(index, kind, it)),
            Some((ci, nti)) => match class_name_at(pool, ci) {
                Err(e) => Err(e),
                Ok(c) => match name_and_type_at(pool, nti) {
                    Err(e) => Err(e),
                    Ok((n, d)) => Ok((c, n, d)),
                },
            },
        },
    }
}

/// The class name, member name and descriptor text that the member
/// reference of kind `kind` at `index` resolves to, or why it does not;
/// a descriptor outside its grammar is a text error.
pub open spec fn member_at(pool: ConstantPool, index: u16, kind: EntryKind) -> Result<
    (Seq<u8>, Seq<u8>, Seq<u8>),
    Error,
> {
    match member_raw_at(pool, index, kind) {
        Ok((c, n, d)) => if descriptor_ok(kind, d) {
            Ok((c, n, d))
        } else {
            Err(Error::TextError)
        },
        Err(e) => Err(e),
    }
}

pub open spec fn field_ref_ok(f: FieldRef, m: (Seq<u8>, Seq<u8>, Seq<u8>)) -> bool {
    f.class@ == m.0 && f.name@ == m.1 && encode(f.descriptor) == m.2 && canonical(f.descriptor)
}

pub open spec fn method_ref_ok(f: MethodRef, m: (Seq<u8>, Seq<u8>, Seq<u8>)) -> bool {
    f.class@ == m.0 && f.name@ == m.1 && encode_method(f.descriptor) == m.2 && canonical_method(
        f.descriptor,
    )
}

pub open spec fn interface_ref_ok(f: InterfaceMethodRef, m: (Seq<u8>, Seq<u8>, Seq<u8>)) -> bool {
    f.class@ == m.0 && f.name@ == m.1 && encode_method(f.descriptor) == m.2 && canonical_method(
        f.descriptor,
    )
}

/// `r` is what resolving a field reference yields when the pool says `m`.
pub open spec fn field_result_ok(r: Result<FieldRef, Error>, m: Result<(Seq<u8>, Seq<u8>, Seq<u8>), Error>) -> bool {
    match (r, m) {
        (Ok(f), Ok(v)) => field_ref_ok(f, v),
        (Err(e), Err(e2)) => e == e2,
        _ => false,
    }
}

pub open spec fn method_result_ok(r: Result<MethodRef, Error>, m: Result<(Seq<u8>, Seq<u8>, Seq<u8>), Error>) -> bool {
    match (r, m) {
        (Ok(f), Ok(v)) => method_ref_ok(f, v),
        (Err(e), Err(e2)) => e == e2,
        _ => false,
    }
}

pub open spec fn interface_result_ok(
    r: Result<InterfaceMethodRef, Error>,
    m: Result<(Seq<u8>, Seq<u8>, Seq<u8>), Error>,
) -> bool {
    match (r, m) {
        (Ok(f), Ok(v)) => interface_ref_ok(f, v),
        (Err(e), Err(e2)) => e == e2,
        _ => false,
    }
}

/// Resolves the member reference of kind `kind` at `index` to its parts.
fn member_parts_exec<'a>(pool: &'a ConstantPool, index: u16, kind: EntryKind) -> (r: Result<
    (&'a [u8], &'a [u8], &'a [u8]),
    Error,
>)
    requires
        pool.wf(),
    ensures
        match r {
            Ok((c, n, d)) => member_raw_at(*pool, index, kind) == Ok::<(Seq<u8>, Seq<u8>, Seq<u8>), Error>((c@, n@, d@)),
            Err(e) => member_raw_at(*pool, index, kind) == Err::<(Seq<u8>, Seq<u8>, Seq<u8>), Error>(e),
        },
{
    let it = pool.get(index)?;
    let (class_index, nat_index) = match it {
        ConstantPoolItem::Fieldref { class_index, name_and_type_index } if kind == EntryKind::Fieldref => {
            (class_index, name_and_type_index)
        },
        ConstantPoolItem::Methodref { class_index, name_and_type_index } if kind == EntryKind::Methodref => {
            (class_index, name_and_type_index)
        },
        ConstantPoolItem::InterfaceMethodref {
            class_index,
            name_and_type_index,
        } if kind == EntryKind::InterfaceMethodref => (class_index, name_and_type_index),
        _ => {
            return Err(Error::ConstantPoolError(PoolError::Mismatch { index, expected: kind, found: it.kind() }));
        },
    };
    let class = class_index.get_as_string(pool)?;
    let (name, descriptor) = nat_index.get(pool)?;
    Ok((class, name, descriptor))
}

impl FieldRef {
    /// Resolves the Fieldref entry at `index`, parsing its descriptor.
    pub fn from_u16(index: u16, pool: &ConstantPool) -> (r: Result<FieldRef, Error>)
        requires
            pool.wf(),
        ensures
            field_result_ok(r, member_at(*pool, index, EntryKind::Fieldref)),
    {
        let (class, name, descriptor) = member_parts_exec(pool, index, EntryKind::Fieldref)?;
        let descriptor = TypeDescriptor::from_bytes(descriptor)?;
        Ok(FieldRef {
            class: vstd::slice::slice_to_vec(class),
            name: vstd::slice::slice_to_vec(name),
            descriptor,
        })
    }
}

impl MethodRef {
    /// Resolves the Methodref entry at `index`, parsing its descriptor.
    pub fn from_u16(index: u16, pool: &ConstantPool) -> (r: Result<MethodRef, Error>)
        requires
            pool.wf(),
        ensures
            method_result_ok(r, member_at(*pool, index, EntryKind::Methodref)),
    {
        let (class, name, descriptor) = member_parts_exec(pool, index, EntryKind::Methodref)?;
        let descriptor = MethodDescriptor::from_bytes(descriptor)?;
        Ok(MethodRef {
            class: vstd::slice::slice_to_vec(class),
            name: vstd::slice::slice_to_vec(name),
            descriptor,
        })
    }
}

impl InterfaceMethodRef {
    /// Resolves the InterfaceMethodref entry at `index`, parsing its descriptor.
    pub fn from_u16(index: u16, pool: &ConstantPool) -> (r: Result<InterfaceMethodRef, Error>)
        requires
            pool.wf(),
        ensures
            interface_result_ok(r, member_at(*pool, index, EntryKind::InterfaceMethodref)),
    {
        let (class, name, descriptor) = member_parts_exec(pool, index, EntryKind::InterfaceMethodref)?;
        let descriptor = MethodDescriptor::from_bytes(descriptor)?;
        Ok(InterfaceMethodRef {
            class: vstd::slice::slice_to_vec(class),
            name: vstd::slice::slice_to_vec(name),
            descriptor,
        })
    }
}

/// `r` is what resolving a class-or-interface method reference at `index` yields.
pub open spec fn maybe_result_ok(pool: ConstantPool, index: u16, r: Result<MaybeInterfaceMethodRef, Error>) -> bool {
    match pool.entry_at(index) {
        Err(e) => r == Err::<MaybeInterfaceMethodRef, Error>(e),
        Ok(ConstantPoolItem::Methodref { .. }) => match (r, member_at(pool, index, EntryKind::Methodref)) {
            (Ok(MaybeInterfaceMethodRef::RegularMethod(m)), Ok(v)) => method_ref_ok(m, v),
            (Err(e), Err(e2)) => e == e2,
            _ => false,
        },
        Ok(ConstantPoolItem::InterfaceMethodref { .. }) => match (r, member_at(pool, index, EntryKind::InterfaceMethodref)) {
            (Ok(MaybeInterfaceMethodRef::InterfaceMethod(m)), Ok(v)) => interface_ref_ok(m, v),
            (Err(e), Err(e2)) => e == e2,
            _ => false,
        },
        Ok(it) => r == Err::<MaybeInterfaceMethodRef, Error>(mismatch(index, EntryKind::Methodref, it)),
    }
}

impl MaybeInterfaceMethodRef {
    /// Resolves the Methodref or InterfaceMethodref entry at `index`.
    pub fn from_u16(index: u16, pool: &ConstantPool) -> (r: Result<MaybeInterfaceMethodRef, Error>)
        requires
            pool.wf(),
        ensures
            maybe_result_ok(*pool, index, r),
    {
        match pool.get(index)? {
            ConstantPoolItem::InterfaceMethodref { .. } => Ok(
                MaybeInterfaceMethodRef::InterfaceMethod(InterfaceMethodRef::from_u16(index, pool)?),
            ),
            ConstantPoolItem::Methodref { .. } => Ok(
                MaybeInterfaceMethodRef::RegularMethod(MethodRef::from_u16(index, pool)?),
            ),
            it => Err(Error::ConstantPoolError(
                PoolError::Mismatch { index, expected: EntryKind::Methodref, found: it.kind() },
            )),
        }
    }
}

/// `r` is what resolving the MethodHandle entry at `index` yields.
pub open spec fn handle_result_ok(pool: ConstantPool, index: u16, r: Result<MethodHandle, Error>) -> bool {
    match pool.entry_at(index) {
        Err(e) => r == Err::<MethodHandle, Error>(e),
        Ok(ConstantPoolItem::MethodHandle { reference }) => {
            let k = reference.kind;
            let i = reference.index;
            if 1 <= k <= 4 {
                match (r, member_at(pool, i, EntryKind::Fieldref)) {
                    (Ok(h), Ok(v)) => match h {
                        MethodHandle::GetField(f) => k == 1 && field_ref_ok(f, v),
                        MethodHandle::GetStatic(f) => k == 2 && field_ref_ok(f, v),
                        MethodHandle::PutField(f) => k == 3 && field_ref_ok(f, v),
                        MethodHandle::PutStatic(f) => k == 4 && field_ref_ok(f, v),
                        _ => false,
                    },
                    (Err(e), Err(e2)) => e == e2,
                    _ => false,
                }
            } else if k == 5 || k == 8 {
                match (r, member_at(pool, i, EntryKind::Methodref)) {
                    (Ok(h), Ok(v)) => match h {
                        MethodHandle::InvokeVirtual(m) => k == 5 && method_ref_ok(m, v),
                        MethodHandle::NewInvokeSpecial(m) => k == 8 && method_ref_ok(m, v),
                        _ => false,
                    },
                    (Err(e), Err(e2)) => e == e2,
                    _ => false,
                }
            } else if k == 6 || k == 7 {
                match r {
                    Ok(MethodHandle::InvokeStatic(m)) => k == 6 && maybe_result_ok(pool, i, Ok(m)),
                    Ok(MethodHandle::InvokeSpecial(m)) => k == 7 && maybe_result_ok(pool, i, Ok(m)),
                    Ok(_) => false,
                    Err(e) => maybe_result_ok(pool, i, Err(e)),
                }
            } else if k == 9 {
                match (r, member_at(pool, i, EntryKind::InterfaceMethodref)) {
                    (Ok(MethodHandle::InvokeInterface(m)), Ok(v)) => interface_ref_ok(m, v),
                    (Err(e), Err(e2)) => e == e2,
                    _ => false,
                }
            } else {
                r == Err::<MethodHandle, Error>(Error::ConstantPoolError(PoolError::BadReferenceKind(k)))
            }
        },
        Ok(it) => r == Err::<MethodHandle, Error>(mismatch(index, EntryKind::MethodHandle, it)),
    }
}

impl MethodHandle {
    /// Resolves the MethodHandle entry at `index` and the member it refers to.
    pub fn from_u16(index: u16, pool: &ConstantPool) -> (r: Result<MethodHandle, Error>)
        requires
            pool.wf(),
        ensures
            handle_result_ok(*pool, index, r),
    {
        match pool.get(index)? {
            ConstantPoolItem::MethodHandle { reference } => {
                let i = reference.index;
                match reference.kind {
                    1 => Ok(MethodHandle::GetField(FieldRef::from_u16(i, pool)?)),
                    2 => Ok(MethodHandle::GetStatic(FieldRef::from_u16(i, pool)?)),
                    3 => Ok(MethodHandle::PutField(FieldRef::from_u16(i, pool)?)),
                    4 => Ok(MethodHandle::PutStatic(FieldRef::from_u16(i, pool)?)),
                    5 => Ok(MethodHandle::InvokeVirtual(MethodRef::from_u16(i, pool)?)),
                    8 => Ok(MethodHandle::NewInvokeSpecial(MethodRef::from_u16(i, pool)?)),
                    6 => Ok(MethodHandle::InvokeStatic(MaybeInterfaceMethodRef::from_u16(i, pool)?)),
                    7 => Ok(MethodHandle::InvokeSpecial(MaybeInterfaceMethodRef::from_u16(i, pool)?)),
                    9 => Ok(MethodHandle::InvokeInterface(InterfaceMethodRef::from_u16(i, pool)?)),
                    k => Err(Error::ConstantPoolError(PoolError::BadReferenceKind(k))),
                }
            },
            it => Err(Error::ConstantPoolError(
                PoolError::Mismatch { index, expected: EntryKind::MethodHandle, found: it.kind() },
            )),
        }
    }
}

/// One entry of the BootstrapMethods attribute, as stored.
#[derive(Debug)]
pub struct BootstrapMethodRaw {
    pub bootstrap_method_ref: MethodHandleIndex,
    pub bootstrap_args: Vec<u16>,
}

impl View for BootstrapMethodRaw {
    type V = (u16, Seq<u16>);

    open spec fn view(&self) -> (u16, Seq<u16>) {
        (self.bootstrap_method_ref.0, self.bootstrap_args@)
    }
}

/// A bootstrap method with its method handle resolved.
#[derive(Debug)]
pub struct BootstrapMethod {
    pub method: MethodHandle,
}

/// The BootstrapMethods attribute of a class.
#[derive(Debug)]
pub struct BootstrapMethods {
    pub bootstrap_methods: Vec<BootstrapMethodRaw>,
}

impl View for BootstrapMethods {
    type V = Seq<(u16, Seq<u16>)>;

    open spec fn view(&self) -> Seq<(u16, Seq<u16>)> {
        self.bootstrap_methods@.map_values(|m: BootstrapMethodRaw| m@)
    }
}

/// The bootstrap method entry encoded at `p`, and the position after it.
pub open spec fn bootstrap_entry_spec(b: Seq<u8>, p: int) -> Result<((u16, Seq<u16>), int), Error> {
    if p + 4 > b.len() {
        Err(truncated())
    } else {
        let k = be16(b, p + 2);
        if p + 4 + 2 * k > b.len() {
            Err(truncated())
        } else {
            Ok(((be16(b, p) as u16, Seq::new(k as nat, |i: int| be16(b, p + 4 + 2 * i) as u16)), p + 4 + 2 * k))
        }
    }
}

/// `k` bootstrap method entries, one after another from `p`.
pub open spec fn bootstrap_entries_spec(b: Seq<u8>, p: int, k: nat) -> Result<(Seq<(u16, Seq<u16>)>, int), Error>
    decreases k,
{
    if k == 0 {
        Ok((seq![], p))
    } else {
        match bootstrap_entry_spec(b, p) {
            Err(e) => Err(e),
            Ok((m, q)) => match bootstrap_entries_spec(b, q, (k - 1) as nat) {
                Err(e) => Err(e),
                Ok((rest, end)) => Ok((seq![m] + rest, end)),
            },
        }
    }
}

/// The entries of a BootstrapMethods payload.
pub open spec fn bootstrap_spec(b: Seq<u8>) -> Result<Seq<(u16, Seq<u16>)>, Error> {
    if b.len() < 2 {
        Err(truncated())
    } else {
        match bootstrap_entries_spec(b, 2, be16(b, 0) as nat) {
            Ok((t, _)) => Ok(t),
            Err(e) => Err(e),
        }
    }
}

impl BootstrapMethods {
    /// Decodes a BootstrapMethods payload.
    pub fn parse(b: &[u8]) -> (r: Result<BootstrapMethods, Error>)
        ensures
            match r {
                Ok(t) => bootstrap_spec(b@) == Ok::<Seq<(u16, Seq<u16>)>, Error>(t@),
                Err(e) => bootstrap_spec(b@) == Err::<Seq<(u16, Seq<u16>)>, Error>(e),
            },
    {
        let count = read_u16(b, 0)?;
        let ghost total = bootstrap_entries_spec(b@, 2, count as nat);
        let mut out: Vec<BootstrapMethodRaw> = Vec::new();
        let mut left = count;
        let mut pos: usize = 2;
        while left > 0
            invariant
                b@.len() >= 2,
                b@.len() <= usize::MAX,
                count as int == be16(b@, 0),
                total == bootstrap_entries_spec(b@, 2, count as nat),
                total == match bootstrap_entries_spec(b@, pos as int, left as nat) {
                    Ok((rest, end)) => Ok((BootstrapMethods { bootstrap_methods: out }@ + rest, end)),
                    Err(e) => Err(e),
                },
            decreases left,
        {
            if pos > b.len() || b.len() - pos < 4 {
                assert(bootstrap_entries_spec(b@, pos as int, left as nat) == Err::<(Seq<(u16, Seq<u16>)>, int), Error>(truncated()));
                return Err(crate::error::Error::BinaryError(crate::error::DecodeError::UnexpectedEnd));
            }
            let handle = read_u16(b, pos).unwrap();
            let k = read_u16(b, pos + 2).unwrap();
            let args = match crate::attributes::read_u16s(b, pos + 4, k) {
                Ok(a) => a,
                Err(e) => {
                    assert(bootstrap_entries_spec(b@, pos as int, left as nat) == Err::<(Seq<(u16, Seq<u16>)>, int), Error>(e));
                    return Err(e);
                },
            };
            let ghost m = (handle, args@);
            let ghost before = BootstrapMethods { bootstrap_methods: out }@;
            proof {
                assert(args@ =~= Seq::new(k as nat, |i: int| be16(b@, pos + 4 + 2 * i) as u16));
            }
            out.push(BootstrapMethodRaw { bootstrap_method_ref: MethodHandleIndex(handle), bootstrap_args: args });
            let q = pos + 4 + 2 * k as usize;
            proof {
                assert(BootstrapMethods { bootstrap_methods: out }@ =~= before + seq![m]);
                match bootstrap_entries_spec(b@, q as int, (left - 1) as nat) {
                    Ok((rest, end)) => {
                        assert(before + (seq![m] + rest) =~= BootstrapMethods { bootstrap_methods: out }@ + rest);
                    },
                    Err(e) => {},
                }
            }
            pos = q;
            left = left - 1;
        }
        proof {
            assert(BootstrapMethods { bootstrap_methods: out }@ + seq![] =~= BootstrapMethods { bootstrap_methods: out }@);
        }
        Ok(BootstrapMethods { bootstrap_methods: out })
    }

    /// The bootstrap method at 0-based `idx`, with its handle resolved; an
    /// index past the end of the table is an `InvalidBootstrapIndex` error.
    pub fn get(&self, idx: u16, pool: &ConstantPool) -> (r: Result<BootstrapMethod, Error>)
        requires
            pool.wf(),
        ensures
            idx >= self@.len() ==> r == Err::<BootstrapMethod, Error>(Error::InvalidBootstrapIndex(idx)),
            idx < self@.len() ==> match r {
                Ok(m) => handle_result_ok(*pool, self@[idx as int].0, Ok(m.method)),
                Err(e) => handle_result_ok(*pool, self@[idx as int].0, Err(e)),
            },
    {
        if (idx as usize) < self.bootstrap_methods.len() {
            let method = MethodHandle::from_u16(self.bootstrap_methods[idx as usize].bootstrap_method_ref.0, pool)?;
            Ok(BootstrapMethod { method })
        } else {
            Err(Error::InvalidBootstrapIndex(idx))
        }
    }
}

/// Whether resolving the MethodHandle entry at `index` fails.
pub open spec fn handle_fails(pool: ConstantPool, index: u16) -> bool {
    exists|e: Error| handle_result_ok(pool, index, Err(e))
}

/// A resolved dynamic call site: its bootstrap method, name and descriptor.
#[derive(Debug)]
pub struct DynamicInfo {
    pub bootstrap_method: BootstrapMethod,
    pub name: Vec<u8>,
    pub descriptor: MethodDescriptor,
}

/// `r` is what resolving the InvokeDynamic entry at `index` yields, where
/// `bootstrap` is the class's BootstrapMethods payload, if it has one.
pub open spec fn dynamic_result_ok(
    pool: ConstantPool,
    index: u16,
    bootstrap: Option<Seq<u8>>,
    r: Result<DynamicInfo, Error>,
) -> bool {
    match pool.entry_at(index) {
        Err(e) => r == Err::<DynamicInfo, Error>(e),
        Ok(ConstantPoolItem::InvokeDynamic { bootstrap_method_attr_index, name_and_type_index }) => {
            let bi = bootstrap_method_attr_index.0;
            match bootstrap {
                None => r == Err::<DynamicInfo, Error>(Error::NoBootstrapMethods),
                Some(b) => match bootstrap_spec(b) {
                    Err(e) => r == Err::<DynamicInfo, Error>(e),
                    Ok(table) => if bi >= table.len() {
                        r == Err::<DynamicInfo, Error>(Error::InvalidBootstrapIndex(bi))
                    } else {
                        let h = table[bi as int].0;
                        let nt = name_and_type_at(pool, name_and_type_index.0);
                        match r {
                            Ok(d) => {
                                &&& handle_result_ok(pool, h, Ok(d.bootstrap_method.method))
                                &&& nt matches Ok((n, dd)) && d.name@ == n && encode_method(d.descriptor) == dd
                                    && canonical_method(d.descriptor)
                            },
                            Err(e) => {
                                ||| handle_result_ok(pool, h, Err(e))
                                ||| !handle_fails(pool, h) && nt == Err::<(Seq<u8>, Seq<u8>), Error>(e)
                                ||| (!handle_fails(pool, h) && (nt matches Ok((n, dd)) && method_end(dd, 0) != Some(
                                    dd.len() as int,
                                ) && e == Error::TextError))
                            },
                        }
                    },
                },
            }
        },
        Ok(it) => r == Err::<DynamicInfo, Error>(mismatch(index, EntryKind::InvokeDynamic, it)),
    }
}

/// The bytes a present payload holds.
pub open spec fn bytes_opt(b: Option<&[u8]>) -> Option<Seq<u8>> {
    match b {
        Some(s) => Some(s@),
        None => None,
    }
}

impl DynamicInfo {
    /// Resolves the InvokeDynamic entry at `index` against `pool` and the
    /// class's BootstrapMethods payload `bootstrap`.
    pub fn from_u16(index: u16, pool: &ConstantPool, bootstrap: Option<&[u8]>) -> (r: Result<DynamicInfo, Error>)
        requires
            pool.wf(),
        ensures
            dynamic_result_ok(*pool, index, bytes_opt(bootstrap), r),
    {
        match pool.get(index)? {
            ConstantPoolItem::InvokeDynamic { bootstrap_method_attr_index, name_and_type_index } => {
                let table = match bootstrap {
                    Some(b) => BootstrapMethods::parse(b)?,
                    None => {
                        return Err(Error::NoBootstrapMethods);
                    },
                };
                let bootstrap_method = table.get(bootstrap_method_attr_index.0, pool)?;
                let (name, descriptor) = name_and_type_index.get(pool)?;
                let descriptor = MethodDescriptor::from_bytes(descriptor)?;
                Ok(DynamicInfo { bootstrap_method, name: vstd::slice::slice_to_vec(name), descriptor })
            },
            it => Err(Error::ConstantPoolError(
                PoolError::Mismatch { index, expected: EntryKind::InvokeDynamic, found: it.kind() },
            )),
        }
    }
}

} // verus!
