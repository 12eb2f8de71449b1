//! The decoded class file and its field and method views.
use vstd::prelude::*;
use vstd::string::StringSliceAdditionalSpecFns;

use crate::attribute::{lookup, table_spec, Attributes};
use crate::attributes::{class_names_spec, names_view, ConstantValue, EnclosingMethod, Exceptions, InnerClasses, SourceFile};
use crate::code::{code_layout_ok, code_matches, Code};
use crate::descriptor::{canonical, canonical_method, desc_end, encode, encode_method, method_end, MethodDescriptor, TypeDescriptor};
use crate::error::{DecodeError, Error};
use crate::flags::{ClassAccessFlags, FieldAccessFlags, MethodAccessFlags, ACC_NATIVE, CLASS_FLAGS, FIELD_FLAGS, METHOD_FLAGS};
use crate::instruction::{decode_all, Instruction};
use crate::locals::{err_of, sig_text, signature_outcome, local_record_at, LocalVariableTable, LocalVariableTypeTable, Signature};
use crate::signature::{class_sig_end, enc_class_sig, enc_method_sig, enc_ref, method_sig_end, ref_end, ClassSignature, MethodSignature, ReferenceType};
use crate::attributes::LineNumberTable;
use crate::pool::{bytes_view, class_name_at, pool_spec, utf8_at, ClassIndex, ConstantPool, Utf8Index};
use crate::reader::{be16, read_u16, truncated};

verus! {

/// A field as stored: flags, name and descriptor indices, attributes.
#[derive(Debug)]
pub struct FieldRaw {
    pub access_flags: FieldAccessFlags,
    pub name_index: Utf8Index,
    pub descriptor_index: Utf8Index,
    pub attributes: Attributes,
}

/// A method as stored: flags, name and descriptor indices, attributes.
#[derive(Debug)]
pub struct MethodRaw {
    pub access_flags: MethodAccessFlags,
    pub name_index: Utf8Index,
    pub descriptor_index: Utf8Index,
    pub attributes: Attributes,
}

/// A field or method record: flags, name index, descriptor index, attributes.
pub type MemberView = (u16, u16, u16, Seq<(Seq<u8>, Seq<u8>)>);

impl View for FieldRaw {
    type V = MemberView;

    open spec fn view(&self) -> MemberView {
        (self.access_flags.0, self.name_index.0, self.descriptor_index.0, self.attributes@)
    }
}

impl View for MethodRaw {
    type V = MemberView;

    open spec fn view(&self) -> MemberView {
        (self.access_flags.0, self.name_index.0, self.descriptor_index.0, self.attributes@)
    }
}

/// The field or method record at `p`, its flags masked by `mask`.
pub open spec fn member_spec(pool: ConstantPool, b: Seq<u8>, p: int, mask: u16) -> Result<(MemberView, int), Error> {
    if p + 6 > b.len() {
        Err(truncated())
    } else {
        match table_spec(pool, b, p + 6) {
            Err(e) => Err(e),
            Ok((t, q)) => Ok((((be16(b, p) as u16) & mask, be16(b, p + 2) as u16, be16(b, p + 4) as u16, t), q)),
        }
    }
}

/// `k` records one after another from `p`.
pub open spec fn members_spec(pool: ConstantPool, b: Seq<u8>, p: int, k: nat, mask: u16) -> Result<(Seq<MemberView>, int), Error>
    decreases k,
{
    if k == 0 {
        Ok((seq![], p))
    } else {
        match member_spec(pool, b, p, mask) {
            Err(e) => Err(e),
            Ok((m, q)) => match members_spec(pool, b, q, (k - 1) as nat, mask) {
                Err(e) => Err(e),
                Ok((rest, end)) => Ok((seq![m] + rest, end)),
            },
        }
    }
}

/// The counted records whose 16-bit count stands at `p`.
pub open spec fn counted_members_spec(pool: ConstantPool, b: Seq<u8>, p: int, mask: u16) -> Result<(Seq<MemberView>, int), Error> {
    if p + 2 > b.len() {
        Err(truncated())
    } else {
        members_spec(pool, b, p + 2, be16(b, p) as nat, mask)
    }
}

/// Reads the counted field or method records whose count stands at `p`.
fn parse_members(b: &[u8], p: usize, pool: &ConstantPool, mask: u16) -> (r: Result<(Vec<(u16, u16, u16, Attributes)>, usize), Error>)
    requires
        pool.wf(),
    ensures
        match r {
            Ok((v, q)) => counted_members_spec(*pool, b@, p as int, mask) == Ok::<(Seq<MemberView>, int), Error>((
                v@.map_values(|m: (u16, u16, u16, Attributes)| (m.0, m.1, m.2, m.3@)),
                q as int,
            )),
            Err(e) => counted_members_spec(*pool, b@, p as int, mask) == Err::<(Seq<MemberView>, int), Error>(e),
        },
{
    if p >= b.len() || b.len() - p < 2 {
        return Err(Error::BinaryError(DecodeError::UnexpectedEnd));
    }
    let count = read_u16(b, p).unwrap();
    let ghost total = members_spec(*pool, b@, p + 2, count as nat, mask);
    let mut out: Vec<(u16, u16, u16, Attributes)> = Vec::new();
    let mut left = count;
    let mut pos = p + 2;
    while left > 0
        invariant
            pool.wf(),
            pos <= b@.len(),
            b@.len() <= usize::MAX,
            p + 2 <= b@.len(),
            count as int == be16(b@, p as int),
            total == members_spec(*pool, b@, p + 2, count as nat, mask),
            total == match members_spec(*pool, b@, pos as int, left as nat, mask) {
                Ok((rest, end)) => Ok((out@.map_values(|m: (u16, u16, u16, Attributes)| (m.0, m.1, m.2, m.3@)) + rest, end)),
                Err(e) => Err(e),
            },
        decreases left,
    {
        if b.len() - pos < 6 {
            assert(members_spec(*pool, b@, pos as int, left as nat, mask) == Err::<(Seq<MemberView>, int), Error>(truncated()));
            return Err(Error::BinaryError(DecodeError::UnexpectedEnd));
        }
        let flags = read_u16(b, pos).unwrap() & mask;
        let name = read_u16(b, pos + 2).unwrap();
        let descriptor = read_u16(b, pos + 4).unwrap();
        let (attributes, q) = match Attributes::parse(b, pos + 6, pool) {
            Ok(x) => x,
            Err(e) => {
                assert(members_spec(*pool, b@, pos as int, left as nat, mask) == Err::<(Seq<MemberView>, int), Error>(e));
                return Err(e);
            },
        };
        let ghost m = (flags, name, descriptor, attributes@);
        let ghost before = out@.map_values(|m: (u16, u16, u16, Attributes)| (m.0, m.1, m.2, m.3@));
        out.push((flags, name, descriptor, attributes));
        proof {
            assert(out@.map_values(|m: (u16, u16, u16, Attributes)| (m.0, m.1, m.2, m.3@)) =~= before + seq![m]);
            match members_spec(*pool, b@, q as int, (left - 1) as nat, mask) {
                Ok((rest, end)) => {
                    assert(before + (seq![m] + rest) =~= out@.map_values(|m: (u16, u16, u16, Attributes)| (m.0, m.1, m.2, m.3@)) + rest);
                },
                Err(e) => {},
            }
        }
        pos = q;
        left = left - 1;
    }
    proof {
        assert(out@.map_values(|m: (u16, u16, u16, Attributes)| (m.0, m.1, m.2, m.3@)) + seq![] =~= out@.map_values(|m: (u16, u16, u16, Attributes)| (m.0, m.1, m.2, m.3@)));
    }
    Ok((out, pos))
}

proof fn lemma_members_same_pool(p1: ConstantPool, p2: ConstantPool, b: Seq<u8>, p: int, k: nat, mask: u16)
    requires
        p1.data@ == p2.data@,
        p1.items@ == p2.items@,
    ensures
        members_spec(p1, b, p, k, mask) == members_spec(p2, b, p, k, mask),
    decreases k,
{
    if k > 0 && p + 6 <= b.len() {
        if p + 8 <= b.len() {
            crate::attribute::lemma_attributes_same_pool(p1, p2, b, p + 8, be16(b, p + 6) as nat);
        }
        assert(member_spec(p1, b, p, mask) == member_spec(p2, b, p, mask));
        match member_spec(p1, b, p, mask) {
            Ok((m, q)) => lemma_members_same_pool(p1, p2, b, q, (k - 1) as nat, mask),
            Err(_) => {},
        }
    }
}

proof fn lemma_rest_same_pool(p1: ConstantPool, p2: ConstantPool, b: Seq<u8>, p: int)
    requires
        p1.data@ == p2.data@,
        p1.items@ == p2.items@,
    ensures
        class_rest_spec(p1, b, p) == class_rest_spec(p2, b, p),
{
    let f = fields_pos(b, p);
    if f + 2 <= b.len() {
        lemma_members_same_pool(p1, p2, b, f + 2, be16(b, f) as nat, FIELD_FLAGS);
        match counted_members_spec(p1, b, f, FIELD_FLAGS) {
            Ok((fs, q)) => {
                if q + 2 <= b.len() {
                    lemma_members_same_pool(p1, p2, b, q + 2, be16(b, q) as nat, METHOD_FLAGS);
                }
                match counted_members_spec(p1, b, q, METHOD_FLAGS) {
                    Ok((ms, q2)) => {
                        if q2 + 2 <= b.len() {
                            crate::attribute::lemma_attributes_same_pool(p1, p2, b, q2 + 2, be16(b, q2) as nat);
                        }
                    },
                    Err(_) => {},
                }
            },
            Err(_) => {},
        }
    }
}

/// A decoded class file. It owns its constant pool (and with it the file's
/// bytes), its field and method records and its attribute table.
#[derive(Debug)]
pub struct ClassFile {
    pub minor_version: u16,
    pub major_version: u16,
    pub constant_pool: ConstantPool,
    pub access_flags: ClassAccessFlags,
    pub this_class: ClassIndex,
    pub super_class: ClassIndex,
    pub interfaces: Vec<ClassIndex>,
    pub fields: Vec<FieldRaw>,
    pub methods: Vec<MethodRaw>,
    pub attributes: Attributes,
}

pub open spec fn has_magic(b: Seq<u8>) -> bool {
    b.len() >= 4 && b[0] == 0xca && b[1] == 0xfe && b[2] == 0xba && b[3] == 0xbe
}

/// Where the field count stands, for a class whose access flags start at `p`.
pub open spec fn fields_pos(b: Seq<u8>, p: int) -> int {
    p + 8 + 2 * be16(b, p + 6)
}

/// Everything after the constant pool, read against `pool`: the records of
/// the fields and the methods and the class's attribute table.
pub open spec fn class_rest_spec(pool: ConstantPool, b: Seq<u8>, p: int) -> Result<
    (Seq<MemberView>, Seq<MemberView>, Seq<(Seq<u8>, Seq<u8>)>),
    Error,
> {
    if fields_pos(b, p) > b.len() || p + 8 > b.len() {
        Err(truncated())
    } else {
        match counted_members_spec(pool, b, fields_pos(b, p), FIELD_FLAGS) {
            Err(e) => Err(e),
            Ok((fs, q)) => match counted_members_spec(pool, b, q, METHOD_FLAGS) {
                Err(e) => Err(e),
                Ok((ms, q2)) => match table_spec(pool, b, q2) {
                    Err(e) => Err(e),
                    Ok((t, _)) => Ok((fs, ms, t)),
                },
            },
        }
    }
}

impl ClassFile {
    /// The class file's invariant: its pool's Utf8 entries lie in its data.
    pub open spec fn wf(&self) -> bool {
        self.constant_pool.wf()
    }

    /// Decodes a class file.
    pub fn parse(bytes: Vec<u8>) -> (r: Result<ClassFile, Error>)
        ensures
            match r {
                Ok(cf) => {
                    let b = bytes@;
                    &&& cf.wf()
                    &&& has_magic(b)
                    &&& b.len() >= 10
                    &&& cf.minor_version as int == be16(b, 4)
                    &&& cf.major_version as int == be16(b, 6)
                    &&& cf.constant_pool.data@ == b
                    &&& pool_spec(b, 10, 1, be16(b, 8)) matches Ok((items, end)) && items == cf.constant_pool.items@
                        && {
                        &&& cf.access_flags.0 == (be16(b, end) as u16) & CLASS_FLAGS
                        &&& cf.this_class.0 as int == be16(b, end + 2)
                        &&& cf.super_class.0 as int == be16(b, end + 4)
                        &&& cf.interfaces@.len() == be16(b, end + 6)
                        &&& forall|i: int| 0 <= i < cf.interfaces@.len() ==> #[trigger] cf.interfaces@[i].0 as int == be16(b, end + 8 + 2 * i)
                        &&& class_rest_spec(cf.constant_pool, b, end) == Ok::<(Seq<MemberView>, Seq<MemberView>, Seq<(Seq<u8>, Seq<u8>)>), Error>((
                            cf.fields@.map_values(|f: FieldRaw| f@),
                            cf.methods@.map_values(|m: MethodRaw| m@),
                            cf.attributes@,
                        ))
                    }
                },
                Err(e) => {
                    let b = bytes@;
                    ||| !has_magic(b) && e == Error::BinaryError(DecodeError::BadMagic)
                    ||| b.len() < 10 && e == truncated()
                    ||| pool_spec(b, 10, 1, be16(b, 8)) == Err::<(Seq<crate::pool::ConstantPoolItem>, int), Error>(e)
                    ||| pool_spec(b, 10, 1, be16(b, 8)) matches Ok((items, end)) && (end + 8 > b.len() || fields_pos(b, end) > b.len() || forall|pool: ConstantPool| pool.data@ == b && pool.items@ == items ==> #[trigger] class_rest_spec(pool, b, end) is Err)
                },
            },
    {
        if bytes.len() < 4 || bytes[0] != 0xca || bytes[1] != 0xfe || bytes[2] != 0xba || bytes[3] != 0xbe {
            return Err(Error::BinaryError(DecodeError::BadMagic));
        }
        if bytes.len() < 10 {
            return Err(Error::BinaryError(DecodeError::UnexpectedEnd));
        }
        let minor_version = read_u16(bytes.as_slice(), 4).unwrap();
        let major_version = read_u16(bytes.as_slice(), 6).unwrap();
        let ghost b = bytes@;
        let (constant_pool, p) = ConstantPool::parse(bytes, 8)?;
        let data = constant_pool.data.as_slice();
        if p > data.len() || data.len() - p < 8 {
            return Err(Error::BinaryError(DecodeError::UnexpectedEnd));
        }
        let access_flags = ClassAccessFlags::from_bits_truncate(read_u16(data, p).unwrap());
        let this_class = ClassIndex(read_u16(data, p + 2).unwrap());
        let super_class = ClassIndex(read_u16(data, p + 4).unwrap());
        let n = read_u16(data, p + 6).unwrap();
        let raw = match crate::attributes::read_u16s(data, p + 8, n) {
            Ok(v) => v,
            Err(e) => {
                return Err(e);
            },
        };
        let mut interfaces: Vec<ClassIndex> = Vec::new();
        let mut i: usize = 0;
        while i < raw.len()
            invariant
                i <= raw@.len(),
                interfaces@.len() == i,
                forall|j: int| 0 <= j < i ==> #[trigger] interfaces@[j].0 == raw@[j],
            decreases raw.len() - i,
        {
            interfaces.push(ClassIndex(raw[i]));
            i = i + 1;
        }
        let ghost items = constant_pool.items@;
        proof {
            assert forall|pool: ConstantPool| pool.data@ == b && pool.items@ == items implies #[trigger] class_rest_spec(pool, b, p as int)
                == class_rest_spec(constant_pool, b, p as int) by {
                lemma_rest_same_pool(pool, constant_pool, b, p as int);
            }
        }
        let (fs, q) = parse_members(data, p + 8 + 2 * n as usize, &constant_pool, FIELD_FLAGS)?;
        let (ms, q2) = parse_members(data, q, &constant_pool, METHOD_FLAGS)?;
        let (attributes, _) = Attributes::parse(data, q2, &constant_pool)?;
        let fields = into_fields(fs);
        let methods = into_methods(ms);
        Ok(ClassFile {
            minor_version,
            major_version,
            constant_pool,
            access_flags,
            this_class,
            super_class,
            interfaces,
            fields,
            methods,
            attributes,
        })
    }
}

fn into_fields(v: Vec<(u16, u16, u16, Attributes)>) -> (r: Vec<FieldRaw>)
    ensures
        r@.map_values(|f: FieldRaw| f@) == v@.map_values(|m: (u16, u16, u16, Attributes)| (m.0, m.1, m.2, m.3@)),
{
    let mut v = v;
    let ghost orig = v@.map_values(|m: (u16, u16, u16, Attributes)| (m.0, m.1, m.2, m.3@));
    let mut out: Vec<FieldRaw> = Vec::new();
    while v.len() > 0
        invariant
            orig =~= out@.map_values(|f: FieldRaw| f@) + v@.map_values(|m: (u16, u16, u16, Attributes)| (m.0, m.1, m.2, m.3@)),
        decreases v.len(),
    {
        let ghost before_v = v@;
        let ghost before_out = out@;
        let (flags, name, descriptor, attributes) = v.remove(0);
        out.push(FieldRaw {
            access_flags: FieldAccessFlags(flags),
            name_index: Utf8Index(name),
            descriptor_index: Utf8Index(descriptor),
            attributes,
        });
        proof {
            assert(before_v =~= seq![before_v[0]] + v@);
            assert(out@.map_values(|f: FieldRaw| f@) =~= before_out.map_values(|f: FieldRaw| f@).push(out@.last()@));
            assert(before_v.map_values(|m: (u16, u16, u16, Attributes)| (m.0, m.1, m.2, m.3@)) =~= seq![out@.last()@] + v@.map_values(|m: (u16, u16, u16, Attributes)| (m.0, m.1, m.2, m.3@)));
        }
    }
    assert(out@.map_values(|f: FieldRaw| f@) + v@.map_values(|m: (u16, u16, u16, Attributes)| (m.0, m.1, m.2, m.3@)) =~= out@.map_values(|f: FieldRaw| f@));
    out
}

fn into_methods(v: Vec<(u16, u16, u16, Attributes)>) -> (r: Vec<MethodRaw>)
    ensures
        r@.map_values(|f: MethodRaw| f@) == v@.map_values(|m: (u16, u16, u16, Attributes)| (m.0, m.1, m.2, m.3@)),
{
    let mut v = v;
    let ghost orig = v@.map_values(|m: (u16, u16, u16, Attributes)| (m.0, m.1, m.2, m.3@));
    let mut out: Vec<MethodRaw> = Vec::new();
    while v.len() > 0
        invariant
            orig =~= out@.map_values(|f: MethodRaw| f@) + v@.map_values(|m: (u16, u16, u16, Attributes)| (m.0, m.1, m.2, m.3@)),
        decreases v.len(),
    {
        let ghost before_v = v@;
        let ghost before_out = out@;
        let (flags, name, descriptor, attributes) = v.remove(0);
        out.push(MethodRaw {
            access_flags: MethodAccessFlags(flags),
            name_index: Utf8Index(name),
            descriptor_index: Utf8Index(descriptor),
            attributes,
        });
        proof {
            assert(before_v =~= seq![before_v[0]] + v@);
            assert(out@.map_values(|f: MethodRaw| f@) =~= before_out.map_values(|f: MethodRaw| f@).push(out@.last()@));
            assert(before_v.map_values(|m: (u16, u16, u16, Attributes)| (m.0, m.1, m.2, m.3@)) =~= seq![out@.last()@] + v@.map_values(|m: (u16, u16, u16, Attributes)| (m.0, m.1, m.2, m.3@)));
        }
    }
    assert(out@.map_values(|f: MethodRaw| f@) + v@.map_values(|m: (u16, u16, u16, Attributes)| (m.0, m.1, m.2, m.3@)) =~= out@.map_values(|f: MethodRaw| f@));
    out
}

/// `Java_`
pub open spec fn jni_prefix() -> Seq<u8> {
    seq![74u8, 97, 118, 97, 95]
}

/// A class name with `/` and `$` turned into `_`.
pub open spec fn jni_mangle(class: Seq<u8>) -> Seq<u8> {
    class.map_values(|c: u8| if c == 47 || c == 36 { 95u8 } else { c })
}

/// The symbol a native method binds to: `Java_<class>_<method>`.
pub open spec fn jni_name(class: Seq<u8>, method: Seq<u8>) -> Seq<u8> {
    jni_prefix() + jni_mangle(class) + seq![95u8] + method
}

pub open spec fn vec_bytes_view(r: Result<Vec<u8>, Error>) -> Result<Seq<u8>, Error> {
    match r {
        Ok(v) => Ok(v@),
        Err(e) => Err(e),
    }
}

/// Builds the native binding name from a class name and a method name.
pub fn jni_name_of(class: &[u8], method: &[u8]) -> (r: Vec<u8>)
    ensures
        r@ == jni_name(class@, method@),
{
    let mut out: Vec<u8> = vec![74u8, 97, 118, 97, 95];
    assert(out@ =~= jni_prefix());
    let mut i: usize = 0;
    while i < class.len()
        invariant
            i <= class@.len(),
            out@ =~= jni_prefix() + jni_mangle(class@.subrange(0, i as int)),
        decreases class.len() - i,
    {
        let c = class[i];
        out.push(if c == 47 || c == 36 { 95u8 } else { c });
        assert(class@.subrange(0, i + 1) =~= class@.subrange(0, i as int).push(c));
        i = i + 1;
    }
    assert(class@.subrange(0, i as int) =~= class@);
    out.push(95u8);
    let mut j: usize = 0;
    while j < method.len()
        invariant
            j <= method@.len(),
            out@ =~= jni_prefix() + jni_mangle(class@) + seq![95u8] + method@.subrange(0, j as int),
        decreases method.len() - j,
    {
        out.push(method[j]);
        j = j + 1;
    }
    out
}

/// A method of a class file.
pub struct Method<'a> {
    pub class_file: &'a ClassFile,
    pub method_inner: &'a MethodRaw,
}

/// A field of a class file.
pub struct Field<'a> {
    pub class_file: &'a ClassFile,
    pub field_inner: &'a FieldRaw,
}

impl ClassFile {
    /// The name of this class.
    pub fn this_class(&self) -> (r: Result<&[u8], Error>)
        requires
            self.wf(),
        ensures
            bytes_view(r) == class_name_at(self.constant_pool, self.this_class.0),
    {
        self.this_class.get_as_string(&self.constant_pool)
    }

    /// The name of the superclass (an error for `java/lang/Object`, whose
    /// index is 0).
    pub fn super_class(&self) -> (r: Result<&[u8], Error>)
        requires
            self.wf(),
        ensures
            bytes_view(r) == class_name_at(self.constant_pool, self.super_class.0),
    {
        self.super_class.get_as_string(&self.constant_pool)
    }

    /// The names of the direct superinterfaces, in order.
    pub fn interfaces(&self) -> (r: Result<Vec<&[u8]>, Error>)
        requires
            self.wf(),
        ensures
            match r {
                Ok(v) => class_names_spec(self.constant_pool, self.interfaces@, self.interfaces@.len() as int)
                    == Ok::<Seq<Seq<u8>>, Error>(names_view(v@)),
                Err(e) => class_names_spec(self.constant_pool, self.interfaces@, self.interfaces@.len() as int)
                    == Err::<Seq<Seq<u8>>, Error>(e),
            },
    {
        let x = Exceptions { exception_index_table: copy_indices(&self.interfaces) };
        x.class_names(&self.constant_pool)
    }

    /// Views of the methods, in file order.
    pub fn methods(&self) -> (r: Vec<Method<'_>>)
        ensures
            r@.len() == self.methods@.len(),
            forall|i: int| 0 <= i < r@.len() ==> *(#[trigger] r@[i]).class_file == *self && *r@[i].method_inner == self.methods@[i],
    {
        let mut out: Vec<Method<'_>> = Vec::new();
        let mut i: usize = 0;
        while i < self.methods.len()
            invariant
                i <= self.methods@.len(),
                out@.len() == i,
                forall|j: int| 0 <= j < i ==> *(#[trigger] out@[j]).class_file == *self && *out@[j].method_inner == self.methods@[j],
            decreases self.methods.len() - i,
        {
            out.push(Method { class_file: self, method_inner: &self.methods[i] });
            i = i + 1;
        }
        out
    }

    /// Views of the fields, in file order.
    pub fn fields(&self) -> (r: Vec<Field<'_>>)
        ensures
            r@.len() == self.fields@.len(),
            forall|i: int| 0 <= i < r@.len() ==> *(#[trigger] r@[i]).class_file == *self && *r@[i].field_inner == self.fields@[i],
    {
        let mut out: Vec<Field<'_>> = Vec::new();
        let mut i: usize = 0;
        while i < self.fields.len()
            invariant
                i <= self.fields@.len(),
                out@.len() == i,
                forall|j: int| 0 <= j < i ==> *(#[trigger] out@[j]).class_file == *self && *out@[j].field_inner == self.fields@[j],
            decreases self.fields.len() - i,
        {
            out.push(Field { class_file: self, field_inner: &self.fields[i] });
            i = i + 1;
        }
        out
    }

    /// The class's BootstrapMethods payload, if it has one.
    pub fn bootstrap_methods_bytes(&self) -> (r: Option<&[u8]>)
        ensures
            crate::refs::bytes_opt(r) == lookup(self.attributes@, "BootstrapMethods".spec_bytes()),
    {
        self.attributes.get("BootstrapMethods".as_bytes())
    }

    /// The class's BootstrapMethods attribute, decoded, if it has one.
    pub fn bootstrap_methods(&self) -> (r: Result<Option<crate::refs::BootstrapMethods>, Error>)
        ensures
            match lookup(self.attributes@, "BootstrapMethods".spec_bytes()) {
                None => r matches Ok(None),
                Some(b) => match crate::refs::bootstrap_spec(b) {
                    Ok(t) => r matches Ok(Some(x)) && x@ == t,
                    Err(e) => r == Err::<Option<crate::refs::BootstrapMethods>, Error>(e),
                },
            },
    {
        match self.attributes.get("BootstrapMethods".as_bytes()) {
            Some(b) => Ok(Some(crate::refs::BootstrapMethods::parse(b)?)),
            None => Ok(None),
        }
    }

    /// The class's InnerClasses attribute, decoded, if it has one.
    pub fn inner_classes(&self) -> (r: Result<Option<InnerClasses>, Error>)
        ensures
            lookup(self.attributes@, "InnerClasses".spec_bytes()) is None ==> r matches Ok(None),
            lookup(self.attributes@, "InnerClasses".spec_bytes()) matches Some(b) ==> match r {
                Ok(Some(x)) => b.len() >= 2 && x.classes@.len() == be16(b, 0) && forall|i: int|
                    0 <= i < x.classes@.len() ==> #[trigger] x.classes@[i] == crate::attributes::inner_class_at(b, 2 + 8 * i),
                Ok(None) => false,
                Err(e) => (b.len() < 2 || 2 + 8 * be16(b, 0) > b.len()) && e == truncated(),
            },
    {
        match self.attributes.get("InnerClasses".as_bytes()) {
            Some(b) => Ok(Some(InnerClasses::parse(b)?)),
            None => Ok(None),
        }
    }

    /// The class's EnclosingMethod attribute, decoded, if it has one.
    pub fn enclosing_method(&self) -> (r: Result<Option<EnclosingMethod>, Error>)
        ensures
            lookup(self.attributes@, "EnclosingMethod".spec_bytes()) is None ==> r matches Ok(None),
            lookup(self.attributes@, "EnclosingMethod".spec_bytes()) matches Some(b) ==> match r {
                Ok(Some(x)) => b.len() >= 4 && x.class_index.0 as int == be16(b, 0) && x.method_index.0 as int == be16(b, 2),
                Ok(None) => false,
                Err(e) => b.len() < 4 && e == truncated(),
            },
    {
        match self.attributes.get("EnclosingMethod".as_bytes()) {
            Some(b) => Ok(Some(EnclosingMethod::parse(b)?)),
            None => Ok(None),
        }
    }

    /// The class's generic signature, parsed, if it has one.
    pub fn signature(&self) -> (r: Result<Option<ClassSignature>, Error>)
        requires
            self.wf(),
        ensures
            lookup(self.attributes@, "Signature".spec_bytes()) is None ==> r matches Ok(None),
            lookup(self.attributes@, "Signature".spec_bytes()) matches Some(b) ==> {
                &&& !(r matches Ok(None))
                &&& b.len() < 2 ==> r == Err::<Option<ClassSignature>, Error>(truncated())
                &&& b.len() >= 2 ==> signature_outcome(
                    self.constant_pool,
                    be16(b, 0) as u16,
                    class_sig_end(sig_text(self.constant_pool, be16(b, 0) as u16), 0) == Some(sig_text(self.constant_pool, be16(b, 0) as u16).len() as int),
                    r is Ok,
                    err_of(r),
                )
            },
            lookup(self.attributes@, "Signature".spec_bytes()) matches Some(b) ==> (r matches Ok(Some(t)) ==> b.len() >= 2
                && utf8_at(self.constant_pool, be16(b, 0) as u16) == Ok::<Seq<u8>, Error>(enc_class_sig(t))),
    {
        match self.attributes.get("Signature".as_bytes()) {
            Some(b) => {
                let s = Signature::parse(b)?;
                Ok(Some(s.get_class(&self.constant_pool)?))
            },
            None => Ok(None),
        }
    }

    /// The name of the source file, from the SourceFile attribute, if there is one.
    pub fn source_file(&self) -> (r: Result<Option<&[u8]>, Error>)
        requires
            self.wf(),
        ensures
            lookup(self.attributes@, "SourceFile".spec_bytes()) is None ==> r matches Ok(None),
            lookup(self.attributes@, "SourceFile".spec_bytes()) matches Some(b) ==> match r {
                Ok(Some(name)) => b.len() >= 2 && utf8_at(self.constant_pool, be16(b, 0) as u16) == Ok::<Seq<u8>, Error>(name@),
                Ok(None) => false,
                Err(e) => (b.len() < 2 && e == truncated()) || (b.len() >= 2 && utf8_at(self.constant_pool, be16(b, 0) as u16) == Err::<Seq<u8>, Error>(e)),
            },
    {
        match self.attributes.get("SourceFile".as_bytes()) {
            Some(b) => {
                let f = SourceFile::parse(b)?;
                Ok(Some(f.get(&self.constant_pool)?))
            },
            None => Ok(None),
        }
    }
}

fn copy_indices(v: &Vec<ClassIndex>) -> (r: Vec<ClassIndex>)
    ensures
        r@ == v@,
{
    let mut out: Vec<ClassIndex> = Vec::new();
    let mut i: usize = 0;
    while i < v.len()
        invariant
            i <= v@.len(),
            out@ == v@.subrange(0, i as int),
        decreases v.len() - i,
    {
        out.push(v[i]);
        assert(v@.subrange(0, i + 1) =~= v@.subrange(0, i as int).push(v@[i as int]));
        i = i + 1;
    }
    assert(v@.subrange(0, i as int) =~= v@);
    out
}

impl<'a> Method<'a> {
    /// The method's name.
    pub fn identifier(&self) -> (r: Result<&'a [u8], Error>)
        requires
            self.class_file.wf(),
        ensures
            bytes_view(r) == utf8_at(self.class_file.constant_pool, self.method_inner.name_index.0),
    {
        self.method_inner.name_index.get_as_string(&self.class_file.constant_pool)
    }

    /// The method's descriptor, parsed; text left over after it is an error.
    pub fn descriptor(&self) -> (r: Result<MethodDescriptor, Error>)
        requires
            self.class_file.wf(),
        ensures
            match utf8_at(self.class_file.constant_pool, self.method_inner.descriptor_index.0) {
                Err(e) => r == Err::<MethodDescriptor, Error>(e),
                Ok(d) => if method_end(d, 0) == Some(d.len() as int) {
                    r matches Ok(m) && encode_method(m) == d && canonical_method(m)
                } else {
                    r == Err::<MethodDescriptor, Error>(Error::TextError)
                },
            },
    {
        let raw = self.method_inner.descriptor_index.get_as_string(&self.class_file.constant_pool)?;
        MethodDescriptor::from_bytes(raw)
    }

    /// The name a native implementation of this method binds to:
    /// `Java_`, the class name with `/` and `$` turned into `_`, `_`, and
    /// the method name.
    pub fn jni_identifier(&self) -> (r: Result<Vec<u8>, Error>)
        requires
            self.class_file.wf(),
        ensures
            vec_bytes_view(r) == match class_name_at(self.class_file.constant_pool, self.class_file.this_class.0) {
                Err(e) => Err(e),
                Ok(c) => match utf8_at(self.class_file.constant_pool, self.method_inner.name_index.0) {
                    Err(e) => Err(e),
                    Ok(n) => Ok::<Seq<u8>, Error>(jni_name(c, n)),
                },
            },
    {
        let class = self.class_file.this_class()?;
        let name = self.identifier()?;
        Ok(jni_name_of(class, name))
    }

    /// Whether the method is native.
    pub fn is_native(&self) -> (r: bool)
        ensures
            r == (self.method_inner.access_flags.0 & ACC_NATIVE == ACC_NATIVE),
    {
        self.method_inner.access_flags.contains(ACC_NATIVE)
    }

    /// The method's Code attribute, decoded, if it has one.
    pub fn code(&self) -> (r: Result<Option<Code>, Error>)
        requires
            self.class_file.wf(),
        ensures
            match lookup(self.method_inner.attributes@, "Code".spec_bytes()) {
                None => r matches Ok(None),
                Some(b) => match r {
                    Ok(Some(c)) => code_layout_ok(self.class_file.constant_pool, b) && code_matches(self.class_file.constant_pool, b, c),
                    Ok(None) => false,
                    Err(_) => !code_layout_ok(self.class_file.constant_pool, b),
                },
            },
    {
        match self.method_inner.attributes.get("Code".as_bytes()) {
            Some(b) => Ok(Some(Code::parse(b, &self.class_file.constant_pool)?)),
            None => Ok(None),
        }
    }

    /// The method's generic signature, parsed, if it has one.
    pub fn signature(&self) -> (r: Result<Option<MethodSignature>, Error>)
        requires
            self.class_file.wf(),
        ensures
            lookup(self.method_inner.attributes@, "Signature".spec_bytes()) is None ==> r matches Ok(None),
            lookup(self.method_inner.attributes@, "Signature".spec_bytes()) matches Some(b) ==> {
                &&& !(r matches Ok(None))
                &&& b.len() < 2 ==> r == Err::<Option<MethodSignature>, Error>(truncated())
                &&& b.len() >= 2 ==> signature_outcome(
                    self.class_file.constant_pool,
                    be16(b, 0) as u16,
                    method_sig_end(sig_text(self.class_file.constant_pool, be16(b, 0) as u16), 0) == Some(sig_text(self.class_file.constant_pool, be16(b, 0) as u16).len() as int),
                    r is Ok,
                    err_of(r),
                )
            },
            lookup(self.method_inner.attributes@, "Signature".spec_bytes()) matches Some(b) ==> (r matches Ok(Some(t)) ==> b.len() >= 2
                && utf8_at(self.class_file.constant_pool, be16(b, 0) as u16) == Ok::<Seq<u8>, Error>(enc_method_sig(t))),
    {
        match self.method_inner.attributes.get("Signature".as_bytes()) {
            Some(b) => {
                let s = Signature::parse(b)?;
                Ok(Some(s.get_method(&self.class_file.constant_pool)?))
            },
            None => Ok(None),
        }
    }

    /// The method's Exceptions attribute, decoded, if it has one.
    pub fn exceptions(&self) -> (r: Result<Option<Exceptions>, Error>)
        ensures
            lookup(self.method_inner.attributes@, "Exceptions".spec_bytes()) is None ==> r matches Ok(None),
            lookup(self.method_inner.attributes@, "Exceptions".spec_bytes()) matches Some(b) ==> match r {
                Ok(Some(x)) => b.len() >= 2 && x.exception_index_table@.len() == be16(b, 0) && forall|i: int|
                    0 <= i < x.exception_index_table@.len() ==> #[trigger] x.exception_index_table@[i].0 as int == be16(b, 2 + 2 * i),
                Ok(None) => false,
                Err(e) => (b.len() < 2 || 2 + 2 * be16(b, 0) > b.len()) && e == truncated(),
            },
    {
        match self.method_inner.attributes.get("Exceptions".as_bytes()) {
            Some(b) => Ok(Some(Exceptions::parse(b)?)),
            None => Ok(None),
        }
    }
}

impl<'a> Field<'a> {
    /// The field's name.
    pub fn identifier(&self) -> (r: Result<&'a [u8], Error>)
        requires
            self.class_file.wf(),
        ensures
            bytes_view(r) == utf8_at(self.class_file.constant_pool, self.field_inner.name_index.0),
    {
        self.field_inner.name_index.get_as_string(&self.class_file.constant_pool)
    }

    /// The field's descriptor, parsed; text left over after it is an error.
    pub fn descriptor(&self) -> (r: Result<TypeDescriptor, Error>)
        requires
            self.class_file.wf(),
        ensures
            match utf8_at(self.class_file.constant_pool, self.field_inner.descriptor_index.0) {
                Err(e) => r == Err::<TypeDescriptor, Error>(e),
                Ok(d) => if desc_end(d, 0) == Some(d.len() as int) {
                    r matches Ok(t) && encode(t) == d && canonical(t)
                } else {
                    r == Err::<TypeDescriptor, Error>(Error::TextError)
                },
            },
    {
        let raw = self.field_inner.descriptor_index.get_as_string(&self.class_file.constant_pool)?;
        TypeDescriptor::from_bytes(raw)
    }

    /// The field's generic signature, parsed, if it has one.
    pub fn signature(&self) -> (r: Result<Option<ReferenceType>, Error>)
        requires
            self.class_file.wf(),
        ensures
            lookup(self.field_inner.attributes@, "Signature".spec_bytes()) is None ==> r matches Ok(None),
            lookup(self.field_inner.attributes@, "Signature".spec_bytes()) matches Some(b) ==> {
                &&& !(r matches Ok(None))
                &&& b.len() < 2 ==> r == Err::<Option<ReferenceType>, Error>(truncated())
                &&& b.len() >= 2 ==> signature_outcome(
                    self.class_file.constant_pool,
                    be16(b, 0) as u16,
                    ref_end(sig_text(self.class_file.constant_pool, be16(b, 0) as u16), 0) == Some(sig_text(self.class_file.constant_pool, be16(b, 0) as u16).len() as int),
                    r is Ok,
                    err_of(r),
                )
            },
            lookup(self.field_inner.attributes@, "Signature".spec_bytes()) matches Some(b) ==> (r matches Ok(Some(t)) ==> b.len() >= 2
                && utf8_at(self.class_file.constant_pool, be16(b, 0) as u16) == Ok::<Seq<u8>, Error>(enc_ref(t))),
    {
        match self.field_inner.attributes.get("Signature".as_bytes()) {
            Some(b) => {
                let s = Signature::parse(b)?;
                Ok(Some(s.get_field(&self.class_file.constant_pool)?))
            },
            None => Ok(None),
        }
    }

    /// The field's ConstantValue attribute, decoded, if it has one.
    pub fn constant_value(&self) -> (r: Result<Option<ConstantValue>, Error>)
        ensures
            lookup(self.field_inner.attributes@, "ConstantValue".spec_bytes()) is None ==> r matches Ok(None),
            lookup(self.field_inner.attributes@, "ConstantValue".spec_bytes()) matches Some(b) ==> match r {
                Ok(Some(c)) => b.len() >= 2 && c.constantvalue_index as int == be16(b, 0),
                Ok(None) => false,
                Err(e) => b.len() < 2 && e == truncated(),
            },
    {
        match self.field_inner.attributes.get("ConstantValue".as_bytes()) {
            Some(b) => Ok(Some(ConstantValue::parse(b)?)),
            None => Ok(None),
        }
    }
}

impl Code {
    /// The LineNumberTable nested in this Code attribute, decoded, if there is one.
    pub fn line_number_table(&self) -> (r: Result<Option<LineNumberTable>, Error>)
        ensures
            lookup(self.attributes@, "LineNumberTable".spec_bytes()) is None ==> r matches Ok(None),
            lookup(self.attributes@, "LineNumberTable".spec_bytes()) matches Some(b) ==> match r {
                Ok(Some(t)) => b.len() >= 2 && t.line_number_table@.len() == be16(b, 0) && forall|i: int|
                    0 <= i < t.line_number_table@.len() ==> #[trigger] t.line_number_table@[i] == (
                        be16(b, 2 + 4 * i) as u16,
                        be16(b, 4 + 4 * i) as u16,
                    ),
                Ok(None) => false,
                Err(e) => (b.len() < 2 || 2 + 4 * be16(b, 0) > b.len()) && e == truncated(),
            },
    {
        match self.attributes.get("LineNumberTable".as_bytes()) {
            Some(b) => Ok(Some(LineNumberTable::parse(b)?)),
            None => Ok(None),
        }
    }

    /// The LocalVariableTable nested in this Code attribute, decoded, if there is one.
    pub fn local_variable_table(&self) -> (r: Result<Option<LocalVariableTable>, Error>)
        ensures
            lookup(self.attributes@, "LocalVariableTable".spec_bytes()) is None ==> r matches Ok(None),
            lookup(self.attributes@, "LocalVariableTable".spec_bytes()) matches Some(b) ==> match r {
                Ok(Some(t)) => b.len() >= 2 && t.local_variable_table@.len() == be16(b, 0) && forall|i: int|
                    0 <= i < t.local_variable_table@.len() ==> #[trigger] t.local_variable_table@[i] == local_record_at(b, 2 + 10 * i),
                Ok(None) => false,
                Err(e) => (b.len() < 2 || 2 + 10 * be16(b, 0) > b.len()) && e == truncated(),
            },
    {
        match self.attributes.get("LocalVariableTable".as_bytes()) {
            Some(b) => Ok(Some(LocalVariableTable::parse(b)?)),
            None => Ok(None),
        }
    }

    /// The LocalVariableTypeTable nested in this Code attribute, decoded, if there is one.
    pub fn local_variable_type_table(&self) -> (r: Result<Option<LocalVariableTypeTable>, Error>)
        ensures
            lookup(self.attributes@, "LocalVariableTypeTable".spec_bytes()) is None ==> r matches Ok(None),
            lookup(self.attributes@, "LocalVariableTypeTable".spec_bytes()) matches Some(b) ==> match r {
                Ok(Some(t)) => b.len() >= 2 && t.local_variable_type_table@.len() == be16(b, 0) && forall|i: int|
                    0 <= i < t.local_variable_type_table@.len() ==> #[trigger] t.local_variable_type_table@[i] == local_record_at(b, 2 + 10 * i),
                Ok(None) => false,
                Err(e) => (b.len() < 2 || 2 + 10 * be16(b, 0) > b.len()) && e == truncated(),
            },
    {
        match self.attributes.get("LocalVariableTypeTable".as_bytes()) {
            Some(b) => Ok(Some(LocalVariableTypeTable::parse(b)?)),
            None => Ok(None),
        }
    }

    /// The method's instructions, decoded from the start of the code array
    /// to its end against `class_file`.
    pub fn instructions(&self, class_file: &ClassFile) -> (r: Result<Vec<Instruction>, Error>)
        requires
            class_file.wf(),
        ensures
            r is Ok ==> crate::instruction::stream_ok(self.code@, 0),
            match r {
                Ok(v) => {
                    &&& v@.len() == crate::instruction::starts(self.code@, 0).len()
                    &&& forall|k: int| 0 <= k < v@.len() ==> {
                        let p = #[trigger] crate::instruction::starts(self.code@, 0)[k];
                        &&& crate::instruction::opcode_of(v@[k]) == self.code@[p]
                        &&& crate::instruction::operands_ok(v@[k], self.code@, p)
                        &&& crate::instruction::resolved_ok(v@[k], self.code@, p, class_file.constant_pool, lookup(class_file.attributes@, "BootstrapMethods".spec_bytes()))
                    }
                },
                Err(e) => (crate::instruction::stream_stop(self.code@, 0) < self.code@.len() && e
                    == crate::instruction::insn_error(self.code@, crate::instruction::stream_stop(self.code@, 0))) || exists|k: int|
                    0 <= k < crate::instruction::starts(self.code@, 0).len() && crate::instruction::operand_error(
                        self.code@,
                        #[trigger] crate::instruction::starts(self.code@, 0)[k],
                        class_file.constant_pool,
                        lookup(class_file.attributes@, "BootstrapMethods".spec_bytes()),
                        e,
                    ),
            },
    {
        let bootstrap = class_file.bootstrap_methods_bytes();
        decode_all(self.code.as_slice(), &class_file.constant_pool, bootstrap)
    }
}

} // verus!
