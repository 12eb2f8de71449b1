//! The Signature attribute and the local variable tables of a Code attribute.
use vstd::prelude::*;

use crate::descriptor::{canonical, desc_end, encode, TypeDescriptor};
use crate::error::Error;
use crate::pool::{utf8_at, ConstantPool, Utf8Index};
use crate::reader::{be16, read_u16, truncated};
use crate::signature::{class_sig_end, enc_class_sig, enc_method_sig, enc_ref, method_sig_end, ref_end, ClassSignature, MethodSignature, ReferenceType};

verus! {

/// The Signature attribute: the index of a generic signature string.
#[derive(Clone, Copy, Debug, PartialEq, Eq, Structural)]
pub struct Signature {
    pub signature_index: Utf8Index,
}

/// What decoding the signature text at `index` yields, where `ok` says
/// whether the text matches the grammar in question: the lookup's error,
/// a text error, or success.
pub open spec fn signature_outcome(pool: ConstantPool, index: u16, ok: bool, r_is_ok: bool, r_err: Option<Error>) -> bool {
    match utf8_at(pool, index) {
        Err(e) => r_err == Some(e),
        Ok(_) => (r_is_ok <==> ok) && (!r_is_ok ==> r_err == Some(Error::TextError)),
    }
}

pub open spec fn err_of<T>(r: Result<T, Error>) -> Option<Error> {
    match r {
        Ok(_) => None,
        Err(e) => Some(e),
    }
}

pub open spec fn sig_text(pool: ConstantPool, index: u16) -> Seq<u8> {
    match utf8_at(pool, index) {
        Ok(t) => t,
        Err(_) => seq![],
    }
}

impl Signature {
    /// Decodes a Signature payload.
    pub fn parse(b: &[u8]) -> (r: Result<Signature, Error>)
        ensures
            match r {
                Ok(x) => b@.len() >= 2 && x.signature_index.0 as int == be16(b@, 0),
                Err(e) => b@.len() < 2 && e == truncated(),
            },
    {
        Ok(Signature { signature_index: Utf8Index(read_u16(b, 0)?) })
    }

    /// The signature read as a class signature.
    pub fn get_class(&self, pool: &ConstantPool) -> (r: Result<ClassSignature, Error>)
        requires
            pool.wf(),
        ensures
            signature_outcome(*pool, self.signature_index.0, class_sig_end(sig_text(*pool, self.signature_index.0), 0)
                == Some(sig_text(*pool, self.signature_index.0).len() as int), r is Ok, err_of(r)),
            r matches Ok(t) ==> utf8_at(*pool, self.signature_index.0) == Ok::<Seq<u8>, Error>(enc_class_sig(t)),
    {
        let text = self.signature_index.get_as_string(pool)?;
        ClassSignature::from_bytes(text)
    }

    /// The signature read as a method signature.
    pub fn get_method(&self, pool: &ConstantPool) -> (r: Result<MethodSignature, Error>)
        requires
            pool.wf(),
        ensures
            signature_outcome(*pool, self.signature_index.0, method_sig_end(sig_text(*pool, self.signature_index.0), 0)
                == Some(sig_text(*pool, self.signature_index.0).len() as int), r is Ok, err_of(r)),
            r matches Ok(t) ==> utf8_at(*pool, self.signature_index.0) == Ok::<Seq<u8>, Error>(enc_method_sig(t)),
    {
        let text = self.signature_index.get_as_string(pool)?;
        MethodSignature::from_bytes(text)
    }

    /// The signature read as a field signature.
    pub fn get_field(&self, pool: &ConstantPool) -> (r: Result<ReferenceType, Error>)
        requires
            pool.wf(),
        ensures
            signature_outcome(*pool, self.signature_index.0, ref_end(sig_text(*pool, self.signature_index.0), 0)
                == Some(sig_text(*pool, self.signature_index.0).len() as int), r is Ok, err_of(r)),
            r matches Ok(t) ==> utf8_at(*pool, self.signature_index.0) == Ok::<Seq<u8>, Error>(enc_ref(t)),
    {
        let text = self.signature_index.get_as_string(pool)?;
        ReferenceType::from_bytes(text)
    }
}

/// A raw local variable record: start pc, length, name index, descriptor
/// (or signature) index, slot.
pub type LocalRecord = (u16, u16, Utf8Index, Utf8Index, u16);

/// The local variable record encoded at `p`.
pub open spec fn local_record_at(b: Seq<u8>, p: int) -> LocalRecord {
    (
        be16(b, p) as u16,
        be16(b, p + 2) as u16,
        Utf8Index(be16(b, p + 4) as u16),
        Utf8Index(be16(b, p + 6) as u16),
        be16(b, p + 8) as u16,
    )
}

/// Reads a counted table of 10-byte local variable records.
fn parse_local_records(b: &[u8]) -> (r: Result<Vec<LocalRecord>, Error>)
    ensures
        match r {
            Ok(v) => b@.len() >= 2 && 2 + 10 * be16(b@, 0) <= b@.len() && v@.len() == be16(b@, 0) && forall|i: int|
                0 <= i < v@.len() ==> #[trigger] v@[i] == local_record_at(b@, 2 + 10 * i),
            Err(e) => (b@.len() < 2 || 2 + 10 * be16(b@, 0) > b@.len()) && e == truncated(),
        },
{
    let n = read_u16(b, 0)?;
    if (b.len() - 2) / 10 < n as usize {
        return Err(Error::BinaryError(crate::error::DecodeError::UnexpectedEnd));
    }
    let mut out: Vec<LocalRecord> = Vec::new();
    let mut i: usize = 0;
    while i < n as usize
        invariant
            2 + 10 * n <= b@.len(),
            b@.len() <= usize::MAX,
            i <= n,
            out@.len() == i,
            forall|j: int| 0 <= j < i ==> #[trigger] out@[j] == local_record_at(b@, 2 + 10 * j),
        decreases n - i,
    {
        let p = 2 + 10 * i;
        let start_pc = read_u16(b, p).unwrap();
        let length = read_u16(b, p + 2).unwrap();
        let name = read_u16(b, p + 4).unwrap();
        let descriptor = read_u16(b, p + 6).unwrap();
        let index = read_u16(b, p + 8).unwrap();
        out.push((start_pc, length, Utf8Index(name), Utf8Index(descriptor), index));
        i = i + 1;
    }
    Ok(out)
}

/// A local variable with its name resolved and its descriptor parsed.
#[derive(Debug)]
pub struct LocalVariable {
    pub start_pc: u16,
    pub length: u16,
    pub name: Vec<u8>,
    pub descriptor: TypeDescriptor,
    pub index: u16,
}

/// The LocalVariableTable attribute of a Code attribute.
#[derive(Debug)]
pub struct LocalVariableTable {
    pub local_variable_table: Vec<LocalRecord>,
}

/// Whether a record's name and descriptor resolve and the descriptor parses.
pub open spec fn variable_ok(pool: ConstantPool, rec: LocalRecord) -> bool {
    utf8_at(pool, rec.2.0) is Ok && (utf8_at(pool, rec.3.0) matches Ok(d) && desc_end(d, 0) == Some(d.len() as int))
}

pub open spec fn variable_matches(pool: ConstantPool, rec: LocalRecord, v: LocalVariable) -> bool {
    &&& v.start_pc == rec.0 && v.length == rec.1 && v.index == rec.4
    &&& utf8_at(pool, rec.2.0) == Ok::<Seq<u8>, Error>(v.name@)
    &&& utf8_at(pool, rec.3.0) == Ok::<Seq<u8>, Error>(encode(v.descriptor))
    &&& canonical(v.descriptor)
}

impl LocalVariableTable {
    /// Decodes a LocalVariableTable payload.
    pub fn parse(b: &[u8]) -> (r: Result<LocalVariableTable, Error>)
        ensures
            match r {
                Ok(t) => b@.len() >= 2 && t.local_variable_table@.len() == be16(b@, 0) && forall|i: int|
                    0 <= i < t.local_variable_table@.len() ==> #[trigger] t.local_variable_table@[i] == local_record_at(b@, 2 + 10 * i),
                Err(e) => (b@.len() < 2 || 2 + 10 * be16(b@, 0) > b@.len()) && e == truncated(),
            },
    {
        Ok(LocalVariableTable { local_variable_table: parse_local_records(b)? })
    }

    /// The variables, with names resolved and descriptors parsed.
    pub fn get_variables(&self, pool: &ConstantPool) -> (r: Result<Vec<LocalVariable>, Error>)
        requires
            pool.wf(),
        ensures
            r is Ok <==> forall|i: int| 0 <= i < self.local_variable_table@.len() ==> variable_ok(*pool, #[trigger] self.local_variable_table@[i]),
            r matches Ok(v) ==> v@.len() == self.local_variable_table@.len() && forall|i: int|
                0 <= i < v@.len() ==> variable_matches(*pool, self.local_variable_table@[i], #[trigger] v@[i]),
    {
        let mut out: Vec<LocalVariable> = Vec::new();
        let mut i: usize = 0;
        while i < self.local_variable_table.len()
            invariant
                pool.wf(),
                i <= self.local_variable_table@.len(),
                out@.len() == i,
                forall|j: int| 0 <= j < i ==> variable_ok(*pool, #[trigger] self.local_variable_table@[j]),
                forall|j: int| 0 <= j < i ==> variable_matches(*pool, self.local_variable_table@[j], #[trigger] out@[j]),
            decreases self.local_variable_table.len() - i,
        {
            let (start_pc, length, name, descriptor, index) = self.local_variable_table[i];
            let name = match name.get_as_string(pool) {
                Ok(n) => n,
                Err(e) => {
                    assert(!variable_ok(*pool, self.local_variable_table@[i as int]));
                    return Err(e);
                },
            };
            let text = match descriptor.get_as_string(pool) {
                Ok(d) => d,
                Err(e) => {
                    assert(!variable_ok(*pool, self.local_variable_table@[i as int]));
                    return Err(e);
                },
            };
            let descriptor = match TypeDescriptor::from_bytes(text) {
                Ok(d) => d,
                Err(e) => {
                    assert(!variable_ok(*pool, self.local_variable_table@[i as int]));
                    return Err(e);
                },
            };
            out.push(LocalVariable { start_pc, length, name: vstd::slice::slice_to_vec(name), descriptor, index });
            i = i + 1;
        }
        Ok(out)
    }
}

/// A local variable with its name resolved and its signature parsed.
#[derive(Debug)]
pub struct LocalVariableType {
    pub start_pc: u16,
    pub length: u16,
    pub name: Vec<u8>,
    pub signature: ReferenceType,
    pub index: u16,
}

/// The LocalVariableTypeTable attribute of a Code attribute.
#[derive(Debug)]
pub struct LocalVariableTypeTable {
    pub local_variable_type_table: Vec<LocalRecord>,
}

/// Whether a record's name and signature resolve and the signature parses.
pub open spec fn variable_type_ok(pool: ConstantPool, rec: LocalRecord) -> bool {
    utf8_at(pool, rec.2.0) is Ok && (utf8_at(pool, rec.3.0) matches Ok(d) && ref_end(d, 0) == Some(d.len() as int))
}

impl LocalVariableTypeTable {
    /// Decodes a LocalVariableTypeTable payload.
    pub fn parse(b: &[u8]) -> (r: Result<LocalVariableTypeTable, Error>)
        ensures
            match r {
                Ok(t) => b@.len() >= 2 && t.local_variable_type_table@.len() == be16(b@, 0) && forall|i: int|
                    0 <= i < t.local_variable_type_table@.len() ==> #[trigger] t.local_variable_type_table@[i] == local_record_at(b@, 2 + 10 * i),
                Err(e) => (b@.len() < 2 || 2 + 10 * be16(b@, 0) > b@.len()) && e == truncated(),
            },
    {
        Ok(LocalVariableTypeTable { local_variable_type_table: parse_local_records(b)? })
    }

    /// The variables, with names resolved and signatures parsed.
    pub fn get_variable_types(&self, pool: &ConstantPool) -> (r: Result<Vec<LocalVariableType>, Error>)
        requires
            pool.wf(),
        ensures
            r is Ok <==> forall|i: int| 0 <= i < self.local_variable_type_table@.len() ==> variable_type_ok(*pool, #[trigger] self.local_variable_type_table@[i]),
            r matches Ok(v) ==> v@.len() == self.local_variable_type_table@.len() && forall|i: int|
                0 <= i < v@.len() ==> {
                    let rec = self.local_variable_type_table@[i];
                    &&& (#[trigger] v@[i]).start_pc == rec.0 && v@[i].length == rec.1 && v@[i].index == rec.4
                    &&& utf8_at(*pool, rec.2.0) == Ok::<Seq<u8>, Error>(v@[i].name@)
                    &&& utf8_at(*pool, rec.3.0) == Ok::<Seq<u8>, Error>(enc_ref(v@[i].signature))
                },
    {
        let mut out: Vec<LocalVariableType> = Vec::new();
        let mut i: usize = 0;
        while i < self.local_variable_type_table.len()
            invariant
                pool.wf(),
                i <= self.local_variable_type_table@.len(),
                out@.len() == i,
                forall|j: int| 0 <= j < i ==> variable_type_ok(*pool, #[trigger] self.local_variable_type_table@[j]),
                forall|j: int| 0 <= j < i ==> {
                    let rec = self.local_variable_type_table@[j];
                    &&& (#[trigger] out@[j]).start_pc == rec.0 && out@[j].length == rec.1 && out@[j].index == rec.4
                    &&& utf8_at(*pool, rec.2.0) == Ok::<Seq<u8>, Error>(out@[j].name@)
                    &&& utf8_at(*pool, rec.3.0) == Ok::<Seq<u8>, Error>(enc_ref(out@[j].signature))
                },
            decreases self.local_variable_type_table.len() - i,
        {
            let (start_pc, length, name, signature, index) = self.local_variable_type_table[i];
            let name = match name.get_as_string(pool) {
                Ok(n) => n,
                Err(e) => {
                    assert(!variable_type_ok(*pool, self.local_variable_type_table@[i as int]));
                    return Err(e);
                },
            };
            let text = match signature.get_as_string(pool) {
                Ok(d) => d,
                Err(e) => {
                    assert(!variable_type_ok(*pool, self.local_variable_type_table@[i as int]));
                    return Err(e);
                },
            };
            let signature = match ReferenceType::from_bytes(text) {
                Ok(d) => d,
                Err(e) => {
                    assert(!variable_type_ok(*pool, self.local_variable_type_table@[i as int]));
                    return Err(e);
                },
            };
            out.push(LocalVariableType { start_pc, length, name: vstd::slice::slice_to_vec(name), signature, index });
            i = i + 1;
        }
        Ok(out)
    }
}

} // verus!
