//! The Code attribute of a method, and the attributes nested in it.
use vstd::prelude::*;
use vstd::string::StringSliceAdditionalSpecFns;

use crate::attribute::{lookup, table_spec, Attributes};

use crate::error::{DecodeError, Error};
use crate::pool::{ClassIndex, ConstantPool};
use crate::reader::{be16, be32, read_u16, read_u32};
use crate::stack_map::{stack_map_spec, StackMapTable};

verus! {

/// One entry of a Code attribute's exception table.
#[derive(Clone, Copy, Debug, PartialEq, Eq, Structural)]
pub struct Exception {
    pub start_pc: u16,
    pub end_pc: u16,
    pub handler_pc: u16,
    /// `None` (index 0 in the file) for a handler that catches everything.
    pub catch_type: Option<ClassIndex>,
}

/// The exception table entry encoded at `p`.
pub open spec fn exception_at(b: Seq<u8>, p: int) -> Exception {
    Exception {
        start_pc: be16(b, p) as u16,
        end_pc: be16(b, p + 2) as u16,
        handler_pc: be16(b, p + 4) as u16,
        catch_type: if be16(b, p + 6) == 0 {
            None
        } else {
            Some(ClassIndex(be16(b, p + 6) as u16))
        },
    }
}

/// A method's Code attribute.
#[derive(Debug)]
pub struct Code {
    pub max_stack: u16,
    pub max_locals: u16,
    pub code: Vec<u8>,
    pub exception_table: Vec<Exception>,
    pub attributes: Attributes,
}

/// Where the exception table's count stands in a Code payload.
pub open spec fn exceptions_pos(b: Seq<u8>) -> int {
    8 + be32(b, 4)
}

/// Where the nested attribute table stands in a Code payload.
pub open spec fn code_attributes_pos(b: Seq<u8>) -> int {
    exceptions_pos(b) + 2 + 8 * be16(b, exceptions_pos(b))
}

/// Whether a Code payload is laid out completely.
pub open spec fn code_layout_ok(pool: ConstantPool, b: Seq<u8>) -> bool {
    &&& b.len() >= 8
    &&& exceptions_pos(b) + 2 <= b.len()
    &&& code_attributes_pos(b) <= b.len()
    &&& table_spec(pool, b, code_attributes_pos(b)) is Ok
}

/// What a Code payload holds.
pub open spec fn code_matches(pool: ConstantPool, b: Seq<u8>, c: Code) -> bool {
    &&& c.max_stack as int == be16(b, 0)
    &&& c.max_locals as int == be16(b, 2)
    &&& c.code@ == b.subrange(8, exceptions_pos(b))
    &&& c.exception_table@.len() == be16(b, exceptions_pos(b))
    &&& forall|i: int|
        0 <= i < c.exception_table@.len() ==> #[trigger] c.exception_table@[i] == exception_at(
            b,
            exceptions_pos(b) + 2 + 8 * i,
        )
    &&& table_spec(pool, b, code_attributes_pos(b)) matches Ok((t, _)) && t == c.attributes@
}

impl Code {
    /// Decodes a Code payload, resolving nested attribute names against `pool`.
    pub fn parse(b: &[u8], pool: &ConstantPool) -> (r: Result<Code, Error>)
        requires
            pool.wf(),
        ensures
            r is Ok <==> code_layout_ok(*pool, b@),
            r matches Ok(c) ==> code_matches(*pool, b@, c),
    {
        let max_stack = read_u16(b, 0)?;
        let max_locals = read_u16(b, 2)?;
        let n = read_u32(b, 4)? as usize;
        if b.len() - 8 < n {
            return Err(Error::BinaryError(DecodeError::UnexpectedEnd));
        }
        let code = vstd::slice::slice_to_vec(vstd::slice::slice_subrange(b, 8, 8 + n));
        let p = 8 + n;
        let count = read_u16(b, p)?;
        if (b.len() - (p + 2)) / 8 < count as usize {
            return Err(Error::BinaryError(DecodeError::UnexpectedEnd));
        }
        let mut exception_table: Vec<Exception> = Vec::new();
        let mut i: usize = 0;
        while i < count as usize
            invariant
                p + 2 + 8 * count <= b@.len(),
                b@.len() <= usize::MAX,
                p == exceptions_pos(b@),
                count as int == be16(b@, p as int),
                i <= count,
                exception_table@.len() == i,
                forall|j: int| 0 <= j < i ==> #[trigger] exception_table@[j] == exception_at(b@, p + 2 + 8 * j),
            decreases count - i,
        {
            let q = p + 2 + 8 * i;
            let start_pc = read_u16(b, q).unwrap();
            let end_pc = read_u16(b, q + 2).unwrap();
            let handler_pc = read_u16(b, q + 4).unwrap();
            let catch = read_u16(b, q + 6).unwrap();
            exception_table.push(Exception {
                start_pc,
                end_pc,
                handler_pc,
                catch_type: if catch == 0 { None } else { Some(ClassIndex(catch)) },
            });
            i = i + 1;
        }
        let (attributes, _) = Attributes::parse(b, p + 2 + 8 * count as usize, pool)?;
        Ok(Code { max_stack, max_locals, code, exception_table, attributes })
    }

    /// The StackMapTable nested in this Code attribute, decoded, if there is one.
    pub fn stack_map_table(&self) -> (r: Result<Option<StackMapTable>, Error>)
        ensures
            match lookup(self.attributes@, "StackMapTable".spec_bytes()) {
                None => r matches Ok(None),
                Some(b) => match stack_map_spec(b) {
                    Ok(frames) => r matches Ok(Some(t)) && t@ == frames,
                    Err(e) => r == Err::<Option<StackMapTable>, Error>(e),
                },
            },
    {
        match self.attributes.get("StackMapTable".as_bytes()) {
            Some(b) => Ok(Some(StackMapTable::parse(b)?)),
            None => Ok(None),
        }
    }
}

} // verus!
