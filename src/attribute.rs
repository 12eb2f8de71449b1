//! The name-keyed attribute table attached to a class, a field, a method or
//! a Code attribute. Payloads are kept as bytes and decoded on demand.
use vstd::prelude::*;

use crate::error::{DecodeError, Error};
use crate::pool::{utf8_at, ConstantPool, Utf8Index};
use crate::reader::{be16, be32, read_u16, read_u32, truncated};

verus! {

/// One attribute: its resolved name and its undecoded payload.
#[derive(Debug)]
pub struct Attribute {
    pub name: Vec<u8>,
    pub info: Vec<u8>,
}

/// The attributes of one class, field, method or Code attribute, in file order.
#[derive(Debug)]
pub struct Attributes(pub Vec<Attribute>);

impl View for Attributes {
    type V = Seq<(Seq<u8>, Seq<u8>)>;

    open spec fn view(&self) -> Seq<(Seq<u8>, Seq<u8>)> {
        self.0@.map_values(|a: Attribute| (a.name@, a.info@))
    }
}

/// The name of an attribute whose name index is `index`: a name that does not
/// resolve to a Utf8 entry reads as the empty name.
pub open spec fn attribute_name(pool: ConstantPool, index: u16) -> Seq<u8> {
    match utf8_at(pool, index) {
        Ok(n) => n,
        Err(_) => seq![],
    }
}

/// The attribute encoded at `p`, and the position after it.
pub open spec fn attribute_spec(pool: ConstantPool, b: Seq<u8>, p: int) -> Result<
    ((Seq<u8>, Seq<u8>), int),
    Error,
> {
    if p + 6 > b.len() {
        Err(truncated())
    } else {
        let n = be32(b, p + 2);
        if p + 6 + n > b.len() {
            Err(truncated())
        } else {
            Ok(((attribute_name(pool, be16(b, p) as u16), b.subrange(p + 6, p + 6 + n)), p + 6 + n))
        }
    }
}

/// `k` attributes, one after another from `p`.
pub open spec fn attributes_spec(pool: ConstantPool, b: Seq<u8>, p: int, k: nat) -> Result<
    (Seq<(Seq<u8>, Seq<u8>)>, int),
    Error,
>
    decreases k,
{
    if k == 0 {
        Ok((seq![], p))
    } else {
        match attribute_spec(pool, b, p) {
            Err(e) => Err(e),
            Ok((a, q)) => match attributes_spec(pool, b, q, (k - 1) as nat) {
                Err(e) => Err(e),
                Ok((rest, end)) => Ok((seq![a] + rest, end)),
            },
        }
    }
}

/// The table whose 16-bit count stands at `p`.
pub open spec fn table_spec(pool: ConstantPool, b: Seq<u8>, p: int) -> Result<
    (Seq<(Seq<u8>, Seq<u8>)>, int),
    Error,
> {
    if p + 2 > b.len() {
        Err(truncated())
    } else {
        attributes_spec(pool, b, p + 2, be16(b, p) as nat)
    }
}

/// Attribute tables read against two pools with the same contents agree.
pub proof fn lemma_attributes_same_pool(p1: ConstantPool, p2: ConstantPool, b: Seq<u8>, p: int, k: nat)
    requires
        p1.data@ == p2.data@,
        p1.items@ == p2.items@,
    ensures
        attributes_spec(p1, b, p, k) == attributes_spec(p2, b, p, k),
    decreases k,
{
    if k > 0 {
        assert(attribute_spec(p1, b, p) == attribute_spec(p2, b, p));
        match attribute_spec(p1, b, p) {
            Ok((a, q)) => lemma_attributes_same_pool(p1, p2, b, q, (k - 1) as nat),
            Err(_) => {},
        }
    }
}

/// The payload of the last attribute named `name` among `t`'s first `n`.
pub open spec fn lookup_in(t: Seq<(Seq<u8>, Seq<u8>)>, name: Seq<u8>, n: int) -> Option<Seq<u8>>
    decreases n,
{
    if n <= 0 {
        None
    } else if t[n - 1].0 == name {
        Some(t[n - 1].1)
    } else {
        lookup_in(t, name, n - 1)
    }
}

/// The payload of the attribute named `name`; where several share the name,
/// the last one counts.
pub open spec fn lookup(t: Seq<(Seq<u8>, Seq<u8>)>, name: Seq<u8>) -> Option<Seq<u8>> {
    lookup_in(t, name, t.len() as int)
}

fn attribute_name_exec<'a>(pool: &'a ConstantPool, index: u16) -> (r: &'a [u8])
    requires
        pool.wf(),
    ensures
        r@ == attribute_name(*pool, index),
{
    match Utf8Index(index).get_as_string(pool) {
        Ok(n) => n,
        Err(_) => {
            let e: &[u8] = &[];
            assert(e@ =~= Seq::<u8>::empty());
            e
        },
    }
}

impl Attributes {
    /// Decodes the attribute table whose 16-bit count stands at `p` in `b`,
    /// resolving names against `pool`; returns it with the position after it.
    pub fn parse(b: &[u8], p: usize, pool: &ConstantPool) -> (r: Result<(Attributes, usize), Error>)
        requires
            pool.wf(),
        ensures
            match r {
                Ok((t, q)) => q <= b@.len() && table_spec(*pool, b@, p as int) == Ok::<
                    (Seq<(Seq<u8>, Seq<u8>)>, int),
                    Error,
                >((t@, q as int)),
                Err(e) => table_spec(*pool, b@, p as int) == Err::<
                    (Seq<(Seq<u8>, Seq<u8>)>, int),
                    Error,
                >(e),
            },
    {
        if p >= b.len() || b.len() - p < 2 {
            return Err(Error::BinaryError(DecodeError::UnexpectedEnd));
        }
        let count = match read_u16(b, p) {
            Ok(c) => c,
            Err(e) => {
                return Err(e);
            },
        };
        let ghost total = attributes_spec(*pool, b@, p + 2, count as nat);
        let mut entries: Vec<Attribute> = Vec::new();
        let mut k: u16 = count;
        let mut pos = p + 2;
        while k > 0
            invariant
                pos <= b@.len(),
                p + 2 <= b@.len(),
                count as int == be16(b@, p as int),
                total == attributes_spec(*pool, b@, p + 2, count as nat),
                pool.wf(),
                total == match attributes_spec(*pool, b@, pos as int, k as nat) {
                    Ok((rest, end)) => Ok((Attributes(entries)@ + rest, end)),
                    Err(e) => Err(e),
                },
            decreases k,
        {
            if b.len() - pos < 6 {
                assert(attributes_spec(*pool, b@, pos as int, k as nat) == Err::<(Seq<(Seq<u8>, Seq<u8>)>, int), Error>(truncated()));
                return Err(Error::BinaryError(DecodeError::UnexpectedEnd));
            }
            let index = read_u16(b, pos).unwrap();
            let n = read_u32(b, pos + 2).unwrap() as usize;
            if b.len() - (pos + 6) < n {
                assert(attributes_spec(*pool, b@, pos as int, k as nat) == Err::<(Seq<(Seq<u8>, Seq<u8>)>, int), Error>(truncated()));
                return Err(Error::BinaryError(DecodeError::UnexpectedEnd));
            }
            let name = attribute_name_exec(pool, index);
            let info = vstd::slice::slice_subrange(b, pos + 6, pos + 6 + n);
            let ghost before = Attributes(entries)@;
            entries.push(Attribute { name: vstd::slice::slice_to_vec(name), info: vstd::slice::slice_to_vec(info) });
            proof {
                let a = (name@, info@);
                assert(Attributes(entries)@ =~= before + seq![a]);
                match attributes_spec(*pool, b@, pos + 6 + n, (k - 1) as nat) {
                    Ok((rest, end)) => {
                        assert(before + (seq![a] + rest) =~= Attributes(entries)@ + rest);
                    },
                    Err(e) => {},
                }
            }
            pos = pos + 6 + n;
            k = k - 1;
        }
        proof {
            assert(Attributes(entries)@ + seq![] =~= Attributes(entries)@);
        }
        Ok((Attributes(entries), pos))
    }

    /// The payload of the attribute named `name`, if there is one (the last
    /// one, where several share the name).
    pub fn get(&self, name: &[u8]) -> (r: Option<&[u8]>)
        ensures
            match r {
                Some(s) => lookup(self@, name@) == Some(s@),
                None => lookup(self@, name@) is None,
            },
    {
        let mut n = self.0.len();
        while n > 0
            invariant
                n <= self.0@.len(),
                lookup(self@, name@) == lookup_in(self@, name@, n as int),
            decreases n,
        {
            let a = &self.0[n - 1];
            if crate::descriptor::bytes_equal(a.name.as_slice(), name) {
                return Some(a.info.as_slice());
            }
            n = n - 1;
        }
        None
    }
}

} // verus!
