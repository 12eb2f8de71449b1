//! The StackMapTable attribute: compressed verifier frames.
use vstd::prelude::*;

use crate::error::{DecodeError, Error};
use crate::pool::ClassIndex;
use crate::reader::{be16, read_u16, read_u8, truncated};

verus! {

/// The verifier's type of one local variable or stack slot.
#[derive(Clone, Copy, Debug, PartialEq, Eq, Structural)]
pub enum VerificationTypeInfo {
    Top,
    Integer,
    Float,
    Double,
    Long,
    Null,
    UninitializedThis,
    Object { cpool_index: ClassIndex },
    Uninitialized { offset: u16 },
}

/// The frame kind that a frame's first byte selects.
#[derive(Clone, Copy, Debug, PartialEq, Eq, Structural)]
pub enum FrameKind {
    /// 0..=63: no change, offset delta in the tag.
    Same,
    /// 64..=127: one stack item, offset delta in the tag.
    SameLocals1StackItem,
    /// 247: one stack item, explicit offset delta.
    SameLocals1StackItemExtended,
    /// 248..=250: 251 - tag locals removed.
    Chop,
    /// 251: no change, explicit offset delta.
    SameExtended,
    /// 252..=254: tag - 251 locals appended.
    Append,
    /// 255: explicit locals and stack.
    Full,
}

/// The kind a frame tag selects; `None` for the reserved tags.
pub open spec fn frame_kind(tag: u8) -> Option<FrameKind> {
    if tag <= 63 {
        Some(FrameKind::Same)
    } else if tag <= 127 {
        Some(FrameKind::SameLocals1StackItem)
    } else if tag <= 246 {
        None
    } else if tag == 247 {
        Some(FrameKind::SameLocals1StackItemExtended)
    } else if tag <= 250 {
        Some(FrameKind::Chop)
    } else if tag == 251 {
        Some(FrameKind::SameExtended)
    } else if tag <= 254 {
        Some(FrameKind::Append)
    } else {
        Some(FrameKind::Full)
    }
}

/// Every frame tag selects exactly one frame kind, except 128..=246, which
/// select none; the ranges are 0..=63, 64..=127, 247, 248..=250, 251,
/// 252..=254 and 255.
pub proof fn lemma_frame_tags(tag: u8)
    ensures
        frame_kind(tag) is None <==> 128 <= tag <= 246,
        frame_kind(tag) == Some(FrameKind::Same) <==> tag <= 63,
        frame_kind(tag) == Some(FrameKind::SameLocals1StackItem) <==> 64 <= tag <= 127,
        frame_kind(tag) == Some(FrameKind::SameLocals1StackItemExtended) <==> tag == 247,
        frame_kind(tag) == Some(FrameKind::Chop) <==> 248 <= tag <= 250,
        frame_kind(tag) == Some(FrameKind::SameExtended) <==> tag == 251,
        frame_kind(tag) == Some(FrameKind::Append) <==> 252 <= tag <= 254,
        frame_kind(tag) == Some(FrameKind::Full) <==> tag == 255,
{
}

/// One frame of a StackMapTable.
#[allow(inconsistent_fields)]
#[derive(Debug)]
pub enum StackMapFrame {
    SameFrame { offset_delta: u16 },
    SameLocals1StackItemFrame { offset_delta: u16, stack: VerificationTypeInfo },
    ChopFrame { locals_to_remove: u8, offset_delta: u16 },
    AppendFrame { offset_delta: u16, locals: Vec<VerificationTypeInfo> },
    FullFrame {
        offset_delta: u16,
        locals: Vec<VerificationTypeInfo>,
        stack: Vec<VerificationTypeInfo>,
    },
}

/// A frame with its lists seen as sequences.
#[allow(inconsistent_fields)]
pub enum FrameView {
    SameFrame { offset_delta: u16 },
    SameLocals1StackItemFrame { offset_delta: u16, stack: VerificationTypeInfo },
    ChopFrame { locals_to_remove: u8, offset_delta: u16 },
    AppendFrame { offset_delta: u16, locals: Seq<VerificationTypeInfo> },
    FullFrame {
        offset_delta: u16,
        locals: Seq<VerificationTypeInfo>,
        stack: Seq<VerificationTypeInfo>,
    },
}

impl View for StackMapFrame {
    type V = FrameView;

    open spec fn view(&self) -> FrameView {
        match self {
            StackMapFrame::SameFrame { offset_delta } => FrameView::SameFrame {
                offset_delta: *offset_delta,
            },
            StackMapFrame::SameLocals1StackItemFrame { offset_delta, stack } => {
                FrameView::SameLocals1StackItemFrame { offset_delta: *offset_delta, stack: *stack }
            },
            StackMapFrame::ChopFrame { locals_to_remove, offset_delta } => FrameView::ChopFrame {
                locals_to_remove: *locals_to_remove,
                offset_delta: *offset_delta,
            },
            StackMapFrame::AppendFrame { offset_delta, locals } => FrameView::AppendFrame {
                offset_delta: *offset_delta,
                locals: locals@,
            },
            StackMapFrame::FullFrame { offset_delta, locals, stack } => FrameView::FullFrame {
                offset_delta: *offset_delta,
                locals: locals@,
                stack: stack@,
            },
        }
    }
}

/// The verification type encoded at `p`, and the position after it.
pub open spec fn vti_spec(b: Seq<u8>, p: int) -> Result<(VerificationTypeInfo, int), Error> {
    if p >= b.len() {
        Err(truncated())
    } else {
        let tag = b[p];
        if tag <= 6 {
            Ok((
                if tag == 0 {
                    VerificationTypeInfo::Top
                } else if tag == 1 {
                    VerificationTypeInfo::Integer
                } else if tag == 2 {
                    VerificationTypeInfo::Float
                } else if tag == 3 {
                    VerificationTypeInfo::Double
                } else if tag == 4 {
                    VerificationTypeInfo::Long
                } else if tag == 5 {
                    VerificationTypeInfo::Null
                } else {
                    VerificationTypeInfo::UninitializedThis
                },
                p + 1,
            ))
        } else if tag <= 8 {
            if p + 3 > b.len() {
                Err(truncated())
            } else if tag == 7 {
                Ok((VerificationTypeInfo::Object { cpool_index: ClassIndex(be16(b, p + 1) as u16) }, p + 3))
            } else {
                Ok((VerificationTypeInfo::Uninitialized { offset: be16(b, p + 1) as u16 }, p + 3))
            }
        } else {
            Err(Error::BinaryError(DecodeError::UnknownVerificationType(tag)))
        }
    }
}

/// `k` verification types, one after another from `p`.
pub open spec fn vtis_spec(b: Seq<u8>, p: int, k: nat) -> Result<(Seq<VerificationTypeInfo>, int), Error>
    decreases k,
{
    if k == 0 {
        Ok((seq![], p))
    } else {
        match vti_spec(b, p) {
            Err(e) => Err(e),
            Ok((v, q)) => match vtis_spec(b, q, (k - 1) as nat) {
                Err(e) => Err(e),
                Ok((rest, end)) => Ok((seq![v] + rest, end)),
            },
        }
    }
}

/// The frame encoded at `p`, and the position after it.
pub open spec fn frame_spec(b: Seq<u8>, p: int) -> Result<(FrameView, int), Error> {
    if p >= b.len() {
        Err(truncated())
    } else {
        let tag = b[p];
        match frame_kind(tag) {
            None => Err(Error::BinaryError(DecodeError::UnknownFrameType(tag))),
            Some(FrameKind::Same) => Ok((FrameView::SameFrame { offset_delta: tag as u16 }, p + 1)),
            Some(FrameKind::SameLocals1StackItem) => match vti_spec(b, p + 1) {
                Ok((v, q)) => Ok((
                    FrameView::SameLocals1StackItemFrame { offset_delta: (tag - 64) as u16, stack: v },
                    q,
                )),
                Err(e) => Err(e),
            },
            Some(kind) => if p + 3 > b.len() {
                Err(truncated())
            } else {
                let offset_delta = be16(b, p + 1) as u16;
                match kind {
                    FrameKind::SameLocals1StackItemExtended => match vti_spec(b, p + 3) {
                        Ok((v, q)) => Ok((FrameView::SameLocals1StackItemFrame { offset_delta, stack: v }, q)),
                        Err(e) => Err(e),
                    },
                    FrameKind::Chop => Ok((
                        FrameView::ChopFrame { locals_to_remove: (251 - tag) as u8, offset_delta },
                        p + 3,
                    )),
                    FrameKind::Append => match vtis_spec(b, p + 3, (tag - 251) as nat) {
                        Ok((locals, q)) => Ok((FrameView::AppendFrame { offset_delta, locals }, q)),
                        Err(e) => Err(e),
                    },
                    FrameKind::Full => if p + 5 > b.len() {
                        Err(truncated())
                    } else {
                        match vtis_spec(b, p + 5, be16(b, p + 3) as nat) {
                            Err(e) => Err(e),
                            Ok((locals, q)) => if q + 2 > b.len() {
                                Err(truncated())
                            } else {
                                match vtis_spec(b, q + 2, be16(b, q) as nat) {
                                    Err(e) => Err(e),
                                    Ok((stack, end)) => Ok((
                                        FrameView::FullFrame { offset_delta, locals, stack },
                                        end,
                                    )),
                                }
                            },
                        }
                    },
                    _ => Ok((FrameView::SameFrame { offset_delta }, p + 3)),
                }
            },
        }
    }
}

/// `k` frames, one after another from `p`.
pub open spec fn frames_spec(b: Seq<u8>, p: int, k: nat) -> Result<(Seq<FrameView>, int), Error>
    decreases k,
{
    if k == 0 {
        Ok((seq![], p))
    } else {
        match frame_spec(b, p) {
            Err(e) => Err(e),
            Ok((f, q)) => match frames_spec(b, q, (k - 1) as nat) {
                Err(e) => Err(e),
                Ok((rest, end)) => Ok((seq![f] + rest, end)),
            },
        }
    }
}

fn parse_vti(b: &[u8], p: usize) -> (r: Result<(VerificationTypeInfo, usize), Error>)
    ensures
        match r {
            Ok((v, q)) => vti_spec(b@, p as int) == Ok::<(VerificationTypeInfo, int), Error>((v, q as int)),
            Err(e) => vti_spec(b@, p as int) == Err::<(VerificationTypeInfo, int), Error>(e),
        },
{
    let tag = read_u8(b, p)?;
    if tag <= 6 {
        let v = if tag == 0 {
            VerificationTypeInfo::Top
        } else if tag == 1 {
            VerificationTypeInfo::Integer
        } else if tag == 2 {
            VerificationTypeInfo::Float
        } else if tag == 3 {
            VerificationTypeInfo::Double
        } else if tag == 4 {
            VerificationTypeInfo::Long
        } else if tag == 5 {
            VerificationTypeInfo::Null
        } else {
            VerificationTypeInfo::UninitializedThis
        };
        Ok((v, p + 1))
    } else if tag <= 8 {
        let u = read_u16(b, p + 1)?;
        if tag == 7 {
            Ok((VerificationTypeInfo::Object { cpool_index: ClassIndex(u) }, p + 3))
        } else {
            Ok((VerificationTypeInfo::Uninitialized { offset: u }, p + 3))
        }
    } else {
        Err(Error::BinaryError(DecodeError::UnknownVerificationType(tag)))
    }
}

fn parse_vtis(b: &[u8], p: usize, k: u16) -> (r: Result<(Vec<VerificationTypeInfo>, usize), Error>)
    ensures
        match r {
            Ok((v, q)) => vtis_spec(b@, p as int, k as nat) == Ok::<(Seq<VerificationTypeInfo>, int), Error>((v@, q as int)),
            Err(e) => vtis_spec(b@, p as int, k as nat) == Err::<(Seq<VerificationTypeInfo>, int), Error>(e),
        },
{
    let ghost total = vtis_spec(b@, p as int, k as nat);
    let mut out: Vec<VerificationTypeInfo> = Vec::new();
    let mut left = k;
    let mut pos = p;
    while left > 0
        invariant
            total == vtis_spec(b@, p as int, k as nat),
            total == match vtis_spec(b@, pos as int, left as nat) {
                Ok((rest, end)) => Ok((out@ + rest, end)),
                Err(e) => Err(e),
            },
        decreases left,
    {
        let (v, q) = match parse_vti(b, pos) {
            Ok(x) => x,
            Err(e) => {
                return Err(e);
            },
        };
        let ghost before = out@;
        out.push(v);
        proof {
            match vtis_spec(b@, q as int, (left - 1) as nat) {
                Ok((rest, end)) => {
                    assert(before + (seq![v] + rest) =~= out@ + rest);
                },
                Err(e) => {},
            }
        }
        pos = q;
        left = left - 1;
    }
    proof {
        assert(out@ + seq![] =~= out@);
    }
    Ok((out, pos))
}

impl StackMapFrame {
    /// Decodes the frame at `p`; returns it with the position after it.
    pub fn parse(b: &[u8], p: usize) -> (r: Result<(StackMapFrame, usize), Error>)
        ensures
            match r {
                Ok((f, q)) => frame_spec(b@, p as int) == Ok::<(FrameView, int), Error>((f@, q as int)),
                Err(e) => frame_spec(b@, p as int) == Err::<(FrameView, int), Error>(e),
            },
    {
        let tag = read_u8(b, p)?;
        if tag <= 63 {
            return Ok((StackMapFrame::SameFrame { offset_delta: tag as u16 }, p + 1));
        }
        if tag <= 127 {
            let (stack, q) = parse_vti(b, p + 1)?;
            return Ok((StackMapFrame::SameLocals1StackItemFrame { offset_delta: tag as u16 - 64, stack }, q));
        }
        if tag <= 246 {
            return Err(Error::BinaryError(DecodeError::UnknownFrameType(tag)));
        }
        let offset_delta = read_u16(b, p + 1)?;
        if tag == 247 {
            let (stack, q) = parse_vti(b, p + 3)?;
            Ok((StackMapFrame::SameLocals1StackItemFrame { offset_delta, stack }, q))
        } else if tag <= 250 {
            Ok((StackMapFrame::ChopFrame { locals_to_remove: 251 - tag, offset_delta }, p + 3))
        } else if tag == 251 {
            Ok((StackMapFrame::SameFrame { offset_delta }, p + 3))
        } else if tag <= 254 {
            let (locals, q) = parse_vtis(b, p + 3, (tag - 251) as u16)?;
            Ok((StackMapFrame::AppendFrame { offset_delta, locals }, q))
        } else {
            let num_locals = read_u16(b, p + 3)?;
            let (locals, q) = parse_vtis(b, p + 5, num_locals)?;
            let num_stack = read_u16(b, q)?;
            let (stack, end) = parse_vtis(b, q + 2, num_stack)?;
            Ok((StackMapFrame::FullFrame { offset_delta, locals, stack }, end))
        }
    }
}

/// The frames of a method's StackMapTable, in order.
#[derive(Debug)]
pub struct StackMapTable {
    pub entries: Vec<StackMapFrame>,
}

impl View for StackMapTable {
    type V = Seq<FrameView>;

    open spec fn view(&self) -> Seq<FrameView> {
        self.entries@.map_values(|f: StackMapFrame| f@)
    }
}

/// The frames of a StackMapTable payload.
pub open spec fn stack_map_spec(b: Seq<u8>) -> Result<Seq<FrameView>, Error> {
    if b.len() < 2 {
        Err(truncated())
    } else {
        match frames_spec(b, 2, be16(b, 0) as nat) {
            Ok((frames, _)) => Ok(frames),
            Err(e) => Err(e),
        }
    }
}

impl StackMapTable {
    /// Decodes a StackMapTable payload.
    pub fn parse(b: &[u8]) -> (r: Result<StackMapTable, Error>)
        ensures
            match r {
                Ok(t) => stack_map_spec(b@) == Ok::<Seq<FrameView>, Error>(t@),
                Err(e) => stack_map_spec(b@) == Err::<Seq<FrameView>, Error>(e),
            },
    {
        let count = read_u16(b, 0)?;
        let ghost total = frames_spec(b@, 2, count as nat);
        let mut entries: Vec<StackMapFrame> = Vec::new();
        let mut left = count;
        let mut pos: usize = 2;
        while left > 0
            invariant
                total == frames_spec(b@, 2, count as nat),
                b@.len() >= 2,
                count as int == be16(b@, 0),
                total == match frames_spec(b@, pos as int, left as nat) {
                    Ok((rest, end)) => Ok((StackMapTable { entries }@ + rest, end)),
                    Err(e) => Err(e),
                },
            decreases left,
        {
            let (f, q) = match StackMapFrame::parse(b, pos) {
                Ok(x) => x,
                Err(e) => {
                    assert(frames_spec(b@, pos as int, left as nat) == Err::<(Seq<FrameView>, int), Error>(e));
                    return Err(e);
                },
            };
            let ghost fv = f@;
            let ghost before = StackMapTable { entries }@;
            entries.push(f);
            proof {
                assert(StackMapTable { entries }@ =~= before + seq![fv]);
                match frames_spec(b@, q as int, (left - 1) as nat) {
                    Ok((rest, end)) => {
                        assert(before + (seq![fv] + rest) =~= StackMapTable { entries }@ + rest);
                    },
                    Err(e) => {},
                }
            }
            pos = q;
            left = left - 1;
        }
        proof {
            assert(StackMapTable { entries }@ + seq![] =~= StackMapTable { entries }@);
        }
        Ok(StackMapTable { entries })
    }
}

pub open spec fn reserved_tag_error(e: Error) -> bool {
    e matches Error::BinaryError(DecodeError::UnknownFrameType(_))
}

proof fn lemma_vtis_errors(b: Seq<u8>, p: int, k: nat)
    ensures
        vtis_spec(b, p, k) matches Err(e) ==> !reserved_tag_error(e),
    decreases k,
{
    if k > 0 {
        match vti_spec(b, p) {
            Ok((v, q)) => lemma_vtis_errors(b, q, (k - 1) as nat),
            Err(_) => {},
        }
    }
}

/// The frame decoder fails with an unknown-frame-type error exactly on the
/// reserved tags 128..=246; every other tag decodes as its frame kind.
pub proof fn lemma_reserved_frame_tags(b: Seq<u8>, p: int)
    requires
        0 <= p < b.len(),
    ensures
        (frame_spec(b, p) matches Err(e) && reserved_tag_error(e)) <==> 128 <= b[p] <= 246,
        128 <= b[p] <= 246 ==> frame_spec(b, p) == Err::<(FrameView, int), Error>(
            Error::BinaryError(DecodeError::UnknownFrameType(b[p])),
        ),
{
    lemma_frame_tags(b[p]);
    lemma_vtis_errors(b, p + 3, (b[p] - 251) as nat);
    if p + 5 <= b.len() {
        lemma_vtis_errors(b, p + 5, be16(b, p + 3) as nat);
        match vtis_spec(b, p + 5, be16(b, p + 3) as nat) {
            Ok((locals, q)) => {
                if q + 2 <= b.len() {
                    lemma_vtis_errors(b, q + 2, be16(b, q) as nat);
                }
            },
            Err(_) => {},
        }
    }
}

} // verus!
