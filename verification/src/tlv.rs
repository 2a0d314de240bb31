//! Compact-TLV reader: the self-describing tag-length-value encoding used
//! for all payloads and stored certificates.
//!
//! Every element starts with a control byte whose low five bits give the
//! element type and whose high three bits give the tag form.  Containers
//! (struct, array, list) run until a matching end-of-container element.
//! The reader exposes element headers as [`TLVElem`] records holding byte
//! ranges into the caller's buffer; a spec-level parser defines exactly
//! which elements exist at which positions, and every exec function is
//! proved to agree with it.

use vstd::prelude::*;

use crate::error::Error;

verus! {

/// Tag form of an element: anonymous or context-specific (one tag byte).
#[derive(Clone, Copy, Debug, PartialEq, Eq, Structural)]
pub enum TagType {
    Anonymous,
    Context(u8),
}

/// Element type drawn from the low five bits of the control byte.
#[derive(Clone, Copy, Debug, PartialEq, Eq, Structural)]
pub enum ElemType {
    UInt8,
    UInt16,
    UInt32,
    UInt64,
    BoolFalse,
    BoolTrue,
    Utf8Str,
    OctetStr,
    Null,
    Struct,
    Array,
    List,
    EndCnt,
}

impl ElemType {
    /// Unsigned integers of any width.
    pub open spec fn is_uint(self) -> bool {
        self == ElemType::UInt8 || self == ElemType::UInt16
            || self == ElemType::UInt32 || self == ElemType::UInt64
    }

    /// String-like elements carrying a length-prefixed byte run.
    pub open spec fn is_str(self) -> bool {
        self == ElemType::Utf8Str || self == ElemType::OctetStr
    }

    /// Container elements terminated by an end-of-container element.
    pub open spec fn is_container(self) -> bool {
        self == ElemType::Struct || self == ElemType::Array || self == ElemType::List
    }
}

/// Number of tag bytes that follow the control byte, by tag form.
pub open spec fn spec_tag_len(cb: u8) -> Option<int> {
    let form = cb & 0xe0;
    if form == 0x00 {
        Some(0int)
    } else if form == 0x20 {
        Some(1int)
    } else {
        None
    }
}

/// Element type encoded in the low five bits of the control byte.
pub open spec fn spec_etype(cb: u8) -> Option<ElemType> {
    let t = cb & 0x1f;
    if t == 0x04 {
        Some(ElemType::UInt8)
    } else if t == 0x05 {
        Some(ElemType::UInt16)
    } else if t == 0x06 {
        Some(ElemType::UInt32)
    } else if t == 0x07 {
        Some(ElemType::UInt64)
    } else if t == 0x08 {
        Some(ElemType::BoolFalse)
    } else if t == 0x09 {
        Some(ElemType::BoolTrue)
    } else if t == 0x0c {
        Some(ElemType::Utf8Str)
    } else if t == 0x10 {
        Some(ElemType::OctetStr)
    } else if t == 0x14 {
        Some(ElemType::Null)
    } else if t == 0x15 {
        Some(ElemType::Struct)
    } else if t == 0x16 {
        Some(ElemType::Array)
    } else if t == 0x17 {
        Some(ElemType::List)
    } else if t == 0x18 {
        Some(ElemType::EndCnt)
    } else {
        None
    }
}

/// Fixed value width of the non-string primitives.
pub open spec fn spec_prim_len(t: ElemType) -> int {
    match t {
        ElemType::UInt8 => 1,
        ElemType::UInt16 => 2,
        ElemType::UInt32 => 4,
        ElemType::UInt64 => 8,
        _ => 0,
    }
}

/// One header step of the parser: the element at `pos` before any
/// container contents are skipped.  `vstart`/`vlen` delimit the value
/// bytes of primitives; for containers `vstart` is the first child and
/// `next` equals `vstart`.
pub ghost struct SpecStep {
    pub tag: TagType,
    pub etype: ElemType,
    pub vstart: int,
    pub vlen: int,
    pub next: int,
}

/// Parses the control byte, tag bytes and, for strings, the one-byte
/// length prefix of the element at `pos`.  `None` on any malformed or
/// unsupported header, or when the value bytes run past the buffer.
pub open spec fn spec_step(b: Seq<u8>, pos: int) -> Option<SpecStep> {
    if pos < 0 || pos >= b.len() {
        None
    } else {
        let cb = b[pos];
        match (spec_tag_len(cb), spec_etype(cb)) {
            (Some(tl), Some(et)) => {
                if et == ElemType::EndCnt {
                    if tl == 0 {
                        Some(SpecStep {
                            tag: TagType::Anonymous,
                            etype: et,
                            vstart: pos + 1,
                            vlen: 0,
                            next: pos + 1,
                        })
                    } else {
                        None
                    }
                } else if pos + 1 + tl > b.len() {
                    None
                } else {
                    let tag = if tl == 0 {
                        TagType::Anonymous
                    } else {
                        TagType::Context(b[pos + 1])
                    };
                    if et.is_str() {
                        if pos + 2 + tl > b.len() {
                            None
                        } else {
                            let vlen = b[pos + 1 + tl] as int;
                            let vstart = pos + 2 + tl;
                            if vstart + vlen > b.len() {
                                None
                            } else {
                                Some(SpecStep { tag, etype: et, vstart, vlen, next: vstart + vlen })
                            }
                        }
                    } else if et.is_container() {
                        Some(SpecStep {
                            tag,
                            etype: et,
                            vstart: pos + 1 + tl,
                            vlen: 0,
                            next: pos + 1 + tl,
                        })
                    } else {
                        let vlen = spec_prim_len(et);
                        let vstart = pos + 1 + tl;
                        if vstart + vlen > b.len() {
                            None
                        } else {
                            Some(SpecStep { tag, etype: et, vstart, vlen, next: vstart + vlen })
                        }
                    }
                }
            },
            _ => None,
        }
    }
}

/// Every successful step makes strict progress and stays in bounds.
pub proof fn lemma_step_bounds(b: Seq<u8>, pos: int)
    requires
        spec_step(b, pos) is Some,
    ensures
        pos < spec_step(b, pos)->Some_0.next <= b.len(),
        pos < spec_step(b, pos)->Some_0.vstart,
        spec_step(b, pos)->Some_0.vlen >= 0,
        spec_step(b, pos)->Some_0.vstart + spec_step(b, pos)->Some_0.vlen <= b.len()
            || spec_step(b, pos)->Some_0.etype.is_container(),
{
}

/// Position one past the end-of-container element that closes `depth`
/// still-open containers, scanning forward from `pos`.
pub open spec fn spec_scan_end(b: Seq<u8>, pos: int, depth: int) -> Option<int>
    decreases b.len() - pos,
{
    if depth <= 0 {
        Some(pos)
    } else {
        match spec_step(b, pos) {
            None => None,
            Some(s) => {
                if s.next <= pos || s.next > b.len() {
                    None
                } else if s.etype == ElemType::EndCnt {
                    spec_scan_end(b, s.next, depth - 1)
                } else if s.etype.is_container() {
                    spec_scan_end(b, s.next, depth + 1)
                } else {
                    spec_scan_end(b, s.next, depth)
                }
            },
        }
    }
}

/// A scan that succeeds never moves backwards.
pub proof fn lemma_scan_end_bounds(b: Seq<u8>, pos: int, depth: int)
    requires
        spec_scan_end(b, pos, depth) is Some,
        pos <= b.len(),
    ensures
        spec_scan_end(b, pos, depth)->Some_0 >= pos,
        spec_scan_end(b, pos, depth)->Some_0 <= b.len(),
        depth > 0 ==> spec_scan_end(b, pos, depth)->Some_0 > pos,
    decreases b.len() - pos,
{
    if depth <= 0 {
    } else {
        let s = spec_step(b, pos)->Some_0;
        if s.etype == ElemType::EndCnt {
            lemma_scan_end_bounds(b, s.next, depth - 1);
        } else if s.etype.is_container() {
            lemma_scan_end_bounds(b, s.next, depth + 1);
        } else {
            lemma_scan_end_bounds(b, s.next, depth);
        }
    }
}

/// A fully resolved element: tag, type, value range and end position.
///
/// For primitives the value bytes are `[vstart, vstart + vlen)` and `end`
/// is the position one past them.  For containers the child elements span
/// `[vstart, vstart + vlen)` and `end` is one past the end-of-container
/// marker.  For an end-of-container element all three coincide with the
/// position one past the control byte.
pub ghost struct SpecElem {
    pub tag: TagType,
    pub etype: ElemType,
    pub vstart: int,
    pub vlen: int,
    pub end: int,
}

/// The element at position `pos`, with container extents resolved.
pub open spec fn spec_parse_elem(b: Seq<u8>, pos: int) -> Option<SpecElem> {
    match spec_step(b, pos) {
        None => None,
        Some(s) => {
            if s.etype.is_container() {
                match spec_scan_end(b, s.next, 1) {
                    None => None,
                    Some(e) => Some(SpecElem {
                        tag: s.tag,
                        etype: s.etype,
                        vstart: s.vstart,
                        vlen: e - 1 - s.vstart,
                        end: e,
                    }),
                }
            } else {
                Some(SpecElem {
                    tag: s.tag,
                    etype: s.etype,
                    vstart: s.vstart,
                    vlen: s.vlen,
                    end: s.next,
                })
            }
        },
    }
}

/// First sibling at or after `pos` carrying context tag `tag`, stopping
/// at an end-of-container element or a parse failure.
pub open spec fn spec_find_tag(b: Seq<u8>, pos: int, tag: u8) -> Option<SpecElem>
    decreases b.len() - pos,
{
    match spec_parse_elem(b, pos) {
        None => None,
        Some(e) => {
            if e.etype == ElemType::EndCnt {
                None
            } else if e.tag == TagType::Context(tag) {
                Some(e)
            } else if e.end <= pos || e.end > b.len() {
                None
            } else {
                spec_find_tag(b, e.end, tag)
            }
        },
    }
}

/// Shape facts that hold of every element handed out by the parser:
/// value range in bounds, and integer widths matching the element type.
pub open spec fn spec_elem_wf(b: Seq<u8>, e: SpecElem) -> bool {
    &&& 0 <= e.vstart
    &&& e.vstart + e.vlen <= b.len()
    &&& e.vlen >= 0
    &&& e.end <= b.len()
    &&& (e.etype.is_uint() ==> e.vlen == spec_prim_len(e.etype))
    &&& (e.etype.is_str() ==> e.vlen < 256)
}

/// Elements produced by the parser are well-formed.
pub proof fn lemma_parse_elem_wf(b: Seq<u8>, pos: int)
    requires
        spec_parse_elem(b, pos) is Some,
    ensures
        spec_elem_wf(b, spec_parse_elem(b, pos)->Some_0),
{
    let s = spec_step(b, pos)->Some_0;
    lemma_step_bounds(b, pos);
    if s.etype.is_container() {
        lemma_scan_end_bounds(b, s.next, 1);
    }
}

/// Exec mirror of [`SpecElem`]; field-for-field view into the model.
#[derive(Clone, Copy, Debug, PartialEq, Eq, Structural)]
pub struct TLVElem {
    pub tag: TagType,
    pub etype: ElemType,
    pub vstart: usize,
    pub vlen: usize,
    pub end: usize,
}

impl View for TLVElem {
    type V = SpecElem;

    open spec fn view(&self) -> SpecElem {
        SpecElem {
            tag: self.tag,
            etype: self.etype,
            vstart: self.vstart as int,
            vlen: self.vlen as int,
            end: self.end as int,
        }
    }
}

/// Header step of the element at `pos`, without resolving containers.
fn read_step(buf: &[u8], pos: usize) -> (r: Result<TLVElem, Error>)
    ensures
        match r {
            Ok(s) => spec_step(buf@, pos as int) == Some(SpecStep {
                tag: s.tag,
                etype: s.etype,
                vstart: s.vstart as int,
                vlen: s.vlen as int,
                next: s.end as int,
            }) && pos < s.end <= buf.len() && s.vstart + s.vlen <= buf.len(),
            Err(e) => e == Error::InvalidData && spec_step(buf@, pos as int) is None,
        },
{
    if pos >= buf.len() {
        return Err(Error::InvalidData);
    }
    let cb = buf[pos];
    let form = cb & 0xe0;
    let tl: usize = if form == 0x00 {
        0
    } else if form == 0x20 {
        1
    } else {
        return Err(Error::InvalidData);
    };
    let t = cb & 0x1f;
    if t == 0x18 {
        if tl != 0 {
            return Err(Error::InvalidData);
        }
        return Ok(TLVElem {
            tag: TagType::Anonymous,
            etype: ElemType::EndCnt,
            vstart: pos + 1,
            vlen: 0,
            end: pos + 1,
        });
    }
    let et = if t == 0x04 {
        ElemType::UInt8
    } else if t == 0x05 {
        ElemType::UInt16
    } else if t == 0x06 {
        ElemType::UInt32
    } else if t == 0x07 {
        ElemType::UInt64
    } else if t == 0x08 {
        ElemType::BoolFalse
    } else if t == 0x09 {
        ElemType::BoolTrue
    } else if t == 0x0c {
        ElemType::Utf8Str
    } else if t == 0x10 {
        ElemType::OctetStr
    } else if t == 0x14 {
        ElemType::Null
    } else if t == 0x15 {
        ElemType::Struct
    } else if t == 0x16 {
        ElemType::Array
    } else if t == 0x17 {
        ElemType::List
    } else {
        return Err(Error::InvalidData);
    };
    if buf.len() - pos - 1 < tl {
        return Err(Error::InvalidData);
    }
    let tag = if tl == 0 {
        TagType::Anonymous
    } else {
        TagType::Context(buf[pos + 1])
    };
    if matches!(et, ElemType::Utf8Str | ElemType::OctetStr) {
        if buf.len() - pos - 1 < tl + 1 {
            return Err(Error::InvalidData);
        }
        let vlen = buf[pos + 1 + tl] as usize;
        let vstart = pos + 2 + tl;
        if vlen > buf.len() - vstart {
            return Err(Error::InvalidData);
        }
        Ok(TLVElem { tag, etype: et, vstart, vlen, end: vstart + vlen })
    } else if matches!(et, ElemType::Struct | ElemType::Array | ElemType::List) {
        Ok(TLVElem { tag, etype: et, vstart: pos + 1 + tl, vlen: 0, end: pos + 1 + tl })
    } else {
        let vlen: usize = match et {
            ElemType::UInt8 => 1,
            ElemType::UInt16 => 2,
            ElemType::UInt32 => 4,
            ElemType::UInt64 => 8,
            _ => 0,
        };
        let vstart = pos + 1 + tl;
        if vlen > buf.len() - vstart {
            return Err(Error::InvalidData);
        }
        Ok(TLVElem { tag, etype: et, vstart, vlen, end: vstart + vlen })
    }
}

/// Position one past the end-of-container element closing one container
/// whose children start at `pos`.
fn scan_container_end(buf: &[u8], pos: usize) -> (r: Result<usize, Error>)
    ensures
        match r {
            Ok(e) => spec_scan_end(buf@, pos as int, 1) == Some(e as int) && pos < e <= buf.len(),
            Err(err) => err == Error::InvalidData && spec_scan_end(buf@, pos as int, 1) is None,
        },
{
    if pos >= buf.len() {
        return Err(Error::InvalidData);
    }
    let mut cur: usize = pos;
    let mut depth: usize = 1;
    loop
        invariant
            1 <= depth,
            pos <= cur <= buf.len(),
            spec_scan_end(buf@, pos as int, 1) == spec_scan_end(buf@, cur as int, depth as int),
            depth == 1 && cur == pos || cur > pos,
        decreases buf.len() - cur,
    {
        let s = match read_step(buf, cur) {
            Ok(s) => s,
            Err(e) => {
                return Err(e);
            },
        };
        match s.etype {
            ElemType::EndCnt => {
                if depth == 1 {
                    proof {
                        assert(spec_scan_end(buf@, cur as int, depth as int)
                            == spec_scan_end(buf@, s.end as int, depth as int - 1));
                    }
                    return Ok(s.end);
                }
                depth = depth - 1;
            },
            ElemType::Struct | ElemType::Array | ElemType::List => {
                if depth == usize::MAX {
                    proof {
                        // Nesting deeper than the remaining bytes cannot
                        // close, so the scan is bound to fail anyway.
                        lemma_scan_depth_exceeds_len(buf@, s.end as int, depth as int + 1);
                    }
                    return Err(Error::InvalidData);
                }
                depth = depth + 1;
            },
            _ => {},
        }
        cur = s.end;
    }
}

/// A scan whose open-container count exceeds the remaining bytes fails.
proof fn lemma_scan_depth_exceeds_len(b: Seq<u8>, pos: int, depth: int)
    requires
        depth > b.len() - pos,
        depth > 0,
    ensures
        spec_scan_end(b, pos, depth) is None,
    decreases b.len() - pos,
{
    match spec_step(b, pos) {
        None => {},
        Some(s) => {
            if s.next <= pos || s.next > b.len() {
            } else if s.etype == ElemType::EndCnt {
                lemma_scan_depth_exceeds_len(b, s.next, depth - 1);
            } else if s.etype.is_container() {
                lemma_scan_depth_exceeds_len(b, s.next, depth + 1);
            } else {
                lemma_scan_depth_exceeds_len(b, s.next, depth);
            }
        },
    }
}

/// The element at `pos`, with container extents resolved.
pub fn read_elem(buf: &[u8], pos: usize) -> (r: Result<TLVElem, Error>)
    ensures
        match r {
            Ok(e) => spec_parse_elem(buf@, pos as int) == Some(e@) && pos < e.end <= buf.len()
                && pos < e.vstart && spec_elem_wf(buf@, e@),
            Err(err) => err == Error::InvalidData && spec_parse_elem(buf@, pos as int) is None,
        },
{
    let s = read_step(buf, pos)?;
    if matches!(s.etype, ElemType::Struct | ElemType::Array | ElemType::List) {
        let e = scan_container_end(buf, s.end)?;
        proof {
            lemma_parse_elem_wf(buf@, pos as int);
        }
        Ok(TLVElem { tag: s.tag, etype: s.etype, vstart: s.vstart, vlen: e - 1 - s.vstart, end: e })
    } else {
        proof {
            lemma_parse_elem_wf(buf@, pos as int);
        }
        Ok(s)
    }
}

/// First sibling at or after `pos` with context tag `tag`.
pub fn find_tag(buf: &[u8], pos: usize, tag: u8) -> (r: Result<TLVElem, Error>)
    ensures
        match r {
            Ok(e) => spec_find_tag(buf@, pos as int, tag) == Some(e@)
                && spec_elem_wf(buf@, e@),
            Err(err) => err == Error::Invalid && spec_find_tag(buf@, pos as int, tag) is None,
        },
{
    if pos > buf.len() {
        return Err(Error::Invalid);
    }
    let mut cur: usize = pos;
    loop
        invariant
            pos <= cur <= buf.len(),
            spec_find_tag(buf@, pos as int, tag) == spec_find_tag(buf@, cur as int, tag),
        decreases buf.len() - cur,
    {
        let e = match read_elem(buf, cur) {
            Ok(e) => e,
            Err(_) => {
                return Err(Error::Invalid);
            },
        };
        match e.etype {
            ElemType::EndCnt => {
                return Err(Error::Invalid);
            },
            _ => {},
        }
        match e.tag {
            TagType::Context(t) => {
                if t == tag {
                    return Ok(e);
                }
            },
            _ => {},
        }
        cur = e.end;
    }
}

/// Root element of a buffer: the anonymous struct every payload starts
/// with.
pub fn get_root_node_struct(buf: &[u8]) -> (r: Result<TLVElem, Error>)
    ensures
        match r {
            Ok(e) => spec_parse_elem(buf@, 0) == Some(e@) && e.etype == ElemType::Struct
                && e.tag == TagType::Anonymous && spec_elem_wf(buf@, e@),
            Err(err) => err == Error::InvalidData && (spec_parse_elem(buf@, 0) is None
                || spec_parse_elem(buf@, 0)->Some_0.etype != ElemType::Struct
                || spec_parse_elem(buf@, 0)->Some_0.tag != TagType::Anonymous),
        },
{
    let e = read_elem(buf, 0)?;
    if matches!(e.etype, ElemType::Struct) && matches!(e.tag, TagType::Anonymous) {
        Ok(e)
    } else {
        Err(Error::InvalidData)
    }
}

/// Little-endian value of `len` bytes starting at `start`.
pub open spec fn spec_le_val(b: Seq<u8>, start: int, len: int) -> int
    decreases len,
{
    if len <= 0 {
        0
    } else {
        b[start] + 256 * spec_le_val(b, start + 1, len - 1)
    }
}

/// Powers of 256, the radix of the little-endian value reading.
pub open spec fn pow256(n: int) -> int
    decreases n,
{
    if n <= 0 {
        1
    } else {
        256 * pow256(n - 1)
    }
}

/// A little-endian value of `len` bytes is below `pow256(len)`.
pub proof fn lemma_le_val_bound(b: Seq<u8>, start: int, len: int)
    requires
        0 <= start,
        start + len <= b.len(),
    ensures
        0 <= spec_le_val(b, start, len) < pow256(len),
    decreases len,
{
    if len <= 0 {
    } else {
        lemma_le_val_bound(b, start + 1, len - 1);
    }
}

/// The concrete powers of 256 that the integer readers need.
pub proof fn lemma_pow256_vals()
    ensures
        pow256(0) == 1,
        pow256(1) == 0x100,
        pow256(2) == 0x1_0000,
        pow256(3) == 0x100_0000,
        pow256(4) == 0x1_0000_0000,
        pow256(5) == 0x100_0000_0000,
        pow256(6) == 0x1_0000_0000_0000,
        pow256(7) == 0x100_0000_0000_0000,
        pow256(8) == 0x1_0000_0000_0000_0000,
{
    assert(pow256(0) == 1);
    assert(pow256(1) == 256 * pow256(0));
    assert(pow256(2) == 256 * pow256(1));
    assert(pow256(3) == 256 * pow256(2));
    assert(pow256(4) == 256 * pow256(3));
    assert(pow256(5) == 256 * pow256(4));
    assert(pow256(6) == 256 * pow256(5));
    assert(pow256(7) == 256 * pow256(6));
    assert(pow256(8) == 256 * pow256(7));
}

/// Monotonicity of `pow256` in the exponent.
pub proof fn lemma_pow256_mono(a: int, c: int)
    requires
        a <= c,
    ensures
        pow256(a) <= pow256(c),
    decreases c - a,
{
    if a < c {
        lemma_pow256_mono(a, c - 1);
        lemma_pow256_pos(c - 1);
        if c > 0 {
            assert(pow256(c) == 256 * pow256(c - 1));
        }
    }
}

/// `pow256` is positive.
pub proof fn lemma_pow256_pos(n: int)
    ensures
        pow256(n) >= 1,
    decreases n,
{
    if n > 0 {
        lemma_pow256_pos(n - 1);
    }
}

/// Unsigned value of an integer element, any stored width up to eight
/// bytes.
pub fn elem_u64(buf: &[u8], e: &TLVElem) -> (r: Result<u64, Error>)
    requires
        spec_elem_wf(buf@, e@),
    ensures
        match r {
            Ok(v) => e@.etype.is_uint() && v == spec_le_val(buf@, e.vstart as int, e.vlen as int),
            Err(err) => err == Error::TLVTypeMismatch && !e@.etype.is_uint(),
        },
{
    match e.etype {
        ElemType::UInt8 | ElemType::UInt16 | ElemType::UInt32 | ElemType::UInt64 => {},
        _ => {
            return Err(Error::TLVTypeMismatch);
        },
    }
    let mut v: u64 = 0;
    let mut i: usize = e.vlen;
    while i > 0
        invariant
            i <= e.vlen,
            e.vstart + e.vlen <= buf.len(),
            e.vlen <= 8,
            v == spec_le_val(buf@, e.vstart + i as int, e.vlen - i as int),
            v < pow256(e.vlen - i as int),
        decreases i,
    {
        proof {
            lemma_pow256_vals();
            lemma_pow256_mono(e.vlen - i as int, 7);
        }
        i = i - 1;
        v = v * 256 + (buf[e.vstart + i] as u64);
        proof {
            lemma_le_val_bound(buf@, e.vstart + i as int, e.vlen - i as int);
        }
    }
    Ok(v)
}

/// Unsigned value of an integer element stored in at most four bytes.
pub fn elem_u32(buf: &[u8], e: &TLVElem) -> (r: Result<u32, Error>)
    requires
        spec_elem_wf(buf@, e@),
    ensures
        match r {
            Ok(v) => (e@.etype == ElemType::UInt8 || e@.etype == ElemType::UInt16
                || e@.etype == ElemType::UInt32)
                && v == spec_le_val(buf@, e.vstart as int, e.vlen as int),
            Err(err) => err == Error::TLVTypeMismatch && !(e@.etype == ElemType::UInt8
                || e@.etype == ElemType::UInt16 || e@.etype == ElemType::UInt32),
        },
{
    match e.etype {
        ElemType::UInt8 | ElemType::UInt16 | ElemType::UInt32 => {},
        _ => {
            return Err(Error::TLVTypeMismatch);
        },
    }
    let v = match elem_u64(buf, e) {
        Ok(v) => v,
        Err(err) => {
            return Err(err);
        },
    };
    proof {
        lemma_le_val_bound(buf@, e.vstart as int, e.vlen as int);
        lemma_pow256_vals();
    }
    Ok(v as u32)
}

/// Unsigned value of an integer element stored in at most two bytes.
pub fn elem_u16(buf: &[u8], e: &TLVElem) -> (r: Result<u16, Error>)
    requires
        spec_elem_wf(buf@, e@),
    ensures
        match r {
            Ok(v) => (e@.etype == ElemType::UInt8 || e@.etype == ElemType::UInt16)
                && v == spec_le_val(buf@, e.vstart as int, e.vlen as int),
            Err(err) => err == Error::TLVTypeMismatch && !(e@.etype == ElemType::UInt8
                || e@.etype == ElemType::UInt16),
        },
{
    match e.etype {
        ElemType::UInt8 | ElemType::UInt16 => {},
        _ => {
            return Err(Error::TLVTypeMismatch);
        },
    }
    let v = match elem_u64(buf, e) {
        Ok(v) => v,
        Err(err) => {
            return Err(err);
        },
    };
    proof {
        lemma_le_val_bound(buf@, e.vstart as int, e.vlen as int);
        lemma_pow256_vals();
    }
    Ok(v as u16)
}

/// Unsigned value of an integer element stored in one byte.
pub fn elem_u8(buf: &[u8], e: &TLVElem) -> (r: Result<u8, Error>)
    requires
        spec_elem_wf(buf@, e@),
    ensures
        match r {
            Ok(v) => e@.etype == ElemType::UInt8
                && v == spec_le_val(buf@, e.vstart as int, e.vlen as int),
            Err(err) => err == Error::TLVTypeMismatch && e@.etype != ElemType::UInt8,
        },
{
    match e.etype {
        ElemType::UInt8 => {},
        _ => {
            return Err(Error::TLVTypeMismatch);
        },
    }
    let v = match elem_u64(buf, e) {
        Ok(v) => v,
        Err(err) => {
            return Err(err);
        },
    };
    proof {
        lemma_le_val_bound(buf@, e.vstart as int, e.vlen as int);
        lemma_pow256_vals();
    }
    Ok(v as u8)
}

/// Truth value of a boolean element.
pub fn elem_bool(buf: &[u8], e: &TLVElem) -> (r: Result<bool, Error>)
    ensures
        match r {
            Ok(v) => v == (e@.etype == ElemType::BoolTrue)
                && (e@.etype == ElemType::BoolTrue || e@.etype == ElemType::BoolFalse),
            Err(err) => err == Error::TLVTypeMismatch && e@.etype != ElemType::BoolTrue
                && e@.etype != ElemType::BoolFalse,
        },
{
    match e.etype {
        ElemType::BoolTrue => Ok(true),
        ElemType::BoolFalse => Ok(false),
        _ => Err(Error::TLVTypeMismatch),
    }
}

/// Copy of the value bytes of a string element.
pub fn elem_bytes(buf: &[u8], e: &TLVElem) -> (r: Result<Vec<u8>, Error>)
    requires
        spec_elem_wf(buf@, e@),
    ensures
        match r {
            Ok(v) => e@.etype.is_str()
                && v@ == buf@.subrange(e.vstart as int, e.vstart + e.vlen as int),
            Err(err) => err == Error::TLVTypeMismatch && !e@.etype.is_str(),
        },
{
    match e.etype {
        ElemType::Utf8Str | ElemType::OctetStr => {},
        _ => {
            return Err(Error::TLVTypeMismatch);
        },
    }
    let mut v: Vec<u8> = Vec::new();
    let mut i: usize = 0;
    while i < e.vlen
        invariant
            i <= e.vlen,
            e.vstart + e.vlen <= buf.len(),
            v@ == buf@.subrange(e.vstart as int, e.vstart + i as int),
        decreases e.vlen - i,
    {
        v.push(buf[e.vstart + i]);
        proof {
            assert(v@ =~= buf@.subrange(e.vstart as int, e.vstart + (i + 1) as int));
        }
        i = i + 1;
    }
    Ok(v)
}

/// Streaming writer for the compact-TLV wire form: containers open
/// with their control byte and close with an end-of-container element,
/// primitives append tag and value directly.  Every method's contract
/// states the exact bytes appended.
pub struct TLVWriter {
    pub buf: Vec<u8>,
}

impl TLVWriter {
    /// An empty writer.
    pub fn new() -> (r: TLVWriter)
        ensures
            r.buf@ == Seq::<u8>::empty(),
    {
        let r = TLVWriter { buf: Vec::new() };
        proof {
            assert(r.buf@ =~= Seq::<u8>::empty());
        }
        r
    }

    /// Opens an anonymous struct container.
    pub fn put_start_struct_anon(&mut self)
        ensures
            final(self).buf@ == old(self).buf@ + seq![0x15u8],
    {
        self.buf.push(0x15);
        proof {
            assert(self.buf@ =~= old(self).buf@ + seq![0x15u8]);
        }
    }

    /// Opens a context-tagged struct container.
    pub fn put_start_struct(&mut self, tag: u8)
        ensures
            final(self).buf@ == old(self).buf@ + seq![0x35u8, tag],
    {
        self.buf.push(0x35);
        self.buf.push(tag);
        proof {
            assert(self.buf@ =~= old(self).buf@ + seq![0x35u8, tag]);
        }
    }

    /// Appends a context-tagged octet string of at most 255 bytes.
    pub fn put_str8(&mut self, tag: u8, data: &[u8]) -> (r: Result<(), Error>)
        ensures
            match r {
                Ok(()) => data@.len() < 256 && final(self).buf@ == old(self).buf@ + seq![
                    0x30u8,
                    tag,
                    data@.len() as u8,
                ] + data@,
                Err(e) => e == Error::NoSpace && data@.len() >= 256 && final(self).buf@ == old(
                    self,
                ).buf@,
            },
    {
        if data.len() >= 256 {
            return Err(Error::NoSpace);
        }
        self.buf.push(0x30);
        self.buf.push(tag);
        self.buf.push(data.len() as u8);
        let ghost hdr = self.buf@;
        let mut i: usize = 0;
        while i < data.len()
            invariant
                i <= data@.len(),
                self.buf@ == hdr + data@.subrange(0, i as int),
            decreases data@.len() - i,
        {
            self.buf.push(data[i]);
            proof {
                assert(self.buf@ =~= hdr + data@.subrange(0, i + 1));
            }
            i = i + 1;
        }
        proof {
            assert(data@.subrange(0, data@.len() as int) =~= data@);
            assert(self.buf@ =~= old(self).buf@ + seq![0x30u8, tag, data@.len() as u8] + data@);
        }
        Ok(())
    }

    /// Appends a context-tagged 16-bit unsigned integer.
    pub fn put_u16(&mut self, tag: u8, v: u16)
        ensures
            final(self).buf@ == old(self).buf@ + seq![
                0x25u8,
                tag,
                (v % 256) as u8,
                (v / 256) as u8,
            ],
    {
        self.buf.push(0x25);
        self.buf.push(tag);
        self.buf.push((v % 256) as u8);
        self.buf.push((v / 256) as u8);
        proof {
            assert(self.buf@ =~= old(self).buf@ + seq![
                0x25u8,
                tag,
                (v % 256) as u8,
                (v / 256) as u8,
            ]);
        }
    }

    /// Appends a context-tagged 32-bit unsigned integer.
    pub fn put_u32(&mut self, tag: u8, v: u32)
        ensures
            final(self).buf@ == old(self).buf@ + seq![
                0x26u8,
                tag,
                (v % 256) as u8,
                (v / 0x100 % 256) as u8,
                (v / 0x10000 % 256) as u8,
                (v / 0x1000000 % 256) as u8,
            ],
    {
        self.buf.push(0x26);
        self.buf.push(tag);
        self.buf.push((v % 256) as u8);
        self.buf.push((v / 0x100 % 256) as u8);
        self.buf.push((v / 0x10000 % 256) as u8);
        self.buf.push((v / 0x1000000 % 256) as u8);
        proof {
            assert(self.buf@ =~= old(self).buf@ + seq![
                0x26u8,
                tag,
                (v % 256) as u8,
                (v / 0x100 % 256) as u8,
                (v / 0x10000 % 256) as u8,
                (v / 0x1000000 % 256) as u8,
            ]);
        }
    }

    /// Closes the innermost container.
    pub fn put_end_container(&mut self)
        ensures
            final(self).buf@ == old(self).buf@ + seq![0x18u8],
    {
        self.buf.push(0x18);
        proof {
            assert(self.buf@ =~= old(self).buf@ + seq![0x18u8]);
        }
    }
}

} // verus!
