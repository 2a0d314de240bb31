//! ASN.1/DER writer: a sink that buffers a byte-exact DER rendering of
//! the Matter certificate profile into a fixed-size buffer.
//!
//! Each `start_*` call reserves a fixed three-byte placeholder for the
//! length prefix and pushes the position after it onto a depth stack; the
//! matching `end_*` encodes the true length (short form below 128, long
//! form `0x81`/`0x82` otherwise) and shifts the body left over the bytes
//! the shorter encoding reclaimed.
//!
//! The writer's whole behaviour is captured by a small op language over
//! an abstract view ([`Asn1View`]): every method's contract equates the
//! new view with [`spec_push`], [`spec_write`] or [`spec_pop`] applied to
//! the old one, so the emitted bytes are a function of the op script and
//! nothing else.

use vstd::prelude::*;

use chrono::TimeZone;

use crate::error::Error;

verus! {

/// Depth limit of the compound stack.
pub const MAX_DEPTH: usize = 10;

/// Abstract state of the writer: the bytes emitted so far, the stack of
/// open-compound body offsets, and the buffer capacity.
pub ghost struct Asn1View {
    pub bytes: Seq<u8>,
    pub stack: Seq<int>,
    pub cap: int,
}

/// DER length encoding: short form below 128, `0x81` then one octet up
/// to 255, `0x82` then two octets up to 65535; longer lengths are not
/// representable in this writer.
pub open spec fn spec_len_encoding(n: int) -> Option<Seq<u8>> {
    if n < 0 {
        None
    } else if n < 128 {
        Some(seq![n as u8])
    } else if n < 256 {
        Some(seq![0x81u8, n as u8])
    } else if n < 65536 {
        Some(seq![0x82u8, (n / 256) as u8, (n % 256) as u8])
    } else {
        None
    }
}

/// Opening a compound appends its tag and the three reserved length
/// bytes and records where its body starts.
pub open spec fn spec_push(v: Asn1View, tag: u8) -> Result<Asn1View, Error> {
    if v.bytes.len() + 4 > v.cap {
        Err(Error::NoSpace)
    } else if v.stack.len() >= MAX_DEPTH {
        Err(Error::NoSpace)
    } else {
        Ok(Asn1View {
            bytes: v.bytes + seq![tag, 0u8, 0u8, 0u8],
            stack: v.stack.push(v.bytes.len() + 4int),
            cap: v.cap,
        })
    }
}

/// Writing a primitive appends tag, length encoding and value bytes.
pub open spec fn spec_write(v: Asn1View, tag: u8, data: Seq<u8>) -> Result<Asn1View, Error> {
    match spec_len_encoding(data.len() as int) {
        None => Err(Error::NoSpace),
        Some(le) => {
            if v.bytes.len() + 1 + le.len() + data.len() > v.cap {
                Err(Error::NoSpace)
            } else {
                Ok(Asn1View { bytes: v.bytes + seq![tag] + le + data, stack: v.stack, cap: v.cap })
            }
        },
    }
}

/// Closing a compound encodes the body length over the reserved bytes
/// and shifts the body left by the bytes the encoding did not need.
pub open spec fn spec_pop(v: Asn1View) -> Result<Asn1View, Error> {
    if v.stack.len() == 0 {
        Err(Error::Invalid)
    } else {
        let top = v.stack.last();
        let body_len = v.bytes.len() - top;
        match spec_len_encoding(body_len) {
            None => Err(Error::NoSpace),
            Some(le) => Ok(Asn1View {
                bytes: v.bytes.subrange(0, top - 3) + le + v.bytes.subrange(
                    top,
                    v.bytes.len() as int,
                ),
                stack: v.stack.drop_last(),
                cap: v.cap,
            }),
        }
    }
}

/// DER writer over an owned fixed-size buffer.
pub struct ASN1Writer {
    buf: Vec<u8>,
    offset: usize,
    depth: Vec<usize>,
}

impl View for ASN1Writer {
    type V = Asn1View;

    closed spec fn view(&self) -> Asn1View {
        Asn1View {
            bytes: self.buf@.subrange(0, self.offset as int),
            stack: self.depth@.map_values(|d: usize| d as int),
            cap: self.buf@.len() as int,
        }
    }
}

impl ASN1Writer {
    /// Structural facts every writer maintains: the write position within
    /// the buffer and a stack of body offsets that are in range and at
    /// least four bytes apart.
    pub closed spec fn wf(&self) -> bool {
        &&& self.offset <= self.buf@.len()
        &&& self.depth@.len() <= MAX_DEPTH
        &&& forall|i: int|
            0 <= i < self.depth@.len() ==> 4 <= #[trigger] self.depth@[i] <= self.offset
        &&& forall|i: int, j: int|
            0 <= i < j < self.depth@.len() ==> #[trigger] self.depth@[i] + 4 <= #[trigger] self.depth@[j]
    }

    /// A fresh writer over a zeroed buffer of `size` bytes.
    #[verifier::loop_isolation(false)]
    pub fn new(size: usize) -> (r: ASN1Writer)
        ensures
            r.wf(),
            r@.bytes == Seq::<u8>::empty(),
            r@.stack == Seq::<int>::empty(),
            r@.cap == size,
    {
        let mut buf: Vec<u8> = Vec::new();
        let mut i: usize = 0;
        while i < size
            invariant
                i <= size,
                buf@.len() == i,
            decreases size - i,
        {
            buf.push(0);
            i = i + 1;
        }
        let r = ASN1Writer { buf, offset: 0, depth: Vec::new() };
        proof {
            assert(r@.bytes =~= Seq::<u8>::empty());
            assert(r@.stack =~= Seq::<int>::empty());
        }
        r
    }

    /// Bytes written so far.
    pub fn as_slice(&self) -> (r: &[u8])
        requires
            self.wf(),
        ensures
            r@ == self@.bytes,
    {
        vstd::slice::slice_subrange(self.buf.as_slice(), 0, self.offset)
    }

    /// Number of bytes written so far.
    pub fn len(&self) -> (r: usize)
        requires
            self.wf(),
        ensures
            r == self@.bytes.len(),
    {
        self.offset
    }

    /// Appends raw bytes, failing without effect when the buffer cannot
    /// hold them.
    #[verifier::loop_isolation(false)]
    pub fn append_with(&mut self, data: &[u8]) -> (r: Result<(), Error>)
        requires
            old(self).wf(),
        ensures
            final(self).wf(),
            final(self)@.stack == old(self)@.stack,
            final(self)@.cap == old(self)@.cap,
            match r {
                Ok(()) => old(self)@.bytes.len() + data@.len() <= old(self)@.cap && final(self)@.bytes
                    == old(self)@.bytes + data@,
                Err(e) => e == Error::NoSpace && old(self)@.bytes.len() + data@.len()
                    > old(self)@.cap && final(self)@ == old(self)@,
            },
    {
        if data.len() > self.buf.len() - self.offset {
            return Err(Error::NoSpace);
        }
        let ghost prev = self.buf@;
        let ghost prev_off = self.offset as int;
        let ghost prev_depth = self.depth@;
        let mut k: usize = 0;
        while k < data.len()
            invariant
                k <= data@.len(),
                prev_off + data@.len() <= self.buf@.len(),
                0 <= prev_off,
                self.buf@.len() <= usize::MAX,
                self.buf@.len() == prev.len(),
                forall|j: int| 0 <= j < prev_off ==> self.buf@[j] == prev[j],
                forall|j: int|
                    prev_off <= j < prev_off + k ==> self.buf@[j] == data@[j - prev_off],
                self.offset == prev_off,
                self.depth@ == prev_depth,
            decreases data@.len() - k,
        {
            self.buf[self.offset + k] = data[k];
            k = k + 1;
        }
        self.offset = self.offset + data.len();
        proof {
            assert(self@.bytes =~= old(self)@.bytes + data@);
            assert(self@.stack =~= old(self)@.stack);
        }
        Ok(())
    }

    /// Opens a compound with the given tag byte.
    fn add_compound(&mut self, tag: u8) -> (r: Result<(), Error>)
        requires
            old(self).wf(),
        ensures
            final(self).wf(),
            match r {
                Ok(()) => spec_push(old(self)@, tag) == Ok::<Asn1View, Error>(final(self)@),
                Err(e) => spec_push(old(self)@, tag) == Err::<Asn1View, Error>(e) && final(self)@ == old(
                    self,
                )@,
            },
    {
        if 4 > self.buf.len() - self.offset {
            return Err(Error::NoSpace);
        }
        if self.depth.len() >= MAX_DEPTH {
            return Err(Error::NoSpace);
        }
        let ghost prev = self@;
        self.buf[self.offset] = tag;
        self.buf[self.offset + 1] = 0;
        self.buf[self.offset + 2] = 0;
        self.buf[self.offset + 3] = 0;
        self.offset = self.offset + 4;
        self.depth.push(self.offset);
        proof {
            assert(self@.bytes =~= prev.bytes + seq![tag, 0u8, 0u8, 0u8]);
            assert(self@.stack =~= prev.stack.push(prev.bytes.len() + 4int));
        }
        Ok(())
    }

    /// Closes the innermost compound.
    #[verifier::loop_isolation(false)]
    fn end_compound(&mut self) -> (r: Result<(), Error>)
        requires
            old(self).wf(),
        ensures
            final(self).wf(),
            match r {
                Ok(()) => spec_pop(old(self)@) == Ok::<Asn1View, Error>(final(self)@),
                Err(e) => spec_pop(old(self)@) == Err::<Asn1View, Error>(e) && final(self)@ == old(self)@,
            },
    {
        if self.depth.len() == 0 {
            return Err(Error::Invalid);
        }
        let blen = self.buf.len();
        proof {
            assert(self.buf@.len() == blen);
        }
        let top = self.depth[self.depth.len() - 1];
        let body_len = self.offset - top;
        let le_len: usize = if body_len < 128 {
            1
        } else if body_len < 256 {
            2
        } else if body_len < 65536 {
            3
        } else {
            return Err(Error::NoSpace);
        };
        let ghost prev = self@;
        let ghost prevbuf = self.buf@;
        let ghost le = spec_len_encoding(body_len as int)->Some_0;
        if le_len == 1 {
            self.buf[top - 3] = body_len as u8;
        } else if le_len == 2 {
            self.buf[top - 3] = 0x81;
            self.buf[top - 2] = body_len as u8;
        } else {
            self.buf[top - 3] = 0x82;
            self.buf[top - 2] = (body_len / 256) as u8;
            self.buf[top - 1] = (body_len % 256) as u8;
        }
        let ghost bufle = self.buf@;
        proof {
            assert(forall|j: int| 0 <= j < top - 3 ==> bufle[j] == prevbuf[j]);
            assert(forall|j: int| top <= j < bufle.len() ==> bufle[j] == prevbuf[j]);
            assert(forall|j: int|
                top - 3 <= j < top - 3 + le.len() ==> bufle[j] == le[j - (top - 3)]);
        }
        let ghost prev_depth = self.depth@;
        let dst = top - 3 + le_len;
        let mut k: usize = 0;
        while k < body_len
            invariant
                k <= body_len,
                top + body_len == self.offset <= self.buf@.len(),
                4 <= top,
                1 <= le_len <= 3,
                dst == top - 3 + le_len,
                self.buf@.len() <= usize::MAX,
                self.depth@ == prev_depth,
                self.buf@.len() == bufle.len(),
                forall|j: int| 0 <= j < dst ==> self.buf@[j] == bufle[j],
                forall|j: int| dst <= j < dst + k ==> self.buf@[j] == bufle[j - dst + top],
                forall|j: int| top + k <= j < self.offset ==> self.buf@[j] == bufle[j],
            decreases body_len - k,
        {
            let v = self.buf[top + k];
            self.buf[dst + k] = v;
            k = k + 1;
        }
        self.offset = dst + body_len;
        self.depth.pop();
        proof {
            let goal = prev.bytes.subrange(0, top - 3) + le + prev.bytes.subrange(
                top as int,
                prev.bytes.len() as int,
            );
            assert forall|i: int| 0 <= i < dst + body_len implies self.buf@[i] == goal[i] by {
                if i < top - 3 {
                    assert(self.buf@[i] == bufle[i]);
                    assert(bufle[i] == prevbuf[i]);
                    assert(prev.bytes[i] == prevbuf[i]);
                } else if i < dst {
                    assert(self.buf@[i] == bufle[i]);
                    assert(bufle[i] == le[i - (top - 3)]);
                } else {
                    assert(self.buf@[i] == bufle[i - dst + top]);
                    assert(bufle[i - dst + top] == prevbuf[i - dst + top]);
                    assert(prev.bytes[i - dst + top] == prevbuf[i - dst + top]);
                }
            }
            assert(self@.bytes =~= goal);
            assert(self@.stack =~= prev.stack.drop_last());
        }
        Ok(())
    }

    /// Appends one primitive element: tag, length encoding, then `data`.
    #[verifier::loop_isolation(false)]
    pub fn append_tlv(&mut self, tag: u8, data: &[u8]) -> (r: Result<(), Error>)
        requires
            old(self).wf(),
        ensures
            final(self).wf(),
            match r {
                Ok(()) => spec_write(old(self)@, tag, data@) == Ok::<Asn1View, Error>(final(self)@),
                Err(e) => spec_write(old(self)@, tag, data@) == Err::<Asn1View, Error>(e) && final(self)@
                    == old(self)@,
            },
    {
        let le_len: usize = if data.len() < 128 {
            1
        } else if data.len() < 256 {
            2
        } else if data.len() < 65536 {
            3
        } else {
            return Err(Error::NoSpace);
        };
        if self.buf.len() - self.offset < 1 + le_len || self.buf.len() - self.offset - 1 - le_len
            < data.len() {
            return Err(Error::NoSpace);
        }
        let ghost prev = self@;
        let ghost le = spec_len_encoding(data@.len() as int)->Some_0;
        self.buf[self.offset] = tag;
        if le_len == 1 {
            self.buf[self.offset + 1] = data.len() as u8;
        } else if le_len == 2 {
            self.buf[self.offset + 1] = 0x81;
            self.buf[self.offset + 2] = data.len() as u8;
        } else {
            self.buf[self.offset + 1] = 0x82;
            self.buf[self.offset + 2] = (data.len() / 256) as u8;
            self.buf[self.offset + 3] = (data.len() % 256) as u8;
        }
        let ghost hdrbuf = self.buf@;
        proof {
            assert(forall|j: int| 0 <= j < prev.bytes.len() ==> hdrbuf[j] == prev.bytes[j]);
            assert(forall|j: int|
                prev.bytes.len() <= j < prev.bytes.len() + 1 + le.len() ==> hdrbuf[j] == (
                seq![tag] + le)[j - prev.bytes.len()]);
        }
        let ghost prev_depth = self.depth@;
        let base = self.offset + 1 + le_len;
        let mut k: usize = 0;
        while k < data.len()
            invariant
                k <= data@.len(),
                base == self.offset + 1 + le_len,
                base + data@.len() <= self.buf@.len(),
                self.buf@.len() <= usize::MAX,
                self.depth@ == prev_depth,
                self.buf@.len() == hdrbuf.len(),
                forall|j: int| 0 <= j < base ==> self.buf@[j] == hdrbuf[j],
                forall|j: int| base <= j < base + k ==> self.buf@[j] == data@[j - base],
            decreases data@.len() - k,
        {
            self.buf[base + k] = data[k];
            k = k + 1;
        }
        self.offset = base + data.len();
        proof {
            let goal = prev.bytes + seq![tag] + le + data@;
            assert forall|i: int| 0 <= i < base + data@.len() implies self.buf@[i] == goal[i] by {
                if i < prev.bytes.len() {
                    assert(self.buf@[i] == hdrbuf[i]);
                    assert(hdrbuf[i] == prev.bytes[i]);
                } else if i < prev.bytes.len() + 1 + le.len() {
                    assert(self.buf@[i] == hdrbuf[i]);
                    assert(hdrbuf[i] == (seq![tag] + le)[i - prev.bytes.len()]);
                } else {
                    assert(self.buf@[i] == data@[i - base]);
                }
            }
            assert(self@.bytes =~= goal);
            assert(self@.stack =~= prev.stack);
        }
        Ok(())
    }

    /// Opens a DER SEQUENCE.
    pub fn start_seq(&mut self) -> (r: Result<(), Error>)
        requires
            old(self).wf(),
        ensures
            final(self).wf(),
            match r {
                Ok(()) => spec_push(old(self)@, 0x30) == Ok::<Asn1View, Error>(final(self)@),
                Err(e) => spec_push(old(self)@, 0x30) == Err::<Asn1View, Error>(e) && final(self)@ == old(
                    self,
                )@,
            },
    {
        self.add_compound(0x30)
    }

    /// Closes a DER SEQUENCE.
    pub fn end_seq(&mut self) -> (r: Result<(), Error>)
        requires
            old(self).wf(),
        ensures
            final(self).wf(),
            match r {
                Ok(()) => spec_pop(old(self)@) == Ok::<Asn1View, Error>(final(self)@),
                Err(e) => spec_pop(old(self)@) == Err::<Asn1View, Error>(e) && final(self)@ == old(self)@,
            },
    {
        self.end_compound()
    }

    /// Opens a DER SET.
    pub fn start_set(&mut self) -> (r: Result<(), Error>)
        requires
            old(self).wf(),
        ensures
            final(self).wf(),
            match r {
                Ok(()) => spec_push(old(self)@, 0x31) == Ok::<Asn1View, Error>(final(self)@),
                Err(e) => spec_push(old(self)@, 0x31) == Err::<Asn1View, Error>(e) && final(self)@ == old(
                    self,
                )@,
            },
    {
        self.add_compound(0x31)
    }

    /// Closes a DER SET.
    pub fn end_set(&mut self) -> (r: Result<(), Error>)
        requires
            old(self).wf(),
        ensures
            final(self).wf(),
            match r {
                Ok(()) => spec_pop(old(self)@) == Ok::<Asn1View, Error>(final(self)@),
                Err(e) => spec_pop(old(self)@) == Err::<Asn1View, Error>(e) && final(self)@ == old(self)@,
            },
    {
        self.end_compound()
    }

    /// Opens a context-specific constructed element with the given id.
    pub fn start_ctx(&mut self, id: u8) -> (r: Result<(), Error>)
        requires
            old(self).wf(),
            id < 0x20,
        ensures
            final(self).wf(),
            match r {
                Ok(()) => spec_push(old(self)@, (0xA0 | id) as u8) == Ok::<Asn1View, Error>(final(self)@),
                Err(e) => spec_push(old(self)@, (0xA0 | id) as u8) == Err::<Asn1View, Error>(e)
                    && final(self)@ == old(self)@,
            },
    {
        self.add_compound(0xA0 | id)
    }

    /// Closes a context-specific constructed element.
    pub fn end_ctx(&mut self) -> (r: Result<(), Error>)
        requires
            old(self).wf(),
        ensures
            final(self).wf(),
            match r {
                Ok(()) => spec_pop(old(self)@) == Ok::<Asn1View, Error>(final(self)@),
                Err(e) => spec_pop(old(self)@) == Err::<Asn1View, Error>(e) && final(self)@ == old(self)@,
            },
    {
        self.end_compound()
    }

    /// Opens a compound OCTET STRING.
    pub fn start_compound_ostr(&mut self) -> (r: Result<(), Error>)
        requires
            old(self).wf(),
        ensures
            final(self).wf(),
            match r {
                Ok(()) => spec_push(old(self)@, 0x04) == Ok::<Asn1View, Error>(final(self)@),
                Err(e) => spec_push(old(self)@, 0x04) == Err::<Asn1View, Error>(e) && final(self)@ == old(
                    self,
                )@,
            },
    {
        self.add_compound(0x04)
    }

    /// Closes a compound OCTET STRING.
    pub fn end_compound_ostr(&mut self) -> (r: Result<(), Error>)
        requires
            old(self).wf(),
        ensures
            final(self).wf(),
            match r {
                Ok(()) => spec_pop(old(self)@) == Ok::<Asn1View, Error>(final(self)@),
                Err(e) => spec_pop(old(self)@) == Err::<Asn1View, Error>(e) && final(self)@ == old(self)@,
            },
    {
        self.end_compound()
    }

    /// DER INTEGER from raw big-endian content bytes.
    pub fn integer(&mut self, i: &[u8]) -> (r: Result<(), Error>)
        requires
            old(self).wf(),
        ensures
            final(self).wf(),
            match r {
                Ok(()) => spec_write(old(self)@, 0x02, i@) == Ok::<Asn1View, Error>(final(self)@),
                Err(e) => spec_write(old(self)@, 0x02, i@) == Err::<Asn1View, Error>(e) && final(self)@
                    == old(self)@,
            },
    {
        self.append_tlv(0x02, i)
    }

    /// DER UTF8String from raw bytes.
    pub fn utf8str(&mut self, s: &[u8]) -> (r: Result<(), Error>)
        requires
            old(self).wf(),
        ensures
            final(self).wf(),
            match r {
                Ok(()) => spec_write(old(self)@, 0x0c, s@) == Ok::<Asn1View, Error>(final(self)@),
                Err(e) => spec_write(old(self)@, 0x0c, s@) == Err::<Asn1View, Error>(e) && final(self)@
                    == old(self)@,
            },
    {
        self.append_tlv(0x0c, s)
    }

    /// DER OCTET STRING.
    pub fn ostr(&mut self, s: &[u8]) -> (r: Result<(), Error>)
        requires
            old(self).wf(),
        ensures
            final(self).wf(),
            match r {
                Ok(()) => spec_write(old(self)@, 0x04, s@) == Ok::<Asn1View, Error>(final(self)@),
                Err(e) => spec_write(old(self)@, 0x04, s@) == Err::<Asn1View, Error>(e) && final(self)@
                    == old(self)@,
            },
    {
        self.append_tlv(0x04, s)
    }

    /// DER OBJECT IDENTIFIER from encoded content bytes.
    pub fn oid(&mut self, oid: &[u8]) -> (r: Result<(), Error>)
        requires
            old(self).wf(),
        ensures
            final(self).wf(),
            match r {
                Ok(()) => spec_write(old(self)@, 0x06, oid@) == Ok::<Asn1View, Error>(final(self)@),
                Err(e) => spec_write(old(self)@, 0x06, oid@) == Err::<Asn1View, Error>(e) && final(self)@
                    == old(self)@,
            },
    {
        self.append_tlv(0x06, oid)
    }

    /// Context-specific primitive element with the given id.
    pub fn ctx(&mut self, id: u8, val: &[u8]) -> (r: Result<(), Error>)
        requires
            old(self).wf(),
            id < 0x20,
        ensures
            final(self).wf(),
            match r {
                Ok(()) => spec_write(old(self)@, (0x80 | id) as u8, val@) == Ok::<
                    Asn1View,
                    Error,
                >(final(self)@),
                Err(e) => spec_write(old(self)@, (0x80 | id) as u8, val@) == Err::<
                    Asn1View,
                    Error,
                >(e) && final(self)@ == old(self)@,
            },
    {
        self.append_tlv(0x80 | id, val)
    }

    /// DER BOOLEAN: `0xFF` for true, `0x00` for false.
    pub fn bool_val(&mut self, b: bool) -> (r: Result<(), Error>)
        requires
            old(self).wf(),
        ensures
            final(self).wf(),
            match r {
                Ok(()) => spec_write(old(self)@, 0x01, seq![if b { 0xFFu8 } else { 0x00u8 }])
                    == Ok::<Asn1View, Error>(final(self)@),
                Err(e) => spec_write(old(self)@, 0x01, seq![if b { 0xFFu8 } else { 0x00u8 }])
                    == Err::<Asn1View, Error>(e) && final(self)@ == old(self)@,
            },
    {
        let mut v: Vec<u8> = Vec::new();
        if b {
            v.push(0xFF);
        } else {
            v.push(0x00);
        }
        proof {
            assert(v@ =~= seq![if b { 0xFFu8 } else { 0x00u8 }]);
        }
        self.append_tlv(0x01, v.as_slice())
    }

    /// DER BIT STRING.  With `truncate` set, trailing zero bytes are
    /// removed and the unused-bit count of the last kept byte recorded;
    /// otherwise the bit count is exact and the prefix byte is zero.
    #[verifier::loop_isolation(false)]
    pub fn bitstr(&mut self, truncate: bool, s: &[u8]) -> (r: Result<(), Error>)
        requires
            old(self).wf(),
        ensures
            final(self).wf(),
            match r {
                Ok(()) => spec_write(old(self)@, 0x03, spec_bitstr_content(truncate, s@)) == Ok::<
                    Asn1View,
                    Error,
                >(final(self)@),
                Err(e) => spec_write(old(self)@, 0x03, spec_bitstr_content(truncate, s@)) == Err::<
                    Asn1View,
                    Error,
                >(e) && final(self)@ == old(self)@,
            },
    {
        let mut body_len = s.len();
        if truncate {
            proof {
                assert(s@.subrange(0, s@.len() as int) =~= s@);
            }
            while body_len > 0 && s[body_len - 1] == 0
                invariant
                    body_len <= s@.len(),
                    spec_strip_zeros(s@) == spec_strip_zeros(s@.subrange(0, body_len as int)),
                decreases body_len,
            {
                proof {
                    assert(s@.subrange(0, body_len as int).drop_last() =~= s@.subrange(
                        0,
                        body_len - 1,
                    ));
                }
                body_len = body_len - 1;
            }
            proof {
                assert(spec_strip_zeros(s@) == s@.subrange(0, body_len as int));
            }
        }
        let unused: u8 = if truncate && body_len > 0 {
            tz8(s[body_len - 1])
        } else {
            0
        };
        let mut content: Vec<u8> = Vec::new();
        content.push(unused);
        let mut i: usize = 0;
        while i < body_len
            invariant
                i <= body_len <= s@.len(),
                content@.len() == i + 1,
                content@[0] == unused,
                forall|j: int| 0 <= j < i ==> content@[j + 1] == s@[j],
            decreases body_len - i,
        {
            content.push(s[i]);
            i = i + 1;
        }
        proof {
            if truncate {
                assert(content@ =~= spec_bitstr_content(truncate, s@));
            } else {
                assert(content@ =~= spec_bitstr_content(truncate, s@));
            }
        }
        self.append_tlv(0x03, content.as_slice())
    }

    /// DER UTCTime for an instant `epoch` seconds past the Matter epoch.
    pub fn utctime(&mut self, epoch: u32) -> (r: Result<(), Error>)
        requires
            old(self).wf(),
        ensures
            final(self).wf(),
            match r {
                Ok(()) => spec_write(old(self)@, 0x17, utctime_text(epoch)) == Ok::<
                    Asn1View,
                    Error,
                >(final(self)@),
                Err(e) => spec_write(old(self)@, 0x17, utctime_text(epoch)) == Err::<
                    Asn1View,
                    Error,
                >(e) && final(self)@ == old(self)@,
            },
    {
        let t = utctime_bytes(epoch);
        self.append_tlv(0x17, t.as_slice())
    }
}


/// Trailing zero bits of a byte; eight for zero.
pub open spec fn spec_tz8(x: u8) -> u8 {
    if x & 0x01 != 0 {
        0
    } else if x & 0x02 != 0 {
        1
    } else if x & 0x04 != 0 {
        2
    } else if x & 0x08 != 0 {
        3
    } else if x & 0x10 != 0 {
        4
    } else if x & 0x20 != 0 {
        5
    } else if x & 0x40 != 0 {
        6
    } else if x & 0x80 != 0 {
        7
    } else {
        8
    }
}

/// A byte run with its trailing zero bytes removed.
pub open spec fn spec_strip_zeros(s: Seq<u8>) -> Seq<u8>
    decreases s.len(),
{
    if s.len() == 0 {
        s
    } else if s.last() == 0 {
        spec_strip_zeros(s.drop_last())
    } else {
        s
    }
}

/// Content bytes of a DER BIT STRING: the unused-bit count followed by
/// the (optionally right-trimmed) bit bytes.
pub open spec fn spec_bitstr_content(truncate: bool, s: Seq<u8>) -> Seq<u8> {
    if truncate {
        let body = spec_strip_zeros(s);
        if body.len() == 0 {
            seq![0u8] + body
        } else {
            seq![spec_tz8(body.last())] + body
        }
    } else {
        seq![0u8] + s
    }
}

/// Count of trailing zero bits of a byte.
fn tz8(x: u8) -> (r: u8)
    ensures
        r == spec_tz8(x),
{
    if x & 0x01 != 0 {
        0
    } else if x & 0x02 != 0 {
        1
    } else if x & 0x04 != 0 {
        2
    } else if x & 0x08 != 0 {
        3
    } else if x & 0x10 != 0 {
        4
    } else if x & 0x20 != 0 {
        5
    } else if x & 0x40 != 0 {
        6
    } else if x & 0x80 != 0 {
        7
    } else {
        8
    }
}

/// What the `YYMMDDhhmmssZ` UTCTime text is for an instant `epoch`
/// seconds after the Matter epoch 2000-01-01T00:00:00Z.
pub uninterp spec fn utctime_text(epoch: u32) -> Seq<u8>;

/// Relies on chrono's proleptic-Gregorian calendar arithmetic: the
/// `%y%m%d%H%M%S` rendering of an instant is a function of that instant
/// alone, and with the trailing `Z` it is always thirteen ASCII bytes.
#[verifier::external_body]
fn utctime_bytes(epoch: u32) -> (r: Vec<u8>)
    ensures
        r@ == utctime_text(epoch),
        r@.len() == 13,
{
    let base = chrono::Utc.with_ymd_and_hms(2000, 1, 1, 0, 0, 0).unwrap().timestamp();
    let dt = chrono::Utc.timestamp_opt(base + epoch as i64, 0).unwrap();
    format!("{}Z", dt.format("%y%m%d%H%M%S")).into_bytes()
}

/// One writer operation: opening a compound, writing a primitive, or
/// closing a compound.
pub ghost enum Asn1Op {
    Push(u8),
    Write(u8, Seq<u8>),
    Pop,
}

/// Applying one operation to a view.
pub open spec fn spec_apply_op(v: Asn1View, op: Asn1Op) -> Result<Asn1View, Error> {
    match op {
        Asn1Op::Push(tag) => spec_push(v, tag),
        Asn1Op::Write(tag, data) => spec_write(v, tag, data),
        Asn1Op::Pop => spec_pop(v),
    }
}

/// Running a whole script, stopping at the first failure.
pub open spec fn spec_run(v: Asn1View, script: Seq<Asn1Op>) -> Result<Asn1View, Error>
    decreases script.len(),
{
    if script.len() == 0 {
        Ok(v)
    } else {
        match spec_apply_op(v, script.first()) {
            Ok(v2) => spec_run(v2, script.drop_first()),
            Err(e) => Err(e),
        }
    }
}

/// Feeding the sink with a fixed script is deterministic: two writers
/// in the same state produce byte-identical output on every run, since
/// every method's contract equates its effect with the same function of
/// the view.  In particular the DER rendering of a certificate depends
/// on the certificate bytes alone.
pub proof fn lemma_writer_deterministic(a: Asn1View, b: Asn1View, script: Seq<Asn1Op>)
    requires
        a == b,
    ensures
        spec_run(a, script) == spec_run(b, script),
    decreases script.len(),
{
}

} // verus!
