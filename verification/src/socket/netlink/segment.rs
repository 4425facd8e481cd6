//! Netlink route messages as values.
//!
//! A segment is a header, a body of fixed layout and a list of attributes.
use vstd::prelude::*;
use crate::bytes;
use crate::socket::netlink::netlink;

verus! {

/// Netlink attribute nesting flag, stripped before a type is compared.
pub const NLA_F_NESTED: u16 = 0x8000;

/// Netlink message header (Linux `struct nlmsghdr`).
#[derive(Debug, Clone, Copy, PartialEq, Eq, Structural)]
pub struct CMsgSegHdr {
    pub len: u32,
    pub type_: u16,
    pub flags: u16,
    pub seq: u32,
    pub pid: u32,
}

/// Netlink attribute header (Linux `struct rtattr`).
#[derive(Debug, Clone, Copy, PartialEq, Eq, Structural)]
pub struct CAttrHeader {
    pub len: u16,
    pub type_: u16,
}

/// The result of a parse of too few bytes.
pub const EINVAL_RET: isize = -22;

impl CMsgSegHdr {
    /// The bytes of the header.
    pub open spec fn wire(self) -> Seq<u8> {
        netlink::nl_header(self.len, self.type_, self.flags, self.seq, self.pid)
    }

    /// The header in the sixteen bytes from `i` on.
    pub open spec fn at(s: Seq<u8>, i: int) -> CMsgSegHdr {
        CMsgSegHdr {
            len: bytes::u32_le_at(s, i),
            type_: bytes::u16_le_at(s, i + 4),
            flags: bytes::u16_le_at(s, i + 6),
            seq: bytes::u32_le_at(s, i + 8),
            pid: bytes::u32_le_at(s, i + 12),
        }
    }

    /// Reads the header in the sixteen bytes from `i` on.
    pub fn read(buf: &[u8], i: usize) -> (r: CMsgSegHdr)
        requires
            i + 16 <= buf@.len(),
        ensures
            r == CMsgSegHdr::at(buf@, i as int),
    {
        let n: usize = buf.len();
        assert(i + 16 <= n);
        CMsgSegHdr {
            len: bytes::get_u32_le(buf, i),
            type_: bytes::get_u16_le(buf, i + 4),
            flags: bytes::get_u16_le(buf, i + 6),
            seq: bytes::get_u32_le(buf, i + 8),
            pid: bytes::get_u32_le(buf, i + 12),
        }
    }

    /// Appends the bytes of the header.
    pub fn put(&self, buf: &mut Vec<u8>)
        ensures
            final(buf)@ == old(buf)@ + self.wire(),
    {
        let ghost before = buf@;
        netlink::pu32(buf, self.len);
        netlink::pu16(buf, self.type_);
        netlink::pu16(buf, self.flags);
        netlink::pu32(buf, self.seq);
        netlink::pu32(buf, self.pid);
        assert(buf@ =~= before + self.wire());
    }
}

/// A header read from its own bytes, wherever they stand.
pub proof fn lemma_header_roundtrip(h: CMsgSegHdr, s: Seq<u8>, i: int)
    requires
        0 <= i,
        i + 16 <= s.len(),
        s.subrange(i, i + 16) == h.wire(),
    ensures
        CMsgSegHdr::at(s, i) == h,
        h.wire().len() == 16,
{
    let w = h.wire();
    bytes::lemma_le_roundtrip(h.type_, h.len);
    bytes::lemma_le_roundtrip(h.flags, h.seq);
    bytes::lemma_le_roundtrip(h.flags, h.pid);
    assert(forall|k: int| 0 <= k < 16 ==> s[i + k] == #[trigger] w[k]);
    assert(forall|k: int| 0 <= k < 4 ==> #[trigger] w[k] == bytes::le32(h.len)[k]);
    assert(forall|k: int| 0 <= k < 2 ==> w[4 + k] == #[trigger] bytes::le16(h.type_)[k]);
    assert(forall|k: int| 0 <= k < 2 ==> w[6 + k] == #[trigger] bytes::le16(h.flags)[k]);
    assert(forall|k: int| 0 <= k < 4 ==> w[8 + k] == #[trigger] bytes::le32(h.seq)[k]);
    assert(forall|k: int| 0 <= k < 4 ==> w[12 + k] == #[trigger] bytes::le32(h.pid)[k]);
    assert(s[i] == w[0] && s[i + 1] == w[1] && s[i + 2] == w[2] && s[i + 3] == w[3]);
    assert(s[i + 4] == w[4] && s[i + 5] == w[5] && s[i + 6] == w[6] && s[i + 7] == w[7]);
    assert(s[i + 8] == w[8] && s[i + 9] == w[9] && s[i + 10] == w[10] && s[i + 11] == w[11]);
    assert(s[i + 12] == w[12] && s[i + 13] == w[13] && s[i + 14] == w[14] && s[i + 15] == w[15]);
    assert(w[0] == bytes::le32(h.len)[0] && w[3] == bytes::le32(h.len)[3]);
    assert(w[4] == bytes::le16(h.type_)[0] && w[5] == bytes::le16(h.type_)[1]);
    assert(w[6] == bytes::le16(h.flags)[0] && w[7] == bytes::le16(h.flags)[1]);
    assert(w[8] == bytes::le32(h.seq)[0] && w[9] == bytes::le32(h.seq)[1] && w[10]
        == bytes::le32(h.seq)[2] && w[11] == bytes::le32(h.seq)[3]);
    assert(w[12] == bytes::le32(h.pid)[0] && w[13] == bytes::le32(h.pid)[1] && w[14]
        == bytes::le32(h.pid)[2] && w[15] == bytes::le32(h.pid)[3]);
}

/// A message body that can be parsed from and serialised to bytes.
pub trait SegmentBody: Sized {
    /// The number of bytes of the body.
    spec fn spec_body_len() -> nat;

    /// The body in the first bytes of `data`.
    spec fn spec_parse(data: Seq<u8>) -> Self;

    /// The bytes of the body.
    spec fn spec_body_bytes(self) -> Seq<u8>;

    fn parse(data: &[u8]) -> (r: Result<Self, isize>)
        ensures
            data@.len() < Self::spec_body_len() ==> r == Err::<Self, isize>(EINVAL_RET),
            data@.len() >= Self::spec_body_len() ==> r == Ok::<Self, isize>(Self::spec_parse(data@)),
    ;

    fn body_len() -> (r: usize)
        ensures
            r == Self::spec_body_len(),
            r <= 64,
    ;

    fn to_body_bytes(&self) -> (r: Vec<u8>)
        ensures
            r@ == self.spec_body_bytes(),
            r@.len() == Self::spec_body_len(),
    ;

    /// A body parsed from its own bytes is the body.
    proof fn law_body_roundtrip(self, data: Seq<u8>)
        requires
            data.len() >= Self::spec_body_len(),
            data.take(Self::spec_body_len() as int) == self.spec_body_bytes(),
        ensures
            Self::spec_parse(data) == self,
            Self::spec_body_len() <= 64,
    ;
}

/// An attribute type that can be parsed and serialised in batches.
pub trait SegmentAttr: Sized {
    /// The attributes in `data`.
    spec fn spec_parse_many(data: Seq<u8>) -> Seq<Self>;

    /// The bytes of a list of attributes.
    spec fn spec_attrs_bytes(attrs: Seq<Self>) -> Seq<u8>;

    fn parse_many(data: &[u8]) -> (r: Result<Vec<Self>, isize>)
        ensures
            r matches Ok(v) && v@ == Self::spec_parse_many(data@),
    ;

    fn to_attrs_bytes(attrs: &[Self]) -> (r: Vec<u8>)
        ensures
            r@ == Self::spec_attrs_bytes(attrs@),
    ;
}

/// A netlink segment with its body and its attributes.
#[derive(Debug, Clone)]
pub struct SegmentCommon<Body, Attr> {
    pub header: CMsgSegHdr,
    pub body: Body,
    pub attrs: Vec<Attr>,
}

impl<Body: SegmentBody, Attr: SegmentAttr> SegmentCommon<Body, Attr> {
    /// The bytes of the segment: the header with the length of the whole, the
    /// body up to a multiple of four, and the attributes.
    pub open spec fn wire(self) -> Seq<u8> {
        let body = self.body.spec_body_bytes();
        let attrs = Attr::spec_attrs_bytes(self.attrs@);
        let total = 16 + netlink::aligned(body.len() as int) + attrs.len();
        CMsgSegHdr { len: (total % 0x1_0000_0000) as u32, ..self.header }.wire() + body
            + netlink::zero_bytes(netlink::aligned(body.len() as int) - body.len()) + attrs
    }

    /// Parses a segment. A buffer that does not hold the header and the body is
    /// refused.
    pub fn read_from_buf(buf: &[u8]) -> (r: Result<Self, isize>)
        ensures
            match r {
                Ok(seg) => {
                    let end = 16 + Body::spec_body_len();
                    &&& buf@.len() >= end
                    &&& seg.header == CMsgSegHdr::at(buf@, 0)
                    &&& seg.body == Body::spec_parse(buf@.subrange(16, end as int))
                    &&& seg.attrs@ == Attr::spec_parse_many(buf@.skip(end as int))
                },
                Err(e) => buf@.len() < 16 + Body::spec_body_len() && e == EINVAL_RET,
            },
    {
        if buf.len() < 16 {
            return Err(EINVAL_RET);
        }
        let header = CMsgSegHdr::read(buf, 0);
        let body_end: usize = 16 + Body::body_len();
        if buf.len() < body_end {
            return Err(EINVAL_RET);
        }
        let body = match Body::parse(vstd::slice::slice_subrange(buf, 16, body_end)) {
            Ok(b) => b,
            Err(e) => return Err(e),
        };
        let rest = vstd::slice::slice_subrange(buf, body_end, buf.len());
        assert(rest@ =~= buf@.skip(body_end as int));
        let attrs = match Attr::parse_many(rest) {
            Ok(v) => v,
            Err(e) => return Err(e),
        };
        Ok(SegmentCommon { header, body, attrs })
    }

    /// Serialises the segment.
    pub fn to_bytes(&self) -> (r: Vec<u8>)
        requires
            Attr::spec_attrs_bytes(self.attrs@).len() <= usize::MAX - 96,
        ensures
            r@ == self.wire(),
    {
        let body: Vec<u8> = self.body.to_body_bytes();
        proof {
            assert(body@.take(body@.len() as int) =~= body@);
            self.body.law_body_roundtrip(body@);
        }
        let n: usize = body.len();
        let aligned: usize = nlmsg_align(n);
        let attrs: Vec<u8> = Attr::to_attrs_bytes(self.attrs.as_slice());
        let total: usize = 16 + aligned + attrs.len();
        let header = CMsgSegHdr { len: netlink::low32(total), ..self.header };
        let mut buf: Vec<u8> = Vec::new();
        header.put(&mut buf);
        bytes::append_bytes(&mut buf, &body);
        let pad = bytes::zeros(aligned - n);
        bytes::append_bytes(&mut buf, &pad);
        bytes::append_bytes(&mut buf, &attrs);
        assert(buf@ =~= self.wire());
        buf
    }
}

/// A header and two parts in a row, taken apart again.
proof fn lemma_three_parts(h: CMsgSegHdr, b: Seq<u8>, c: Seq<u8>)
    ensures
        ({
            let w = h.wire() + b + c;
            &&& w.len() == 16 + b.len() + c.len()
            &&& CMsgSegHdr::at(w, 0) == h
            &&& w.subrange(16, 16 + b.len() as int) == b
            &&& w.skip(16 + b.len() as int) == c
        }),
{
    let w = h.wire() + b + c;
    assert(w.subrange(0, 16) =~= h.wire());
    lemma_header_roundtrip(h, w, 0);
    assert(w.subrange(16, 16 + b.len() as int) =~= b);
    assert(w.skip(16 + b.len() as int) =~= c);
}

/// Nothing between two parts.
proof fn lemma_no_padding(a: Seq<u8>, b: Seq<u8>, c: Seq<u8>)
    ensures
        a + b + netlink::zero_bytes(0) + c == a + b + c,
{
    assert(a + b + netlink::zero_bytes(0) + c =~= a + b + c);
}

/// A segment read back from its own bytes has the header with the length of
/// the whole, and the body; its attributes are those that the attribute bytes
/// hold.
#[verifier::rlimit(40)]
pub proof fn law_segment_roundtrip<Body: SegmentBody, Attr: SegmentAttr>(
    seg: SegmentCommon<Body, Attr>,
)
    requires
        Body::spec_body_len() % 4 == 0,
        seg.body.spec_body_bytes().len() == Body::spec_body_len(),
        seg.wire().len() <= u32::MAX,
    ensures
        ({
            let end = 16 + Body::spec_body_len() as int;
            let w = seg.wire();
            &&& w.len() >= end
            &&& CMsgSegHdr::at(w, 0) == (CMsgSegHdr { len: w.len() as u32, ..seg.header })
            &&& Body::spec_parse(w.subrange(16, end)) == seg.body
            &&& w.skip(end) == Attr::spec_attrs_bytes(seg.attrs@)
        }),
{
    let w = seg.wire();
    let body = seg.body.spec_body_bytes();
    let attrs = Attr::spec_attrs_bytes(seg.attrs@);
    let h = CMsgSegHdr { len: w.len() as u32, ..seg.header };
    assert(netlink::aligned(body.len() as int) == body.len());
    lemma_no_padding(h.wire(), body, attrs);
    lemma_three_parts(h, body, attrs);
    assert(body.take(body.len() as int) =~= body);
    seg.body.law_body_roundtrip(body);
}

/// Link info message body (Linux `struct ifinfomsg`, 16 bytes).
#[derive(Debug, Clone, Copy, PartialEq, Eq, Structural)]
pub struct CIfinfoMsg {
    pub family: u8,
    pub pad: u8,
    pub type_: u16,
    pub index: i32,
    pub flags: u32,
    pub change: u32,
}

impl SegmentBody for CIfinfoMsg {
    open spec fn spec_body_len() -> nat {
        16
    }

    open spec fn spec_parse(data: Seq<u8>) -> Self {
        CIfinfoMsg {
            family: data[0],
            pad: data[1],
            type_: bytes::u16_le_at(data, 2),
            index: bytes::i32_of(bytes::u32_le_at(data, 4)),
            flags: bytes::u32_le_at(data, 8),
            change: bytes::u32_le_at(data, 12),
        }
    }

    open spec fn spec_body_bytes(self) -> Seq<u8> {
        seq![self.family, self.pad] + bytes::le16(self.type_) + bytes::le32(
            bytes::u32_of(self.index),
        ) + bytes::le32(self.flags) + bytes::le32(self.change)
    }

    fn body_len() -> (r: usize) {
        16
    }

    fn parse(data: &[u8]) -> (r: Result<Self, isize>) {
        if data.len() < 16 {
            return Err(EINVAL_RET);
        }
        Ok(
            CIfinfoMsg {
                family: data[0],
                pad: data[1],
                type_: bytes::get_u16_le(data, 2),
                index: bytes::to_i32(bytes::get_u32_le(data, 4)),
                flags: bytes::get_u32_le(data, 8),
                change: bytes::get_u32_le(data, 12),
            },
        )
    }

    fn to_body_bytes(&self) -> (r: Vec<u8>) {
        let mut buf: Vec<u8> = Vec::new();
        buf.push(self.family);
        buf.push(self.pad);
        bytes::put_u16_le(&mut buf, self.type_);
        bytes::put_u32_le(&mut buf, bytes::to_u32(self.index));
        bytes::put_u32_le(&mut buf, self.flags);
        bytes::put_u32_le(&mut buf, self.change);
        assert(buf@ =~= self.spec_body_bytes());
        buf
    }

    proof fn law_body_roundtrip(self, data: Seq<u8>) {
        let w = self.spec_body_bytes();
        lemma_prefix(data, w);
        bytes::lemma_i32_roundtrip(self.index, 0);
        lemma_read_u16(data, 2, w, self.type_);
        lemma_read_u32(data, 4, w, bytes::u32_of(self.index));
        lemma_read_u32(data, 8, w, self.flags);
        lemma_read_u32(data, 12, w, self.change);
    }
}

proof fn lemma_prefix(data: Seq<u8>, w: Seq<u8>)
    requires
        data.len() >= w.len(),
        data.take(w.len() as int) =~= w,
    ensures
        forall|k: int| 0 <= k < w.len() ==> #[trigger] data[k] == w[k],
{
    assert forall|k: int| 0 <= k < w.len() implies #[trigger] data[k] == w[k] by {
        assert(data.take(w.len() as int)[k] == data[k]);
    }
}

proof fn lemma_read_u16(data: Seq<u8>, i: int, w: Seq<u8>, v: u16)
    requires
        0 <= i,
        i + 2 <= w.len() <= data.len(),
        forall|k: int| 0 <= k < w.len() ==> #[trigger] data[k] == w[k],
        w.subrange(i, i + 2) =~= bytes::le16(v),
    ensures
        bytes::u16_le_at(data, i) == v,
{
    bytes::lemma_le_roundtrip(v, 0);
    let s = w.subrange(i, i + 2);
    assert(s[0] == w[i] && s[1] == w[i + 1]);
}

proof fn lemma_read_u32(data: Seq<u8>, i: int, w: Seq<u8>, v: u32)
    requires
        0 <= i,
        i + 4 <= w.len() <= data.len(),
        forall|k: int| 0 <= k < w.len() ==> #[trigger] data[k] == w[k],
        w.subrange(i, i + 4) =~= bytes::le32(v),
    ensures
        bytes::u32_le_at(data, i) == v,
{
    bytes::lemma_le_roundtrip(0, v);
    let s = w.subrange(i, i + 4);
    assert(s[0] == w[i] && s[1] == w[i + 1] && s[2] == w[i + 2] && s[3] == w[i + 3]);
}

/// Address info message body (Linux `struct ifaddrmsg`, 8 bytes).
#[derive(Debug, Clone, Copy, PartialEq, Eq, Structural)]
pub struct CIfaddrMsg {
    pub family: u8,
    pub prefixlen: u8,
    pub flags: u8,
    pub scope: u8,
    pub index: i32,
}

impl SegmentBody for CIfaddrMsg {
    open spec fn spec_body_len() -> nat {
        8
    }

    open spec fn spec_parse(data: Seq<u8>) -> Self {
        CIfaddrMsg {
            family: data[0],
            prefixlen: data[1],
            flags: data[2],
            scope: data[3],
            index: bytes::i32_of(bytes::u32_le_at(data, 4)),
        }
    }

    open spec fn spec_body_bytes(self) -> Seq<u8> {
        seq![self.family, self.prefixlen, self.flags, self.scope] + bytes::le32(
            bytes::u32_of(self.index),
        )
    }

    fn body_len() -> (r: usize) {
        8
    }

    fn parse(data: &[u8]) -> (r: Result<Self, isize>) {
        if data.len() < 8 {
            return Err(EINVAL_RET);
        }
        Ok(
            CIfaddrMsg {
                family: data[0],
                prefixlen: data[1],
                flags: data[2],
                scope: data[3],
                index: bytes::to_i32(bytes::get_u32_le(data, 4)),
            },
        )
    }

    fn to_body_bytes(&self) -> (r: Vec<u8>) {
        let mut buf: Vec<u8> = Vec::new();
        buf.push(self.family);
        buf.push(self.prefixlen);
        buf.push(self.flags);
        buf.push(self.scope);
        bytes::put_u32_le(&mut buf, bytes::to_u32(self.index));
        assert(buf@ =~= self.spec_body_bytes());
        buf
    }

    proof fn law_body_roundtrip(self, data: Seq<u8>) {
        let w = self.spec_body_bytes();
        lemma_prefix(data, w);
        bytes::lemma_i32_roundtrip(self.index, 0);
        lemma_read_u32(data, 4, w, bytes::u32_of(self.index));
    }
}

/// Route message body (Linux `struct rtmsg`, 12 bytes).
#[derive(Debug, Clone, Copy, PartialEq, Eq, Structural)]
pub struct CRtMsg {
    pub family: u8,
    pub dst_len: u8,
    pub src_len: u8,
    pub tos: u8,
    pub table: u8,
    pub protocol: u8,
    pub scope: u8,
    pub type_: u8,
    pub flags: u32,
}

impl SegmentBody for CRtMsg {
    open spec fn spec_body_len() -> nat {
        12
    }

    open spec fn spec_parse(data: Seq<u8>) -> Self {
        CRtMsg {
            family: data[0],
            dst_len: data[1],
            src_len: data[2],
            tos: data[3],
            table: data[4],
            protocol: data[5],
            scope: data[6],
            type_: data[7],
            flags: bytes::u32_le_at(data, 8),
        }
    }

    open spec fn spec_body_bytes(self) -> Seq<u8> {
        seq![
            self.family,
            self.dst_len,
            self.src_len,
            self.tos,
            self.table,
            self.protocol,
            self.scope,
            self.type_,
        ] + bytes::le32(self.flags)
    }

    fn body_len() -> (r: usize) {
        12
    }

    fn parse(data: &[u8]) -> (r: Result<Self, isize>) {
        if data.len() < 12 {
            return Err(EINVAL_RET);
        }
        Ok(
            CRtMsg {
                family: data[0],
                dst_len: data[1],
                src_len: data[2],
                tos: data[3],
                table: data[4],
                protocol: data[5],
                scope: data[6],
                type_: data[7],
                flags: bytes::get_u32_le(data, 8),
            },
        )
    }

    fn to_body_bytes(&self) -> (r: Vec<u8>) {
        let mut buf: Vec<u8> = Vec::new();
        buf.push(self.family);
        buf.push(self.dst_len);
        buf.push(self.src_len);
        buf.push(self.tos);
        buf.push(self.table);
        buf.push(self.protocol);
        buf.push(self.scope);
        buf.push(self.type_);
        bytes::put_u32_le(&mut buf, self.flags);
        assert(buf@ =~= self.spec_body_bytes());
        buf
    }

    proof fn law_body_roundtrip(self, data: Seq<u8>) {
        let w = self.spec_body_bytes();
        lemma_prefix(data, w);
        lemma_read_u32(data, 8, w, self.flags);
    }
}

/// Error body (NLMSG_ERROR): error code and header of the request.
#[derive(Debug, Clone, Copy, PartialEq, Eq, Structural)]
pub struct ErrorSegmentBody {
    pub error_code: i32,
    pub request_header: CMsgSegHdr,
}

impl SegmentBody for ErrorSegmentBody {
    open spec fn spec_body_len() -> nat {
        20
    }

    open spec fn spec_parse(data: Seq<u8>) -> Self {
        ErrorSegmentBody {
            error_code: bytes::i32_of(bytes::u32_le_at(data, 0)),
            request_header: CMsgSegHdr::at(data, 4),
        }
    }

    open spec fn spec_body_bytes(self) -> Seq<u8> {
        bytes::le32(bytes::u32_of(self.error_code)) + self.request_header.wire()
    }

    fn body_len() -> (r: usize) {
        20
    }

    fn parse(data: &[u8]) -> (r: Result<Self, isize>) {
        if data.len() < 20 {
            return Err(EINVAL_RET);
        }
        Ok(
            ErrorSegmentBody {
                error_code: bytes::to_i32(bytes::get_u32_le(data, 0)),
                request_header: CMsgSegHdr::read(data, 4),
            },
        )
    }

    fn to_body_bytes(&self) -> (r: Vec<u8>) {
        let mut buf: Vec<u8> = Vec::new();
        bytes::put_u32_le(&mut buf, bytes::to_u32(self.error_code));
        self.request_header.put(&mut buf);
        assert(buf@ =~= self.spec_body_bytes());
        buf
    }

    proof fn law_body_roundtrip(self, data: Seq<u8>) {
        let w = self.spec_body_bytes();
        lemma_prefix(data, w);
        bytes::lemma_i32_roundtrip(self.error_code, 0);
        lemma_read_u32(data, 0, w, bytes::u32_of(self.error_code));
        assert(data.subrange(4, 20) =~= self.request_header.wire());
        lemma_header_roundtrip(self.request_header, data, 4);
    }
}

/// Done body (NLMSG_DONE): end-of-multipart marker with error code.
#[derive(Debug, Clone, Copy, PartialEq, Eq, Structural)]
pub struct DoneSegmentBody {
    pub error_code: i32,
}

impl SegmentBody for DoneSegmentBody {
    open spec fn spec_body_len() -> nat {
        4
    }

    open spec fn spec_parse(data: Seq<u8>) -> Self {
        DoneSegmentBody { error_code: bytes::i32_of(bytes::u32_le_at(data, 0)) }
    }

    open spec fn spec_body_bytes(self) -> Seq<u8> {
        bytes::le32(bytes::u32_of(self.error_code))
    }

    fn body_len() -> (r: usize) {
        4
    }

    fn parse(data: &[u8]) -> (r: Result<Self, isize>) {
        if data.len() < 4 {
            return Err(EINVAL_RET);
        }
        Ok(DoneSegmentBody { error_code: bytes::to_i32(bytes::get_u32_le(data, 0)) })
    }

    fn to_body_bytes(&self) -> (r: Vec<u8>) {
        let mut buf: Vec<u8> = Vec::new();
        bytes::put_u32_le(&mut buf, bytes::to_u32(self.error_code));
        assert(buf@ =~= self.spec_body_bytes());
        buf
    }

    proof fn law_body_roundtrip(self, data: Seq<u8>) {
        let w = self.spec_body_bytes();
        lemma_prefix(data, w);
        bytes::lemma_i32_roundtrip(self.error_code, 0);
        assert(w.subrange(0, 4) =~= w);
        lemma_read_u32(data, 0, w, bytes::u32_of(self.error_code));
    }
}

/// Link attributes (IFLA_*): none is read out of a message.
#[derive(Debug, Clone, Copy, PartialEq, Eq, Structural)]
pub enum LinkAttr {
    Opaque,
}

/// Address attributes (IFA_*): none is read out of a message.
#[derive(Debug, Clone, Copy, PartialEq, Eq, Structural)]
pub enum AddrAttr {
    Opaque,
}

/// Route attributes (RTA_*): none is read out of a message.
#[derive(Debug, Clone, Copy, PartialEq, Eq, Structural)]
pub enum RouteAttr {
    Opaque,
}

/// Marker for segments that carry no attributes (Error / Done).
#[derive(Debug, Clone, Copy, PartialEq, Eq, Structural)]
pub struct NoAttr;

impl SegmentAttr for NoAttr {
    open spec fn spec_parse_many(data: Seq<u8>) -> Seq<Self> {
        Seq::empty()
    }

    open spec fn spec_attrs_bytes(attrs: Seq<Self>) -> Seq<u8> {
        Seq::empty()
    }

    fn parse_many(data: &[u8]) -> (r: Result<Vec<Self>, isize>) {
        Ok(Vec::new())
    }

    fn to_attrs_bytes(attrs: &[Self]) -> (r: Vec<u8>) {
        Vec::new()
    }
}

impl SegmentAttr for LinkAttr {
    open spec fn spec_parse_many(data: Seq<u8>) -> Seq<Self> {
        Seq::empty()
    }

    open spec fn spec_attrs_bytes(attrs: Seq<Self>) -> Seq<u8> {
        Seq::empty()
    }

    fn parse_many(data: &[u8]) -> (r: Result<Vec<Self>, isize>) {
        Ok(Vec::new())
    }

    fn to_attrs_bytes(attrs: &[Self]) -> (r: Vec<u8>) {
        Vec::new()
    }
}

impl SegmentAttr for AddrAttr {
    open spec fn spec_parse_many(data: Seq<u8>) -> Seq<Self> {
        Seq::empty()
    }

    open spec fn spec_attrs_bytes(attrs: Seq<Self>) -> Seq<u8> {
        Seq::empty()
    }

    fn parse_many(data: &[u8]) -> (r: Result<Vec<Self>, isize>) {
        Ok(Vec::new())
    }

    fn to_attrs_bytes(attrs: &[Self]) -> (r: Vec<u8>) {
        Vec::new()
    }
}

impl SegmentAttr for RouteAttr {
    open spec fn spec_parse_many(data: Seq<u8>) -> Seq<Self> {
        Seq::empty()
    }

    open spec fn spec_attrs_bytes(attrs: Seq<Self>) -> Seq<u8> {
        Seq::empty()
    }

    fn parse_many(data: &[u8]) -> (r: Result<Vec<Self>, isize>) {
        Ok(Vec::new())
    }

    fn to_attrs_bytes(attrs: &[Self]) -> (r: Vec<u8>) {
        Vec::new()
    }
}

pub type LinkSegmentBody = CIfinfoMsg;

pub type AddrSegmentBody = CIfaddrMsg;

pub type RouteSegmentBody = CRtMsg;

pub type LinkSegment = SegmentCommon<CIfinfoMsg, LinkAttr>;

pub type AddrSegment = SegmentCommon<CIfaddrMsg, AddrAttr>;

pub type RouteSegment = SegmentCommon<CRtMsg, RouteAttr>;

pub type ErrorSegment = SegmentCommon<ErrorSegmentBody, NoAttr>;

pub type DoneSegment = SegmentCommon<DoneSegmentBody, NoAttr>;

/// A message of the route family.
#[derive(Debug, Clone)]
pub enum RouteNlSegment {
    NewLink(LinkSegment),
    DelLink(LinkSegment),
    SetLink(LinkSegment),
    GetLink(LinkSegment),
    NewAddr(AddrSegment),
    DelAddr(AddrSegment),
    GetAddr(AddrSegment),
    NewRoute(RouteSegment),
    DelRoute(RouteSegment),
    GetRoute(RouteSegment),
    Error(ErrorSegment),
    Done(DoneSegment),
}

/// Aligns a length to the next multiple of four.
pub fn nlmsg_align(len: usize) -> (r: usize)
    requires
        len <= usize::MAX - 3,
    ensures
        r == netlink::aligned(len as int),
        len <= r < len + 4,
        r % 4 == 0,
{
    netlink::nlmsg_align(len)
}

} // verus!
