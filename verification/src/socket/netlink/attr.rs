//! The attributes of a netlink message.
use vstd::prelude::*;
use crate::bytes;
use crate::seqs;
use crate::socket::netlink::netlink;
use crate::text;

verus! {

/// An attribute: its type and its payload.
#[derive(Debug)]
pub struct RtAttr {
    pub ty: u16,
    pub data: Vec<u8>,
}

/// What an [`RtAttr`] holds.
#[verifier::ext_equal]
pub struct AttrModel {
    pub ty: u16,
    pub data: Seq<u8>,
}

impl View for RtAttr {
    type V = AttrModel;

    open spec fn view(&self) -> AttrModel {
        AttrModel { ty: self.ty, data: self.data@ }
    }
}

pub open spec fn attr_models(s: Seq<RtAttr>) -> Seq<AttrModel> {
    Seq::new(s.len(), |i: int| s[i]@)
}

/// The attributes from `off` on. An attribute that is shorter than its header
/// or longer than what is left ends the list.
pub open spec fn attrs_from(p: Seq<u8>, off: int) -> Seq<AttrModel>
    decreases
            if off < p.len() {
                p.len() - off
            } else {
                0
            },
{
    if off < 0 || off + 4 > p.len() {
        Seq::empty()
    } else {
        let len = bytes::u16_le_at(p, off) as int;
        if len < 4 || off + len > p.len() {
            Seq::empty()
        } else {
            seq![AttrModel { ty: bytes::u16_le_at(p, off + 2), data: p.subrange(off + 4, off + len) }]
                + attrs_from(p, off + netlink::aligned(len))
        }
    }
}

/// The attributes from `off` on, where the last may be cut short by the end of
/// the message.
pub open spec fn cut_attrs_from(p: Seq<u8>, off: int) -> Seq<AttrModel>
    decreases
            if off < p.len() {
                p.len() - off
            } else {
                0
            },
{
    if off < 0 || off + 4 > p.len() {
        Seq::empty()
    } else {
        let len = bytes::u16_le_at(p, off) as int;
        if len < 4 {
            Seq::empty()
        } else {
            let end = if off + len <= p.len() {
                off + len
            } else {
                p.len() as int
            };
            seq![AttrModel { ty: bytes::u16_le_at(p, off + 2), data: p.subrange(off + 4, end) }]
                + cut_attrs_from(p, netlink::aligned(off + len))
        }
    }
}

/// Reads the attributes from `offset` on; see [`attrs_from`].
pub fn parse_attrs(payload: &[u8], offset: usize) -> (r: Vec<RtAttr>)
    ensures
        attr_models(r@) == attrs_from(payload@, offset as int),
{
    let total: usize = payload.len();
    let mut out: Vec<RtAttr> = Vec::new();
    let mut off: usize = offset;
    let mut go: bool = true;
    proof {
        assert(attr_models(out@) =~= Seq::<AttrModel>::empty());
        assert(Seq::<AttrModel>::empty() + attrs_from(payload@, off as int) =~= attrs_from(
            payload@,
            off as int,
        ));
    }
    while go && off <= total && total - off >= 4
        invariant
            total == payload@.len(),
            go ==> attr_models(out@) + attrs_from(payload@, off as int) == attrs_from(
                payload@,
                offset as int,
            ),
            !go ==> attr_models(out@) == attrs_from(payload@, offset as int),
        decreases total - off, go as int,
    {
        let len: usize = bytes::get_u16_le(payload, off) as usize;
        if len < 4 || len > total - off {
            assert(attr_models(out@) + Seq::<AttrModel>::empty() =~= attr_models(out@));
            go = false;
        } else {
            let ty: u16 = bytes::get_u16_le(payload, off + 2);
            let data = bytes::copy_range(payload, off + 4, off + len);
            let ghost before = attr_models(out@);
            let attr = RtAttr { ty, data };
            let ghost model = attr@;
            out.push(attr);
            let step: usize = netlink::nlmsg_align(len);
            proof {
                assert(attr_models(out@) =~= before.push(model));
                let rest = attrs_from(payload@, off + step);
                assert(attrs_from(payload@, off as int) == seq![model] + rest);
                assert(before + (seq![model] + rest) =~= before.push(model) + rest);
            }
            if step > total - off {
                proof {
                    assert(attrs_from(payload@, off + step) =~= Seq::<AttrModel>::empty());
                    assert(attr_models(out@) + Seq::<AttrModel>::empty() =~= attr_models(out@));
                }
                go = false;
            } else {
                off = off + step;
            }
        }
    }
    proof {
        if go {
            assert(attrs_from(payload@, off as int) =~= Seq::<AttrModel>::empty());
            assert(attr_models(out@) + Seq::<AttrModel>::empty() =~= attr_models(out@));
        }
    }
    out
}

/// Reads the attributes from `offset` on; see [`cut_attrs_from`].
pub fn parse_cut_attrs(payload: &[u8], offset: usize) -> (r: Vec<RtAttr>)
    requires
        offset % 4 == 0,
    ensures
        attr_models(r@) == cut_attrs_from(payload@, offset as int),
{
    let total: usize = payload.len();
    let mut out: Vec<RtAttr> = Vec::new();
    let mut off: usize = offset;
    let mut go: bool = true;
    proof {
        assert(attr_models(out@) =~= Seq::<AttrModel>::empty());
        assert(Seq::<AttrModel>::empty() + cut_attrs_from(payload@, off as int)
            =~= cut_attrs_from(payload@, off as int));
    }
    while go && off <= total && total - off >= 4
        invariant
            total == payload@.len(),
            off % 4 == 0,
            go ==> attr_models(out@) + cut_attrs_from(payload@, off as int) == cut_attrs_from(
                payload@,
                offset as int,
            ),
            !go ==> attr_models(out@) == cut_attrs_from(payload@, offset as int),
        decreases total - off, go as int,
    {
        let len: usize = bytes::get_u16_le(payload, off) as usize;
        if len < 4 {
            assert(attr_models(out@) + Seq::<AttrModel>::empty() =~= attr_models(out@));
            go = false;
        } else {
            let ty: u16 = bytes::get_u16_le(payload, off + 2);
            let end: usize = if len <= total - off {
                off + len
            } else {
                total
            };
            let data = bytes::copy_range(payload, off + 4, end);
            let ghost before = attr_models(out@);
            let attr = RtAttr { ty, data };
            let ghost model = attr@;
            out.push(attr);
            let step: usize = netlink::nlmsg_align(len);
            proof {
                assert(netlink::aligned(off + len) == off + step);
                assert(attr_models(out@) =~= before.push(model));
                let rest = cut_attrs_from(payload@, off + step);
                assert(cut_attrs_from(payload@, off as int) == seq![model] + rest);
                assert(before + (seq![model] + rest) =~= before.push(model) + rest);
            }
            if step > total - off {
                proof {
                    assert(cut_attrs_from(payload@, off + step) =~= Seq::<AttrModel>::empty());
                    assert(attr_models(out@) + Seq::<AttrModel>::empty() =~= attr_models(out@));
                }
                go = false;
            } else {
                off = off + step;
            }
        }
    }
    proof {
        if go {
            assert(cut_attrs_from(payload@, off as int) =~= Seq::<AttrModel>::empty());
            assert(attr_models(out@) + Seq::<AttrModel>::empty() =~= attr_models(out@));
        }
    }
    out
}

/// The bits of a type that are no flags.
pub const NLA_TYPE_MASK: u16 = 0x7fff;

/// The attributes with the nesting flag taken off their types.
pub open spec fn stripped(s: Seq<AttrModel>) -> Seq<AttrModel> {
    Seq::new(s.len(), |i: int| AttrModel { ty: s[i].ty & NLA_TYPE_MASK, data: s[i].data })
}

/// Takes the nesting flag off the types.
pub fn strip_nested(attrs: Vec<RtAttr>) -> (r: Vec<RtAttr>)
    ensures
        attr_models(r@) == stripped(attr_models(attrs@)),
{
    let ghost before = attrs@;
    let mut out: Vec<RtAttr> = attrs;
    let mut i: usize = 0;
    while i < out.len()
        invariant
            i <= out@.len(),
            out@.len() == before.len(),
            forall|j: int| 0 <= j < i ==> (#[trigger] out@[j])@ == (AttrModel { ty: before[j].ty & NLA_TYPE_MASK, data: before[j]@.data }),
            forall|j: int| i <= j < out@.len() ==> #[trigger] out@[j] == before[j],
        decreases out@.len() - i,
    {
        let a = RtAttr { ty: out[i].ty & NLA_TYPE_MASK, data: bytes::copy_range(&out[i].data, 0, out[i].data.len()) };
        assert(a.data@ =~= before[i as int].data@);
        out.set(i, a);
        i = i + 1;
    }
    assert(attr_models(out@) =~= stripped(attr_models(before)));
    out
}

/// What the attributes of one type hold as attributes of their own, from
/// `off` on in each payload, all in order.
pub open spec fn nested(attrs: Seq<AttrModel>, ty: u16, off: int) -> Seq<AttrModel>
    decreases attrs.len(),
{
    if attrs.len() == 0 {
        Seq::empty()
    } else if attrs.last().ty == ty {
        nested(attrs.drop_last(), ty, off) + stripped(attrs_from(attrs.last().data, off))
    } else {
        nested(attrs.drop_last(), ty, off)
    }
}

/// Reads the attributes inside the attributes of one type; see [`nested`].
pub fn parse_nested(attrs: &Vec<RtAttr>, ty: u16, offset: usize) -> (r: Vec<RtAttr>)
    ensures
        attr_models(r@) == nested(attr_models(attrs@), ty, offset as int),
{
    let ghost all = attr_models(attrs@);
    let mut out: Vec<RtAttr> = Vec::new();
    let mut i: usize = 0;
    assert(attr_models(out@) =~= nested(all.take(0), ty, offset as int));
    while i < attrs.len()
        invariant
            i <= attrs@.len(),
            all == attr_models(attrs@),
            attr_models(out@) == nested(all.take(i as int), ty, offset as int),
        decreases attrs@.len() - i,
    {
        proof {
            assert(all.take(i + 1).drop_last() =~= all.take(i as int));
            assert(all.take(i + 1).last() == attrs@[i as int]@);
        }
        if attrs[i].ty == ty {
            let mut inner = strip_nested(parse_attrs(&attrs[i].data, offset));
            let ghost a = attr_models(out@);
            let ghost b = attr_models(inner@);
            out.append(&mut inner);
            assert(attr_models(out@) =~= a + b);
        }
        i = i + 1;
    }
    assert(all.take(i as int) =~= all);
    out
}

/// An attribute of that type with a payload of at least `min` bytes.
pub open spec fn of_type(ty: u16, min: int) -> spec_fn(AttrModel) -> bool {
    |a: AttrModel| a.ty == ty && a.data.len() >= min
}

/// The last attribute of a type that has at least `min` bytes.
pub open spec fn last_attr(attrs: Seq<AttrModel>, ty: u16, min: int) -> Option<AttrModel> {
    seqs::find_last(attrs, of_type(ty, min))
}

/// The last attribute of a type that has at least `min` bytes.
pub fn find_last_attr(attrs: &Vec<RtAttr>, ty: u16, min: usize) -> (r: Option<&RtAttr>)
    ensures
        match r {
            Some(a) => last_attr(attr_models(attrs@), ty, min as int) == Some(a@),
            None => last_attr(attr_models(attrs@), ty, min as int) is None,
        },
{
    let mut i: usize = attrs.len();
    while i > 0
        invariant
            i <= attrs@.len(),
            forall|j: int|
                i <= j < attrs@.len() ==> !of_type(ty, min as int)(
                    #[trigger] attr_models(attrs@)[j],
                ),
        decreases i,
    {
        i = i - 1;
        assert(attr_models(attrs@)[i as int] == attrs@[i as int]@);
        if attrs[i].ty == ty && attrs[i].data.len() >= min {
            proof {
                seqs::lemma_find_last(attr_models(attrs@), of_type(ty, min as int), i as int);
            }
            return Some(&attrs[i]);
        }
    }
    proof {
        seqs::lemma_find_last_none(attr_models(attrs@), of_type(ty, min as int));
    }
    None
}

/// The text of the last attribute of a type.
pub open spec fn last_text(attrs: Seq<AttrModel>, ty: u16) -> Option<Seq<char>> {
    match last_attr(attrs, ty, 0) {
        Some(a) => Some(text::nul_text(a.data)),
        None => None,
    }
}

/// The text of the last attribute of a type.
pub fn find_last_text(attrs: &Vec<RtAttr>, ty: u16) -> (r: Option<String>)
    ensures
        match r {
            Some(s) => last_text(attr_models(attrs@), ty) == Some(s@),
            None => last_text(attr_models(attrs@), ty) is None,
        },
{
    match find_last_attr(attrs, ty, 0) {
        Some(a) => Some(text::nul_string(&a.data)),
        None => None,
    }
}

/// The number in the last attribute of a type that has at least four bytes.
pub open spec fn last_u32(attrs: Seq<AttrModel>, ty: u16) -> Option<u32> {
    match last_attr(attrs, ty, 4) {
        Some(a) => Some(bytes::u32_le_at(a.data, 0)),
        None => None,
    }
}

/// The number in the last attribute of a type that has at least four bytes.
pub fn find_last_u32(attrs: &Vec<RtAttr>, ty: u16) -> (r: Option<u32>)
    ensures
        r == last_u32(attr_models(attrs@), ty),
{
    match find_last_attr(attrs, ty, 4) {
        Some(a) => {
            proof {
                lemma_last_attr_len(attr_models(attrs@), ty, 4);
            }
            Some(bytes::get_u32_le(&a.data, 0))
        },
        None => None,
    }
}

/// What is found has the type and the length that were asked for.
pub proof fn lemma_last_attr_len(attrs: Seq<AttrModel>, ty: u16, min: int)
    ensures
        last_attr(attrs, ty, min) matches Some(a) ==> a.ty == ty && a.data.len() >= min,
    decreases attrs.len(),
{
    if attrs.len() > 0 && !of_type(ty, min)(attrs.last()) {
        lemma_last_attr_len(attrs.drop_last(), ty, min);
    }
}

/// An attribute written by [`netlink::rta`] in front of others is read back as
/// the first of the list, and the others follow.
pub proof fn law_attr_roundtrip(ty: u16, data: Seq<u8>, rest: Seq<u8>)
    requires
        data.len() <= 65531,
    ensures
        attrs_from(netlink::rta(ty, data) + rest, 0) == seq![AttrModel { ty, data }] + attrs_from(
            netlink::rta(ty, data) + rest,
            netlink::rta(ty, data).len() as int,
        ),
{
    let w = netlink::rta(ty, data);
    let p = w + rest;
    let len = (data.len() + 4) as u16;
    bytes::lemma_le_roundtrip(len, 0);
    bytes::lemma_le_roundtrip(ty, 0);
    assert(data.len() % 65536 == data.len());
    assert(w.len() == 4 + netlink::aligned(data.len() as int));
    let a = bytes::le16(len);
    let b = bytes::le16(ty);
    assert(p[0] == a[0] && p[1] == a[1] && p[2] == b[0] && p[3] == b[1]);
    assert(p.subrange(4, 4 + data.len() as int) =~= data);
    assert(netlink::aligned(data.len() as int + 4) == w.len());
}

} // verus!
