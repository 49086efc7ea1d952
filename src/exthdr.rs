//! User-plane extension headers: a chain of links, each a type byte, a
//! length in four-byte words covering the whole link, and value bytes whose
//! last byte names the type of the next link (0: no more links).

use vstd::prelude::*;
use crate::bytes::{copy_bytes, push_bytes};
use crate::error::GTPV1Error;

verus! {

pub const PDU_SESSION_CONTAINER: u8 = 0x85;
pub const PDU_SESSION_CONTAINER_LENGTH: u8 = 1;
/// The next-type value that ends a chain.
pub const NO_MORE_EXTENSION_HEADERS: u8 = 0;

/// The mathematical value of one link.
pub struct LinkModel {
    pub extension_header_type: u8,
    pub length: u8,
    pub value: Seq<u8>,
}

/// The bytes of one link: type, length, value.
pub open spec fn link_bytes(l: LinkModel) -> Seq<u8> {
    seq![l.extension_header_type, l.length] + l.value
}

/// A link whose value fills exactly the words its length declares.
pub open spec fn link_wf(l: LinkModel) -> bool {
    l.length >= 1 && l.value.len() == 4 * l.length - 2
}

/// The type of the link after `l`: the last byte of its value.
pub open spec fn next_type(l: LinkModel) -> u8 {
    l.value[l.value.len() - 1]
}

/// Whether a whole link stands at the front of `s`: a nonzero length whose
/// words fit in `s`.
pub open spec fn link_fits(s: Seq<u8>) -> bool {
    s.len() >= 2 && s[1] != 0 && 4 * s[1] <= s.len()
}

/// The link at the front of `s`, its type read from its first byte.
pub open spec fn front_link(s: Seq<u8>) -> LinkModel {
    LinkModel { extension_header_type: s[0], length: s[1], value: s.subrange(2, 4 * s[1]) }
}

/// Unknown extension header: its bytes are kept as they came.
#[derive(Clone, Debug, PartialEq)]
pub struct Unknown {
    pub extension_header_type: u8,
    pub length: u8,
    pub value: Vec<u8>,
}

/// PDU session container extension header.
#[derive(Clone, Debug, PartialEq, Eq)]
pub struct PduSessionContainer {
    pub extension_header_type: u8,
    pub length: u8,
    pub container: Vec<u8>,
}

impl View for Unknown {
    type V = LinkModel;

    open spec fn view(&self) -> LinkModel {
        LinkModel { extension_header_type: self.extension_header_type, length: self.length, value: self.value@ }
    }
}

impl View for PduSessionContainer {
    type V = LinkModel;

    open spec fn view(&self) -> LinkModel {
        LinkModel {
            extension_header_type: self.extension_header_type,
            length: self.length,
            value: self.container@,
        }
    }
}

/// A decoding result with its value replaced by the value's model.
pub open spec fn link_result<T: View<V = LinkModel>>(r: Result<T, GTPV1Error>) -> Result<LinkModel, GTPV1Error> {
    match r {
        Ok(x) => Ok(x@),
        Err(e) => Err(e),
    }
}

/// Reads the link at the front of `buffer`.
fn read_link(buffer: &[u8]) -> (r: Result<(u8, u8, Vec<u8>), GTPV1Error>)
    ensures
        link_fits(buffer@) ==> (r matches Ok((t, n, v)) && t == buffer@[0] && n == buffer@[1]
            && v@ == front_link(buffer@).value),
        !link_fits(buffer@) ==> r == Err::<(u8, u8, Vec<u8>), GTPV1Error>(
            GTPV1Error::ExtHeaderInvalidLength,
        ),
{
    if buffer.len() < 2 || buffer[1] == 0 {
        return Err(GTPV1Error::ExtHeaderInvalidLength);
    }
    let end = buffer[1] as usize * 4;
    if end > buffer.len() {
        return Err(GTPV1Error::ExtHeaderInvalidLength);
    }
    Ok((buffer[0], buffer[1], copy_bytes(&buffer[2..end])))
}

impl Default for Unknown {
    fn default() -> (r: Unknown)
        ensures
            r@ == (LinkModel { extension_header_type: 0xff, length: 0, value: Seq::empty() }),
    {
        Unknown { extension_header_type: 0xff, length: 0, value: Vec::new() }
    }
}

impl Unknown {
    pub fn marshal(&self, buffer: &mut Vec<u8>)
        ensures
            final(buffer)@ == old(buffer)@ + link_bytes(self@),
    {
        buffer.push(self.extension_header_type);
        buffer.push(self.length);
        push_bytes(buffer, self.value.as_slice());
        assert(buffer@ =~= old(buffer)@ + link_bytes(self@));
    }

    /// Decodes the link at the front of `buffer`, whatever its type.
    pub fn unmarshal(buffer: &[u8]) -> (r: Result<Self, GTPV1Error>)
        ensures
            link_fits(buffer@) ==> link_result(r) == Ok::<LinkModel, GTPV1Error>(front_link(buffer@)),
            !link_fits(buffer@) ==> r == Err::<Self, GTPV1Error>(GTPV1Error::ExtHeaderInvalidLength),
    {
        let (t, n, value) = read_link(buffer)?;
        Ok(Unknown { extension_header_type: t, length: n, value })
    }

    /// Bytes the link takes.
    pub fn len(&self) -> (r: usize)
        ensures
            r == 4 * self.length,
    {
        self.length as usize * 4
    }
}

impl Default for PduSessionContainer {
    fn default() -> (r: PduSessionContainer)
        ensures
            r@ == (LinkModel {
                extension_header_type: PDU_SESSION_CONTAINER,
                length: PDU_SESSION_CONTAINER_LENGTH,
                value: Seq::empty(),
            }),
    {
        PduSessionContainer {
            extension_header_type: PDU_SESSION_CONTAINER,
            length: PDU_SESSION_CONTAINER_LENGTH,
            container: Vec::new(),
        }
    }
}

impl PduSessionContainer {
    pub fn marshal(&self, buffer: &mut Vec<u8>)
        ensures
            final(buffer)@ == old(buffer)@ + link_bytes(self@),
    {
        buffer.push(self.extension_header_type);
        buffer.push(self.length);
        push_bytes(buffer, self.container.as_slice());
        assert(buffer@ =~= old(buffer)@ + link_bytes(self@));
    }

    /// Decodes the link at the front of `buffer` as a PDU session container.
    pub fn unmarshal(buffer: &[u8]) -> (r: Result<Self, GTPV1Error>)
        ensures
            link_fits(buffer@) ==> link_result(r) == Ok::<LinkModel, GTPV1Error>(
                LinkModel { extension_header_type: PDU_SESSION_CONTAINER, ..front_link(buffer@) },
            ),
            !link_fits(buffer@) ==> r == Err::<Self, GTPV1Error>(GTPV1Error::ExtHeaderInvalidLength),
    {
        let (_, n, container) = read_link(buffer)?;
        Ok(PduSessionContainer { extension_header_type: PDU_SESSION_CONTAINER, length: n, container })
    }

    /// Bytes the link takes.
    pub fn len(&self) -> (r: usize)
        ensures
            r == 4 * self.length,
    {
        self.length as usize * 4
    }
}

/// A decoded link: a PDU session container, or a link of another type kept
/// as it came.
#[derive(Clone, Debug, PartialEq)]
pub enum ExtensionHeader {
    PduSessionContainer(PduSessionContainer),
    Unknown(Unknown),
}

/// The mathematical value of an [`ExtensionHeader`].
pub enum ExtensionHeaderModel {
    PduSessionContainer(LinkModel),
    Unknown(LinkModel),
}

impl View for ExtensionHeader {
    type V = ExtensionHeaderModel;

    open spec fn view(&self) -> ExtensionHeaderModel {
        match self {
            ExtensionHeader::PduSessionContainer(x) => ExtensionHeaderModel::PduSessionContainer(x@),
            ExtensionHeader::Unknown(x) => ExtensionHeaderModel::Unknown(x@),
        }
    }
}

pub open spec fn ext_views(v: Seq<ExtensionHeader>) -> Seq<ExtensionHeaderModel> {
    v.map_values(|h: ExtensionHeader| h@)
}

/// The decoded form of a link, chosen by its type.
pub open spec fn header_of_link(l: LinkModel) -> ExtensionHeaderModel {
    if l.extension_header_type == PDU_SESSION_CONTAINER {
        ExtensionHeaderModel::PduSessionContainer(l)
    } else {
        ExtensionHeaderModel::Unknown(l)
    }
}

pub open spec fn link_of_header(h: ExtensionHeaderModel) -> LinkModel {
    match h {
        ExtensionHeaderModel::PduSessionContainer(l) => l,
        ExtensionHeaderModel::Unknown(l) => l,
    }
}

/// The links at the front of `s`: links are read until one names no next
/// link or the buffer ends; a link with a zero length or one that runs past
/// the buffer is an error.
pub open spec fn parse_chain(s: Seq<u8>) -> Result<Seq<ExtensionHeaderModel>, GTPV1Error>
    decreases s.len(),
{
    if s.len() == 0 {
        Ok(Seq::empty())
    } else if !link_fits(s) {
        Err(GTPV1Error::ExtHeaderInvalidLength)
    } else if next_type(front_link(s)) == NO_MORE_EXTENSION_HEADERS {
        Ok(seq![header_of_link(front_link(s))])
    } else {
        match parse_chain(s.subrange(4 * s[1], s.len() as int)) {
            Ok(r) => Ok(seq![header_of_link(front_link(s))] + r),
            Err(e) => Err(e),
        }
    }
}

/// The bytes of a chain, link after link.
pub open spec fn chain_bytes(hs: Seq<ExtensionHeaderModel>) -> Seq<u8>
    decreases hs.len(),
{
    if hs.len() == 0 {
        Seq::empty()
    } else {
        link_bytes(link_of_header(hs[0])) + chain_bytes(hs.drop_first())
    }
}

/// `r` with `p` put before the links it holds.
pub open spec fn prepend_links(
    p: Seq<ExtensionHeaderModel>,
    r: Result<Seq<ExtensionHeaderModel>, GTPV1Error>,
) -> Result<Seq<ExtensionHeaderModel>, GTPV1Error> {
    match r {
        Ok(x) => Ok(p + x),
        Err(e) => Err(e),
    }
}

/// Decodes the chain of links at the front of `buffer`.
pub fn decode_chain(buffer: &[u8]) -> (r: Result<Vec<ExtensionHeader>, GTPV1Error>)
    ensures
        match r {
            Ok(v) => parse_chain(buffer@) == Ok::<Seq<ExtensionHeaderModel>, GTPV1Error>(ext_views(v@)),
            Err(e) => parse_chain(buffer@) == Err::<Seq<ExtensionHeaderModel>, GTPV1Error>(e),
        },
{
    let mut out: Vec<ExtensionHeader> = Vec::new();
    let mut cursor: usize = 0;
    assert(buffer@.subrange(0, buffer@.len() as int) =~= buffer@);
    assert(ext_views(out@) + Seq::empty() =~= Seq::<ExtensionHeaderModel>::empty());
    while cursor < buffer.len()
        invariant
            cursor <= buffer@.len(),
            parse_chain(buffer@) == prepend_links(
                ext_views(out@),
                parse_chain(buffer@.subrange(cursor as int, buffer@.len() as int)),
            ),
        decreases buffer@.len() - cursor,
    {
        let rest = &buffer[cursor..buffer.len()];
        let ghost views = ext_views(out@);
        let (t, n, value) = read_link(rest)?;
        let end: usize = n as usize * 4;
        let next = value[value.len() - 1];
        let link = if t == PDU_SESSION_CONTAINER {
            ExtensionHeader::PduSessionContainer(
                PduSessionContainer { extension_header_type: t, length: n, container: value },
            )
        } else {
            ExtensionHeader::Unknown(Unknown { extension_header_type: t, length: n, value })
        };
        let ghost lv = link@;
        assert(lv == header_of_link(front_link(rest@)));
        out.push(link);
        assert(ext_views(out@) =~= views + seq![lv]);
        if next == NO_MORE_EXTENSION_HEADERS {
            return Ok(out);
        }
        assert(rest@.subrange(end as int, rest@.len() as int) =~= buffer@.subrange(
            cursor + end,
            buffer@.len() as int,
        ));
        proof {
            let tail = parse_chain(rest@.subrange(end as int, rest@.len() as int));
            if let Ok(x) = tail {
                assert(views + (seq![lv] + x) =~= ext_views(out@) + x);
            }
        }
        cursor = cursor + end;
    }
    assert(buffer@.subrange(cursor as int, buffer@.len() as int) =~= Seq::<u8>::empty());
    assert(ext_views(out@) + Seq::<ExtensionHeaderModel>::empty() =~= ext_views(out@));
    Ok(out)
}

impl ExtensionHeader {
    pub fn marshal(&self, buffer: &mut Vec<u8>)
        ensures
            final(buffer)@ == old(buffer)@ + link_bytes(link_of_header(self@)),
    {
        match self {
            ExtensionHeader::PduSessionContainer(x) => x.marshal(buffer),
            ExtensionHeader::Unknown(x) => x.marshal(buffer),
        }
    }
}

/// Appends the links of a chain in order.
pub fn encode_chain(headers: &Vec<ExtensionHeader>, buffer: &mut Vec<u8>)
    ensures
        final(buffer)@ == old(buffer)@ + chain_bytes(ext_views(headers@)),
{
    let ghost hs = ext_views(headers@);
    let mut i: usize = 0;
    assert(hs.skip(0) =~= hs);
    assert(old(buffer)@ + Seq::empty() =~= old(buffer)@);
    while i < headers.len()
        invariant
            i <= headers@.len(),
            hs == ext_views(headers@),
            old(buffer)@ + chain_bytes(hs) == buffer@ + chain_bytes(hs.skip(i as int)),
        decreases headers@.len() - i,
    {
        let ghost before = buffer@;
        assert(hs.skip(i as int).drop_first() =~= hs.skip(i + 1));
        assert(hs[i as int] == headers@[i as int]@);
        headers[i].marshal(buffer);
        assert(before + chain_bytes(hs.skip(i as int)) =~= buffer@ + chain_bytes(hs.skip(i + 1)));
        i = i + 1;
    }
    assert(hs.skip(i as int) =~= Seq::<ExtensionHeaderModel>::empty());
    assert(buffer@ + Seq::<u8>::empty() =~= buffer@);
}

/// A chain that encodes and decodes back to itself: every link fills the
/// words it declares, every link but the last names a next link, the last
/// names none, and each link has the decoded form its type selects.
pub open spec fn chain_wf(hs: Seq<ExtensionHeaderModel>) -> bool {
    &&& hs.len() >= 1
    &&& forall|i: int| 0 <= i < hs.len() ==> #[trigger] link_wf(link_of_header(hs[i]))
    &&& forall|i: int|
        0 <= i < hs.len() ==> #[trigger] header_of_link(link_of_header(hs[i])) == hs[i]
    &&& forall|i: int|
        0 <= i < hs.len() - 1 ==> #[trigger] next_type(link_of_header(hs[i])) != NO_MORE_EXTENSION_HEADERS
    &&& next_type(link_of_header(hs[hs.len() - 1])) == NO_MORE_EXTENSION_HEADERS
}

proof fn lemma_front_link(l: LinkModel, rest: Seq<u8>)
    requires
        link_wf(l),
    ensures
        link_fits(link_bytes(l) + rest),
        front_link(link_bytes(l) + rest) == l,
        (link_bytes(l) + rest).subrange(4 * l.length, (link_bytes(l) + rest).len() as int) == rest,
{
    let s = link_bytes(l) + rest;
    assert(s.subrange(2, 4 * l.length) =~= l.value);
    assert(s.subrange(4 * l.length, s.len() as int) =~= rest);
}

/// A chain whose last link names no next link decodes to exactly its links,
/// whatever bytes follow it.
pub proof fn lemma_chain_round_trip(hs: Seq<ExtensionHeaderModel>, after: Seq<u8>)
    requires
        chain_wf(hs),
    ensures
        parse_chain(chain_bytes(hs) + after) == Ok::<Seq<ExtensionHeaderModel>, GTPV1Error>(hs),
    decreases hs.len(),
{
    let l = link_of_header(hs[0]);
    let rest = hs.drop_first();
    let s = chain_bytes(hs) + after;
    assert(link_wf(l));
    assert(s =~= link_bytes(l) + (chain_bytes(rest) + after));
    lemma_front_link(l, chain_bytes(rest) + after);
    assert(header_of_link(l) == hs[0]);
    if hs.len() == 1 {
        assert(seq![hs[0]] =~= hs);
    } else {
        assert(next_type(l) != NO_MORE_EXTENSION_HEADERS);
        assert(chain_wf(rest)) by {
            assert forall|i: int| 0 <= i < rest.len() implies #[trigger] link_wf(link_of_header(rest[i])) by {
                assert(link_wf(link_of_header(hs[i + 1])));
            }
            assert forall|i: int| 0 <= i < rest.len() implies #[trigger] header_of_link(link_of_header(rest[i])) == rest[i] by {
                assert(header_of_link(link_of_header(hs[i + 1])) == hs[i + 1]);
            }
            assert forall|i: int| 0 <= i < rest.len() - 1 implies #[trigger] next_type(link_of_header(rest[i])) != NO_MORE_EXTENSION_HEADERS by {
                assert(next_type(link_of_header(hs[i + 1])) != NO_MORE_EXTENSION_HEADERS);
            }
        }
        lemma_chain_round_trip(rest, after);
        assert(seq![hs[0]] + rest =~= hs);
    }
}

/// A link that declares a length of zero, after any number of links that
/// name a next link, makes the whole chain fail with an invalid length.
pub proof fn lemma_chain_zero_length(hs: Seq<ExtensionHeaderModel>, bad: Seq<u8>)
    requires
        forall|i: int| 0 <= i < hs.len() ==> #[trigger] link_wf(link_of_header(hs[i])),
        forall|i: int|
            0 <= i < hs.len() ==> #[trigger] next_type(link_of_header(hs[i])) != NO_MORE_EXTENSION_HEADERS,
        bad.len() >= 2,
        bad[1] == 0,
    ensures
        parse_chain(chain_bytes(hs) + bad) == Err::<Seq<ExtensionHeaderModel>, GTPV1Error>(
            GTPV1Error::ExtHeaderInvalidLength,
        ),
    decreases hs.len(),
{
    if hs.len() == 0 {
        assert(chain_bytes(hs) + bad =~= bad);
    } else {
        let l = link_of_header(hs[0]);
        let rest = hs.drop_first();
        let s = chain_bytes(hs) + bad;
        assert(link_wf(l));
        assert(next_type(l) != NO_MORE_EXTENSION_HEADERS);
        assert(s =~= link_bytes(l) + (chain_bytes(rest) + bad));
        lemma_front_link(l, chain_bytes(rest) + bad);
        assert forall|i: int| 0 <= i < rest.len() implies #[trigger] link_wf(link_of_header(rest[i])) by {
            assert(link_wf(link_of_header(hs[i + 1])));
        }
        assert forall|i: int| 0 <= i < rest.len() implies #[trigger] next_type(link_of_header(rest[i])) != NO_MORE_EXTENSION_HEADERS by {
            assert(next_type(link_of_header(hs[i + 1])) != NO_MORE_EXTENSION_HEADERS);
        }
        lemma_chain_zero_length(rest, bad);
    }
}

} // verus!
