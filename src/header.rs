//! The control-plane message header, and the framing of a message: header,
//! fields, and the header's length patched once the fields are written.

use vstd::prelude::*;
use crate::bytes::{
    be16, be16_bytes, be24, be24_bytes, be32, be32_bytes, lemma_be16_round_trip,
    lemma_be24_round_trip, lemma_be32_round_trip, push_be16, push_be24, push_be32, read_be16,
    read_be24, read_be32, write_be16,
};
use crate::catalog::{ie_field, ie_fields, ie_fits, ie_views, ies_fit, parse_ies, IeModel, InformationElement};
use crate::error::GTPV2Error;
use crate::ie::{field_bytes, fields_bytes, lemma_fields_bytes_concat, lemma_fields_bytes_one, FieldModel};

verus! {

/// Size of a header without a tunnel endpoint identifier.
pub const MIN_HEADER_LENGTH: usize = 8;
/// Protocol version written in the three high bits of the first byte.
pub const VERSION: u8 = 2;

/// The header of a control-plane message.
#[derive(Debug, Clone, Copy, PartialEq, Eq, Structural)]
pub struct Gtpv2Header {
    pub msgtype: u8,
    pub piggyback: bool,
    pub message_prio: Option<u8>,
    /// Bytes that follow the length field.
    pub length: u16,
    pub teid: Option<u32>,
    pub sqn: u32,
}

/// Version, piggyback flag, identifier flag and priority flag.
pub open spec fn header_flags(h: Gtpv2Header) -> u8 {
    (64 + (if h.piggyback { 16int } else { 0 }) + (if h.teid is Some { 8int } else { 0 }) + (
    if h.message_prio is Some { 4int } else { 0 })) as u8
}

/// Bytes the header takes.
pub open spec fn header_len(h: Gtpv2Header) -> int {
    if h.teid is Some { 12 } else { 8 }
}

pub open spec fn header_bytes(h: Gtpv2Header) -> Seq<u8> {
    seq![header_flags(h), h.msgtype] + be16_bytes(h.length) + match h.teid {
        Some(t) => be32_bytes(t),
        None => Seq::empty(),
    } + be24_bytes(h.sqn) + seq![
        match h.message_prio {
            Some(p) => (p * 16 % 256) as u8,
            None => 0u8,
        },
    ]
}

/// The header at the front of `s`. A buffer too short for it, flags
/// included, is malformed; a version other than 2 is refused.
pub open spec fn header_of(s: Seq<u8>) -> Result<Gtpv2Header, GTPV2Error> {
    if s.len() < 8 {
        Err(GTPV2Error::MessageInvalidMessageFormat)
    } else if s[0] / 32 != 2 {
        Err(GTPV2Error::HeaderVersionNotSupported)
    } else if s[0] / 8 % 2 == 1 && s.len() < 12 {
        Err(GTPV2Error::MessageInvalidMessageFormat)
    } else {
        let has_teid = s[0] / 8 % 2 == 1;
        let off: int = if has_teid { 8 } else { 4 };
        Ok(
            Gtpv2Header {
                msgtype: s[1],
                piggyback: s[0] / 16 % 2 == 1,
                message_prio: if s[0] / 4 % 2 == 1 {
                    Some(s[off + 3] / 16)
                } else {
                    None
                },
                length: be16(s[2], s[3]),
                teid: if has_teid {
                    Some(be32(s[4], s[5], s[6], s[7]))
                } else {
                    None
                },
                sqn: be24(s[off], s[off + 1], s[off + 2]),
            },
        )
    }
}

/// A header whose sequence number fits three bytes and whose priority fits
/// four bits.
pub open spec fn header_wf(h: Gtpv2Header) -> bool {
    &&& h.sqn < 0x1000000
    &&& h.message_prio matches Some(p) ==> p < 16
}

impl Default for Gtpv2Header {
    fn default() -> (r: Self)
        ensures
            r == (Gtpv2Header {
                msgtype: 0,
                piggyback: false,
                message_prio: None,
                length: 0,
                teid: None,
                sqn: 0,
            }),
    {
        Gtpv2Header { msgtype: 0, piggyback: false, message_prio: None, length: 0, teid: None, sqn: 0 }
    }
}

impl Gtpv2Header {
    pub fn marshal(&self, buffer: &mut Vec<u8>)
        ensures
            final(buffer)@ == old(buffer)@ + header_bytes(*self),
    {
        let flags: u8 = 64 + (if self.piggyback { 16u8 } else { 0 }) + (if self.teid.is_some() { 8u8 } else { 0 }) + (
        if self.message_prio.is_some() { 4u8 } else { 0 });
        buffer.push(flags);
        buffer.push(self.msgtype);
        push_be16(buffer, self.length);
        if let Some(t) = self.teid {
            push_be32(buffer, t);
        }
        push_be24(buffer, self.sqn);
        match self.message_prio {
            Some(p) => buffer.push(((p as u32 * 16) % 256) as u8),
            None => buffer.push(0),
        }
        assert(buffer@ =~= old(buffer)@ + header_bytes(*self));
    }

    pub fn unmarshal(buffer: &[u8]) -> (r: Result<Self, GTPV2Error>)
        ensures
            r == header_of(buffer@),
    {
        if buffer.len() < MIN_HEADER_LENGTH {
            return Err(GTPV2Error::MessageInvalidMessageFormat);
        }
        let flags = buffer[0];
        if flags / 32 != VERSION {
            return Err(GTPV2Error::HeaderVersionNotSupported);
        }
        let has_teid = flags / 8 % 2 == 1;
        if has_teid && buffer.len() < 12 {
            return Err(GTPV2Error::MessageInvalidMessageFormat);
        }
        let off: usize = if has_teid { 8 } else { 4 };
        Ok(Gtpv2Header {
            msgtype: buffer[1],
            piggyback: flags / 16 % 2 == 1,
            message_prio: if flags / 4 % 2 == 1 { Some(buffer[off + 3] / 16) } else { None },
            length: read_be16(buffer, 2),
            teid: if has_teid { Some(read_be32(buffer, 4)) } else { None },
            sqn: read_be24(buffer, off),
        })
    }

    /// Bytes the header takes.
    pub fn len(&self) -> (r: usize)
        ensures
            r == header_len(*self),
    {
        if self.teid.is_some() { 12 } else { MIN_HEADER_LENGTH }
    }
}

pub proof fn lemma_header_round_trip(h: Gtpv2Header, rest: Seq<u8>)
    requires
        header_wf(h),
    ensures
        header_of(header_bytes(h) + rest) == Ok::<Gtpv2Header, GTPV2Error>(h),
        header_bytes(h).len() == header_len(h),
{
    let s = header_bytes(h) + rest;
    let f = header_flags(h);
    lemma_be16_round_trip(h.length);
    lemma_be24_round_trip(h.sqn);
    assert(f / 32 == 2);
    assert(f / 16 % 2 == 1 <==> h.piggyback);
    assert(f / 8 % 2 == 1 <==> h.teid is Some);
    assert(f / 4 % 2 == 1 <==> h.message_prio is Some);
    let off: int = if h.teid is Some { 8 } else { 4 };
    if let Some(t) = h.teid {
        lemma_be32_round_trip(t);
        assert(s[4] == be32_bytes(t)[0] && s[5] == be32_bytes(t)[1] && s[6] == be32_bytes(t)[2] && s[7] == be32_bytes(t)[3]);
    }
    assert(s[off] == be24_bytes(h.sqn)[0] && s[off + 1] == be24_bytes(h.sqn)[1] && s[off + 2] == be24_bytes(h.sqn)[2]);
    assert(s[2] == be16_bytes(h.length)[0] && s[3] == be16_bytes(h.length)[1]);
    if let Some(p) = h.message_prio {
        assert(s[off + 3] == (p * 16 % 256) as u8);
        assert((p * 16 % 256) as u8 / 16 == p);
    }
}

/// The header `h` with its length set to what follows the length field when
/// `body` comes after it.
pub open spec fn framed_header(h: Gtpv2Header, body: Seq<u8>) -> Gtpv2Header {
    Gtpv2Header { length: (header_len(h) - 4 + body.len()) as u16, ..h }
}

/// The bytes of a message: header, then the fields of `es`, the header's
/// length counting everything after the length field.
pub open spec fn envelope_bytes(h: Gtpv2Header, es: Seq<IeModel>) -> Seq<u8> {
    let body = fields_bytes(ie_fields(es));
    header_bytes(framed_header(h, body)) + body
}

/// The fields' payloads and the whole message fit their length fields.
pub open spec fn envelope_fits(h: Gtpv2Header, es: Seq<IeModel>) -> bool {
    &&& ies_fit(es)
    &&& header_len(h) - 4 + fields_bytes(ie_fields(es)).len() <= 0xffff
}

/// The header and decoded fields of a message of type `msgtype`. The fields
/// are read from the end of the header up to the end the length field
/// declares; a message shorter than that is malformed.
pub open spec fn envelope_of(s: Seq<u8>, msgtype: u8) -> Result<(Gtpv2Header, Seq<IeModel>), GTPV2Error> {
    match header_of(s) {
        Err(e) => Err(e),
        Ok(h) => if h.msgtype != msgtype {
            Err(GTPV2Error::MessageIncorrectMessageType)
        } else if h.length + 4 > s.len() || h.length + 4 < header_len(h) {
            Err(GTPV2Error::MessageInvalidMessageFormat)
        } else {
            match parse_ies(s.subrange(header_len(h), h.length + 4)) {
                Err(e) => Err(e),
                Ok(es) => Ok((h, es)),
            }
        },
    }
}

/// Overwrites the length of the message that starts at `start` with the
/// number of bytes that follow its length field.
pub fn set_msg_length(buffer: &mut Vec<u8>, start: usize)
    requires
        start + 4 <= old(buffer)@.len(),
        old(buffer)@.len() - start - 4 <= 0xffff,
    ensures
        final(buffer)@ == old(buffer)@.update(start + 2, be16_bytes((old(buffer)@.len() - start - 4) as u16)[0])
            .update(start + 3, be16_bytes((old(buffer)@.len() - start - 4) as u16)[1]),
{
    let n = (buffer.len() - start - 4) as u16;
    write_be16(buffer, start + 2, n);
}

/// Appends a message: the header with its length as given, each field in
/// order, then the true length in place of the header's.
pub fn encode_message(header: &Gtpv2Header, elements: &Vec<InformationElement>, buffer: &mut Vec<u8>)
    requires
        envelope_fits(*header, ie_views(elements@)),
    ensures
        final(buffer)@ == old(buffer)@ + envelope_bytes(*header, ie_views(elements@)),
{
    let ghost es = ie_views(elements@);
    let start = buffer.len();
    header.marshal(buffer);
    let ghost with_header = buffer@;
    let mut i: usize = 0;
    assert(ie_fields(es.take(0)) =~= Seq::<FieldModel>::empty());
    assert(with_header + fields_bytes(ie_fields(es.take(0))) =~= with_header);
    while i < elements.len()
        invariant
            i <= elements@.len(),
            es == ie_views(elements@),
            ies_fit(es),
            buffer@ == with_header + fields_bytes(ie_fields(es.take(i as int))),
        decreases elements@.len() - i,
    {
        assert(ie_fits(es[i as int]));
        elements[i].marshal(buffer);
        proof {
            let x = ie_field(es[i as int]);
            assert(ie_fields(es.take(i + 1)) =~= ie_fields(es.take(i as int)) + seq![x]);
            lemma_fields_bytes_concat(ie_fields(es.take(i as int)), seq![x]);
            lemma_fields_bytes_one(x);
            assert(buffer@ =~= with_header + fields_bytes(ie_fields(es.take(i + 1))));
        }
        i = i + 1;
    }
    assert(es.take(i as int) =~= es);
    let ghost body = fields_bytes(ie_fields(es));
    let ghost h2 = framed_header(*header, body);
    assert(header_bytes(*header).len() == header_len(*header));
    set_msg_length(buffer, start);
    assert(buffer@ =~= old(buffer)@ + header_bytes(h2) + body);
}

/// Decodes a message of type `msgtype`: its header, then its fields.
pub fn decode_message(buffer: &[u8], msgtype: u8) -> (r: Result<
    (Gtpv2Header, Vec<InformationElement>),
    GTPV2Error,
>)
    ensures
        match r {
            Ok((h, v)) => envelope_of(buffer@, msgtype) == Ok::<(Gtpv2Header, Seq<IeModel>), GTPV2Error>(
                (h, ie_views(v@)),
            ),
            Err(e) => envelope_of(buffer@, msgtype) == Err::<(Gtpv2Header, Seq<IeModel>), GTPV2Error>(e),
        },
{
    let header = Gtpv2Header::unmarshal(buffer)?;
    if header.msgtype != msgtype {
        return Err(GTPV2Error::MessageIncorrectMessageType);
    }
    let end = header.length as usize + 4;
    let hlen = header.len();
    if end > buffer.len() || end < hlen {
        return Err(GTPV2Error::MessageInvalidMessageFormat);
    }
    let elements = InformationElement::decoder(&buffer[hlen..end])?;
    Ok((header, elements))
}

/// The length field of an encoded message counts exactly the bytes that
/// follow it.
pub proof fn lemma_length_consistency(h: Gtpv2Header, es: Seq<IeModel>)
    requires
        envelope_fits(h, es),
    ensures
        envelope_bytes(h, es).len() >= 4,
        be16(envelope_bytes(h, es)[2], envelope_bytes(h, es)[3]) == envelope_bytes(h, es).len() - 4,
{
    let body = fields_bytes(ie_fields(es));
    let h2 = framed_header(h, body);
    let s = envelope_bytes(h, es);
    lemma_be16_round_trip(h2.length);
    assert(s[2] == be16_bytes(h2.length)[0] && s[3] == be16_bytes(h2.length)[1]);
}

/// Decoding an encoded message gives back its header, with the length that
/// encoding wrote, and its fields.
pub proof fn lemma_envelope_round_trip(h: Gtpv2Header, es: Seq<IeModel>)
    requires
        header_wf(h),
        envelope_fits(h, es),
        crate::catalog::ies_wf(es),
    ensures
        envelope_of(envelope_bytes(h, es), h.msgtype) == Ok::<(Gtpv2Header, Seq<IeModel>), GTPV2Error>(
            (framed_header(h, fields_bytes(ie_fields(es))), es),
        ),
{
    let body = fields_bytes(ie_fields(es));
    let h2 = framed_header(h, body);
    let s = envelope_bytes(h, es);
    lemma_header_round_trip(h2, body);
    assert(s.subrange(header_len(h2), h2.length + 4) =~= body);
    let fs = ie_fields(es);
    assert(crate::ie::fields_wf(fs)) by {
        assert forall|i: int| 0 <= i < fs.len() implies #[trigger] crate::ie::field_wf(fs[i]) by {
            crate::catalog::lemma_ie_round_trip(es[i]);
        }
    }
    crate::ie::lemma_fields_round_trip(fs);
    crate::catalog::lemma_ies_round_trip(es);
}

} // verus!
