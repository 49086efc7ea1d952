//! Private extension: an enterprise identifier followed by vendor bytes.

use vstd::prelude::*;
use crate::bytes::{be16, be16_bytes, copy_bytes, lemma_be16_round_trip, push_be16, push_bytes, read_be16};
use crate::error::GTPV2Error;
use crate::ie::{encode_field, field_bytes, field_wf, front_field, front_fits, front_or, result_view, FieldModel, Ie};

verus! {

pub const PRIVATE_EXT: u8 = 255;

/// Private extension.
#[derive(Debug, Clone, PartialEq)]
pub struct PrivateExtension {
    pub t: u8,
    pub length: u16,
    pub ins: u8,
    pub enterprise_id: u16,
    pub value: Vec<u8>,
}

/// The mathematical value of a [`PrivateExtension`].
pub struct PrivateExtensionModel {
    pub t: u8,
    pub length: u16,
    pub ins: u8,
    pub enterprise_id: u16,
    pub value: Seq<u8>,
}

impl View for PrivateExtension {
    type V = PrivateExtensionModel;

    open spec fn view(&self) -> PrivateExtensionModel {
        PrivateExtensionModel {
            t: self.t,
            length: self.length,
            ins: self.ins,
            enterprise_id: self.enterprise_id,
            value: self.value@,
        }
    }
}

pub open spec fn private_ext_field(x: PrivateExtensionModel) -> FieldModel {
    FieldModel { t: x.t, ins: x.ins, value: be16_bytes(x.enterprise_id) + x.value }
}

/// The payload is the enterprise identifier (two bytes) and the vendor bytes.
pub open spec fn private_ext_of(f: FieldModel) -> Result<PrivateExtensionModel, GTPV2Error> {
    if f.value.len() >= 2 {
        Ok(
            PrivateExtensionModel {
                t: PRIVATE_EXT,
                length: f.value.len() as u16,
                ins: f.ins,
                enterprise_id: be16(f.value[0], f.value[1]),
                value: f.value.subrange(2, f.value.len() as int),
            },
        )
    } else {
        Err(GTPV2Error::IEInvalidLength(PRIVATE_EXT))
    }
}

pub open spec fn private_ext_wf(x: PrivateExtensionModel) -> bool {
    &&& x.t == PRIVATE_EXT
    &&& x.length == x.value.len() + 2
    &&& x.value.len() + 2 <= 0xffff
}

impl Default for PrivateExtension {
    fn default() -> (r: Self)
        ensures
            r@ == (PrivateExtensionModel {
                t: PRIVATE_EXT,
                length: 0,
                ins: 0,
                enterprise_id: 0,
                value: Seq::empty(),
            }),
    {
        PrivateExtension { t: PRIVATE_EXT, length: 0, ins: 0, enterprise_id: 0, value: Vec::new() }
    }
}

impl PrivateExtension {
    /// A copy of the value.
    pub fn duplicate(&self) -> (r: Self)
        ensures
            r@ == self@,
    {
        PrivateExtension {
            t: self.t,
            length: self.length,
            ins: self.ins,
            enterprise_id: self.enterprise_id,
            value: copy_bytes(self.value.as_slice()),
        }
    }

    pub fn to_field(&self) -> (r: Ie)
        ensures
            r@ == private_ext_field(self@),
    {
        let mut value: Vec<u8> = Vec::new();
        push_be16(&mut value, self.enterprise_id);
        push_bytes(&mut value, self.value.as_slice());
        Ie { t: self.t, ins: self.ins, value }
    }

    pub fn from_field(f: &Ie) -> (r: Result<Self, GTPV2Error>)
        ensures
            result_view(r) == private_ext_of(f@),
    {
        let n = f.value.len();
        if n < 2 {
            return Err(GTPV2Error::IEInvalidLength(PRIVATE_EXT));
        }
        let bytes = f.value.as_slice();
        Ok(PrivateExtension {
            t: PRIVATE_EXT,
            length: n as u16,
            ins: f.ins,
            enterprise_id: read_be16(bytes, 0),
            value: copy_bytes(&bytes[2..n]),
        })
    }

    pub fn marshal(&self, buffer: &mut Vec<u8>)
        requires
            self.value@.len() + 2 <= 0xffff,
        ensures
            final(buffer)@ == old(buffer)@ + field_bytes(private_ext_field(self@)),
    {
        encode_field(&self.to_field(), buffer);
    }

    pub fn unmarshal(buffer: &[u8]) -> (r: Result<Self, GTPV2Error>)
        ensures
            front_fits(buffer@) ==> result_view(r) == private_ext_of(front_field(buffer@)),
            !front_fits(buffer@) ==> r == Err::<Self, GTPV2Error>(
                GTPV2Error::IEInvalidLength(PRIVATE_EXT),
            ),
    {
        let f = front_or(buffer, PRIVATE_EXT)?;
        Self::from_field(&f)
    }

    /// Bytes the field takes on the wire, header included.
    pub fn len(&self) -> (r: usize)
        ensures
            r == self.length + 4,
    {
        self.length as usize + 4
    }
}

pub proof fn lemma_private_ext_round_trip(x: PrivateExtensionModel)
    requires
        private_ext_wf(x),
    ensures
        private_ext_of(private_ext_field(x)) == Ok::<PrivateExtensionModel, GTPV2Error>(x),
        field_wf(private_ext_field(x)),
{
    let v = private_ext_field(x).value;
    lemma_be16_round_trip(x.enterprise_id);
    assert(v.subrange(2, v.len() as int) =~= x.value);
}

} // verus!
