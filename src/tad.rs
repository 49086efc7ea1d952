//! Traffic aggregate description: a field whose payload is carried as bytes.

use vstd::prelude::*;
use crate::bytes::copy_bytes;
use crate::error::GTPV2Error;
use crate::ie::{encode_field, field_bytes, field_wf, front_field, front_fits, front_or, result_view, FieldModel, Ie};

verus! {

pub const TAD: u8 = 85;

/// Traffic aggregate description.
#[derive(Debug, Clone, PartialEq)]
pub struct TrafficAggregateDescription {
    pub t: u8,
    pub length: u16,
    pub ins: u8,
    pub tad: Vec<u8>,
}

/// The mathematical value of a [`TrafficAggregateDescription`].
pub struct TadModel {
    pub t: u8,
    pub length: u16,
    pub ins: u8,
    pub tad: Seq<u8>,
}

impl View for TrafficAggregateDescription {
    type V = TadModel;

    open spec fn view(&self) -> TadModel {
        TadModel { t: self.t, length: self.length, ins: self.ins, tad: self.tad@ }
    }
}

pub open spec fn tad_field(x: TadModel) -> FieldModel {
    FieldModel { t: x.t, ins: x.ins, value: x.tad }
}

/// Any payload is a description.
pub open spec fn tad_of(f: FieldModel) -> Result<TadModel, GTPV2Error> {
    Ok(TadModel { t: TAD, length: f.value.len() as u16, ins: f.ins, tad: f.value })
}

pub open spec fn tad_wf(x: TadModel) -> bool {
    &&& x.t == TAD
    &&& x.length == x.tad.len()
    &&& x.tad.len() <= 0xffff
}

impl Default for TrafficAggregateDescription {
    fn default() -> (r: Self)
        ensures
            r@ == (TadModel { t: TAD, length: 0, ins: 0, tad: Seq::empty() }),
    {
        TrafficAggregateDescription { t: TAD, length: 0, ins: 0, tad: Vec::new() }
    }
}

impl TrafficAggregateDescription {
    /// A copy of the value.
    pub fn duplicate(&self) -> (r: Self)
        ensures
            r@ == self@,
    {
        TrafficAggregateDescription {
            t: self.t,
            length: self.length,
            ins: self.ins,
            tad: copy_bytes(self.tad.as_slice()),
        }
    }

    pub fn to_field(&self) -> (r: Ie)
        ensures
            r@ == tad_field(self@),
    {
        Ie { t: self.t, ins: self.ins, value: copy_bytes(self.tad.as_slice()) }
    }

    pub fn from_field(f: &Ie) -> (r: Result<Self, GTPV2Error>)
        ensures
            result_view(r) == tad_of(f@),
    {
        Ok(TrafficAggregateDescription {
            t: TAD,
            length: f.value.len() as u16,
            ins: f.ins,
            tad: copy_bytes(f.value.as_slice()),
        })
    }

    pub fn marshal(&self, buffer: &mut Vec<u8>)
        requires
            self.tad@.len() <= 0xffff,
        ensures
            final(buffer)@ == old(buffer)@ + field_bytes(tad_field(self@)),
    {
        encode_field(&self.to_field(), buffer);
    }

    pub fn unmarshal(buffer: &[u8]) -> (r: Result<Self, GTPV2Error>)
        ensures
            front_fits(buffer@) ==> result_view(r) == tad_of(front_field(buffer@)),
            !front_fits(buffer@) ==> r == Err::<Self, GTPV2Error>(GTPV2Error::IEInvalidLength(TAD)),
    {
        let f = front_or(buffer, TAD)?;
        Self::from_field(&f)
    }

    /// Bytes the field takes on the wire, header included.
    pub fn len(&self) -> (r: usize)
        ensures
            r == self.length + 4,
    {
        self.length as usize + 4
    }
}

pub proof fn lemma_tad_round_trip(x: TadModel)
    requires
        tad_wf(x),
    ensures
        tad_of(tad_field(x)) == Ok::<TadModel, GTPV2Error>(x),
        field_wf(tad_field(x)),
{
}

} // verus!
