//! Paging and service information: a bearer identifier and an optional
//! paging policy.

use vstd::prelude::*;
use crate::error::GTPV2Error;
use crate::ie::{encode_field, field_bytes, front_field, front_fits, front_or, FieldModel, Ie};

verus! {

pub const PAGING_SRVC_INFO: u8 = 186;
pub const PAGING_SRVC_INFO_LENGTH: usize = 2;

/// Paging and service information.
#[derive(Debug, Clone, Copy, PartialEq, Eq, Structural)]
pub struct PagingServiceInfo {
    pub t: u8,
    pub length: u16,
    pub ins: u8,
    pub ebi: u8,
    pub paging_policy: Option<u8>,
}

pub open spec fn paging_service_info_payload(x: PagingServiceInfo) -> Seq<u8> {
    match x.paging_policy {
        None => seq![x.ebi, 0u8],
        Some(p) => seq![x.ebi, 1u8, p],
    }
}

pub open spec fn paging_service_info_field(x: PagingServiceInfo) -> FieldModel {
    FieldModel { t: x.t, ins: x.ins, value: paging_service_info_payload(x) }
}

/// The payload is the bearer identifier (low four bits), a presence flag, and
/// the policy where the flag is 1. Its size must match the flag; a flag other
/// than 0 or 1 is refused.
pub open spec fn paging_service_info_of(f: FieldModel) -> Result<PagingServiceInfo, GTPV2Error> {
    let v = f.value;
    if v.len() < 2 {
        Err(GTPV2Error::IEInvalidLength(PAGING_SRVC_INFO))
    } else if v[1] == 0 {
        if v.len() == 2 {
            Ok(
                PagingServiceInfo {
                    t: PAGING_SRVC_INFO,
                    length: 2,
                    ins: f.ins,
                    ebi: v[0] % 16,
                    paging_policy: None,
                },
            )
        } else {
            Err(GTPV2Error::IEInvalidLength(PAGING_SRVC_INFO))
        }
    } else if v[1] == 1 {
        if v.len() == 3 {
            Ok(
                PagingServiceInfo {
                    t: PAGING_SRVC_INFO,
                    length: 3,
                    ins: f.ins,
                    ebi: v[0] % 16,
                    paging_policy: Some(v[2]),
                },
            )
        } else {
            Err(GTPV2Error::IEInvalidLength(PAGING_SRVC_INFO))
        }
    } else {
        Err(GTPV2Error::IEIncorrect(PAGING_SRVC_INFO))
    }
}

pub open spec fn paging_service_info_wf(x: PagingServiceInfo) -> bool {
    &&& x.t == PAGING_SRVC_INFO
    &&& x.length == paging_service_info_payload(x).len()
    &&& x.ebi < 16
}

impl Default for PagingServiceInfo {
    fn default() -> (r: Self)
        ensures
            r == (PagingServiceInfo {
                t: PAGING_SRVC_INFO,
                length: PAGING_SRVC_INFO_LENGTH as u16,
                ins: 0,
                ebi: 0,
                paging_policy: None,
            }),
    {
        PagingServiceInfo {
            t: PAGING_SRVC_INFO,
            length: PAGING_SRVC_INFO_LENGTH as u16,
            ins: 0,
            ebi: 0,
            paging_policy: None,
        }
    }
}

impl PagingServiceInfo {
    pub fn to_field(&self) -> (r: Ie)
        ensures
            r@ == paging_service_info_field(*self),
    {
        let mut value: Vec<u8> = Vec::new();
        value.push(self.ebi);
        match self.paging_policy {
            Some(p) => {
                value.push(1);
                value.push(p);
            },
            None => {
                value.push(0);
            },
        }
        assert(value@ =~= paging_service_info_payload(*self));
        Ie { t: self.t, ins: self.ins, value }
    }

    pub fn from_field(f: &Ie) -> (r: Result<Self, GTPV2Error>)
        ensures
            r == paging_service_info_of(f@),
    {
        let n = f.value.len();
        if n < 2 {
            return Err(GTPV2Error::IEInvalidLength(PAGING_SRVC_INFO));
        }
        let ebi = f.value[0] % 16;
        if f.value[1] == 0 {
            if n == 2 {
                Ok(PagingServiceInfo { t: PAGING_SRVC_INFO, length: 2, ins: f.ins, ebi, paging_policy: None })
            } else {
                Err(GTPV2Error::IEInvalidLength(PAGING_SRVC_INFO))
            }
        } else if f.value[1] == 1 {
            if n == 3 {
                Ok(PagingServiceInfo {
                    t: PAGING_SRVC_INFO,
                    length: 3,
                    ins: f.ins,
                    ebi,
                    paging_policy: Some(f.value[2]),
                })
            } else {
                Err(GTPV2Error::IEInvalidLength(PAGING_SRVC_INFO))
            }
        } else {
            Err(GTPV2Error::IEIncorrect(PAGING_SRVC_INFO))
        }
    }

    pub fn marshal(&self, buffer: &mut Vec<u8>)
        ensures
            final(buffer)@ == old(buffer)@ + field_bytes(paging_service_info_field(*self)),
    {
        encode_field(&self.to_field(), buffer);
    }

    pub fn unmarshal(buffer: &[u8]) -> (r: Result<Self, GTPV2Error>)
        ensures
            front_fits(buffer@) ==> r == paging_service_info_of(front_field(buffer@)),
            !front_fits(buffer@) ==> r == Err::<Self, GTPV2Error>(
                GTPV2Error::IEInvalidLength(PAGING_SRVC_INFO),
            ),
    {
        let f = front_or(buffer, PAGING_SRVC_INFO)?;
        Self::from_field(&f)
    }

    /// Bytes the field takes on the wire, header included.
    pub fn len(&self) -> (r: usize)
        ensures
            r == self.length + 4,
    {
        self.length as usize + 4
    }
}

pub proof fn lemma_paging_service_info_round_trip(x: PagingServiceInfo)
    requires
        paging_service_info_wf(x),
    ensures
        paging_service_info_of(paging_service_info_field(x)) == Ok::<PagingServiceInfo, GTPV2Error>(x),
{
}

} // verus!
