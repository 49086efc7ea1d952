//! Fields of fixed size: cause, bearer identifier, procedure transaction
//! identifier, and the sequence number, metric and timer that an overload
//! control field groups.

use vstd::prelude::*;
use crate::bytes::{be32, be32_bytes, lemma_be32_round_trip, push_be32};
use crate::error::GTPV2Error;
use crate::ie::{front_field, front_fits, front_or, FieldModel, Ie};

verus! {

pub const CAUSE: u8 = 2;
pub const CAUSE_LENGTH: usize = 2;
pub const EBI: u8 = 73;
pub const EBI_LENGTH: usize = 1;
pub const PTI: u8 = 100;
pub const PTI_LENGTH: usize = 1;
pub const SQN: u8 = 183;
pub const SQN_LENGTH: usize = 4;
pub const METRIC: u8 = 182;
pub const METRIC_LENGTH: usize = 1;
pub const EPC_TIMER: u8 = 156;
pub const EPC_TIMER_LENGTH: usize = 1;

/// Cause: a cause value, three flags, and the type of an offending field
/// where there is one.
#[derive(Debug, Clone, Copy, PartialEq, Eq, Structural)]
pub struct Cause {
    pub t: u8,
    pub length: u16,
    pub ins: u8,
    pub value: u8,
    pub pce: bool,
    pub bce: bool,
    pub cs: bool,
    pub offend_ie_type: Option<u8>,
}

/// The flags byte of a cause: PCE, BCE and CS in its three low bits.
pub open spec fn cause_flags(c: Cause) -> u8 {
    ((if c.pce { 4int } else { 0 }) + (if c.bce { 2int } else { 0 }) + (if c.cs { 1int } else { 0 })) as u8
}

pub open spec fn cause_payload(c: Cause) -> Seq<u8> {
    match c.offend_ie_type {
        None => seq![c.value, cause_flags(c)],
        Some(o) => seq![c.value, cause_flags(c), o, 0u8, 0u8, 0u8],
    }
}

pub open spec fn cause_field(c: Cause) -> FieldModel {
    FieldModel { t: c.t, ins: c.ins, value: cause_payload(c) }
}

/// A cause payload holds two bytes, or six where an offending field is named.
pub open spec fn cause_of(f: FieldModel) -> Result<Cause, GTPV2Error> {
    if f.value.len() == 2 || f.value.len() == 6 {
        Ok(
            Cause {
                t: CAUSE,
                length: f.value.len() as u16,
                ins: f.ins,
                value: f.value[0],
                pce: f.value[1] / 4 % 2 == 1,
                bce: f.value[1] / 2 % 2 == 1,
                cs: f.value[1] % 2 == 1,
                offend_ie_type: if f.value.len() == 6 {
                    Some(f.value[2])
                } else {
                    None
                },
            },
        )
    } else {
        Err(GTPV2Error::IEInvalidLength(CAUSE))
    }
}

pub open spec fn cause_wf(c: Cause) -> bool {
    &&& c.t == CAUSE
    &&& c.length == cause_payload(c).len()
}

/// The cause a message holds before one is decoded.
pub open spec fn default_cause() -> Cause {
    Cause {
        t: CAUSE,
        length: CAUSE_LENGTH as u16,
        ins: 0,
        value: 0,
        pce: false,
        bce: false,
        cs: false,
        offend_ie_type: None,
    }
}

impl Default for Cause {
    fn default() -> (r: Self)
        ensures
            r == default_cause(),
    {
        Cause {
            t: CAUSE,
            length: CAUSE_LENGTH as u16,
            ins: 0,
            value: 0,
            pce: false,
            bce: false,
            cs: false,
            offend_ie_type: None,
        }
    }
}

impl Cause {
    pub fn to_field(&self) -> (r: Ie)
        ensures
            r@ == cause_field(*self),
    {
        let mut value: Vec<u8> = Vec::new();
        value.push(self.value);
        let flags: u8 = (if self.pce { 4u8 } else { 0 }) + (if self.bce { 2u8 } else { 0 }) + (if self.cs { 1u8 } else { 0 });
        value.push(flags);
        if let Some(o) = self.offend_ie_type {
            value.push(o);
            value.push(0);
            value.push(0);
            value.push(0);
        }
        assert(value@ =~= cause_payload(*self));
        Ie { t: self.t, ins: self.ins, value }
    }

    pub fn from_field(f: &Ie) -> (r: Result<Self, GTPV2Error>)
        ensures
            r == cause_of(f@),
    {
        let n = f.value.len();
        if n != 2 && n != 6 {
            return Err(GTPV2Error::IEInvalidLength(CAUSE));
        }
        let flags = f.value[1];
        Ok(Cause {
            t: CAUSE,
            length: n as u16,
            ins: f.ins,
            value: f.value[0],
            pce: flags / 4 % 2 == 1,
            bce: flags / 2 % 2 == 1,
            cs: flags % 2 == 1,
            offend_ie_type: if n == 6 { Some(f.value[2]) } else { None },
        })
    }

    pub fn marshal(&self, buffer: &mut Vec<u8>)
        ensures
            final(buffer)@ == old(buffer)@ + crate::ie::field_bytes(cause_field(*self)),
    {
        crate::ie::encode_field(&self.to_field(), buffer);
    }

    pub fn unmarshal(buffer: &[u8]) -> (r: Result<Self, GTPV2Error>)
        ensures
            front_fits(buffer@) ==> r == cause_of(front_field(buffer@)),
            !front_fits(buffer@) ==> r == Err::<Cause, GTPV2Error>(GTPV2Error::IEInvalidLength(CAUSE)),
    {
        let f = front_or(buffer, CAUSE)?;
        Self::from_field(&f)
    }

    /// Bytes the field takes on the wire, header included.
    pub fn len(&self) -> (r: usize)
        ensures
            r == self.length + 4,
    {
        self.length as usize + 4
    }
}

pub proof fn lemma_cause_round_trip(c: Cause)
    requires
        cause_wf(c),
    ensures
        cause_of(cause_field(c)) == Ok::<Cause, GTPV2Error>(c),
{
    let b = cause_flags(c);
    assert(b / 4 % 2 == 1 <==> c.pce);
    assert(b / 2 % 2 == 1 <==> c.bce);
    assert(b % 2 == 1 <==> c.cs);
}

/// EPS bearer identifier: four bits in one byte.
#[derive(Debug, Clone, Copy, PartialEq, Eq, Structural)]
pub struct Ebi {
    pub t: u8,
    pub length: u16,
    pub ins: u8,
    pub value: u8,
}

pub open spec fn ebi_field(x: Ebi) -> FieldModel {
    FieldModel { t: x.t, ins: x.ins, value: seq![x.value] }
}

/// The identifier is the low four bits of the one payload byte.
pub open spec fn ebi_of(f: FieldModel) -> Result<Ebi, GTPV2Error> {
    if f.value.len() == EBI_LENGTH {
        Ok(Ebi { t: EBI, length: EBI_LENGTH as u16, ins: f.ins, value: f.value[0] % 16 })
    } else {
        Err(GTPV2Error::IEInvalidLength(EBI))
    }
}

pub open spec fn ebi_wf(x: Ebi) -> bool {
    &&& x.t == EBI
    &&& x.length == EBI_LENGTH
    &&& x.value < 16
}

/// The value a message or group holds before one is decoded.
pub open spec fn default_ebi() -> Ebi {
    Ebi { t: EBI, length: EBI_LENGTH as u16, ins: 0, value: 0 }
}

impl Default for Ebi {
    fn default() -> (r: Self)
        ensures
            r == default_ebi(),
    {
        Ebi { t: EBI, length: EBI_LENGTH as u16, ins: 0, value: 0 }
    }
}

impl Ebi {
    pub fn to_field(&self) -> (r: Ie)
        ensures
            r@ == ebi_field(*self),
    {
        let mut value: Vec<u8> = Vec::new();
        value.push(self.value);
        assert(value@ =~= ebi_field(*self).value);
        Ie { t: self.t, ins: self.ins, value }
    }

    pub fn from_field(f: &Ie) -> (r: Result<Self, GTPV2Error>)
        ensures
            r == ebi_of(f@),
    {
        if f.value.len() != EBI_LENGTH {
            return Err(GTPV2Error::IEInvalidLength(EBI));
        }
        Ok(Ebi { t: EBI, length: EBI_LENGTH as u16, ins: f.ins, value: f.value[0] % 16 })
    }

    pub fn marshal(&self, buffer: &mut Vec<u8>)
        ensures
            final(buffer)@ == old(buffer)@ + crate::ie::field_bytes(ebi_field(*self)),
    {
        crate::ie::encode_field(&self.to_field(), buffer);
    }

    pub fn unmarshal(buffer: &[u8]) -> (r: Result<Self, GTPV2Error>)
        ensures
            front_fits(buffer@) ==> r == ebi_of(front_field(buffer@)),
            !front_fits(buffer@) ==> r == Err::<Ebi, GTPV2Error>(GTPV2Error::IEInvalidLength(EBI)),
    {
        let f = front_or(buffer, EBI)?;
        Self::from_field(&f)
    }

    /// Bytes the field takes on the wire, header included.
    pub fn len(&self) -> (r: usize)
        ensures
            r == self.length + 4,
    {
        self.length as usize + 4
    }
}

pub proof fn lemma_ebi_round_trip(x: Ebi)
    requires
        ebi_wf(x),
    ensures
        ebi_of(ebi_field(x)) == Ok::<Ebi, GTPV2Error>(x),
{
    
}

/// Procedure transaction identifier: one byte.
#[derive(Debug, Clone, Copy, PartialEq, Eq, Structural)]
pub struct Pti {
    pub t: u8,
    pub length: u16,
    pub ins: u8,
    pub pti: u8,
}

pub open spec fn pti_field(x: Pti) -> FieldModel {
    FieldModel { t: x.t, ins: x.ins, value: seq![x.pti] }
}

/// The payload is the identifier itself.
pub open spec fn pti_of(f: FieldModel) -> Result<Pti, GTPV2Error> {
    if f.value.len() == PTI_LENGTH {
        Ok(Pti { t: PTI, length: PTI_LENGTH as u16, ins: f.ins, pti: f.value[0] })
    } else {
        Err(GTPV2Error::IEInvalidLength(PTI))
    }
}

pub open spec fn pti_wf(x: Pti) -> bool {
    &&& x.t == PTI
    &&& x.length == PTI_LENGTH
    &&& true
}

/// The value a message or group holds before one is decoded.
pub open spec fn default_pti() -> Pti {
    Pti { t: PTI, length: PTI_LENGTH as u16, ins: 0, pti: 0 }
}

impl Default for Pti {
    fn default() -> (r: Self)
        ensures
            r == default_pti(),
    {
        Pti { t: PTI, length: PTI_LENGTH as u16, ins: 0, pti: 0 }
    }
}

impl Pti {
    pub fn to_field(&self) -> (r: Ie)
        ensures
            r@ == pti_field(*self),
    {
        let mut value: Vec<u8> = Vec::new();
        value.push(self.pti);
        assert(value@ =~= pti_field(*self).value);
        Ie { t: self.t, ins: self.ins, value }
    }

    pub fn from_field(f: &Ie) -> (r: Result<Self, GTPV2Error>)
        ensures
            r == pti_of(f@),
    {
        if f.value.len() != PTI_LENGTH {
            return Err(GTPV2Error::IEInvalidLength(PTI));
        }
        Ok(Pti { t: PTI, length: PTI_LENGTH as u16, ins: f.ins, pti: f.value[0] })
    }

    pub fn marshal(&self, buffer: &mut Vec<u8>)
        ensures
            final(buffer)@ == old(buffer)@ + crate::ie::field_bytes(pti_field(*self)),
    {
        crate::ie::encode_field(&self.to_field(), buffer);
    }

    pub fn unmarshal(buffer: &[u8]) -> (r: Result<Self, GTPV2Error>)
        ensures
            front_fits(buffer@) ==> r == pti_of(front_field(buffer@)),
            !front_fits(buffer@) ==> r == Err::<Pti, GTPV2Error>(GTPV2Error::IEInvalidLength(PTI)),
    {
        let f = front_or(buffer, PTI)?;
        Self::from_field(&f)
    }

    /// Bytes the field takes on the wire, header included.
    pub fn len(&self) -> (r: usize)
        ensures
            r == self.length + 4,
    {
        self.length as usize + 4
    }
}

pub proof fn lemma_pti_round_trip(x: Pti)
    requires
        pti_wf(x),
    ensures
        pti_of(pti_field(x)) == Ok::<Pti, GTPV2Error>(x),
{
    
}

/// Overload or load metric: one byte.
#[derive(Debug, Clone, Copy, PartialEq, Eq, Structural)]
pub struct Metric {
    pub t: u8,
    pub length: u16,
    pub ins: u8,
    pub metric: u8,
}

pub open spec fn metric_field(x: Metric) -> FieldModel {
    FieldModel { t: x.t, ins: x.ins, value: seq![x.metric] }
}

/// The payload is the metric itself.
pub open spec fn metric_of(f: FieldModel) -> Result<Metric, GTPV2Error> {
    if f.value.len() == METRIC_LENGTH {
        Ok(Metric { t: METRIC, length: METRIC_LENGTH as u16, ins: f.ins, metric: f.value[0] })
    } else {
        Err(GTPV2Error::IEInvalidLength(METRIC))
    }
}

pub open spec fn metric_wf(x: Metric) -> bool {
    &&& x.t == METRIC
    &&& x.length == METRIC_LENGTH
    &&& true
}

/// The value a message or group holds before one is decoded.
pub open spec fn default_metric() -> Metric {
    Metric { t: METRIC, length: METRIC_LENGTH as u16, ins: 0, metric: 0 }
}

impl Default for Metric {
    fn default() -> (r: Self)
        ensures
            r == default_metric(),
    {
        Metric { t: METRIC, length: METRIC_LENGTH as u16, ins: 0, metric: 0 }
    }
}

impl Metric {
    pub fn to_field(&self) -> (r: Ie)
        ensures
            r@ == metric_field(*self),
    {
        let mut value: Vec<u8> = Vec::new();
        value.push(self.metric);
        assert(value@ =~= metric_field(*self).value);
        Ie { t: self.t, ins: self.ins, value }
    }

    pub fn from_field(f: &Ie) -> (r: Result<Self, GTPV2Error>)
        ensures
            r == metric_of(f@),
    {
        if f.value.len() != METRIC_LENGTH {
            return Err(GTPV2Error::IEInvalidLength(METRIC));
        }
        Ok(Metric { t: METRIC, length: METRIC_LENGTH as u16, ins: f.ins, metric: f.value[0] })
    }

    pub fn marshal(&self, buffer: &mut Vec<u8>)
        ensures
            final(buffer)@ == old(buffer)@ + crate::ie::field_bytes(metric_field(*self)),
    {
        crate::ie::encode_field(&self.to_field(), buffer);
    }

    pub fn unmarshal(buffer: &[u8]) -> (r: Result<Self, GTPV2Error>)
        ensures
            front_fits(buffer@) ==> r == metric_of(front_field(buffer@)),
            !front_fits(buffer@) ==> r == Err::<Metric, GTPV2Error>(GTPV2Error::IEInvalidLength(METRIC)),
    {
        let f = front_or(buffer, METRIC)?;
        Self::from_field(&f)
    }

    /// Bytes the field takes on the wire, header included.
    pub fn len(&self) -> (r: usize)
        ensures
            r == self.length + 4,
    {
        self.length as usize + 4
    }
}

pub proof fn lemma_metric_round_trip(x: Metric)
    requires
        metric_wf(x),
    ensures
        metric_of(metric_field(x)) == Ok::<Metric, GTPV2Error>(x),
{
    
}

/// Sequence number of an overload report: four bytes.
#[derive(Debug, Clone, Copy, PartialEq, Eq, Structural)]
pub struct Sqn {
    pub t: u8,
    pub length: u16,
    pub ins: u8,
    pub sqn: u32,
}

pub open spec fn sqn_field(x: Sqn) -> FieldModel {
    FieldModel { t: x.t, ins: x.ins, value: be32_bytes(x.sqn) }
}

/// The payload is the number in network order.
pub open spec fn sqn_of(f: FieldModel) -> Result<Sqn, GTPV2Error> {
    if f.value.len() == SQN_LENGTH {
        Ok(Sqn { t: SQN, length: SQN_LENGTH as u16, ins: f.ins, sqn: be32(f.value[0], f.value[1], f.value[2], f.value[3]) })
    } else {
        Err(GTPV2Error::IEInvalidLength(SQN))
    }
}

pub open spec fn sqn_wf(x: Sqn) -> bool {
    &&& x.t == SQN
    &&& x.length == SQN_LENGTH
    &&& true
}

/// The value a message or group holds before one is decoded.
pub open spec fn default_sqn() -> Sqn {
    Sqn { t: SQN, length: SQN_LENGTH as u16, ins: 0, sqn: 0 }
}

impl Default for Sqn {
    fn default() -> (r: Self)
        ensures
            r == default_sqn(),
    {
        Sqn { t: SQN, length: SQN_LENGTH as u16, ins: 0, sqn: 0 }
    }
}

impl Sqn {
    pub fn to_field(&self) -> (r: Ie)
        ensures
            r@ == sqn_field(*self),
    {
        let mut value: Vec<u8> = Vec::new();
        push_be32(&mut value, self.sqn);
        assert(value@ =~= sqn_field(*self).value);
        Ie { t: self.t, ins: self.ins, value }
    }

    pub fn from_field(f: &Ie) -> (r: Result<Self, GTPV2Error>)
        ensures
            r == sqn_of(f@),
    {
        if f.value.len() != SQN_LENGTH {
            return Err(GTPV2Error::IEInvalidLength(SQN));
        }
        Ok(Sqn { t: SQN, length: SQN_LENGTH as u16, ins: f.ins, sqn: crate::bytes::read_be32(f.value.as_slice(), 0) })
    }

    pub fn marshal(&self, buffer: &mut Vec<u8>)
        ensures
            final(buffer)@ == old(buffer)@ + crate::ie::field_bytes(sqn_field(*self)),
    {
        crate::ie::encode_field(&self.to_field(), buffer);
    }

    pub fn unmarshal(buffer: &[u8]) -> (r: Result<Self, GTPV2Error>)
        ensures
            front_fits(buffer@) ==> r == sqn_of(front_field(buffer@)),
            !front_fits(buffer@) ==> r == Err::<Sqn, GTPV2Error>(GTPV2Error::IEInvalidLength(SQN)),
    {
        let f = front_or(buffer, SQN)?;
        Self::from_field(&f)
    }

    /// Bytes the field takes on the wire, header included.
    pub fn len(&self) -> (r: usize)
        ensures
            r == self.length + 4,
    {
        self.length as usize + 4
    }
}

pub proof fn lemma_sqn_round_trip(x: Sqn)
    requires
        sqn_wf(x),
    ensures
        sqn_of(sqn_field(x)) == Ok::<Sqn, GTPV2Error>(x),
{
    lemma_be32_round_trip(x.sqn);
}

/// EPC timer: a unit in the three high bits and a value in the five low bits
/// of one byte.
#[derive(Debug, Clone, Copy, PartialEq, Eq, Structural)]
pub struct EpcTimer {
    pub t: u8,
    pub length: u16,
    pub ins: u8,
    pub timer_unit: u8,
    pub timer_value: u8,
}

pub open spec fn epc_timer_field(x: EpcTimer) -> FieldModel {
    FieldModel { t: x.t, ins: x.ins, value: seq![((x.timer_unit * 32 + x.timer_value) % 256) as u8] }
}

/// The unit is the payload byte's three high bits, the value its five low bits.
pub open spec fn epc_timer_of(f: FieldModel) -> Result<EpcTimer, GTPV2Error> {
    if f.value.len() == EPC_TIMER_LENGTH {
        Ok(
            EpcTimer {
                t: EPC_TIMER,
                length: EPC_TIMER_LENGTH as u16,
                ins: f.ins,
                timer_unit: f.value[0] / 32,
                timer_value: f.value[0] % 32,
            },
        )
    } else {
        Err(GTPV2Error::IEInvalidLength(EPC_TIMER))
    }
}

pub open spec fn epc_timer_wf(x: EpcTimer) -> bool {
    &&& x.t == EPC_TIMER
    &&& x.length == EPC_TIMER_LENGTH
    &&& x.timer_unit < 8
    &&& x.timer_value < 32
}

impl Default for EpcTimer {
    fn default() -> (r: Self)
        ensures
            r == (EpcTimer {
                t: EPC_TIMER,
                length: EPC_TIMER_LENGTH as u16,
                ins: 0,
                timer_unit: 0,
                timer_value: 0,
            }),
    {
        EpcTimer { t: EPC_TIMER, length: EPC_TIMER_LENGTH as u16, ins: 0, timer_unit: 0, timer_value: 0 }
    }
}

impl EpcTimer {
    pub fn to_field(&self) -> (r: Ie)
        ensures
            r@ == epc_timer_field(*self),
    {
        let mut value: Vec<u8> = Vec::new();
        value.push(((self.timer_unit as u32 * 32 + self.timer_value as u32) % 256) as u8);
        assert(value@ =~= epc_timer_field(*self).value);
        Ie { t: self.t, ins: self.ins, value }
    }

    pub fn from_field(f: &Ie) -> (r: Result<Self, GTPV2Error>)
        ensures
            r == epc_timer_of(f@),
    {
        if f.value.len() != EPC_TIMER_LENGTH {
            return Err(GTPV2Error::IEInvalidLength(EPC_TIMER));
        }
        Ok(EpcTimer {
            t: EPC_TIMER,
            length: EPC_TIMER_LENGTH as u16,
            ins: f.ins,
            timer_unit: f.value[0] / 32,
            timer_value: f.value[0] % 32,
        })
    }

    pub fn marshal(&self, buffer: &mut Vec<u8>)
        ensures
            final(buffer)@ == old(buffer)@ + crate::ie::field_bytes(epc_timer_field(*self)),
    {
        crate::ie::encode_field(&self.to_field(), buffer);
    }

    pub fn unmarshal(buffer: &[u8]) -> (r: Result<Self, GTPV2Error>)
        ensures
            front_fits(buffer@) ==> r == epc_timer_of(front_field(buffer@)),
            !front_fits(buffer@) ==> r == Err::<EpcTimer, GTPV2Error>(GTPV2Error::IEInvalidLength(EPC_TIMER)),
    {
        let f = front_or(buffer, EPC_TIMER)?;
        Self::from_field(&f)
    }

    /// Bytes the field takes on the wire, header included.
    pub fn len(&self) -> (r: usize)
        ensures
            r == self.length + 4,
    {
        self.length as usize + 4
    }
}

pub proof fn lemma_epc_timer_round_trip(x: EpcTimer)
    requires
        epc_timer_wf(x),
    ensures
        epc_timer_of(epc_timer_field(x)) == Ok::<EpcTimer, GTPV2Error>(x),
{
}

} // verus!
