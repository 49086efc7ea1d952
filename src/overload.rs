//! Overload control information: a grouped field whose payload is itself a
//! sequence of fields (sequence number, metric, validity period, and an
//! optional list of access point names).

use vstd::prelude::*;
use crate::basic::{
    epc_timer_field, epc_timer_of, epc_timer_wf, lemma_epc_timer_round_trip, lemma_metric_round_trip,
    lemma_sqn_round_trip, metric_field, metric_of, metric_wf, sqn_field, sqn_of, sqn_wf, EpcTimer,
    Metric, Sqn, EPC_TIMER, METRIC, SQN,
};
use crate::error::GTPV2Error;
use crate::ie::{
    decode_fields, encode_field, encode_fields, field_bytes, field_views, field_wf, fields_bytes,
    fields_wf, front_field, front_fits, front_or, lemma_fields_bytes_concat, lemma_fields_round_trip,
    parse_fields, result_view, FieldModel, Ie,
};

verus! {

pub const OVERLOAD_CNTRL: u8 = 180;
pub const APN: u8 = 71;

/// Overload control information.
#[derive(Debug, Clone, PartialEq)]
pub struct OverloadControlInfo {
    pub t: u8,
    pub length: u16,
    pub ins: u8,
    pub sqn: Sqn,
    pub metric: Metric,
    pub validity: EpcTimer,
    /// Access point names the report is about, each kept as a field.
    pub list: Option<Vec<Ie>>,
}

/// The mathematical value of an [`OverloadControlInfo`].
pub struct OverloadControlInfoModel {
    pub t: u8,
    pub length: u16,
    pub ins: u8,
    pub sqn: Sqn,
    pub metric: Metric,
    pub validity: EpcTimer,
    pub list: Option<Seq<FieldModel>>,
}

impl View for OverloadControlInfo {
    type V = OverloadControlInfoModel;

    open spec fn view(&self) -> OverloadControlInfoModel {
        OverloadControlInfoModel {
            t: self.t,
            length: self.length,
            ins: self.ins,
            sqn: self.sqn,
            metric: self.metric,
            validity: self.validity,
            list: match self.list {
                Some(l) => Some(field_views(l@)),
                None => None,
            },
        }
    }
}

/// The nested fields, in the order they are written.
pub open spec fn overload_inner(x: OverloadControlInfoModel) -> Seq<FieldModel> {
    seq![sqn_field(x.sqn), metric_field(x.metric), epc_timer_field(x.validity)] + match x.list {
        Some(l) => l,
        None => Seq::empty(),
    }
}

pub open spec fn overload_field(x: OverloadControlInfoModel) -> FieldModel {
    FieldModel { t: x.t, ins: x.ins, value: fields_bytes(overload_inner(x)) }
}

/// What a scan of the nested fields has found so far.
pub struct OverloadScan {
    pub sqn: Option<Sqn>,
    pub metric: Option<Metric>,
    pub validity: Option<EpcTimer>,
    pub list: Seq<FieldModel>,
}

/// One nested field: the first sequence number, metric and timer at instance 0
/// are taken, every access point name at instance 0 is kept, the rest is
/// passed over. A field that is taken and does not decode ends the scan.
pub open spec fn overload_step(acc: Result<OverloadScan, GTPV2Error>, f: FieldModel) -> Result<
    OverloadScan,
    GTPV2Error,
> {
    match acc {
        Err(e) => Err(e),
        Ok(a) => if f.t == SQN && f.ins == 0 && a.sqn is None {
            match sqn_of(f) {
                Ok(x) => Ok(OverloadScan { sqn: Some(x), ..a }),
                Err(e) => Err(e),
            }
        } else if f.t == METRIC && f.ins == 0 && a.metric is None {
            match metric_of(f) {
                Ok(x) => Ok(OverloadScan { metric: Some(x), ..a }),
                Err(e) => Err(e),
            }
        } else if f.t == EPC_TIMER && f.ins == 0 && a.validity is None {
            match epc_timer_of(f) {
                Ok(x) => Ok(OverloadScan { validity: Some(x), ..a }),
                Err(e) => Err(e),
            }
        } else if f.t == APN && f.ins == 0 {
            Ok(OverloadScan { list: a.list.push(f), ..a })
        } else {
            Ok(a)
        },
    }
}

pub open spec fn overload_scan(fs: Seq<FieldModel>) -> Result<OverloadScan, GTPV2Error>
    decreases fs.len(),
{
    if fs.len() == 0 {
        Ok(OverloadScan { sqn: None, metric: None, validity: None, list: Seq::empty() })
    } else {
        overload_step(overload_scan(fs.drop_last()), fs.last())
    }
}

/// The payload must decode into fields that hold a sequence number, a metric
/// and a timer at instance 0; without one of them the field is refused.
pub open spec fn overload_of(f: FieldModel) -> Result<OverloadControlInfoModel, GTPV2Error> {
    match parse_fields(f.value) {
        Err(e) => Err(e),
        Ok(fs) => match overload_scan(fs) {
            Err(e) => Err(e),
            Ok(a) => if a.sqn is Some && a.metric is Some && a.validity is Some {
                Ok(
                    OverloadControlInfoModel {
                        t: OVERLOAD_CNTRL,
                        length: f.value.len() as u16,
                        ins: f.ins,
                        sqn: a.sqn->Some_0,
                        metric: a.metric->Some_0,
                        validity: a.validity->Some_0,
                        list: if a.list.len() == 0 {
                            None
                        } else {
                            Some(a.list)
                        },
                    },
                )
            } else {
                Err(GTPV2Error::IEIncorrect(OVERLOAD_CNTRL))
            },
        },
    }
}

pub open spec fn apn_list_wf(l: Seq<FieldModel>) -> bool {
    forall|i: int| 0 <= i < l.len() ==> #[trigger] l[i].t == APN && l[i].ins == 0 && field_wf(l[i])
}

/// The nested fields fit the length field.
pub open spec fn overload_fits(x: OverloadControlInfoModel) -> bool {
    &&& fields_bytes(overload_inner(x)).len() <= 0xffff
    &&& x.list matches Some(l) ==> fields_wf(l)
}

pub open spec fn overload_wf(x: OverloadControlInfoModel) -> bool {
    &&& x.t == OVERLOAD_CNTRL
    &&& sqn_wf(x.sqn) && x.sqn.ins == 0
    &&& metric_wf(x.metric) && x.metric.ins == 0
    &&& epc_timer_wf(x.validity) && x.validity.ins == 0
    &&& x.list matches Some(l) ==> l.len() > 0 && apn_list_wf(l)
    &&& overload_fits(x)
    &&& x.length == fields_bytes(overload_inner(x)).len()
}

/// Once the scan has failed, it stays failed.
proof fn lemma_overload_scan_sticky(fs: Seq<FieldModel>, i: int)
    requires
        0 <= i <= fs.len(),
        overload_scan(fs.take(i)) is Err,
    ensures
        overload_scan(fs) == overload_scan(fs.take(i)),
    decreases fs.len() - i,
{
    if i < fs.len() {
        assert(fs.take(i + 1).drop_last() =~= fs.take(i));
        lemma_overload_scan_sticky(fs, i + 1);
    } else {
        assert(fs.take(i) =~= fs);
    }
}

/// Access point names after a prefix are appended to the prefix's list.
proof fn lemma_overload_scan_apns(p: Seq<FieldModel>, l: Seq<FieldModel>)
    requires
        overload_scan(p) is Ok,
        apn_list_wf(l),
    ensures
        overload_scan(p + l) == Ok::<OverloadScan, GTPV2Error>(
            OverloadScan { list: overload_scan(p)->Ok_0.list + l, ..overload_scan(p)->Ok_0 },
        ),
    decreases l.len(),
{
    let a = overload_scan(p)->Ok_0;
    if l.len() == 0 {
        assert(p + l =~= p);
        assert(a.list + l =~= a.list);
    } else {
        lemma_overload_scan_apns(p, l.drop_last());
        assert((p + l).drop_last() =~= p + l.drop_last());
        assert(l.last().t == APN && l.last().ins == 0);
        assert((a.list + l.drop_last()).push(l.last()) =~= a.list + l);
    }
}

proof fn lemma_fields_bytes_three(s: Seq<FieldModel>)
    requires
        s.len() == 3,
    ensures
        fields_bytes(s) == field_bytes(s[0]) + field_bytes(s[1]) + field_bytes(s[2]),
{
    let s1 = s.drop_first();
    let s2 = s1.drop_first();
    assert(s2.drop_first() =~= Seq::<FieldModel>::empty());
    assert(s2[0] == s[2]);
    assert(s2.drop_first() == Seq::<FieldModel>::empty());
    assert(fields_bytes(Seq::<FieldModel>::empty()) == Seq::<u8>::empty());
    assert(fields_bytes(s2) == field_bytes(s[2]) + Seq::<u8>::empty());
    assert(fields_bytes(s2) =~= field_bytes(s[2]));
    assert(fields_bytes(s1) == field_bytes(s[1]) + fields_bytes(s2));
    assert(fields_bytes(s) == field_bytes(s[0]) + fields_bytes(s1));
    assert(fields_bytes(s) =~= field_bytes(s[0]) + field_bytes(s[1]) + field_bytes(s[2]));
}

/// Scanning the three mandatory nested fields of a well-formed value finds them.
proof fn lemma_overload_scan_head(x: OverloadControlInfoModel)
    requires
        overload_wf(x),
    ensures
        overload_scan(seq![sqn_field(x.sqn), metric_field(x.metric), epc_timer_field(x.validity)])
            == Ok::<OverloadScan, GTPV2Error>(
            OverloadScan {
                sqn: Some(x.sqn),
                metric: Some(x.metric),
                validity: Some(x.validity),
                list: Seq::empty(),
            },
        ),
{
    let a = sqn_field(x.sqn);
    let b = metric_field(x.metric);
    let c = epc_timer_field(x.validity);
    lemma_sqn_round_trip(x.sqn);
    lemma_metric_round_trip(x.metric);
    lemma_epc_timer_round_trip(x.validity);
    let s1 = seq![a];
    let s2 = seq![a, b];
    let s3 = seq![a, b, c];
    assert(s1.drop_last() =~= Seq::<FieldModel>::empty());
    assert(s2.drop_last() =~= s1);
    assert(s3.drop_last() =~= s2);
    let e = OverloadScan { sqn: None, metric: None, validity: None, list: Seq::empty() };
    assert(overload_scan(Seq::<FieldModel>::empty()) == Ok::<OverloadScan, GTPV2Error>(e));
    assert(overload_scan(s1) == Ok::<OverloadScan, GTPV2Error>(OverloadScan { sqn: Some(x.sqn), ..e }));
    assert(overload_scan(s2) == Ok::<OverloadScan, GTPV2Error>(
        OverloadScan { sqn: Some(x.sqn), metric: Some(x.metric), ..e },
    ));
}

impl OverloadControlInfo {
    /// A copy of the value.
    pub fn duplicate(&self) -> (r: Self)
        ensures
            r@ == self@,
    {
        let list = match &self.list {
            Some(l) => Some(crate::ie::duplicate_fields(l)),
            None => None,
        };
        OverloadControlInfo {
            t: self.t,
            length: self.length,
            ins: self.ins,
            sqn: self.sqn,
            metric: self.metric,
            validity: self.validity,
            list,
        }
    }

    pub fn to_field(&self) -> (r: Ie)
        requires
            overload_fits(self@),
        ensures
            r@ == overload_field(self@),
    {
        let mut value: Vec<u8> = Vec::new();
        self.sqn.marshal(&mut value);
        self.metric.marshal(&mut value);
        self.validity.marshal(&mut value);
        let ghost head = seq![sqn_field(self.sqn), metric_field(self.metric), epc_timer_field(self.validity)];
        proof {
            lemma_fields_bytes_three(head);
            assert(value@ =~= fields_bytes(head));
        }
        let ghost tail: Seq<FieldModel> = match self@.list {
            Some(l) => l,
            None => Seq::empty(),
        };
        if let Some(l) = &self.list {
            encode_fields(l, &mut value);
        }
        proof {
            if self.list is None {
                assert(fields_bytes(tail) =~= Seq::<u8>::empty());
                assert(value@ =~= value@ + fields_bytes(tail));
            }
            lemma_fields_bytes_concat(head, tail);
        }
        Ie { t: self.t, ins: self.ins, value }
    }

    pub fn from_field(f: &Ie) -> (r: Result<Self, GTPV2Error>)
        ensures
            result_view(r) == overload_of(f@),
    {
        let fields = decode_fields(f.value.as_slice())?;
        let ghost fs = field_views(fields@);
        let mut sqn: Option<Sqn> = None;
        let mut metric: Option<Metric> = None;
        let mut validity: Option<EpcTimer> = None;
        let mut list: Vec<Ie> = Vec::new();
        let mut i: usize = 0;
        assert(fs.take(0) =~= Seq::<FieldModel>::empty());
        assert(field_views(list@) =~= Seq::<FieldModel>::empty());
        while i < fields.len()
            invariant
                i <= fields@.len(),
                fs == field_views(fields@),
                parse_fields(f@.value) == Ok::<Seq<FieldModel>, GTPV2Error>(fs),
                overload_scan(fs.take(i as int)) == Ok::<OverloadScan, GTPV2Error>(
                    OverloadScan { sqn, metric, validity, list: field_views(list@) },
                ),
            decreases fields@.len() - i,
        {
            let g = &fields[i];
            assert(fs.take(i + 1).drop_last() =~= fs.take(i as int));
            assert(fs.take(i + 1).last() == g@);
            assert(overload_scan(fs.take(i + 1)) == overload_step(overload_scan(fs.take(i as int)), g@));
            if g.t == SQN && g.ins == 0 && sqn.is_none() {
                match Sqn::from_field(g) {
                    Ok(x) => {
                        sqn = Some(x);
                    },
                    Err(e) => {
                        proof {
                            assert(overload_scan(fs.take(i + 1)) == Err::<OverloadScan, GTPV2Error>(e));
                            lemma_overload_scan_sticky(fs, i + 1);
                        }
                        return Err(e);
                    },
                }
            } else if g.t == METRIC && g.ins == 0 && metric.is_none() {
                match Metric::from_field(g) {
                    Ok(x) => {
                        metric = Some(x);
                    },
                    Err(e) => {
                        proof {
                            assert(overload_scan(fs.take(i + 1)) == Err::<OverloadScan, GTPV2Error>(e));
                            lemma_overload_scan_sticky(fs, i + 1);
                        }
                        return Err(e);
                    },
                }
            } else if g.t == EPC_TIMER && g.ins == 0 && validity.is_none() {
                match EpcTimer::from_field(g) {
                    Ok(x) => {
                        validity = Some(x);
                    },
                    Err(e) => {
                        proof {
                            assert(overload_scan(fs.take(i + 1)) == Err::<OverloadScan, GTPV2Error>(e));
                            lemma_overload_scan_sticky(fs, i + 1);
                        }
                        return Err(e);
                    },
                }
            } else if g.t == APN && g.ins == 0 {
                let ghost before = field_views(list@);
                list.push(g.duplicate());
                assert(field_views(list@) =~= before.push(g@));
            }
            i = i + 1;
        }
        assert(fs.take(i as int) =~= fs);
        match (sqn, metric, validity) {
            (Some(s), Some(m), Some(v)) => {
                let list = if list.len() == 0 {
                    None
                } else {
                    Some(list)
                };
                Ok(OverloadControlInfo {
                    t: OVERLOAD_CNTRL,
                    length: f.value.len() as u16,
                    ins: f.ins,
                    sqn: s,
                    metric: m,
                    validity: v,
                    list,
                })
            },
            _ => Err(GTPV2Error::IEIncorrect(OVERLOAD_CNTRL)),
        }
    }

    pub fn marshal(&self, buffer: &mut Vec<u8>)
        requires
            overload_fits(self@),
        ensures
            final(buffer)@ == old(buffer)@ + field_bytes(overload_field(self@)),
    {
        encode_field(&self.to_field(), buffer);
    }

    pub fn unmarshal(buffer: &[u8]) -> (r: Result<Self, GTPV2Error>)
        ensures
            front_fits(buffer@) ==> result_view(r) == overload_of(front_field(buffer@)),
            !front_fits(buffer@) ==> r == Err::<Self, GTPV2Error>(
                GTPV2Error::IEInvalidLength(OVERLOAD_CNTRL),
            ),
    {
        let f = front_or(buffer, OVERLOAD_CNTRL)?;
        Self::from_field(&f)
    }

    /// Bytes the field takes on the wire, header included.
    pub fn len(&self) -> (r: usize)
        ensures
            r == self.length + 4,
    {
        self.length as usize + 4
    }
}

pub proof fn lemma_overload_round_trip(x: OverloadControlInfoModel)
    requires
        overload_wf(x),
    ensures
        overload_of(overload_field(x)) == Ok::<OverloadControlInfoModel, GTPV2Error>(x),
        field_wf(overload_field(x)),
{
    let inner = overload_inner(x);
    let head = seq![sqn_field(x.sqn), metric_field(x.metric), epc_timer_field(x.validity)];
    let tail: Seq<FieldModel> = match x.list {
        Some(l) => l,
        None => Seq::empty(),
    };
    assert(fields_wf(inner)) by {
        assert forall|i: int| 0 <= i < inner.len() implies #[trigger] field_wf(inner[i]) by {
            if i >= 3 {
                assert(inner[i] == tail[i - 3]);
            }
        }
    }
    lemma_fields_round_trip(inner);
    lemma_overload_scan_head(x);
    assert(apn_list_wf(tail));
    lemma_overload_scan_apns(head, tail);
    assert(Seq::<FieldModel>::empty() + tail =~= tail);
}

} // verus!
