//! The catalog of field types: a lookup from type code to decoder, with a
//! generic variant that keeps fields of any other type as they came.

use vstd::prelude::*;
use crate::basic::{
    cause_field, cause_of, cause_wf, ebi_field, ebi_of, ebi_wf, epc_timer_field, epc_timer_of,
    epc_timer_wf, lemma_cause_round_trip, lemma_ebi_round_trip, lemma_epc_timer_round_trip,
    lemma_metric_round_trip, lemma_pti_round_trip, lemma_sqn_round_trip, metric_field, metric_of,
    metric_wf, pti_field, pti_of, pti_wf, sqn_field, sqn_of, sqn_wf, Cause, Ebi, EpcTimer, Metric, Pti,
    Sqn, CAUSE, EBI, EPC_TIMER, METRIC, PTI, SQN,
};
use crate::completereqmessage::{
    complete_req_msg_field, complete_req_msg_of, complete_req_msg_wf,
    lemma_complete_req_msg_round_trip, request_payload, CompleteRequestMessage,
    CompleteRequestMessageModel, COMPLETE_REQ_MSG,
};
use crate::error::GTPV2Error;
use crate::ie::{
    decode_fields, encode_field, field_bytes, field_views, field_wf, fields_bytes, parse_fields,
    result_view, FieldModel, Ie,
};
use crate::overload::{
    lemma_overload_round_trip, overload_field, overload_fits, overload_of, overload_wf,
    OverloadControlInfo, OverloadControlInfoModel, OVERLOAD_CNTRL,
};
use crate::pagingserviceinfo::{
    lemma_paging_service_info_round_trip, paging_service_info_field, paging_service_info_of,
    paging_service_info_wf, PagingServiceInfo, PAGING_SRVC_INFO,
};
use crate::privateextension::{
    lemma_private_ext_round_trip, private_ext_field, private_ext_of, private_ext_wf,
    PrivateExtension, PrivateExtensionModel, PRIVATE_EXT,
};
use crate::tad::{lemma_tad_round_trip, tad_field, tad_of, tad_wf, TadModel, TrafficAggregateDescription, TAD};

verus! {

/// A decoded field.
#[derive(Debug, Clone, PartialEq)]
pub enum InformationElement {
    Cause(Cause),
    Ebi(Ebi),
    Pti(Pti),
    Sqn(Sqn),
    Metric(Metric),
    EpcTimer(EpcTimer),
    OverloadControlInfo(OverloadControlInfo),
    PrivateExtension(PrivateExtension),
    TrafficAggregateDescription(TrafficAggregateDescription),
    PagingServiceInfo(PagingServiceInfo),
    CompleteRequestMessage(CompleteRequestMessage),
    /// A field of a type the catalog does not model, kept byte for byte.
    Unknown(Ie),
}

/// The mathematical value of an [`InformationElement`].
pub enum IeModel {
    Cause(Cause),
    Ebi(Ebi),
    Pti(Pti),
    Sqn(Sqn),
    Metric(Metric),
    EpcTimer(EpcTimer),
    OverloadControlInfo(OverloadControlInfoModel),
    PrivateExtension(PrivateExtensionModel),
    TrafficAggregateDescription(TadModel),
    PagingServiceInfo(PagingServiceInfo),
    CompleteRequestMessage(CompleteRequestMessageModel),
    Unknown(FieldModel),
}

impl View for InformationElement {
    type V = IeModel;

    open spec fn view(&self) -> IeModel {
        match self {
            InformationElement::Cause(x) => IeModel::Cause(*x),
            InformationElement::Ebi(x) => IeModel::Ebi(*x),
            InformationElement::Pti(x) => IeModel::Pti(*x),
            InformationElement::Sqn(x) => IeModel::Sqn(*x),
            InformationElement::Metric(x) => IeModel::Metric(*x),
            InformationElement::EpcTimer(x) => IeModel::EpcTimer(*x),
            InformationElement::OverloadControlInfo(x) => IeModel::OverloadControlInfo(x@),
            InformationElement::PrivateExtension(x) => IeModel::PrivateExtension(x@),
            InformationElement::TrafficAggregateDescription(x) => IeModel::TrafficAggregateDescription(x@),
            InformationElement::PagingServiceInfo(x) => IeModel::PagingServiceInfo(*x),
            InformationElement::CompleteRequestMessage(x) => IeModel::CompleteRequestMessage(x@),
            InformationElement::Unknown(x) => IeModel::Unknown(x@),
        }
    }
}

/// The models of a sequence of decoded fields.
pub open spec fn ie_views(v: Seq<InformationElement>) -> Seq<IeModel> {
    v.map_values(|e: InformationElement| e@)
}

/// Type codes with a decoder of their own.
pub open spec fn known_type(t: u8) -> bool {
    t == CAUSE || t == EBI || t == PTI || t == SQN || t == METRIC || t == EPC_TIMER || t
        == OVERLOAD_CNTRL || t == PRIVATE_EXT || t == TAD || t == PAGING_SRVC_INFO || t
        == COMPLETE_REQ_MSG
}

/// The decoder that the field's type code selects; a field of any other type
/// becomes [`IeModel::Unknown`] and never fails.
pub open spec fn ie_of(f: FieldModel) -> Result<IeModel, GTPV2Error> {
    if f.t == CAUSE {
        match cause_of(f) { Ok(x) => Ok(IeModel::Cause(x)), Err(e) => Err(e) }
    } else if f.t == EBI {
        match ebi_of(f) { Ok(x) => Ok(IeModel::Ebi(x)), Err(e) => Err(e) }
    } else if f.t == PTI {
        match pti_of(f) { Ok(x) => Ok(IeModel::Pti(x)), Err(e) => Err(e) }
    } else if f.t == SQN {
        match sqn_of(f) { Ok(x) => Ok(IeModel::Sqn(x)), Err(e) => Err(e) }
    } else if f.t == METRIC {
        match metric_of(f) { Ok(x) => Ok(IeModel::Metric(x)), Err(e) => Err(e) }
    } else if f.t == EPC_TIMER {
        match epc_timer_of(f) { Ok(x) => Ok(IeModel::EpcTimer(x)), Err(e) => Err(e) }
    } else if f.t == OVERLOAD_CNTRL {
        match overload_of(f) { Ok(x) => Ok(IeModel::OverloadControlInfo(x)), Err(e) => Err(e) }
    } else if f.t == PRIVATE_EXT {
        match private_ext_of(f) { Ok(x) => Ok(IeModel::PrivateExtension(x)), Err(e) => Err(e) }
    } else if f.t == TAD {
        match tad_of(f) { Ok(x) => Ok(IeModel::TrafficAggregateDescription(x)), Err(e) => Err(e) }
    } else if f.t == PAGING_SRVC_INFO {
        match paging_service_info_of(f) { Ok(x) => Ok(IeModel::PagingServiceInfo(x)), Err(e) => Err(e) }
    } else if f.t == COMPLETE_REQ_MSG {
        match complete_req_msg_of(f) { Ok(x) => Ok(IeModel::CompleteRequestMessage(x)), Err(e) => Err(e) }
    } else {
        Ok(IeModel::Unknown(f))
    }
}

/// The field a decoded value is written as.
pub open spec fn ie_field(e: IeModel) -> FieldModel {
    match e {
        IeModel::Cause(x) => cause_field(x),
        IeModel::Ebi(x) => ebi_field(x),
        IeModel::Pti(x) => pti_field(x),
        IeModel::Sqn(x) => sqn_field(x),
        IeModel::Metric(x) => metric_field(x),
        IeModel::EpcTimer(x) => epc_timer_field(x),
        IeModel::OverloadControlInfo(x) => overload_field(x),
        IeModel::PrivateExtension(x) => private_ext_field(x),
        IeModel::TrafficAggregateDescription(x) => tad_field(x),
        IeModel::PagingServiceInfo(x) => paging_service_info_field(x),
        IeModel::CompleteRequestMessage(x) => complete_req_msg_field(x),
        IeModel::Unknown(f) => f,
    }
}

pub open spec fn ie_fields(es: Seq<IeModel>) -> Seq<FieldModel> {
    es.map_values(|e: IeModel| ie_field(e))
}

/// The payload of the value fits the length field.
pub open spec fn ie_fits(e: IeModel) -> bool {
    match e {
        IeModel::OverloadControlInfo(x) => overload_fits(x),
        IeModel::PrivateExtension(x) => x.value.len() + 2 <= 0xffff,
        IeModel::TrafficAggregateDescription(x) => x.tad.len() <= 0xffff,
        IeModel::CompleteRequestMessage(x) => request_payload(x.message).len() <= 0xffff,
        IeModel::Unknown(f) => field_wf(f),
        _ => true,
    }
}

pub open spec fn ies_fit(es: Seq<IeModel>) -> bool {
    forall|i: int| 0 <= i < es.len() ==> #[trigger] ie_fits(es[i])
}

/// A value that decoding its own field gives back.
pub open spec fn ie_wf(e: IeModel) -> bool {
    match e {
        IeModel::Cause(x) => cause_wf(x),
        IeModel::Ebi(x) => ebi_wf(x),
        IeModel::Pti(x) => pti_wf(x),
        IeModel::Sqn(x) => sqn_wf(x),
        IeModel::Metric(x) => metric_wf(x),
        IeModel::EpcTimer(x) => epc_timer_wf(x),
        IeModel::OverloadControlInfo(x) => overload_wf(x),
        IeModel::PrivateExtension(x) => private_ext_wf(x),
        IeModel::TrafficAggregateDescription(x) => tad_wf(x),
        IeModel::PagingServiceInfo(x) => paging_service_info_wf(x),
        IeModel::CompleteRequestMessage(x) => complete_req_msg_wf(x),
        IeModel::Unknown(f) => field_wf(f) && !known_type(f.t),
    }
}

pub open spec fn ies_wf(es: Seq<IeModel>) -> bool {
    forall|i: int| 0 <= i < es.len() ==> #[trigger] ie_wf(es[i])
}

pub proof fn lemma_ies_wf_concat(a: Seq<IeModel>, b: Seq<IeModel>)
    requires
        ies_wf(a),
        ies_wf(b),
    ensures
        ies_wf(a + b),
{
    assert forall|i: int| 0 <= i < (a + b).len() implies #[trigger] ie_wf((a + b)[i]) by {
        if i < a.len() {
            assert(ie_wf(a[i]));
        } else {
            assert(ie_wf(b[i - a.len()]));
        }
    }
}

pub proof fn lemma_ies_wf_fit(es: Seq<IeModel>)
    requires
        ies_wf(es),
    ensures
        ies_fit(es),
{
    assert forall|i: int| 0 <= i < es.len() implies #[trigger] ie_fits(es[i]) by {
        assert(ie_wf(es[i]));
    }
}

/// Overload reports as decoded fields.
pub open spec fn overload_elements(l: Seq<OverloadControlInfoModel>) -> Seq<IeModel> {
    l.map_values(|x: OverloadControlInfoModel| IeModel::OverloadControlInfo(x))
}

/// Private extensions as decoded fields.
pub open spec fn private_ext_elements(l: Seq<PrivateExtensionModel>) -> Seq<IeModel> {
    l.map_values(|x: PrivateExtensionModel| IeModel::PrivateExtension(x))
}

/// Fields carried whole, as decoded fields.
pub open spec fn unknown_elements(l: Seq<FieldModel>) -> Seq<IeModel> {
    l.map_values(|x: FieldModel| IeModel::Unknown(x))
}

/// The models of a sequence of overload reports.
pub open spec fn overload_views(v: Seq<OverloadControlInfo>) -> Seq<OverloadControlInfoModel> {
    v.map_values(|x: OverloadControlInfo| x@)
}

/// The models of a sequence of private extensions.
pub open spec fn private_ext_views(v: Seq<PrivateExtension>) -> Seq<PrivateExtensionModel> {
    v.map_values(|x: PrivateExtension| x@)
}

/// Appends an optional field carried whole.
pub fn push_opt_unknown(elements: &mut Vec<InformationElement>, o: &Option<Ie>)
    ensures
        ie_views(final(elements)@) == ie_views(old(elements)@) + crate::reconcile::opt_unknown(
            crate::ie::opt_field_view(*o),
        ),
{
    if let Some(x) = o {
        elements.push(InformationElement::Unknown(x.duplicate()));
    }
    assert(ie_views(elements@) =~= ie_views(old(elements)@) + crate::reconcile::opt_unknown(
        crate::ie::opt_field_view(*o),
    ));
}

/// Appends an optional bearer identifier.
pub fn push_opt_ebi(elements: &mut Vec<InformationElement>, o: &Option<Ebi>)
    ensures
        ie_views(final(elements)@) == ie_views(old(elements)@) + crate::reconcile::opt_ebi(*o),
{
    if let Some(x) = o {
        elements.push(InformationElement::Ebi(*x));
    }
    assert(ie_views(elements@) =~= ie_views(old(elements)@) + crate::reconcile::opt_ebi(*o));
}

/// Appends an optional traffic aggregate description.
pub fn push_opt_tad(elements: &mut Vec<InformationElement>, o: &Option<TrafficAggregateDescription>)
    ensures
        ie_views(final(elements)@) == ie_views(old(elements)@) + crate::reconcile::opt_tad(
            match *o {
                Some(x) => Some(x@),
                None => None,
            },
        ),
{
    if let Some(x) = o {
        elements.push(InformationElement::TrafficAggregateDescription(x.duplicate()));
    }
    assert(ie_views(elements@) =~= ie_views(old(elements)@) + crate::reconcile::opt_tad(
        match *o {
            Some(x) => Some(x@),
            None => None,
        },
    ));
}

/// Appends overload reports in order.
pub fn push_overloads(elements: &mut Vec<InformationElement>, l: &Vec<OverloadControlInfo>)
    ensures
        ie_views(final(elements)@) == ie_views(old(elements)@) + overload_elements(overload_views(l@)),
{
    let ghost pre = ie_views(elements@);
    let ghost piece = overload_elements(overload_views(l@));
    let mut i: usize = 0;
    while i < l.len()
        invariant
            i <= l@.len(),
            piece == overload_elements(overload_views(l@)),
            ie_views(elements@) == pre + piece.take(i as int),
        decreases l@.len() - i,
    {
        let ghost before = ie_views(elements@);
        let x = l[i].duplicate();
        elements.push(InformationElement::OverloadControlInfo(x));
        assert(piece.take(i + 1) =~= piece.take(i as int).push(IeModel::OverloadControlInfo(x@)));
        assert(ie_views(elements@) =~= before.push(IeModel::OverloadControlInfo(x@)));
        i = i + 1;
    }
    assert(piece.take(i as int) =~= piece);
}

/// Appends private extensions in order.
pub fn push_private_exts(elements: &mut Vec<InformationElement>, l: &Vec<PrivateExtension>)
    ensures
        ie_views(final(elements)@) == ie_views(old(elements)@) + private_ext_elements(private_ext_views(l@)),
{
    let ghost pre = ie_views(elements@);
    let ghost piece = private_ext_elements(private_ext_views(l@));
    let mut i: usize = 0;
    while i < l.len()
        invariant
            i <= l@.len(),
            piece == private_ext_elements(private_ext_views(l@)),
            ie_views(elements@) == pre + piece.take(i as int),
        decreases l@.len() - i,
    {
        let ghost before = ie_views(elements@);
        let x = l[i].duplicate();
        elements.push(InformationElement::PrivateExtension(x));
        assert(piece.take(i + 1) =~= piece.take(i as int).push(IeModel::PrivateExtension(x@)));
        assert(ie_views(elements@) =~= before.push(IeModel::PrivateExtension(x@)));
        i = i + 1;
    }
    assert(piece.take(i as int) =~= piece);
}

/// Appends fields carried whole, in order.
pub fn push_unknowns(elements: &mut Vec<InformationElement>, l: &Vec<Ie>)
    ensures
        ie_views(final(elements)@) == ie_views(old(elements)@) + unknown_elements(field_views(l@)),
{
    let ghost pre = ie_views(elements@);
    let ghost piece = unknown_elements(field_views(l@));
    let mut i: usize = 0;
    while i < l.len()
        invariant
            i <= l@.len(),
            piece == unknown_elements(field_views(l@)),
            ie_views(elements@) == pre + piece.take(i as int),
        decreases l@.len() - i,
    {
        let ghost before = ie_views(elements@);
        let x = l[i].duplicate();
        elements.push(InformationElement::Unknown(x));
        assert(piece.take(i + 1) =~= piece.take(i as int).push(IeModel::Unknown(x@)));
        assert(ie_views(elements@) =~= before.push(IeModel::Unknown(x@)));
        i = i + 1;
    }
    assert(piece.take(i as int) =~= piece);
}

/// The decoded values of `fs` in order, or the error of the first that fails.
pub open spec fn ies_of(fs: Seq<FieldModel>) -> Result<Seq<IeModel>, GTPV2Error>
    decreases fs.len(),
{
    if fs.len() == 0 {
        Ok(Seq::empty())
    } else {
        match ies_of(fs.drop_last()) {
            Err(e) => Err(e),
            Ok(p) => match ie_of(fs.last()) {
                Ok(x) => Ok(p.push(x)),
                Err(e) => Err(e),
            },
        }
    }
}

/// The decoded fields that fill `s`.
pub open spec fn parse_ies(s: Seq<u8>) -> Result<Seq<IeModel>, GTPV2Error> {
    match parse_fields(s) {
        Err(e) => Err(e),
        Ok(fs) => ies_of(fs),
    }
}

pub proof fn lemma_ie_round_trip(e: IeModel)
    requires
        ie_wf(e),
    ensures
        ie_of(ie_field(e)) == Ok::<IeModel, GTPV2Error>(e),
        field_wf(ie_field(e)),
{
    match e {
        IeModel::Cause(x) => lemma_cause_round_trip(x),
        IeModel::Ebi(x) => lemma_ebi_round_trip(x),
        IeModel::Pti(x) => lemma_pti_round_trip(x),
        IeModel::Sqn(x) => lemma_sqn_round_trip(x),
        IeModel::Metric(x) => lemma_metric_round_trip(x),
        IeModel::EpcTimer(x) => lemma_epc_timer_round_trip(x),
        IeModel::OverloadControlInfo(x) => lemma_overload_round_trip(x),
        IeModel::PrivateExtension(x) => lemma_private_ext_round_trip(x),
        IeModel::TrafficAggregateDescription(x) => lemma_tad_round_trip(x),
        IeModel::PagingServiceInfo(x) => lemma_paging_service_info_round_trip(x),
        IeModel::CompleteRequestMessage(x) => lemma_complete_req_msg_round_trip(x),
        IeModel::Unknown(f) => {},
    }
}

/// Decoding the fields of well-formed values gives the same values back.
pub proof fn lemma_ies_round_trip(es: Seq<IeModel>)
    requires
        ies_wf(es),
    ensures
        ies_of(ie_fields(es)) == Ok::<Seq<IeModel>, GTPV2Error>(es),
    decreases es.len(),
{
    if es.len() == 0 {
        assert(ie_fields(es) =~= Seq::<FieldModel>::empty());
        assert(es =~= Seq::<IeModel>::empty());
    } else {
        let fs = ie_fields(es);
        assert(fs.drop_last() =~= ie_fields(es.drop_last()));
        assert(ies_wf(es.drop_last())) by {
            assert forall|i: int| 0 <= i < es.drop_last().len() implies #[trigger] ie_wf(es.drop_last()[i]) by {
                assert(ie_wf(es[i]));
            }
        }
        lemma_ies_round_trip(es.drop_last());
        assert(ie_wf(es[es.len() - 1]));
        lemma_ie_round_trip(es.last());
        assert(es.drop_last().push(es.last()) =~= es);
    }
}

impl InformationElement {
    /// Decodes a field by the decoder its type code selects.
    pub fn from_field(f: &Ie) -> (r: Result<Self, GTPV2Error>)
        ensures
            result_view(r) == ie_of(f@),
    {
        let t = f.t;
        if t == CAUSE {
            Ok(InformationElement::Cause(Cause::from_field(f)?))
        } else if t == EBI {
            Ok(InformationElement::Ebi(Ebi::from_field(f)?))
        } else if t == PTI {
            Ok(InformationElement::Pti(Pti::from_field(f)?))
        } else if t == SQN {
            Ok(InformationElement::Sqn(Sqn::from_field(f)?))
        } else if t == METRIC {
            Ok(InformationElement::Metric(Metric::from_field(f)?))
        } else if t == EPC_TIMER {
            Ok(InformationElement::EpcTimer(EpcTimer::from_field(f)?))
        } else if t == OVERLOAD_CNTRL {
            Ok(InformationElement::OverloadControlInfo(OverloadControlInfo::from_field(f)?))
        } else if t == PRIVATE_EXT {
            Ok(InformationElement::PrivateExtension(PrivateExtension::from_field(f)?))
        } else if t == TAD {
            Ok(InformationElement::TrafficAggregateDescription(TrafficAggregateDescription::from_field(f)?))
        } else if t == PAGING_SRVC_INFO {
            Ok(InformationElement::PagingServiceInfo(PagingServiceInfo::from_field(f)?))
        } else if t == COMPLETE_REQ_MSG {
            Ok(InformationElement::CompleteRequestMessage(CompleteRequestMessage::from_field(f)?))
        } else {
            Ok(InformationElement::Unknown(f.duplicate()))
        }
    }

    /// The field the value is written as.
    pub fn to_field(&self) -> (r: Ie)
        requires
            ie_fits(self@),
        ensures
            r@ == ie_field(self@),
    {
        match self {
            InformationElement::Cause(x) => x.to_field(),
            InformationElement::Ebi(x) => x.to_field(),
            InformationElement::Pti(x) => x.to_field(),
            InformationElement::Sqn(x) => x.to_field(),
            InformationElement::Metric(x) => x.to_field(),
            InformationElement::EpcTimer(x) => x.to_field(),
            InformationElement::OverloadControlInfo(x) => x.to_field(),
            InformationElement::PrivateExtension(x) => x.to_field(),
            InformationElement::TrafficAggregateDescription(x) => x.to_field(),
            InformationElement::PagingServiceInfo(x) => x.to_field(),
            InformationElement::CompleteRequestMessage(x) => x.to_field(),
            InformationElement::Unknown(x) => x.duplicate(),
        }
    }

    /// Appends the value's field.
    pub fn marshal(&self, buffer: &mut Vec<u8>)
        requires
            ie_fits(self@),
        ensures
            final(buffer)@ == old(buffer)@ + field_bytes(ie_field(self@)),
    {
        let f = self.to_field();
        encode_field(&f, buffer);
    }

    /// Decodes every field that fills `buffer`, each by its type's decoder.
    pub fn decoder(buffer: &[u8]) -> (r: Result<Vec<InformationElement>, GTPV2Error>)
        ensures
            match r {
                Ok(v) => parse_ies(buffer@) == Ok::<Seq<IeModel>, GTPV2Error>(ie_views(v@)),
                Err(e) => parse_ies(buffer@) == Err::<Seq<IeModel>, GTPV2Error>(e),
            },
    {
        let fields = decode_fields(buffer)?;
        let ghost fs = field_views(fields@);
        let mut out: Vec<InformationElement> = Vec::new();
        let mut i: usize = 0;
        assert(fs.take(0) =~= Seq::<FieldModel>::empty());
        assert(ie_views(out@) =~= Seq::<IeModel>::empty());
        while i < fields.len()
            invariant
                i <= fields@.len(),
                fs == field_views(fields@),
                parse_fields(buffer@) == Ok::<Seq<FieldModel>, GTPV2Error>(fs),
                ies_of(fs.take(i as int)) == Ok::<Seq<IeModel>, GTPV2Error>(ie_views(out@)),
            decreases fields@.len() - i,
        {
            assert(fs.take(i + 1).drop_last() =~= fs.take(i as int));
            assert(fs.take(i + 1).last() == fields@[i as int]@);
            match InformationElement::from_field(&fields[i]) {
                Ok(e) => {
                    let ghost before = ie_views(out@);
                    out.push(e);
                    assert(ie_views(out@) =~= before.push(e@));
                },
                Err(e) => {
                    proof {
                        lemma_ies_sticky(fs, i + 1);
                    }
                    return Err(e);
                },
            }
            i = i + 1;
        }
        assert(fs.take(i as int) =~= fs);
        Ok(out)
    }
}

impl From<CompleteRequestMessage> for InformationElement {
    fn from(i: CompleteRequestMessage) -> Self {
        InformationElement::CompleteRequestMessage(i)
    }
}

impl vstd::std_specs::convert::FromSpecImpl<CompleteRequestMessage> for InformationElement {
    open spec fn obeys_from_spec() -> bool {
        true
    }

    open spec fn from_spec(i: CompleteRequestMessage) -> Self {
        InformationElement::CompleteRequestMessage(i)
    }
}

impl From<PagingServiceInfo> for InformationElement {
    fn from(i: PagingServiceInfo) -> Self {
        InformationElement::PagingServiceInfo(i)
    }
}

impl vstd::std_specs::convert::FromSpecImpl<PagingServiceInfo> for InformationElement {
    open spec fn obeys_from_spec() -> bool {
        true
    }

    open spec fn from_spec(i: PagingServiceInfo) -> Self {
        InformationElement::PagingServiceInfo(i)
    }
}

/// Once decoding has failed, it stays failed.
proof fn lemma_ies_sticky(fs: Seq<FieldModel>, i: int)
    requires
        0 <= i <= fs.len(),
        ies_of(fs.take(i)) is Err,
    ensures
        ies_of(fs) == ies_of(fs.take(i)),
    decreases fs.len() - i,
{
    if i < fs.len() {
        assert(fs.take(i + 1).drop_last() =~= fs.take(i));
        lemma_ies_sticky(fs, i + 1);
    } else {
        assert(fs.take(i) =~= fs);
    }
}

} // verus!
