//! Bearer resource failure indication.

use vstd::prelude::*;
use crate::basic::{cause_wf, default_cause, default_ebi, default_pti, ebi_wf, pti_wf, Cause, Ebi, Pti, CAUSE, EBI, PTI};
use crate::catalog::{
    ie_fields, ie_views, ie_wf, ies_wf, lemma_ies_wf_concat, lemma_ies_wf_fit, overload_elements,
    overload_views, private_ext_elements, private_ext_views, push_opt_ebi, push_opt_tad, push_opt_unknown,
    push_overloads, push_private_exts, IeModel, InformationElement,
};
use crate::error::GTPV2Error;
use crate::header::{
    decode_message, encode_message, envelope_bytes, envelope_fits, envelope_of, framed_header, header_len,
    header_wf, lemma_envelope_round_trip, Gtpv2Header,
};
use crate::ie::{fields_bytes, opt_field_view, result_view, FieldModel, Ie};
use crate::overload::{overload_wf, OverloadControlInfo, OverloadControlInfoModel};
use crate::privateextension::{private_ext_wf, PrivateExtension, PrivateExtensionModel};
use crate::reconcile::{
    lemma_fold_concat, lemma_fold_one, lemma_opt_unknown_wf, opt_unknown, slot_wf, FCONTAINER,
    INDICATION, RECOVERY,
};

verus! {

pub const BEARER_RSRC_FAIL: u8 = 69;

/// Bearer resource failure indication.
#[derive(Debug, Clone, PartialEq)]
pub struct BearerResourceFailureInd {
    pub header: Gtpv2Header,
    pub cause: Cause,
    pub linked_ebi: Ebi,
    pub pti: Pti,
    pub indication: Option<Ie>,
    pub overload_info: Vec<OverloadControlInfo>,
    pub recovery: Option<Ie>,
    pub nbifom: Option<Ie>,
    pub private_ext: Vec<PrivateExtension>,
}

/// The mathematical value of a [`BearerResourceFailureInd`].
pub struct BearerResourceFailureIndModel {
    pub header: Gtpv2Header,
    pub cause: Cause,
    pub linked_ebi: Ebi,
    pub pti: Pti,
    pub indication: Option<FieldModel>,
    pub overload_info: Seq<OverloadControlInfoModel>,
    pub recovery: Option<FieldModel>,
    pub nbifom: Option<FieldModel>,
    pub private_ext: Seq<PrivateExtensionModel>,
}

impl View for BearerResourceFailureInd {
    type V = BearerResourceFailureIndModel;

    open spec fn view(&self) -> BearerResourceFailureIndModel {
        BearerResourceFailureIndModel {
            header: self.header,
            cause: self.cause,
            linked_ebi: self.linked_ebi,
            pti: self.pti,
            indication: opt_field_view(self.indication),
            overload_info: overload_views(self.overload_info@),
            recovery: opt_field_view(self.recovery),
            nbifom: opt_field_view(self.nbifom),
            private_ext: private_ext_views(self.private_ext@),
        }
    }
}

/// The message's fields in the order they are written: mandatory ones, then
/// optional and repeated ones in declaration order, private extensions last.
pub open spec fn brfi_elements(m: BearerResourceFailureIndModel) -> Seq<IeModel> {
    seq![IeModel::Cause(m.cause), IeModel::Ebi(m.linked_ebi), IeModel::Pti(m.pti)] + brfi_rest(m)
}

/// The fields of a message after its mandatory ones.
pub open spec fn brfi_rest(m: BearerResourceFailureIndModel) -> Seq<IeModel> {
    opt_unknown(m.indication)
        + overload_elements(m.overload_info)
        + opt_unknown(m.recovery)
        + opt_unknown(m.nbifom)
        + private_ext_elements(m.private_ext)
}

/// The bytes of the message.
pub open spec fn brfi_bytes(m: BearerResourceFailureIndModel) -> Seq<u8> {
    envelope_bytes(m.header, brfi_elements(m))
}

/// The message being filled in, and which mandatory fields were seen.
pub struct BearerResourceFailureIndScan {
    pub msg: BearerResourceFailureIndModel,
    pub cause_seen: bool,
    pub ebi_seen: bool,
    pub pti_seen: bool,
}

/// Places one decoded field. Cause, bearer identifier and transaction
/// identifier, and the optional fields, take the first occurrence at
/// instance 0; overload reports at instances 0 and 1 and every private
/// extension are appended; everything else is passed over.
pub open spec fn brfi_step(a: BearerResourceFailureIndScan, e: IeModel) -> BearerResourceFailureIndScan {
    match e {
        IeModel::Cause(x) => if x.ins == 0 && !a.cause_seen {
                BearerResourceFailureIndScan { msg: BearerResourceFailureIndModel { cause: x, ..a.msg }, cause_seen: true, ..a }
            } else {
                a
            },
        IeModel::Ebi(x) => if x.ins == 0 && !a.ebi_seen {
                BearerResourceFailureIndScan { msg: BearerResourceFailureIndModel { linked_ebi: x, ..a.msg }, ebi_seen: true, ..a }
            } else {
                a
            },
        IeModel::Pti(x) => if x.ins == 0 && !a.pti_seen {
                BearerResourceFailureIndScan { msg: BearerResourceFailureIndModel { pti: x, ..a.msg }, pti_seen: true, ..a }
            } else {
                a
            },
        IeModel::OverloadControlInfo(x) => if x.ins < 2 {
                BearerResourceFailureIndScan { msg: BearerResourceFailureIndModel { overload_info: a.msg.overload_info.push(x), ..a.msg }, ..a }
            } else {
                a
            },
        IeModel::PrivateExtension(x) => BearerResourceFailureIndScan { msg: BearerResourceFailureIndModel { private_ext: a.msg.private_ext.push(x), ..a.msg }, ..a },
        IeModel::Unknown(f) => if f.t == INDICATION && f.ins == 0 && a.msg.indication is None {
                BearerResourceFailureIndScan { msg: BearerResourceFailureIndModel { indication: Some(f), ..a.msg }, ..a }
            } else if f.t == RECOVERY && f.ins == 0 && a.msg.recovery is None {
                BearerResourceFailureIndScan { msg: BearerResourceFailureIndModel { recovery: Some(f), ..a.msg }, ..a }
            } else if f.t == FCONTAINER && f.ins == 0 && a.msg.nbifom is None {
                BearerResourceFailureIndScan { msg: BearerResourceFailureIndModel { nbifom: Some(f), ..a.msg }, ..a }
            } else {
                a
            },
        _ => a,
    }
}

pub open spec fn brfi_step_fn() -> spec_fn(BearerResourceFailureIndScan, IeModel) -> BearerResourceFailureIndScan {
    |a: BearerResourceFailureIndScan, e: IeModel| brfi_step(a, e)
}

/// The scan of `es`, in order, starting from `start` with no mandatory field seen.
pub open spec fn brfi_scan(start: BearerResourceFailureIndModel, es: Seq<IeModel>) -> BearerResourceFailureIndScan {
    es.fold_left(BearerResourceFailureIndScan { msg: start, cause_seen: false, ebi_seen: false, pti_seen: false }, brfi_step_fn())
}

/// The message the fields fill in, or the first missing mandatory field in
/// the order cause, bearer identifier, transaction identifier.
pub open spec fn brfi_reconcile(start: BearerResourceFailureIndModel, es: Seq<IeModel>) -> Result<BearerResourceFailureIndModel, GTPV2Error> {
    let s = brfi_scan(start, es);
    if !s.cause_seen {
        Err(GTPV2Error::MessageMandatoryIEMissing(CAUSE))
    } else if !s.ebi_seen {
        Err(GTPV2Error::MessageMandatoryIEMissing(EBI))
    } else if !s.pti_seen {
        Err(GTPV2Error::MessageMandatoryIEMissing(PTI))
    } else {
        Ok(s.msg)
    }
}

/// The empty message with header `h`.
pub open spec fn brfi_empty(h: Gtpv2Header) -> BearerResourceFailureIndModel {
    BearerResourceFailureIndModel {
        header: h,
        cause: default_cause(),
        linked_ebi: default_ebi(),
        pti: default_pti(),
        indication: None,
        overload_info: Seq::empty(),
        recovery: None,
        nbifom: None,
        private_ext: Seq::empty(),
    }
}

/// The message that `s` holds.
pub open spec fn brfi_of(s: Seq<u8>) -> Result<BearerResourceFailureIndModel, GTPV2Error> {
    match envelope_of(s, BEARER_RSRC_FAIL) {
        Err(e) => Err(e),
        Ok((h, es)) => brfi_reconcile(brfi_empty(h), es),
    }
}

impl Default for BearerResourceFailureInd {
    fn default() -> (r: Self)
        ensures
            r@ == brfi_empty(
                Gtpv2Header {
                    msgtype: BEARER_RSRC_FAIL,
                    piggyback: false,
                    message_prio: None,
                    length: 0,
                    teid: Some(0),
                    sqn: 0,
                },
            ),
    {
        let mut hdr = Gtpv2Header::default();
        hdr.msgtype = BEARER_RSRC_FAIL;
        hdr.teid = Some(0);
        let r = BearerResourceFailureInd {
            header: hdr,
            cause: Cause::default(),
            linked_ebi: Ebi::default(),
            pti: Pti::default(),
            indication: None,
            overload_info: Vec::new(),
            recovery: None,
            nbifom: None,
            private_ext: Vec::new(),
        };
        assert(r@.overload_info =~= Seq::<OverloadControlInfoModel>::empty());
        assert(r@.private_ext =~= Seq::<PrivateExtensionModel>::empty());
        r
    }
}

/// A message that encodes and decodes back to itself: each field decodes
/// back to itself and sits where decoding puts it, and the header's length
/// counts the encoded fields.
pub open spec fn brfi_wf(m: BearerResourceFailureIndModel) -> bool {
    &&& header_wf(m.header)
    &&& m.header.msgtype == BEARER_RSRC_FAIL
    &&& m.header.length == header_len(m.header) - 4 + fields_bytes(ie_fields(brfi_elements(m))).len()
    &&& cause_wf(m.cause) && m.cause.ins == 0
    &&& ebi_wf(m.linked_ebi) && m.linked_ebi.ins == 0
    &&& pti_wf(m.pti) && m.pti.ins == 0
    &&& slot_wf(m.indication, INDICATION, 0)
    &&& forall|i: int| #![trigger m.overload_info[i]] 0 <= i < m.overload_info.len() ==> overload_wf(m.overload_info[i]) && m.overload_info[i].ins < 2
    &&& slot_wf(m.recovery, RECOVERY, 0)
    &&& slot_wf(m.nbifom, FCONTAINER, 0)
    &&& forall|i: int| #![trigger m.private_ext[i]] 0 <= i < m.private_ext.len() ==> private_ext_wf(m.private_ext[i])
}

proof fn lemma_brfi_elements_wf(m: BearerResourceFailureIndModel)
    requires
        brfi_wf(m),
    ensures
        ies_wf(brfi_elements(m)),
        envelope_fits(m.header, brfi_elements(m)),
        framed_header(m.header, fields_bytes(ie_fields(brfi_elements(m)))) == m.header,
{
    let h = seq![IeModel::Cause(m.cause), IeModel::Ebi(m.linked_ebi), IeModel::Pti(m.pti)];
    assert(ies_wf(h)) by {
        assert(ie_wf(h[0]) && ie_wf(h[1]) && ie_wf(h[2]));
    }
    let p0 = opt_unknown(m.indication);
    lemma_opt_unknown_wf(m.indication, INDICATION, 0);
    let p1 = overload_elements(m.overload_info);
    assert(ies_wf(p1)) by {
        assert forall|i: int| 0 <= i < p1.len() implies #[trigger] ie_wf(p1[i]) by {
            assert(overload_wf(m.overload_info[i]));
        }
    }
    lemma_ies_wf_concat(p0, p1);
    let p2 = opt_unknown(m.recovery);
    lemma_opt_unknown_wf(m.recovery, RECOVERY, 0);
    lemma_ies_wf_concat(p0 + p1, p2);
    let p3 = opt_unknown(m.nbifom);
    lemma_opt_unknown_wf(m.nbifom, FCONTAINER, 0);
    lemma_ies_wf_concat(p0 + p1 + p2, p3);
    let p4 = private_ext_elements(m.private_ext);
    assert(ies_wf(p4)) by {
        assert forall|i: int| 0 <= i < p4.len() implies #[trigger] ie_wf(p4[i]) by {
            assert(private_ext_wf(m.private_ext[i]));
        }
    }
    lemma_ies_wf_concat(p0 + p1 + p2 + p3, p4);
    lemma_ies_wf_concat(h, brfi_rest(m));
    lemma_ies_wf_fit(brfi_elements(m));
}

/// Overload reports at instances 0 and 1 are appended in order.
proof fn lemma_brfi_scan_overload_info(a: BearerResourceFailureIndScan, l: Seq<OverloadControlInfoModel>)
    requires
        forall|i: int| 0 <= i < l.len() ==> #[trigger] l[i].ins < 2,
    ensures
        overload_elements(l).fold_left(a, brfi_step_fn()) == (BearerResourceFailureIndScan { msg: BearerResourceFailureIndModel { overload_info: a.msg.overload_info + l, ..a.msg }, ..a }),
    decreases l.len(),
{
    let es = overload_elements(l);
    if l.len() == 0 {
        assert(a.msg.overload_info + l =~= a.msg.overload_info);
    } else {
        lemma_brfi_scan_overload_info(a, l.drop_last());
        assert(es.drop_last() =~= overload_elements(l.drop_last()));
        assert(l[l.len() - 1].ins < 2);
        assert((a.msg.overload_info + l.drop_last()).push(l.last()) =~= a.msg.overload_info + l);
    }
}

/// Private extensions are appended in order.
proof fn lemma_brfi_scan_private_ext(a: BearerResourceFailureIndScan, l: Seq<PrivateExtensionModel>)
    ensures
        private_ext_elements(l).fold_left(a, brfi_step_fn()) == (BearerResourceFailureIndScan { msg: BearerResourceFailureIndModel { private_ext: a.msg.private_ext + l, ..a.msg }, ..a }),
    decreases l.len(),
{
    let es = private_ext_elements(l);
    if l.len() == 0 {
        assert(a.msg.private_ext + l =~= a.msg.private_ext);
    } else {
        lemma_brfi_scan_private_ext(a, l.drop_last());
        assert(es.drop_last() =~= private_ext_elements(l.drop_last()));
        assert((a.msg.private_ext + l.drop_last()).push(l.last()) =~= a.msg.private_ext + l);
    }
}

/// The mandatory fields, scanned from the empty message.
proof fn lemma_brfi_scan_head(m: BearerResourceFailureIndModel)
    requires
        m.cause.ins == 0 && m.linked_ebi.ins == 0 && m.pti.ins == 0,
    ensures
        brfi_scan(brfi_empty(m.header), seq![IeModel::Cause(m.cause), IeModel::Ebi(m.linked_ebi), IeModel::Pti(m.pti)]) == (BearerResourceFailureIndScan {
            msg: BearerResourceFailureIndModel { cause: m.cause, linked_ebi: m.linked_ebi, pti: m.pti, ..brfi_empty(m.header) },
            cause_seen: true, ebi_seen: true, pti_seen: true
        }),
{
    let f = brfi_step_fn();
    let a0 = BearerResourceFailureIndScan { msg: brfi_empty(m.header), cause_seen: false, ebi_seen: false, pti_seen: false };
    let x0 = IeModel::Cause(m.cause);
    let x1 = IeModel::Ebi(m.linked_ebi);
    let x2 = IeModel::Pti(m.pti);
    lemma_fold_one(x0, a0, f);
    lemma_fold_concat(seq![x0], seq![x1], a0, f);
    lemma_fold_one(x1, f(a0, x0), f);
    assert(seq![x0] + seq![x1] =~= seq![x0, x1]);
    lemma_fold_concat(seq![x0, x1], seq![x2], a0, f);
    lemma_fold_one(x2, f(f(a0, x0), x1), f);
    assert(seq![x0, x1] + seq![x2] =~= seq![x0, x1, x2]);
}

/// The scan of a well-formed message once its mandatory fields and its
/// first `k` other slots have been read.
spec fn brfi_partial(m: BearerResourceFailureIndModel, k: int) -> BearerResourceFailureIndScan {
    BearerResourceFailureIndScan {
        msg: BearerResourceFailureIndModel {
            header: m.header,
            cause: m.cause,
            linked_ebi: m.linked_ebi,
            pti: m.pti,
            indication: if k > 0 { m.indication } else { None },
            overload_info: if k > 1 { m.overload_info } else { Seq::empty() },
            recovery: if k > 2 { m.recovery } else { None },
            nbifom: if k > 3 { m.nbifom } else { None },
            private_ext: if k > 4 { m.private_ext } else { Seq::empty() },
        },
        cause_seen: true,
        ebi_seen: true,
        pti_seen: true,
    }
}

proof fn lemma_brfi_read_indication(m: BearerResourceFailureIndModel)
    requires
        brfi_wf(m),
    ensures
        opt_unknown(m.indication).fold_left(brfi_partial(m, 0), brfi_step_fn()) == brfi_partial(m, 1),
{
    if let Some(x) = m.indication {
        lemma_fold_one(IeModel::Unknown(x), brfi_partial(m, 0), brfi_step_fn());
    }
}

proof fn lemma_brfi_read_overload_info(m: BearerResourceFailureIndModel)
    requires
        brfi_wf(m),
    ensures
        overload_elements(m.overload_info).fold_left(brfi_partial(m, 1), brfi_step_fn()) == brfi_partial(m, 2),
{
    assert forall|i: int| 0 <= i < m.overload_info.len() implies #[trigger] m.overload_info[i].ins < 2 by {
        assert(overload_wf(m.overload_info[i]) && m.overload_info[i].ins < 2);
    }
    lemma_brfi_scan_overload_info(brfi_partial(m, 1), m.overload_info);
    assert(Seq::empty() + m.overload_info =~= m.overload_info);
}

proof fn lemma_brfi_read_recovery(m: BearerResourceFailureIndModel)
    requires
        brfi_wf(m),
    ensures
        opt_unknown(m.recovery).fold_left(brfi_partial(m, 2), brfi_step_fn()) == brfi_partial(m, 3),
{
    if let Some(x) = m.recovery {
        lemma_fold_one(IeModel::Unknown(x), brfi_partial(m, 2), brfi_step_fn());
    }
}

proof fn lemma_brfi_read_nbifom(m: BearerResourceFailureIndModel)
    requires
        brfi_wf(m),
    ensures
        opt_unknown(m.nbifom).fold_left(brfi_partial(m, 3), brfi_step_fn()) == brfi_partial(m, 4),
{
    if let Some(x) = m.nbifom {
        lemma_fold_one(IeModel::Unknown(x), brfi_partial(m, 3), brfi_step_fn());
    }
}

proof fn lemma_brfi_read_private_ext(m: BearerResourceFailureIndModel)
    requires
        brfi_wf(m),
    ensures
        private_ext_elements(m.private_ext).fold_left(brfi_partial(m, 4), brfi_step_fn()) == brfi_partial(m, 5),
{
    lemma_brfi_scan_private_ext(brfi_partial(m, 4), m.private_ext);
    assert(Seq::empty() + m.private_ext =~= m.private_ext);
}

/// Decoding an encoded message gives the same message back.
pub proof fn lemma_brfi_round_trip(m: BearerResourceFailureIndModel)
    requires
        brfi_wf(m),
    ensures
        brfi_of(brfi_bytes(m)) == Ok::<BearerResourceFailureIndModel, GTPV2Error>(m),
{
    lemma_brfi_elements_wf(m);
    lemma_envelope_round_trip(m.header, brfi_elements(m));
    let f = brfi_step_fn();
    let h = seq![IeModel::Cause(m.cause), IeModel::Ebi(m.linked_ebi), IeModel::Pti(m.pti)];
    let a0 = BearerResourceFailureIndScan { msg: brfi_empty(m.header), cause_seen: false, ebi_seen: false, pti_seen: false };
    lemma_brfi_scan_head(m);
    let s0 = brfi_partial(m, 0);
    assert(h.fold_left(a0, f) == s0);
    lemma_fold_concat(h, brfi_rest(m), a0, f);
    let p0 = opt_unknown(m.indication);
    lemma_brfi_read_indication(m);
    let p1 = overload_elements(m.overload_info);
    lemma_fold_concat(p0, p1, s0, f);
    lemma_brfi_read_overload_info(m);
    let p2 = opt_unknown(m.recovery);
    lemma_fold_concat(p0 + p1, p2, s0, f);
    lemma_brfi_read_recovery(m);
    let p3 = opt_unknown(m.nbifom);
    lemma_fold_concat(p0 + p1 + p2, p3, s0, f);
    lemma_brfi_read_nbifom(m);
    let p4 = private_ext_elements(m.private_ext);
    lemma_fold_concat(p0 + p1 + p2 + p3, p4, s0, f);
    lemma_brfi_read_private_ext(m);
    assert(brfi_partial(m, 5).msg == m);
}

/// Whether a field takes one of the mandatory slots.
pub open spec fn brfi_takes_mandatory(e: IeModel) -> bool {
    match e {
        IeModel::Cause(x) => x.ins == 0,
        IeModel::Ebi(x) => x.ins == 0,
        IeModel::Pti(x) => x.ins == 0,
        _ => false,
    }
}

pub open spec fn brfi_no_mandatory(es: Seq<IeModel>) -> bool {
    forall|i: int| 0 <= i < es.len() ==> !#[trigger] brfi_takes_mandatory(es[i])
}

proof fn lemma_brfi_no_mandatory_concat(a: Seq<IeModel>, b: Seq<IeModel>)
    requires
        brfi_no_mandatory(a),
        brfi_no_mandatory(b),
    ensures
        brfi_no_mandatory(a + b),
{
    assert forall|i: int| 0 <= i < (a + b).len() implies !#[trigger] brfi_takes_mandatory((a + b)[i]) by {
        if i < a.len() {
            assert((a + b)[i] == a[i]);
            assert(!brfi_takes_mandatory(a[i]));
        } else {
            assert((a + b)[i] == b[i - a.len()]);
            assert(!brfi_takes_mandatory(b[i - a.len()]));
        }
    }
}

/// Fields that no mandatory slot takes leave the seen flags as they were.
proof fn lemma_brfi_flags_kept(a: BearerResourceFailureIndScan, es: Seq<IeModel>)
    requires
        brfi_no_mandatory(es),
    ensures
        es.fold_left(a, brfi_step_fn()).cause_seen == a.cause_seen,
        es.fold_left(a, brfi_step_fn()).ebi_seen == a.ebi_seen,
        es.fold_left(a, brfi_step_fn()).pti_seen == a.pti_seen,
    decreases es.len(),
{
    if es.len() > 0 {
        assert(brfi_no_mandatory(es.drop_last())) by {
            assert forall|i: int| 0 <= i < es.drop_last().len() implies !#[trigger] brfi_takes_mandatory(es.drop_last()[i]) by {
                assert(es.drop_last()[i] == es[i]);
                assert(!brfi_takes_mandatory(es[i]));
            }
        }
        lemma_brfi_flags_kept(a, es.drop_last());
        assert(!brfi_takes_mandatory(es[es.len() - 1]));
    }
}

proof fn lemma_brfi_rest(m: BearerResourceFailureIndModel)
    ensures
        brfi_no_mandatory(brfi_rest(m)),
{
    let p0 = opt_unknown(m.indication);
    assert(brfi_no_mandatory(p0));
    let p1 = overload_elements(m.overload_info);
    assert(brfi_no_mandatory(p1));
    lemma_brfi_no_mandatory_concat(p0, p1);
    let p2 = opt_unknown(m.recovery);
    assert(brfi_no_mandatory(p2));
    lemma_brfi_no_mandatory_concat(p0 + p1, p2);
    let p3 = opt_unknown(m.nbifom);
    assert(brfi_no_mandatory(p3));
    lemma_brfi_no_mandatory_concat(p0 + p1 + p2, p3);
    let p4 = private_ext_elements(m.private_ext);
    assert(brfi_no_mandatory(p4));
    lemma_brfi_no_mandatory_concat(p0 + p1 + p2 + p3, p4);
}

/// Leaving a field out of a well-formed message keeps it encodable.
proof fn lemma_brfi_removed_fits(m: BearerResourceFailureIndModel, k: int)
    requires
        brfi_wf(m),
        0 <= k < brfi_elements(m).len(),
    ensures
        ies_wf(brfi_elements(m).remove(k)),
        envelope_fits(m.header, brfi_elements(m).remove(k)),
{
    lemma_brfi_elements_wf(m);
    let es = brfi_elements(m);
    let es2 = es.remove(k);
    assert forall|j: int| 0 <= j < es2.len() implies #[trigger] ie_wf(es2[j]) by {
        let src = if j < k { j } else { j + 1 };
        assert(es2[j] == es[src]);
        assert(ie_wf(es[src]));
    }
    lemma_ies_wf_fit(es2);
    assert(ie_fields(es2) =~= ie_fields(es).remove(k));
    crate::ie::lemma_fields_bytes_remove(ie_fields(es), k);
}

/// A message encoded without one of its mandatory fields (cause, bearer identifier, transaction identifier, by position
/// `k`) fails to decode, naming that field.
pub proof fn lemma_brfi_mandatory_missing(m: BearerResourceFailureIndModel, k: int)
    requires
        brfi_wf(m),
        0 <= k < 3,
    ensures
        brfi_of(envelope_bytes(m.header, brfi_elements(m).remove(k))) == Err::<BearerResourceFailureIndModel, GTPV2Error>(
            GTPV2Error::MessageMandatoryIEMissing(if k == 0 { CAUSE } else if k == 1 { EBI } else { PTI }),
        ),
{
    lemma_brfi_rest(m);
    lemma_brfi_removed_fits(m, k);
    let es = brfi_elements(m);
    let h = seq![IeModel::Cause(m.cause), IeModel::Ebi(m.linked_ebi), IeModel::Pti(m.pti)];
    let rest = brfi_rest(m);
    let hk = h.remove(k);
    let es2 = es.remove(k);
    assert(es2 =~= hk + rest);
    lemma_envelope_round_trip(m.header, es2);
    let h2 = framed_header(m.header, fields_bytes(ie_fields(es2)));
    let f = brfi_step_fn();
    let a0 = BearerResourceFailureIndScan { msg: brfi_empty(h2), cause_seen: false, ebi_seen: false, pti_seen: false };
    let y0 = hk[0];
    let y1 = hk[1];
    assert(hk =~= seq![y0, y1]);
    lemma_fold_one(y0, a0, f);
    lemma_fold_concat(seq![y0], seq![y1], a0, f);
    lemma_fold_one(y1, f(a0, y0), f);
    assert(seq![y0] + seq![y1] =~= seq![y0, y1]);
    lemma_fold_concat(hk, rest, a0, f);
    lemma_brfi_flags_kept(hk.fold_left(a0, f), rest);
}

/// Type codes this message carries whole.
pub open spec fn brfi_carries(t: u8) -> bool {
    t == INDICATION || t == RECOVERY || t == FCONTAINER
}

/// A field of a type that neither the catalog nor this message knows is
/// passed over: the message is what it would be without it.
pub proof fn lemma_brfi_ignores_unknown(start: BearerResourceFailureIndModel, a: Seq<IeModel>, u: FieldModel, b: Seq<IeModel>)
    requires
        !brfi_carries(u.t),
    ensures
        brfi_reconcile(start, a + seq![IeModel::Unknown(u)] + b) == brfi_reconcile(start, a + b),
{
    let f = brfi_step_fn();
    let s = BearerResourceFailureIndScan { msg: start, cause_seen: false, ebi_seen: false, pti_seen: false };
    let x = IeModel::Unknown(u);
    lemma_fold_concat(a + seq![x], b, s, f);
    lemma_fold_concat(a, seq![x], s, f);
    lemma_fold_one(x, a.fold_left(s, f), f);
    lemma_fold_concat(a, b, s, f);
}

/// Overload reports at instances 0 and 1 fill two places of the list, in
/// order; a third at an instance past 1 is dropped and leaves them as they
/// are.
pub proof fn lemma_brfi_overload_routing(
    a: BearerResourceFailureIndScan,
    x: OverloadControlInfoModel,
    y: OverloadControlInfoModel,
    z: OverloadControlInfoModel,
)
    requires
        x.ins == 0,
        y.ins == 1,
        z.ins >= 2,
    ensures
        seq![
            IeModel::OverloadControlInfo(x),
            IeModel::OverloadControlInfo(y),
            IeModel::OverloadControlInfo(z),
        ].fold_left(a, brfi_step_fn()) == (BearerResourceFailureIndScan {
            msg: BearerResourceFailureIndModel {
                overload_info: a.msg.overload_info.push(x).push(y),
                ..a.msg
            },
            ..a
        }),
{
    let f = brfi_step_fn();
    let ex = IeModel::OverloadControlInfo(x);
    let ey = IeModel::OverloadControlInfo(y);
    let ez = IeModel::OverloadControlInfo(z);
    lemma_fold_one(ex, a, f);
    lemma_fold_concat(seq![ex], seq![ey], a, f);
    lemma_fold_one(ey, f(a, ex), f);
    assert(seq![ex] + seq![ey] =~= seq![ex, ey]);
    lemma_fold_concat(seq![ex, ey], seq![ez], a, f);
    lemma_fold_one(ez, f(f(a, ex), ey), f);
    assert(seq![ex, ey] + seq![ez] =~= seq![ex, ey, ez]);
}

impl BearerResourceFailureInd {
    /// The message's fields, in the order they are written.
    pub fn to_vec(&self) -> (r: Vec<InformationElement>)
        ensures
            ie_views(r@) == brfi_elements(self@),
    {
        let ghost m = self@;
        let mut elements: Vec<InformationElement> = Vec::new();
        elements.push(InformationElement::Cause(self.cause));
        elements.push(InformationElement::Ebi(self.linked_ebi));
        elements.push(InformationElement::Pti(self.pti));
        let ghost hd = seq![IeModel::Cause(m.cause), IeModel::Ebi(m.linked_ebi), IeModel::Pti(m.pti)];
        assert(ie_views(elements@) =~= hd);
        let mut tail: Vec<InformationElement> = Vec::new();
        push_opt_unknown(&mut tail, &self.indication);
        let ghost mut post = opt_unknown(m.indication);
        assert(ie_views(tail@) =~= post);
        push_overloads(&mut tail, &self.overload_info);
        proof {
            post = post + overload_elements(m.overload_info);
        }
        assert(ie_views(tail@) == post);
        push_opt_unknown(&mut tail, &self.recovery);
        proof {
            post = post + opt_unknown(m.recovery);
        }
        assert(ie_views(tail@) == post);
        push_opt_unknown(&mut tail, &self.nbifom);
        proof {
            post = post + opt_unknown(m.nbifom);
        }
        assert(ie_views(tail@) == post);
        push_private_exts(&mut tail, &self.private_ext);
        proof {
            post = post + private_ext_elements(m.private_ext);
        }
        assert(ie_views(tail@) == post);
        let ghost front = ie_views(elements@);
        let ghost back = ie_views(tail@);
        elements.append(&mut tail);
        assert(ie_views(elements@) =~= front + back);
        elements
    }

    /// Places the decoded fields into the message, in order (see
    /// [`brfi_step`]), and reports the first missing mandatory field.
    pub fn from_vec(&mut self, elements: Vec<InformationElement>) -> (r: Result<bool, GTPV2Error>)
        ensures
            final(self)@ == brfi_scan(old(self)@, ie_views(elements@)).msg,
            r == match brfi_reconcile(old(self)@, ie_views(elements@)) {
                Ok(_) => Ok::<bool, GTPV2Error>(true),
                Err(e) => Err(e),
            },
    {
        let ghost start = self@;
        let ghost es = ie_views(elements@);
        let mut cause_seen = false;
        let mut ebi_seen = false;
        let mut pti_seen = false;
        assert(es.take(0) =~= Seq::<IeModel>::empty());
        for e in iter: elements.into_iter()
            invariant
                iter.seq() == elements@,
                es == ie_views(elements@),
                brfi_scan(start, es.take(iter.index() as int)) == (BearerResourceFailureIndScan {
                    msg: self@,
                    cause_seen,
                    ebi_seen,
                    pti_seen,
                }),
        {
            let ghost k = iter.index() as int;
            let ghost before = self@;
            assert(es.take(k + 1).drop_last() =~= es.take(k));
            assert(es.take(k + 1).last() == e@);
            match e {
                InformationElement::Cause(j) => {
                    if j.ins == 0 && !cause_seen {
                        self.cause = j;
                        cause_seen = true;
                    }
                },
                InformationElement::Ebi(j) => {
                    if j.ins == 0 && !ebi_seen {
                        self.linked_ebi = j;
                        ebi_seen = true;
                    }
                },
                InformationElement::Pti(j) => {
                    if j.ins == 0 && !pti_seen {
                        self.pti = j;
                        pti_seen = true;
                    }
                },
                InformationElement::OverloadControlInfo(j) => {
                    if j.ins < 2 {
                        let ghost jv = j@;
                        self.overload_info.push(j);
                        assert(self@.overload_info =~= before.overload_info.push(jv));
                    }
                },
                InformationElement::PrivateExtension(j) => {
                    let ghost jv = j@;
                    self.private_ext.push(j);
                    assert(self@.private_ext =~= before.private_ext.push(jv));
                },
                InformationElement::Unknown(j) => {
                    if j.t == INDICATION && j.ins == 0 && self.indication.is_none() {
                        self.indication = Some(j);
                    } else if j.t == RECOVERY && j.ins == 0 && self.recovery.is_none() {
                        self.recovery = Some(j);
                    } else if j.t == FCONTAINER && j.ins == 0 && self.nbifom.is_none() {
                        self.nbifom = Some(j);
                    }
                },
                _ => {},
            }
            assert(self@.overload_info =~= brfi_scan(start, es.take(k + 1)).msg.overload_info);
            assert(self@.private_ext =~= brfi_scan(start, es.take(k + 1)).msg.private_ext);
        }
        assert(es.take(es.len() as int) =~= es);
        if !cause_seen {
            Err(GTPV2Error::MessageMandatoryIEMissing(CAUSE))
        } else if !ebi_seen {
            Err(GTPV2Error::MessageMandatoryIEMissing(EBI))
        } else if !pti_seen {
            Err(GTPV2Error::MessageMandatoryIEMissing(PTI))
        } else {
            Ok(true)
        }
    }

    /// Appends the message: header, fields, and the header's length patched
    /// to what follows the length field.
    pub fn marshal(&self, buffer: &mut Vec<u8>)
        requires
            envelope_fits(self.header, brfi_elements(self@)),
        ensures
            final(buffer)@ == old(buffer)@ + brfi_bytes(self@),
    {
        let elements = self.to_vec();
        encode_message(&self.header, &elements, buffer);
    }

    /// Decodes a bearer resource failure indication.
    pub fn unmarshal(buffer: &[u8]) -> (r: Result<Self, GTPV2Error>)
        ensures
            result_view(r) == brfi_of(buffer@),
    {
        let (header, elements) = decode_message(buffer, BEARER_RSRC_FAIL)?;
        let mut message = BearerResourceFailureInd::default();
        message.header = header;
        match message.from_vec(elements) {
            Ok(_) => Ok(message),
            Err(e) => Err(e),
        }
    }
}

} // verus!
