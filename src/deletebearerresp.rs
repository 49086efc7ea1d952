//! Delete bearer response.

use vstd::prelude::*;
use crate::basic::{cause_wf, default_cause, ebi_wf, Cause, Ebi, CAUSE};
use crate::catalog::{
    ie_fields, ie_views, ie_wf, ies_wf, lemma_ies_wf_concat, lemma_ies_wf_fit, overload_elements,
    overload_views, private_ext_elements, private_ext_views, push_opt_ebi, push_opt_unknown,
    push_overloads, push_private_exts, push_unknowns, unknown_elements, IeModel, InformationElement,
};
use crate::error::GTPV2Error;
use crate::header::{
    decode_message, encode_message, envelope_bytes, envelope_fits, envelope_of, framed_header, header_len,
    header_wf, lemma_envelope_round_trip, Gtpv2Header,
};
use crate::ie::{field_views, fields_bytes, opt_field_view, result_view, FieldModel, Ie};
use crate::overload::{overload_wf, OverloadControlInfo, OverloadControlInfoModel};
use crate::privateextension::{private_ext_wf, PrivateExtension, PrivateExtensionModel};
use crate::reconcile::{
    lemma_fold_concat, lemma_fold_one, lemma_opt_unknown_wf, list_field_wf, opt_ebi, opt_unknown,
    slot_wf, BEARER_CTX, FCONTAINER, FQCSID, IP_ADDRESS, PCO, PORT_NBR, RECOVERY,
    SECONDARY_RAT_USAGE_REPORT, TWAN_ID, TWAN_ID_TIMESTAMP, UE_TIME_ZONE, ULI, ULI_TIMESTAMP,
};

verus! {

pub const DELETE_BEARER_RESP: u8 = 100;

/// Delete bearer response.
#[derive(Debug, Clone, PartialEq)]
pub struct DeleteBearerResponse {
    pub header: Gtpv2Header,
    pub cause: Cause,
    pub linked_ebi: Option<Ebi>,
    pub bearer_ctxs: Vec<Ie>,
    pub recovery: Option<Ie>,
    pub mme_fqcsid: Option<Ie>,
    pub sgw_fqcsid: Option<Ie>,
    pub epdg_fqcsid: Option<Ie>,
    pub twan_fqcsid: Option<Ie>,
    pub pco: Option<Ie>,
    pub uetimezone: Option<Ie>,
    pub uli: Option<Ie>,
    pub uli_timestamp: Option<Ie>,
    pub twan_id: Option<Ie>,
    pub twan_id_timestamp: Option<Ie>,
    pub overload_info: Vec<OverloadControlInfo>,
    pub mme_id: Option<Ie>,
    pub wlan_loc: Option<Ie>,
    pub wlan_loc_timestamp: Option<Ie>,
    pub ue_localip: Option<Ie>,
    pub ue_udpport: Option<Ie>,
    pub nbifom: Option<Ie>,
    pub ue_tcpport: Option<Ie>,
    pub secondary_rat_usage_report: Vec<Ie>,
    pub private_ext: Vec<PrivateExtension>,
}

/// The mathematical value of a [`DeleteBearerResponse`].
pub struct DeleteBearerResponseModel {
    pub header: Gtpv2Header,
    pub cause: Cause,
    pub linked_ebi: Option<Ebi>,
    pub bearer_ctxs: Seq<FieldModel>,
    pub recovery: Option<FieldModel>,
    pub mme_fqcsid: Option<FieldModel>,
    pub sgw_fqcsid: Option<FieldModel>,
    pub epdg_fqcsid: Option<FieldModel>,
    pub twan_fqcsid: Option<FieldModel>,
    pub pco: Option<FieldModel>,
    pub uetimezone: Option<FieldModel>,
    pub uli: Option<FieldModel>,
    pub uli_timestamp: Option<FieldModel>,
    pub twan_id: Option<FieldModel>,
    pub twan_id_timestamp: Option<FieldModel>,
    pub overload_info: Seq<OverloadControlInfoModel>,
    pub mme_id: Option<FieldModel>,
    pub wlan_loc: Option<FieldModel>,
    pub wlan_loc_timestamp: Option<FieldModel>,
    pub ue_localip: Option<FieldModel>,
    pub ue_udpport: Option<FieldModel>,
    pub nbifom: Option<FieldModel>,
    pub ue_tcpport: Option<FieldModel>,
    pub secondary_rat_usage_report: Seq<FieldModel>,
    pub private_ext: Seq<PrivateExtensionModel>,
}

impl View for DeleteBearerResponse {
    type V = DeleteBearerResponseModel;

    open spec fn view(&self) -> DeleteBearerResponseModel {
        DeleteBearerResponseModel {
            header: self.header,
            cause: self.cause,
            linked_ebi: self.linked_ebi,
            bearer_ctxs: field_views(self.bearer_ctxs@),
            recovery: opt_field_view(self.recovery),
            mme_fqcsid: opt_field_view(self.mme_fqcsid),
            sgw_fqcsid: opt_field_view(self.sgw_fqcsid),
            epdg_fqcsid: opt_field_view(self.epdg_fqcsid),
            twan_fqcsid: opt_field_view(self.twan_fqcsid),
            pco: opt_field_view(self.pco),
            uetimezone: opt_field_view(self.uetimezone),
            uli: opt_field_view(self.uli),
            uli_timestamp: opt_field_view(self.uli_timestamp),
            twan_id: opt_field_view(self.twan_id),
            twan_id_timestamp: opt_field_view(self.twan_id_timestamp),
            overload_info: overload_views(self.overload_info@),
            mme_id: opt_field_view(self.mme_id),
            wlan_loc: opt_field_view(self.wlan_loc),
            wlan_loc_timestamp: opt_field_view(self.wlan_loc_timestamp),
            ue_localip: opt_field_view(self.ue_localip),
            ue_udpport: opt_field_view(self.ue_udpport),
            nbifom: opt_field_view(self.nbifom),
            ue_tcpport: opt_field_view(self.ue_tcpport),
            secondary_rat_usage_report: field_views(self.secondary_rat_usage_report@),
            private_ext: private_ext_views(self.private_ext@),
        }
    }
}

/// The message's fields in the order they are written: mandatory ones, then
/// optional and repeated ones in declaration order, private extensions last.
pub open spec fn dbr_elements(m: DeleteBearerResponseModel) -> Seq<IeModel> {
    seq![IeModel::Cause(m.cause)] + dbr_rest(m)
}

/// The fields of a message after its mandatory ones.
pub open spec fn dbr_rest(m: DeleteBearerResponseModel) -> Seq<IeModel> {
    opt_ebi(m.linked_ebi)
        + unknown_elements(m.bearer_ctxs)
        + opt_unknown(m.recovery)
        + opt_unknown(m.mme_fqcsid)
        + opt_unknown(m.sgw_fqcsid)
        + opt_unknown(m.epdg_fqcsid)
        + opt_unknown(m.twan_fqcsid)
        + opt_unknown(m.pco)
        + opt_unknown(m.uetimezone)
        + opt_unknown(m.uli)
        + opt_unknown(m.uli_timestamp)
        + opt_unknown(m.twan_id)
        + opt_unknown(m.twan_id_timestamp)
        + overload_elements(m.overload_info)
        + opt_unknown(m.mme_id)
        + opt_unknown(m.wlan_loc)
        + opt_unknown(m.wlan_loc_timestamp)
        + opt_unknown(m.ue_localip)
        + opt_unknown(m.ue_udpport)
        + opt_unknown(m.nbifom)
        + opt_unknown(m.ue_tcpport)
        + unknown_elements(m.secondary_rat_usage_report)
        + private_ext_elements(m.private_ext)
}

/// The bytes of the message.
pub open spec fn dbr_bytes(m: DeleteBearerResponseModel) -> Seq<u8> {
    envelope_bytes(m.header, dbr_elements(m))
}

/// The message being filled in, and which mandatory fields were seen.
pub struct DeleteBearerResponseScan {
    pub msg: DeleteBearerResponseModel,
    pub cause_seen: bool,
}

/// Places one decoded field. The cause takes the first occurrence at
/// instance 0. Fields used in several roles are told apart by instance:
/// connection set identifiers (0 to 3), access network identifiers and
/// their timestamps (0, 1), IP addresses (0, 1) and port numbers (0, 1). The
/// other optional fields take the first occurrence at instance 0; bearer
/// contexts and usage reports at instance 0, overload reports at instances
/// 0 to 2 and every private extension are appended; everything else is
/// passed over.
pub open spec fn dbr_step(a: DeleteBearerResponseScan, e: IeModel) -> DeleteBearerResponseScan {
    match e {
        IeModel::Cause(x) => if x.ins == 0 && !a.cause_seen {
                DeleteBearerResponseScan { msg: DeleteBearerResponseModel { cause: x, ..a.msg }, cause_seen: true, ..a }
            } else {
                a
            },
        IeModel::Ebi(x) => if x.ins == 0 && a.msg.linked_ebi is None {
                DeleteBearerResponseScan { msg: DeleteBearerResponseModel { linked_ebi: Some(x), ..a.msg }, ..a }
            } else {
                a
            },
        IeModel::OverloadControlInfo(x) => if x.ins < 3 {
                DeleteBearerResponseScan { msg: DeleteBearerResponseModel { overload_info: a.msg.overload_info.push(x), ..a.msg }, ..a }
            } else {
                a
            },
        IeModel::PrivateExtension(x) => DeleteBearerResponseScan { msg: DeleteBearerResponseModel { private_ext: a.msg.private_ext.push(x), ..a.msg }, ..a },
        IeModel::Unknown(f) => if f.t == BEARER_CTX && f.ins == 0 {
                DeleteBearerResponseScan { msg: DeleteBearerResponseModel { bearer_ctxs: a.msg.bearer_ctxs.push(f), ..a.msg }, ..a }
            } else if f.t == RECOVERY && f.ins == 0 && a.msg.recovery is None {
                DeleteBearerResponseScan { msg: DeleteBearerResponseModel { recovery: Some(f), ..a.msg }, ..a }
            } else if f.t == FQCSID && f.ins == 0 && a.msg.mme_fqcsid is None {
                DeleteBearerResponseScan { msg: DeleteBearerResponseModel { mme_fqcsid: Some(f), ..a.msg }, ..a }
            } else if f.t == FQCSID && f.ins == 1 && a.msg.sgw_fqcsid is None {
                DeleteBearerResponseScan { msg: DeleteBearerResponseModel { sgw_fqcsid: Some(f), ..a.msg }, ..a }
            } else if f.t == FQCSID && f.ins == 2 && a.msg.epdg_fqcsid is None {
                DeleteBearerResponseScan { msg: DeleteBearerResponseModel { epdg_fqcsid: Some(f), ..a.msg }, ..a }
            } else if f.t == FQCSID && f.ins == 3 && a.msg.twan_fqcsid is None {
                DeleteBearerResponseScan { msg: DeleteBearerResponseModel { twan_fqcsid: Some(f), ..a.msg }, ..a }
            } else if f.t == PCO && f.ins == 0 && a.msg.pco is None {
                DeleteBearerResponseScan { msg: DeleteBearerResponseModel { pco: Some(f), ..a.msg }, ..a }
            } else if f.t == UE_TIME_ZONE && f.ins == 0 && a.msg.uetimezone is None {
                DeleteBearerResponseScan { msg: DeleteBearerResponseModel { uetimezone: Some(f), ..a.msg }, ..a }
            } else if f.t == ULI && f.ins == 0 && a.msg.uli is None {
                DeleteBearerResponseScan { msg: DeleteBearerResponseModel { uli: Some(f), ..a.msg }, ..a }
            } else if f.t == ULI_TIMESTAMP && f.ins == 0 && a.msg.uli_timestamp is None {
                DeleteBearerResponseScan { msg: DeleteBearerResponseModel { uli_timestamp: Some(f), ..a.msg }, ..a }
            } else if f.t == TWAN_ID && f.ins == 0 && a.msg.twan_id is None {
                DeleteBearerResponseScan { msg: DeleteBearerResponseModel { twan_id: Some(f), ..a.msg }, ..a }
            } else if f.t == TWAN_ID_TIMESTAMP && f.ins == 0 && a.msg.twan_id_timestamp is None {
                DeleteBearerResponseScan { msg: DeleteBearerResponseModel { twan_id_timestamp: Some(f), ..a.msg }, ..a }
            } else if f.t == IP_ADDRESS && f.ins == 0 && a.msg.mme_id is None {
                DeleteBearerResponseScan { msg: DeleteBearerResponseModel { mme_id: Some(f), ..a.msg }, ..a }
            } else if f.t == TWAN_ID && f.ins == 1 && a.msg.wlan_loc is None {
                DeleteBearerResponseScan { msg: DeleteBearerResponseModel { wlan_loc: Some(f), ..a.msg }, ..a }
            } else if f.t == TWAN_ID_TIMESTAMP && f.ins == 1 && a.msg.wlan_loc_timestamp is None {
                DeleteBearerResponseScan { msg: DeleteBearerResponseModel { wlan_loc_timestamp: Some(f), ..a.msg }, ..a }
            } else if f.t == IP_ADDRESS && f.ins == 1 && a.msg.ue_localip is None {
                DeleteBearerResponseScan { msg: DeleteBearerResponseModel { ue_localip: Some(f), ..a.msg }, ..a }
            } else if f.t == PORT_NBR && f.ins == 0 && a.msg.ue_udpport is None {
                DeleteBearerResponseScan { msg: DeleteBearerResponseModel { ue_udpport: Some(f), ..a.msg }, ..a }
            } else if f.t == FCONTAINER && f.ins == 0 && a.msg.nbifom is None {
                DeleteBearerResponseScan { msg: DeleteBearerResponseModel { nbifom: Some(f), ..a.msg }, ..a }
            } else if f.t == PORT_NBR && f.ins == 1 && a.msg.ue_tcpport is None {
                DeleteBearerResponseScan { msg: DeleteBearerResponseModel { ue_tcpport: Some(f), ..a.msg }, ..a }
            } else if f.t == SECONDARY_RAT_USAGE_REPORT && f.ins == 0 {
                DeleteBearerResponseScan { msg: DeleteBearerResponseModel { secondary_rat_usage_report: a.msg.secondary_rat_usage_report.push(f), ..a.msg }, ..a }
            } else {
                a
            },
        _ => a,
    }
}

pub open spec fn dbr_step_fn() -> spec_fn(DeleteBearerResponseScan, IeModel) -> DeleteBearerResponseScan {
    |a: DeleteBearerResponseScan, e: IeModel| dbr_step(a, e)
}

/// The scan of `es`, in order, starting from `start` with no mandatory field seen.
pub open spec fn dbr_scan(start: DeleteBearerResponseModel, es: Seq<IeModel>) -> DeleteBearerResponseScan {
    es.fold_left(DeleteBearerResponseScan { msg: start, cause_seen: false }, dbr_step_fn())
}

/// The message the fields fill in, or the first missing mandatory field in
/// the order cause.
pub open spec fn dbr_reconcile(start: DeleteBearerResponseModel, es: Seq<IeModel>) -> Result<DeleteBearerResponseModel, GTPV2Error> {
    let s = dbr_scan(start, es);
    if !s.cause_seen {
        Err(GTPV2Error::MessageMandatoryIEMissing(CAUSE))
    } else {
        Ok(s.msg)
    }
}

/// The empty message with header `h`.
pub open spec fn dbr_empty(h: Gtpv2Header) -> DeleteBearerResponseModel {
    DeleteBearerResponseModel {
        header: h,
        cause: default_cause(),
        linked_ebi: None,
        bearer_ctxs: Seq::empty(),
        recovery: None,
        mme_fqcsid: None,
        sgw_fqcsid: None,
        epdg_fqcsid: None,
        twan_fqcsid: None,
        pco: None,
        uetimezone: None,
        uli: None,
        uli_timestamp: None,
        twan_id: None,
        twan_id_timestamp: None,
        overload_info: Seq::empty(),
        mme_id: None,
        wlan_loc: None,
        wlan_loc_timestamp: None,
        ue_localip: None,
        ue_udpport: None,
        nbifom: None,
        ue_tcpport: None,
        secondary_rat_usage_report: Seq::empty(),
        private_ext: Seq::empty(),
    }
}

/// The message that `s` holds.
pub open spec fn dbr_of(s: Seq<u8>) -> Result<DeleteBearerResponseModel, GTPV2Error> {
    match envelope_of(s, DELETE_BEARER_RESP) {
        Err(e) => Err(e),
        Ok((h, es)) => dbr_reconcile(dbr_empty(h), es),
    }
}

impl Default for DeleteBearerResponse {
    fn default() -> (r: Self)
        ensures
            r@ == dbr_empty(
                Gtpv2Header {
                    msgtype: DELETE_BEARER_RESP,
                    piggyback: false,
                    message_prio: None,
                    length: 0,
                    teid: Some(0),
                    sqn: 0,
                },
            ),
    {
        let mut hdr = Gtpv2Header::default();
        hdr.msgtype = DELETE_BEARER_RESP;
        hdr.teid = Some(0);
        let r = DeleteBearerResponse {
            header: hdr,
            cause: Cause::default(),
            linked_ebi: None,
            bearer_ctxs: Vec::new(),
            recovery: None,
            mme_fqcsid: None,
            sgw_fqcsid: None,
            epdg_fqcsid: None,
            twan_fqcsid: None,
            pco: None,
            uetimezone: None,
            uli: None,
            uli_timestamp: None,
            twan_id: None,
            twan_id_timestamp: None,
            overload_info: Vec::new(),
            mme_id: None,
            wlan_loc: None,
            wlan_loc_timestamp: None,
            ue_localip: None,
            ue_udpport: None,
            nbifom: None,
            ue_tcpport: None,
            secondary_rat_usage_report: Vec::new(),
            private_ext: Vec::new(),
        };
        assert(r@.bearer_ctxs =~= Seq::<FieldModel>::empty());
        assert(r@.overload_info =~= Seq::<OverloadControlInfoModel>::empty());
        assert(r@.secondary_rat_usage_report =~= Seq::<FieldModel>::empty());
        assert(r@.private_ext =~= Seq::<PrivateExtensionModel>::empty());
        r
    }
}

/// A message that encodes and decodes back to itself: each field decodes
/// back to itself and sits where decoding puts it, and the header's length
/// counts the encoded fields.
pub open spec fn dbr_wf(m: DeleteBearerResponseModel) -> bool {
    &&& header_wf(m.header)
    &&& m.header.msgtype == DELETE_BEARER_RESP
    &&& m.header.length == header_len(m.header) - 4 + fields_bytes(ie_fields(dbr_elements(m))).len()
    &&& cause_wf(m.cause) && m.cause.ins == 0
    &&& m.linked_ebi matches Some(x) ==> ebi_wf(x) && x.ins == 0
    &&& forall|i: int| #![trigger m.bearer_ctxs[i]] 0 <= i < m.bearer_ctxs.len() ==> list_field_wf(m.bearer_ctxs[i], BEARER_CTX)
    &&& slot_wf(m.recovery, RECOVERY, 0)
    &&& slot_wf(m.mme_fqcsid, FQCSID, 0)
    &&& slot_wf(m.sgw_fqcsid, FQCSID, 1)
    &&& slot_wf(m.epdg_fqcsid, FQCSID, 2)
    &&& slot_wf(m.twan_fqcsid, FQCSID, 3)
    &&& slot_wf(m.pco, PCO, 0)
    &&& slot_wf(m.uetimezone, UE_TIME_ZONE, 0)
    &&& slot_wf(m.uli, ULI, 0)
    &&& slot_wf(m.uli_timestamp, ULI_TIMESTAMP, 0)
    &&& slot_wf(m.twan_id, TWAN_ID, 0)
    &&& slot_wf(m.twan_id_timestamp, TWAN_ID_TIMESTAMP, 0)
    &&& forall|i: int| #![trigger m.overload_info[i]] 0 <= i < m.overload_info.len() ==> overload_wf(m.overload_info[i]) && m.overload_info[i].ins < 3
    &&& slot_wf(m.mme_id, IP_ADDRESS, 0)
    &&& slot_wf(m.wlan_loc, TWAN_ID, 1)
    &&& slot_wf(m.wlan_loc_timestamp, TWAN_ID_TIMESTAMP, 1)
    &&& slot_wf(m.ue_localip, IP_ADDRESS, 1)
    &&& slot_wf(m.ue_udpport, PORT_NBR, 0)
    &&& slot_wf(m.nbifom, FCONTAINER, 0)
    &&& slot_wf(m.ue_tcpport, PORT_NBR, 1)
    &&& forall|i: int| #![trigger m.secondary_rat_usage_report[i]] 0 <= i < m.secondary_rat_usage_report.len() ==> list_field_wf(m.secondary_rat_usage_report[i], SECONDARY_RAT_USAGE_REPORT)
    &&& forall|i: int| #![trigger m.private_ext[i]] 0 <= i < m.private_ext.len() ==> private_ext_wf(m.private_ext[i])
}

proof fn lemma_dbr_elements_wf(m: DeleteBearerResponseModel)
    requires
        dbr_wf(m),
    ensures
        ies_wf(dbr_elements(m)),
        envelope_fits(m.header, dbr_elements(m)),
        framed_header(m.header, fields_bytes(ie_fields(dbr_elements(m)))) == m.header,
{
    let h = seq![IeModel::Cause(m.cause)];
    assert(ies_wf(h)) by {
        assert(ie_wf(h[0]));
    }
    let p0 = opt_ebi(m.linked_ebi);
    assert(ies_wf(p0)) by {
        if let Some(x) = m.linked_ebi {
            assert(ie_wf(p0[0]));
        }
    }
    let p1 = unknown_elements(m.bearer_ctxs);
    assert(ies_wf(p1)) by {
        assert forall|i: int| 0 <= i < p1.len() implies #[trigger] ie_wf(p1[i]) by {
            assert(list_field_wf(m.bearer_ctxs[i], BEARER_CTX));
        }
    }
    lemma_ies_wf_concat(p0, p1);
    let p2 = opt_unknown(m.recovery);
    lemma_opt_unknown_wf(m.recovery, RECOVERY, 0);
    lemma_ies_wf_concat(p0 + p1, p2);
    let p3 = opt_unknown(m.mme_fqcsid);
    lemma_opt_unknown_wf(m.mme_fqcsid, FQCSID, 0);
    lemma_ies_wf_concat(p0 + p1 + p2, p3);
    let p4 = opt_unknown(m.sgw_fqcsid);
    lemma_opt_unknown_wf(m.sgw_fqcsid, FQCSID, 1);
    lemma_ies_wf_concat(p0 + p1 + p2 + p3, p4);
    let p5 = opt_unknown(m.epdg_fqcsid);
    lemma_opt_unknown_wf(m.epdg_fqcsid, FQCSID, 2);
    lemma_ies_wf_concat(p0 + p1 + p2 + p3 + p4, p5);
    let p6 = opt_unknown(m.twan_fqcsid);
    lemma_opt_unknown_wf(m.twan_fqcsid, FQCSID, 3);
    lemma_ies_wf_concat(p0 + p1 + p2 + p3 + p4 + p5, p6);
    let p7 = opt_unknown(m.pco);
    lemma_opt_unknown_wf(m.pco, PCO, 0);
    lemma_ies_wf_concat(p0 + p1 + p2 + p3 + p4 + p5 + p6, p7);
    let p8 = opt_unknown(m.uetimezone);
    lemma_opt_unknown_wf(m.uetimezone, UE_TIME_ZONE, 0);
    lemma_ies_wf_concat(p0 + p1 + p2 + p3 + p4 + p5 + p6 + p7, p8);
    let p9 = opt_unknown(m.uli);
    lemma_opt_unknown_wf(m.uli, ULI, 0);
    lemma_ies_wf_concat(p0 + p1 + p2 + p3 + p4 + p5 + p6 + p7 + p8, p9);
    let p10 = opt_unknown(m.uli_timestamp);
    lemma_opt_unknown_wf(m.uli_timestamp, ULI_TIMESTAMP, 0);
    lemma_ies_wf_concat(p0 + p1 + p2 + p3 + p4 + p5 + p6 + p7 + p8 + p9, p10);
    let p11 = opt_unknown(m.twan_id);
    lemma_opt_unknown_wf(m.twan_id, TWAN_ID, 0);
    lemma_ies_wf_concat(p0 + p1 + p2 + p3 + p4 + p5 + p6 + p7 + p8 + p9 + p10, p11);
    let p12 = opt_unknown(m.twan_id_timestamp);
    lemma_opt_unknown_wf(m.twan_id_timestamp, TWAN_ID_TIMESTAMP, 0);
    lemma_ies_wf_concat(p0 + p1 + p2 + p3 + p4 + p5 + p6 + p7 + p8 + p9 + p10 + p11, p12);
    let p13 = overload_elements(m.overload_info);
    assert(ies_wf(p13)) by {
        assert forall|i: int| 0 <= i < p13.len() implies #[trigger] ie_wf(p13[i]) by {
            assert(overload_wf(m.overload_info[i]));
        }
    }
    lemma_ies_wf_concat(p0 + p1 + p2 + p3 + p4 + p5 + p6 + p7 + p8 + p9 + p10 + p11 + p12, p13);
    let p14 = opt_unknown(m.mme_id);
    lemma_opt_unknown_wf(m.mme_id, IP_ADDRESS, 0);
    lemma_ies_wf_concat(p0 + p1 + p2 + p3 + p4 + p5 + p6 + p7 + p8 + p9 + p10 + p11 + p12 + p13, p14);
    let p15 = opt_unknown(m.wlan_loc);
    lemma_opt_unknown_wf(m.wlan_loc, TWAN_ID, 1);
    lemma_ies_wf_concat(p0 + p1 + p2 + p3 + p4 + p5 + p6 + p7 + p8 + p9 + p10 + p11 + p12 + p13 + p14, p15);
    let p16 = opt_unknown(m.wlan_loc_timestamp);
    lemma_opt_unknown_wf(m.wlan_loc_timestamp, TWAN_ID_TIMESTAMP, 1);
    lemma_ies_wf_concat(p0 + p1 + p2 + p3 + p4 + p5 + p6 + p7 + p8 + p9 + p10 + p11 + p12 + p13 + p14 + p15, p16);
    let p17 = opt_unknown(m.ue_localip);
    lemma_opt_unknown_wf(m.ue_localip, IP_ADDRESS, 1);
    lemma_ies_wf_concat(p0 + p1 + p2 + p3 + p4 + p5 + p6 + p7 + p8 + p9 + p10 + p11 + p12 + p13 + p14 + p15 + p16, p17);
    let p18 = opt_unknown(m.ue_udpport);
    lemma_opt_unknown_wf(m.ue_udpport, PORT_NBR, 0);
    lemma_ies_wf_concat(p0 + p1 + p2 + p3 + p4 + p5 + p6 + p7 + p8 + p9 + p10 + p11 + p12 + p13 + p14 + p15 + p16 + p17, p18);
    let p19 = opt_unknown(m.nbifom);
    lemma_opt_unknown_wf(m.nbifom, FCONTAINER, 0);
    lemma_ies_wf_concat(p0 + p1 + p2 + p3 + p4 + p5 + p6 + p7 + p8 + p9 + p10 + p11 + p12 + p13 + p14 + p15 + p16 + p17 + p18, p19);
    let p20 = opt_unknown(m.ue_tcpport);
    lemma_opt_unknown_wf(m.ue_tcpport, PORT_NBR, 1);
    lemma_ies_wf_concat(p0 + p1 + p2 + p3 + p4 + p5 + p6 + p7 + p8 + p9 + p10 + p11 + p12 + p13 + p14 + p15 + p16 + p17 + p18 + p19, p20);
    let p21 = unknown_elements(m.secondary_rat_usage_report);
    assert(ies_wf(p21)) by {
        assert forall|i: int| 0 <= i < p21.len() implies #[trigger] ie_wf(p21[i]) by {
            assert(list_field_wf(m.secondary_rat_usage_report[i], SECONDARY_RAT_USAGE_REPORT));
        }
    }
    lemma_ies_wf_concat(p0 + p1 + p2 + p3 + p4 + p5 + p6 + p7 + p8 + p9 + p10 + p11 + p12 + p13 + p14 + p15 + p16 + p17 + p18 + p19 + p20, p21);
    let p22 = private_ext_elements(m.private_ext);
    assert(ies_wf(p22)) by {
        assert forall|i: int| 0 <= i < p22.len() implies #[trigger] ie_wf(p22[i]) by {
            assert(private_ext_wf(m.private_ext[i]));
        }
    }
    lemma_ies_wf_concat(p0 + p1 + p2 + p3 + p4 + p5 + p6 + p7 + p8 + p9 + p10 + p11 + p12 + p13 + p14 + p15 + p16 + p17 + p18 + p19 + p20 + p21, p22);
    lemma_ies_wf_concat(h, dbr_rest(m));
    lemma_ies_wf_fit(dbr_elements(m));
}

/// Bearer contexts at instance 0 are appended in order.
proof fn lemma_dbr_scan_bearer_ctxs(a: DeleteBearerResponseScan, l: Seq<FieldModel>)
    requires
        forall|i: int| 0 <= i < l.len() ==> (#[trigger] l[i]).t == BEARER_CTX && l[i].ins == 0,
    ensures
        unknown_elements(l).fold_left(a, dbr_step_fn()) == (DeleteBearerResponseScan { msg: DeleteBearerResponseModel { bearer_ctxs: a.msg.bearer_ctxs + l, ..a.msg }, ..a }),
    decreases l.len(),
{
    let es = unknown_elements(l);
    if l.len() == 0 {
        assert(a.msg.bearer_ctxs + l =~= a.msg.bearer_ctxs);
    } else {
        lemma_dbr_scan_bearer_ctxs(a, l.drop_last());
        assert(es.drop_last() =~= unknown_elements(l.drop_last()));
        assert(l[l.len() - 1].t == BEARER_CTX && l[l.len() - 1].ins == 0);
        assert((a.msg.bearer_ctxs + l.drop_last()).push(l.last()) =~= a.msg.bearer_ctxs + l);
    }
}

/// Overload reports at instances 0 to 2 are appended in order.
proof fn lemma_dbr_scan_overload_info(a: DeleteBearerResponseScan, l: Seq<OverloadControlInfoModel>)
    requires
        forall|i: int| 0 <= i < l.len() ==> #[trigger] l[i].ins < 3,
    ensures
        overload_elements(l).fold_left(a, dbr_step_fn()) == (DeleteBearerResponseScan { msg: DeleteBearerResponseModel { overload_info: a.msg.overload_info + l, ..a.msg }, ..a }),
    decreases l.len(),
{
    let es = overload_elements(l);
    if l.len() == 0 {
        assert(a.msg.overload_info + l =~= a.msg.overload_info);
    } else {
        lemma_dbr_scan_overload_info(a, l.drop_last());
        assert(es.drop_last() =~= overload_elements(l.drop_last()));
        assert(l[l.len() - 1].ins < 3);
        assert((a.msg.overload_info + l.drop_last()).push(l.last()) =~= a.msg.overload_info + l);
    }
}

/// Usage reports at instance 0 are appended in order.
proof fn lemma_dbr_scan_secondary_rat_usage_report(a: DeleteBearerResponseScan, l: Seq<FieldModel>)
    requires
        forall|i: int| 0 <= i < l.len() ==> (#[trigger] l[i]).t == SECONDARY_RAT_USAGE_REPORT && l[i].ins == 0,
    ensures
        unknown_elements(l).fold_left(a, dbr_step_fn()) == (DeleteBearerResponseScan { msg: DeleteBearerResponseModel { secondary_rat_usage_report: a.msg.secondary_rat_usage_report + l, ..a.msg }, ..a }),
    decreases l.len(),
{
    let es = unknown_elements(l);
    if l.len() == 0 {
        assert(a.msg.secondary_rat_usage_report + l =~= a.msg.secondary_rat_usage_report);
    } else {
        lemma_dbr_scan_secondary_rat_usage_report(a, l.drop_last());
        assert(es.drop_last() =~= unknown_elements(l.drop_last()));
        assert(l[l.len() - 1].t == SECONDARY_RAT_USAGE_REPORT && l[l.len() - 1].ins == 0);
        assert((a.msg.secondary_rat_usage_report + l.drop_last()).push(l.last()) =~= a.msg.secondary_rat_usage_report + l);
    }
}

/// Private extensions are appended in order.
proof fn lemma_dbr_scan_private_ext(a: DeleteBearerResponseScan, l: Seq<PrivateExtensionModel>)
    ensures
        private_ext_elements(l).fold_left(a, dbr_step_fn()) == (DeleteBearerResponseScan { msg: DeleteBearerResponseModel { private_ext: a.msg.private_ext + l, ..a.msg }, ..a }),
    decreases l.len(),
{
    let es = private_ext_elements(l);
    if l.len() == 0 {
        assert(a.msg.private_ext + l =~= a.msg.private_ext);
    } else {
        lemma_dbr_scan_private_ext(a, l.drop_last());
        assert(es.drop_last() =~= private_ext_elements(l.drop_last()));
        assert((a.msg.private_ext + l.drop_last()).push(l.last()) =~= a.msg.private_ext + l);
    }
}

/// The mandatory fields, scanned from the empty message.
proof fn lemma_dbr_scan_head(m: DeleteBearerResponseModel)
    requires
        m.cause.ins == 0,
    ensures
        dbr_scan(dbr_empty(m.header), seq![IeModel::Cause(m.cause)]) == (DeleteBearerResponseScan {
            msg: DeleteBearerResponseModel { cause: m.cause, ..dbr_empty(m.header) },
            cause_seen: true
        }),
{
    let f = dbr_step_fn();
    let a0 = DeleteBearerResponseScan { msg: dbr_empty(m.header), cause_seen: false };
    let x0 = IeModel::Cause(m.cause);
    lemma_fold_one(x0, a0, f);
}

/// The scan of a well-formed message once its mandatory fields and its
/// first `k` other slots have been read.
spec fn dbr_partial(m: DeleteBearerResponseModel, k: int) -> DeleteBearerResponseScan {
    DeleteBearerResponseScan {
        msg: DeleteBearerResponseModel {
            header: m.header,
            cause: m.cause,
            linked_ebi: if k > 0 { m.linked_ebi } else { None },
            bearer_ctxs: if k > 1 { m.bearer_ctxs } else { Seq::empty() },
            recovery: if k > 2 { m.recovery } else { None },
            mme_fqcsid: if k > 3 { m.mme_fqcsid } else { None },
            sgw_fqcsid: if k > 4 { m.sgw_fqcsid } else { None },
            epdg_fqcsid: if k > 5 { m.epdg_fqcsid } else { None },
            twan_fqcsid: if k > 6 { m.twan_fqcsid } else { None },
            pco: if k > 7 { m.pco } else { None },
            uetimezone: if k > 8 { m.uetimezone } else { None },
            uli: if k > 9 { m.uli } else { None },
            uli_timestamp: if k > 10 { m.uli_timestamp } else { None },
            twan_id: if k > 11 { m.twan_id } else { None },
            twan_id_timestamp: if k > 12 { m.twan_id_timestamp } else { None },
            overload_info: if k > 13 { m.overload_info } else { Seq::empty() },
            mme_id: if k > 14 { m.mme_id } else { None },
            wlan_loc: if k > 15 { m.wlan_loc } else { None },
            wlan_loc_timestamp: if k > 16 { m.wlan_loc_timestamp } else { None },
            ue_localip: if k > 17 { m.ue_localip } else { None },
            ue_udpport: if k > 18 { m.ue_udpport } else { None },
            nbifom: if k > 19 { m.nbifom } else { None },
            ue_tcpport: if k > 20 { m.ue_tcpport } else { None },
            secondary_rat_usage_report: if k > 21 { m.secondary_rat_usage_report } else { Seq::empty() },
            private_ext: if k > 22 { m.private_ext } else { Seq::empty() },
        },
        cause_seen: true,
    }
}

proof fn lemma_dbr_read_linked_ebi(m: DeleteBearerResponseModel)
    requires
        dbr_wf(m),
    ensures
        opt_ebi(m.linked_ebi).fold_left(dbr_partial(m, 0), dbr_step_fn()) == dbr_partial(m, 1),
{
    if let Some(x) = m.linked_ebi {
        lemma_fold_one(IeModel::Ebi(x), dbr_partial(m, 0), dbr_step_fn());
    }
}

proof fn lemma_dbr_read_bearer_ctxs(m: DeleteBearerResponseModel)
    requires
        dbr_wf(m),
    ensures
        unknown_elements(m.bearer_ctxs).fold_left(dbr_partial(m, 1), dbr_step_fn()) == dbr_partial(m, 2),
{
    assert forall|i: int| 0 <= i < m.bearer_ctxs.len() implies (#[trigger] m.bearer_ctxs[i]).t == BEARER_CTX && m.bearer_ctxs[i].ins == 0 by {
        assert(list_field_wf(m.bearer_ctxs[i], BEARER_CTX));
    }
    lemma_dbr_scan_bearer_ctxs(dbr_partial(m, 1), m.bearer_ctxs);
    assert(Seq::empty() + m.bearer_ctxs =~= m.bearer_ctxs);
}

proof fn lemma_dbr_read_recovery(m: DeleteBearerResponseModel)
    requires
        dbr_wf(m),
    ensures
        opt_unknown(m.recovery).fold_left(dbr_partial(m, 2), dbr_step_fn()) == dbr_partial(m, 3),
{
    if let Some(x) = m.recovery {
        lemma_fold_one(IeModel::Unknown(x), dbr_partial(m, 2), dbr_step_fn());
    }
}

proof fn lemma_dbr_read_mme_fqcsid(m: DeleteBearerResponseModel)
    requires
        dbr_wf(m),
    ensures
        opt_unknown(m.mme_fqcsid).fold_left(dbr_partial(m, 3), dbr_step_fn()) == dbr_partial(m, 4),
{
    if let Some(x) = m.mme_fqcsid {
        lemma_fold_one(IeModel::Unknown(x), dbr_partial(m, 3), dbr_step_fn());
    }
}

proof fn lemma_dbr_read_sgw_fqcsid(m: DeleteBearerResponseModel)
    requires
        dbr_wf(m),
    ensures
        opt_unknown(m.sgw_fqcsid).fold_left(dbr_partial(m, 4), dbr_step_fn()) == dbr_partial(m, 5),
{
    if let Some(x) = m.sgw_fqcsid {
        lemma_fold_one(IeModel::Unknown(x), dbr_partial(m, 4), dbr_step_fn());
    }
}

proof fn lemma_dbr_read_epdg_fqcsid(m: DeleteBearerResponseModel)
    requires
        dbr_wf(m),
    ensures
        opt_unknown(m.epdg_fqcsid).fold_left(dbr_partial(m, 5), dbr_step_fn()) == dbr_partial(m, 6),
{
    if let Some(x) = m.epdg_fqcsid {
        lemma_fold_one(IeModel::Unknown(x), dbr_partial(m, 5), dbr_step_fn());
    }
}

proof fn lemma_dbr_read_twan_fqcsid(m: DeleteBearerResponseModel)
    requires
        dbr_wf(m),
    ensures
        opt_unknown(m.twan_fqcsid).fold_left(dbr_partial(m, 6), dbr_step_fn()) == dbr_partial(m, 7),
{
    if let Some(x) = m.twan_fqcsid {
        lemma_fold_one(IeModel::Unknown(x), dbr_partial(m, 6), dbr_step_fn());
    }
}

proof fn lemma_dbr_read_pco(m: DeleteBearerResponseModel)
    requires
        dbr_wf(m),
    ensures
        opt_unknown(m.pco).fold_left(dbr_partial(m, 7), dbr_step_fn()) == dbr_partial(m, 8),
{
    if let Some(x) = m.pco {
        lemma_fold_one(IeModel::Unknown(x), dbr_partial(m, 7), dbr_step_fn());
    }
}

proof fn lemma_dbr_read_uetimezone(m: DeleteBearerResponseModel)
    requires
        dbr_wf(m),
    ensures
        opt_unknown(m.uetimezone).fold_left(dbr_partial(m, 8), dbr_step_fn()) == dbr_partial(m, 9),
{
    if let Some(x) = m.uetimezone {
        lemma_fold_one(IeModel::Unknown(x), dbr_partial(m, 8), dbr_step_fn());
    }
}

proof fn lemma_dbr_read_uli(m: DeleteBearerResponseModel)
    requires
        dbr_wf(m),
    ensures
        opt_unknown(m.uli).fold_left(dbr_partial(m, 9), dbr_step_fn()) == dbr_partial(m, 10),
{
    if let Some(x) = m.uli {
        lemma_fold_one(IeModel::Unknown(x), dbr_partial(m, 9), dbr_step_fn());
    }
}

proof fn lemma_dbr_read_uli_timestamp(m: DeleteBearerResponseModel)
    requires
        dbr_wf(m),
    ensures
        opt_unknown(m.uli_timestamp).fold_left(dbr_partial(m, 10), dbr_step_fn()) == dbr_partial(m, 11),
{
    if let Some(x) = m.uli_timestamp {
        lemma_fold_one(IeModel::Unknown(x), dbr_partial(m, 10), dbr_step_fn());
    }
}

proof fn lemma_dbr_read_twan_id(m: DeleteBearerResponseModel)
    requires
        dbr_wf(m),
    ensures
        opt_unknown(m.twan_id).fold_left(dbr_partial(m, 11), dbr_step_fn()) == dbr_partial(m, 12),
{
    if let Some(x) = m.twan_id {
        lemma_fold_one(IeModel::Unknown(x), dbr_partial(m, 11), dbr_step_fn());
    }
}

proof fn lemma_dbr_read_twan_id_timestamp(m: DeleteBearerResponseModel)
    requires
        dbr_wf(m),
    ensures
        opt_unknown(m.twan_id_timestamp).fold_left(dbr_partial(m, 12), dbr_step_fn()) == dbr_partial(m, 13),
{
    if let Some(x) = m.twan_id_timestamp {
        lemma_fold_one(IeModel::Unknown(x), dbr_partial(m, 12), dbr_step_fn());
    }
}

proof fn lemma_dbr_read_overload_info(m: DeleteBearerResponseModel)
    requires
        dbr_wf(m),
    ensures
        overload_elements(m.overload_info).fold_left(dbr_partial(m, 13), dbr_step_fn()) == dbr_partial(m, 14),
{
    assert forall|i: int| 0 <= i < m.overload_info.len() implies #[trigger] m.overload_info[i].ins < 3 by {
        assert(overload_wf(m.overload_info[i]) && m.overload_info[i].ins < 3);
    }
    lemma_dbr_scan_overload_info(dbr_partial(m, 13), m.overload_info);
    assert(Seq::empty() + m.overload_info =~= m.overload_info);
}

proof fn lemma_dbr_read_mme_id(m: DeleteBearerResponseModel)
    requires
        dbr_wf(m),
    ensures
        opt_unknown(m.mme_id).fold_left(dbr_partial(m, 14), dbr_step_fn()) == dbr_partial(m, 15),
{
    if let Some(x) = m.mme_id {
        lemma_fold_one(IeModel::Unknown(x), dbr_partial(m, 14), dbr_step_fn());
    }
}

proof fn lemma_dbr_read_wlan_loc(m: DeleteBearerResponseModel)
    requires
        dbr_wf(m),
    ensures
        opt_unknown(m.wlan_loc).fold_left(dbr_partial(m, 15), dbr_step_fn()) == dbr_partial(m, 16),
{
    if let Some(x) = m.wlan_loc {
        lemma_fold_one(IeModel::Unknown(x), dbr_partial(m, 15), dbr_step_fn());
    }
}

proof fn lemma_dbr_read_wlan_loc_timestamp(m: DeleteBearerResponseModel)
    requires
        dbr_wf(m),
    ensures
        opt_unknown(m.wlan_loc_timestamp).fold_left(dbr_partial(m, 16), dbr_step_fn()) == dbr_partial(m, 17),
{
    if let Some(x) = m.wlan_loc_timestamp {
        lemma_fold_one(IeModel::Unknown(x), dbr_partial(m, 16), dbr_step_fn());
    }
}

proof fn lemma_dbr_read_ue_localip(m: DeleteBearerResponseModel)
    requires
        dbr_wf(m),
    ensures
        opt_unknown(m.ue_localip).fold_left(dbr_partial(m, 17), dbr_step_fn()) == dbr_partial(m, 18),
{
    if let Some(x) = m.ue_localip {
        lemma_fold_one(IeModel::Unknown(x), dbr_partial(m, 17), dbr_step_fn());
    }
}

proof fn lemma_dbr_read_ue_udpport(m: DeleteBearerResponseModel)
    requires
        dbr_wf(m),
    ensures
        opt_unknown(m.ue_udpport).fold_left(dbr_partial(m, 18), dbr_step_fn()) == dbr_partial(m, 19),
{
    if let Some(x) = m.ue_udpport {
        lemma_fold_one(IeModel::Unknown(x), dbr_partial(m, 18), dbr_step_fn());
    }
}

proof fn lemma_dbr_read_nbifom(m: DeleteBearerResponseModel)
    requires
        dbr_wf(m),
    ensures
        opt_unknown(m.nbifom).fold_left(dbr_partial(m, 19), dbr_step_fn()) == dbr_partial(m, 20),
{
    if let Some(x) = m.nbifom {
        lemma_fold_one(IeModel::Unknown(x), dbr_partial(m, 19), dbr_step_fn());
    }
}

proof fn lemma_dbr_read_ue_tcpport(m: DeleteBearerResponseModel)
    requires
        dbr_wf(m),
    ensures
        opt_unknown(m.ue_tcpport).fold_left(dbr_partial(m, 20), dbr_step_fn()) == dbr_partial(m, 21),
{
    if let Some(x) = m.ue_tcpport {
        lemma_fold_one(IeModel::Unknown(x), dbr_partial(m, 20), dbr_step_fn());
    }
}

proof fn lemma_dbr_read_secondary_rat_usage_report(m: DeleteBearerResponseModel)
    requires
        dbr_wf(m),
    ensures
        unknown_elements(m.secondary_rat_usage_report).fold_left(dbr_partial(m, 21), dbr_step_fn()) == dbr_partial(m, 22),
{
    assert forall|i: int| 0 <= i < m.secondary_rat_usage_report.len() implies (#[trigger] m.secondary_rat_usage_report[i]).t == SECONDARY_RAT_USAGE_REPORT && m.secondary_rat_usage_report[i].ins == 0 by {
        assert(list_field_wf(m.secondary_rat_usage_report[i], SECONDARY_RAT_USAGE_REPORT));
    }
    lemma_dbr_scan_secondary_rat_usage_report(dbr_partial(m, 21), m.secondary_rat_usage_report);
    assert(Seq::empty() + m.secondary_rat_usage_report =~= m.secondary_rat_usage_report);
}

proof fn lemma_dbr_read_private_ext(m: DeleteBearerResponseModel)
    requires
        dbr_wf(m),
    ensures
        private_ext_elements(m.private_ext).fold_left(dbr_partial(m, 22), dbr_step_fn()) == dbr_partial(m, 23),
{
    lemma_dbr_scan_private_ext(dbr_partial(m, 22), m.private_ext);
    assert(Seq::empty() + m.private_ext =~= m.private_ext);
}

/// Decoding an encoded message gives the same message back.
pub proof fn lemma_dbr_round_trip(m: DeleteBearerResponseModel)
    requires
        dbr_wf(m),
    ensures
        dbr_of(dbr_bytes(m)) == Ok::<DeleteBearerResponseModel, GTPV2Error>(m),
{
    lemma_dbr_elements_wf(m);
    lemma_envelope_round_trip(m.header, dbr_elements(m));
    let f = dbr_step_fn();
    let h = seq![IeModel::Cause(m.cause)];
    let a0 = DeleteBearerResponseScan { msg: dbr_empty(m.header), cause_seen: false };
    lemma_dbr_scan_head(m);
    let s0 = dbr_partial(m, 0);
    assert(h.fold_left(a0, f) == s0);
    lemma_fold_concat(h, dbr_rest(m), a0, f);
    let p0 = opt_ebi(m.linked_ebi);
    lemma_dbr_read_linked_ebi(m);
    let p1 = unknown_elements(m.bearer_ctxs);
    lemma_fold_concat(p0, p1, s0, f);
    lemma_dbr_read_bearer_ctxs(m);
    let p2 = opt_unknown(m.recovery);
    lemma_fold_concat(p0 + p1, p2, s0, f);
    lemma_dbr_read_recovery(m);
    let p3 = opt_unknown(m.mme_fqcsid);
    lemma_fold_concat(p0 + p1 + p2, p3, s0, f);
    lemma_dbr_read_mme_fqcsid(m);
    let p4 = opt_unknown(m.sgw_fqcsid);
    lemma_fold_concat(p0 + p1 + p2 + p3, p4, s0, f);
    lemma_dbr_read_sgw_fqcsid(m);
    let p5 = opt_unknown(m.epdg_fqcsid);
    lemma_fold_concat(p0 + p1 + p2 + p3 + p4, p5, s0, f);
    lemma_dbr_read_epdg_fqcsid(m);
    let p6 = opt_unknown(m.twan_fqcsid);
    lemma_fold_concat(p0 + p1 + p2 + p3 + p4 + p5, p6, s0, f);
    lemma_dbr_read_twan_fqcsid(m);
    let p7 = opt_unknown(m.pco);
    lemma_fold_concat(p0 + p1 + p2 + p3 + p4 + p5 + p6, p7, s0, f);
    lemma_dbr_read_pco(m);
    let p8 = opt_unknown(m.uetimezone);
    lemma_fold_concat(p0 + p1 + p2 + p3 + p4 + p5 + p6 + p7, p8, s0, f);
    lemma_dbr_read_uetimezone(m);
    let p9 = opt_unknown(m.uli);
    lemma_fold_concat(p0 + p1 + p2 + p3 + p4 + p5 + p6 + p7 + p8, p9, s0, f);
    lemma_dbr_read_uli(m);
    let p10 = opt_unknown(m.uli_timestamp);
    lemma_fold_concat(p0 + p1 + p2 + p3 + p4 + p5 + p6 + p7 + p8 + p9, p10, s0, f);
    lemma_dbr_read_uli_timestamp(m);
    let p11 = opt_unknown(m.twan_id);
    lemma_fold_concat(p0 + p1 + p2 + p3 + p4 + p5 + p6 + p7 + p8 + p9 + p10, p11, s0, f);
    lemma_dbr_read_twan_id(m);
    let p12 = opt_unknown(m.twan_id_timestamp);
    lemma_fold_concat(p0 + p1 + p2 + p3 + p4 + p5 + p6 + p7 + p8 + p9 + p10 + p11, p12, s0, f);
    lemma_dbr_read_twan_id_timestamp(m);
    let p13 = overload_elements(m.overload_info);
    lemma_fold_concat(p0 + p1 + p2 + p3 + p4 + p5 + p6 + p7 + p8 + p9 + p10 + p11 + p12, p13, s0, f);
    lemma_dbr_read_overload_info(m);
    let p14 = opt_unknown(m.mme_id);
    lemma_fold_concat(p0 + p1 + p2 + p3 + p4 + p5 + p6 + p7 + p8 + p9 + p10 + p11 + p12 + p13, p14, s0, f);
    lemma_dbr_read_mme_id(m);
    let p15 = opt_unknown(m.wlan_loc);
    lemma_fold_concat(p0 + p1 + p2 + p3 + p4 + p5 + p6 + p7 + p8 + p9 + p10 + p11 + p12 + p13 + p14, p15, s0, f);
    lemma_dbr_read_wlan_loc(m);
    let p16 = opt_unknown(m.wlan_loc_timestamp);
    lemma_fold_concat(p0 + p1 + p2 + p3 + p4 + p5 + p6 + p7 + p8 + p9 + p10 + p11 + p12 + p13 + p14 + p15, p16, s0, f);
    lemma_dbr_read_wlan_loc_timestamp(m);
    let p17 = opt_unknown(m.ue_localip);
    lemma_fold_concat(p0 + p1 + p2 + p3 + p4 + p5 + p6 + p7 + p8 + p9 + p10 + p11 + p12 + p13 + p14 + p15 + p16, p17, s0, f);
    lemma_dbr_read_ue_localip(m);
    let p18 = opt_unknown(m.ue_udpport);
    lemma_fold_concat(p0 + p1 + p2 + p3 + p4 + p5 + p6 + p7 + p8 + p9 + p10 + p11 + p12 + p13 + p14 + p15 + p16 + p17, p18, s0, f);
    lemma_dbr_read_ue_udpport(m);
    let p19 = opt_unknown(m.nbifom);
    lemma_fold_concat(p0 + p1 + p2 + p3 + p4 + p5 + p6 + p7 + p8 + p9 + p10 + p11 + p12 + p13 + p14 + p15 + p16 + p17 + p18, p19, s0, f);
    lemma_dbr_read_nbifom(m);
    let p20 = opt_unknown(m.ue_tcpport);
    lemma_fold_concat(p0 + p1 + p2 + p3 + p4 + p5 + p6 + p7 + p8 + p9 + p10 + p11 + p12 + p13 + p14 + p15 + p16 + p17 + p18 + p19, p20, s0, f);
    lemma_dbr_read_ue_tcpport(m);
    let p21 = unknown_elements(m.secondary_rat_usage_report);
    lemma_fold_concat(p0 + p1 + p2 + p3 + p4 + p5 + p6 + p7 + p8 + p9 + p10 + p11 + p12 + p13 + p14 + p15 + p16 + p17 + p18 + p19 + p20, p21, s0, f);
    lemma_dbr_read_secondary_rat_usage_report(m);
    let p22 = private_ext_elements(m.private_ext);
    lemma_fold_concat(p0 + p1 + p2 + p3 + p4 + p5 + p6 + p7 + p8 + p9 + p10 + p11 + p12 + p13 + p14 + p15 + p16 + p17 + p18 + p19 + p20 + p21, p22, s0, f);
    lemma_dbr_read_private_ext(m);
    assert(dbr_partial(m, 23).msg == m);
}

/// Whether a field takes one of the mandatory slots.
pub open spec fn dbr_takes_mandatory(e: IeModel) -> bool {
    match e {
        IeModel::Cause(x) => x.ins == 0,
        _ => false,
    }
}

pub open spec fn dbr_no_mandatory(es: Seq<IeModel>) -> bool {
    forall|i: int| 0 <= i < es.len() ==> !#[trigger] dbr_takes_mandatory(es[i])
}

proof fn lemma_dbr_no_mandatory_concat(a: Seq<IeModel>, b: Seq<IeModel>)
    requires
        dbr_no_mandatory(a),
        dbr_no_mandatory(b),
    ensures
        dbr_no_mandatory(a + b),
{
    assert forall|i: int| 0 <= i < (a + b).len() implies !#[trigger] dbr_takes_mandatory((a + b)[i]) by {
        if i < a.len() {
            assert((a + b)[i] == a[i]);
            assert(!dbr_takes_mandatory(a[i]));
        } else {
            assert((a + b)[i] == b[i - a.len()]);
            assert(!dbr_takes_mandatory(b[i - a.len()]));
        }
    }
}

/// Fields that no mandatory slot takes leave the seen flags as they were.
proof fn lemma_dbr_flags_kept(a: DeleteBearerResponseScan, es: Seq<IeModel>)
    requires
        dbr_no_mandatory(es),
    ensures
        es.fold_left(a, dbr_step_fn()).cause_seen == a.cause_seen,
    decreases es.len(),
{
    if es.len() > 0 {
        assert(dbr_no_mandatory(es.drop_last())) by {
            assert forall|i: int| 0 <= i < es.drop_last().len() implies !#[trigger] dbr_takes_mandatory(es.drop_last()[i]) by {
                assert(es.drop_last()[i] == es[i]);
                assert(!dbr_takes_mandatory(es[i]));
            }
        }
        lemma_dbr_flags_kept(a, es.drop_last());
        assert(!dbr_takes_mandatory(es[es.len() - 1]));
    }
}

proof fn lemma_dbr_rest(m: DeleteBearerResponseModel)
    requires
        m.linked_ebi matches Some(x) ==> x.ins == 0,
    ensures
        dbr_no_mandatory(dbr_rest(m)),
{
    let p0 = opt_ebi(m.linked_ebi);
    assert(dbr_no_mandatory(p0));
    let p1 = unknown_elements(m.bearer_ctxs);
    assert(dbr_no_mandatory(p1));
    lemma_dbr_no_mandatory_concat(p0, p1);
    let p2 = opt_unknown(m.recovery);
    assert(dbr_no_mandatory(p2));
    lemma_dbr_no_mandatory_concat(p0 + p1, p2);
    let p3 = opt_unknown(m.mme_fqcsid);
    assert(dbr_no_mandatory(p3));
    lemma_dbr_no_mandatory_concat(p0 + p1 + p2, p3);
    let p4 = opt_unknown(m.sgw_fqcsid);
    assert(dbr_no_mandatory(p4));
    lemma_dbr_no_mandatory_concat(p0 + p1 + p2 + p3, p4);
    let p5 = opt_unknown(m.epdg_fqcsid);
    assert(dbr_no_mandatory(p5));
    lemma_dbr_no_mandatory_concat(p0 + p1 + p2 + p3 + p4, p5);
    let p6 = opt_unknown(m.twan_fqcsid);
    assert(dbr_no_mandatory(p6));
    lemma_dbr_no_mandatory_concat(p0 + p1 + p2 + p3 + p4 + p5, p6);
    let p7 = opt_unknown(m.pco);
    assert(dbr_no_mandatory(p7));
    lemma_dbr_no_mandatory_concat(p0 + p1 + p2 + p3 + p4 + p5 + p6, p7);
    let p8 = opt_unknown(m.uetimezone);
    assert(dbr_no_mandatory(p8));
    lemma_dbr_no_mandatory_concat(p0 + p1 + p2 + p3 + p4 + p5 + p6 + p7, p8);
    let p9 = opt_unknown(m.uli);
    assert(dbr_no_mandatory(p9));
    lemma_dbr_no_mandatory_concat(p0 + p1 + p2 + p3 + p4 + p5 + p6 + p7 + p8, p9);
    let p10 = opt_unknown(m.uli_timestamp);
    assert(dbr_no_mandatory(p10));
    lemma_dbr_no_mandatory_concat(p0 + p1 + p2 + p3 + p4 + p5 + p6 + p7 + p8 + p9, p10);
    let p11 = opt_unknown(m.twan_id);
    assert(dbr_no_mandatory(p11));
    lemma_dbr_no_mandatory_concat(p0 + p1 + p2 + p3 + p4 + p5 + p6 + p7 + p8 + p9 + p10, p11);
    let p12 = opt_unknown(m.twan_id_timestamp);
    assert(dbr_no_mandatory(p12));
    lemma_dbr_no_mandatory_concat(p0 + p1 + p2 + p3 + p4 + p5 + p6 + p7 + p8 + p9 + p10 + p11, p12);
    let p13 = overload_elements(m.overload_info);
    assert(dbr_no_mandatory(p13));
    lemma_dbr_no_mandatory_concat(p0 + p1 + p2 + p3 + p4 + p5 + p6 + p7 + p8 + p9 + p10 + p11 + p12, p13);
    let p14 = opt_unknown(m.mme_id);
    assert(dbr_no_mandatory(p14));
    lemma_dbr_no_mandatory_concat(p0 + p1 + p2 + p3 + p4 + p5 + p6 + p7 + p8 + p9 + p10 + p11 + p12 + p13, p14);
    let p15 = opt_unknown(m.wlan_loc);
    assert(dbr_no_mandatory(p15));
    lemma_dbr_no_mandatory_concat(p0 + p1 + p2 + p3 + p4 + p5 + p6 + p7 + p8 + p9 + p10 + p11 + p12 + p13 + p14, p15);
    let p16 = opt_unknown(m.wlan_loc_timestamp);
    assert(dbr_no_mandatory(p16));
    lemma_dbr_no_mandatory_concat(p0 + p1 + p2 + p3 + p4 + p5 + p6 + p7 + p8 + p9 + p10 + p11 + p12 + p13 + p14 + p15, p16);
    let p17 = opt_unknown(m.ue_localip);
    assert(dbr_no_mandatory(p17));
    lemma_dbr_no_mandatory_concat(p0 + p1 + p2 + p3 + p4 + p5 + p6 + p7 + p8 + p9 + p10 + p11 + p12 + p13 + p14 + p15 + p16, p17);
    let p18 = opt_unknown(m.ue_udpport);
    assert(dbr_no_mandatory(p18));
    lemma_dbr_no_mandatory_concat(p0 + p1 + p2 + p3 + p4 + p5 + p6 + p7 + p8 + p9 + p10 + p11 + p12 + p13 + p14 + p15 + p16 + p17, p18);
    let p19 = opt_unknown(m.nbifom);
    assert(dbr_no_mandatory(p19));
    lemma_dbr_no_mandatory_concat(p0 + p1 + p2 + p3 + p4 + p5 + p6 + p7 + p8 + p9 + p10 + p11 + p12 + p13 + p14 + p15 + p16 + p17 + p18, p19);
    let p20 = opt_unknown(m.ue_tcpport);
    assert(dbr_no_mandatory(p20));
    lemma_dbr_no_mandatory_concat(p0 + p1 + p2 + p3 + p4 + p5 + p6 + p7 + p8 + p9 + p10 + p11 + p12 + p13 + p14 + p15 + p16 + p17 + p18 + p19, p20);
    let p21 = unknown_elements(m.secondary_rat_usage_report);
    assert(dbr_no_mandatory(p21));
    lemma_dbr_no_mandatory_concat(p0 + p1 + p2 + p3 + p4 + p5 + p6 + p7 + p8 + p9 + p10 + p11 + p12 + p13 + p14 + p15 + p16 + p17 + p18 + p19 + p20, p21);
    let p22 = private_ext_elements(m.private_ext);
    assert(dbr_no_mandatory(p22));
    lemma_dbr_no_mandatory_concat(p0 + p1 + p2 + p3 + p4 + p5 + p6 + p7 + p8 + p9 + p10 + p11 + p12 + p13 + p14 + p15 + p16 + p17 + p18 + p19 + p20 + p21, p22);
}

/// Leaving a field out of a well-formed message keeps it encodable.
proof fn lemma_dbr_removed_fits(m: DeleteBearerResponseModel, k: int)
    requires
        dbr_wf(m),
        0 <= k < dbr_elements(m).len(),
    ensures
        ies_wf(dbr_elements(m).remove(k)),
        envelope_fits(m.header, dbr_elements(m).remove(k)),
{
    lemma_dbr_elements_wf(m);
    let es = dbr_elements(m);
    let es2 = es.remove(k);
    assert forall|j: int| 0 <= j < es2.len() implies #[trigger] ie_wf(es2[j]) by {
        let src = if j < k { j } else { j + 1 };
        assert(es2[j] == es[src]);
        assert(ie_wf(es[src]));
    }
    lemma_ies_wf_fit(es2);
    assert(ie_fields(es2) =~= ie_fields(es).remove(k));
    crate::ie::lemma_fields_bytes_remove(ie_fields(es), k);
}

/// A message encoded without one of its mandatory fields (cause, by position
/// `k`) fails to decode, naming that field.
pub proof fn lemma_dbr_mandatory_missing(m: DeleteBearerResponseModel, k: int)
    requires
        dbr_wf(m),
        0 <= k < 1,
    ensures
        dbr_of(envelope_bytes(m.header, dbr_elements(m).remove(k))) == Err::<DeleteBearerResponseModel, GTPV2Error>(
            GTPV2Error::MessageMandatoryIEMissing(CAUSE),
        ),
{
    lemma_dbr_rest(m);
    lemma_dbr_removed_fits(m, k);
    let es = dbr_elements(m);
    let h = seq![IeModel::Cause(m.cause)];
    let rest = dbr_rest(m);
    let hk = h.remove(k);
    let es2 = es.remove(k);
    assert(es2 =~= hk + rest);
    lemma_envelope_round_trip(m.header, es2);
    let h2 = framed_header(m.header, fields_bytes(ie_fields(es2)));
    let f = dbr_step_fn();
    let a0 = DeleteBearerResponseScan { msg: dbr_empty(h2), cause_seen: false };
    assert(hk =~= Seq::<IeModel>::empty());
    assert(hk + rest =~= rest);
    lemma_dbr_flags_kept(a0, rest);
}

/// Type codes this message carries whole.
pub open spec fn dbr_carries(t: u8) -> bool {
    t == BEARER_CTX || t == RECOVERY || t == FQCSID || t == PCO || t == UE_TIME_ZONE || t == ULI || t == ULI_TIMESTAMP || t == TWAN_ID || t == TWAN_ID_TIMESTAMP || t == IP_ADDRESS || t == PORT_NBR || t == FCONTAINER || t == SECONDARY_RAT_USAGE_REPORT
}

/// A field of a type that neither the catalog nor this message knows is
/// passed over: the message is what it would be without it.
pub proof fn lemma_dbr_ignores_unknown(start: DeleteBearerResponseModel, a: Seq<IeModel>, u: FieldModel, b: Seq<IeModel>)
    requires
        !dbr_carries(u.t),
    ensures
        dbr_reconcile(start, a + seq![IeModel::Unknown(u)] + b) == dbr_reconcile(start, a + b),
{
    let f = dbr_step_fn();
    let s = DeleteBearerResponseScan { msg: start, cause_seen: false };
    let x = IeModel::Unknown(u);
    lemma_fold_concat(a + seq![x], b, s, f);
    lemma_fold_concat(a, seq![x], s, f);
    lemma_fold_one(x, a.fold_left(s, f), f);
    lemma_fold_concat(a, b, s, f);
}

/// Connection set identifiers at instances 0 to 3 fill four distinct roles;
/// one at an instance past 3 is dropped and leaves them as they are.
pub proof fn lemma_dbr_fqcsid_routing(
    a: DeleteBearerResponseScan,
    w: FieldModel,
    x: FieldModel,
    y: FieldModel,
    z: FieldModel,
    v: FieldModel,
)
    requires
        a.msg.mme_fqcsid is None && a.msg.sgw_fqcsid is None,
        a.msg.epdg_fqcsid is None && a.msg.twan_fqcsid is None,
        w.t == FQCSID && w.ins == 0,
        x.t == FQCSID && x.ins == 1,
        y.t == FQCSID && y.ins == 2,
        z.t == FQCSID && z.ins == 3,
        v.t == FQCSID && v.ins > 3,
    ensures
        seq![
            IeModel::Unknown(w),
            IeModel::Unknown(x),
            IeModel::Unknown(y),
            IeModel::Unknown(z),
            IeModel::Unknown(v),
        ].fold_left(a, dbr_step_fn()) == (DeleteBearerResponseScan {
            msg: DeleteBearerResponseModel {
                mme_fqcsid: Some(w),
                sgw_fqcsid: Some(x),
                epdg_fqcsid: Some(y),
                twan_fqcsid: Some(z),
                ..a.msg
            },
            ..a
        }),
{
    let f = dbr_step_fn();
    let e0 = IeModel::Unknown(w);
    let e1 = IeModel::Unknown(x);
    let e2 = IeModel::Unknown(y);
    let e3 = IeModel::Unknown(z);
    let e4 = IeModel::Unknown(v);
    lemma_fold_one(e0, a, f);
    lemma_fold_concat(seq![e0], seq![e1], a, f);
    lemma_fold_one(e1, f(a, e0), f);
    assert(seq![e0] + seq![e1] =~= seq![e0, e1]);
    lemma_fold_concat(seq![e0, e1], seq![e2], a, f);
    lemma_fold_one(e2, f(f(a, e0), e1), f);
    assert(seq![e0, e1] + seq![e2] =~= seq![e0, e1, e2]);
    lemma_fold_concat(seq![e0, e1, e2], seq![e3], a, f);
    lemma_fold_one(e3, f(f(f(a, e0), e1), e2), f);
    assert(seq![e0, e1, e2] + seq![e3] =~= seq![e0, e1, e2, e3]);
    lemma_fold_concat(seq![e0, e1, e2, e3], seq![e4], a, f);
    lemma_fold_one(e4, f(f(f(f(a, e0), e1), e2), e3), f);
    assert(seq![e0, e1, e2, e3] + seq![e4] =~= seq![e0, e1, e2, e3, e4]);
}

impl DeleteBearerResponse {
    /// The message's fields, in the order they are written.
    pub fn to_vec(&self) -> (r: Vec<InformationElement>)
        ensures
            ie_views(r@) == dbr_elements(self@),
    {
        let ghost m = self@;
        let mut elements: Vec<InformationElement> = Vec::new();
        elements.push(InformationElement::Cause(self.cause));
        let ghost hd = seq![IeModel::Cause(m.cause)];
        assert(ie_views(elements@) =~= hd);
        let mut tail: Vec<InformationElement> = Vec::new();
        push_opt_ebi(&mut tail, &self.linked_ebi);
        let ghost mut post = opt_ebi(m.linked_ebi);
        assert(ie_views(tail@) =~= post);
        push_unknowns(&mut tail, &self.bearer_ctxs);
        proof {
            post = post + unknown_elements(m.bearer_ctxs);
        }
        assert(ie_views(tail@) == post);
        push_opt_unknown(&mut tail, &self.recovery);
        proof {
            post = post + opt_unknown(m.recovery);
        }
        assert(ie_views(tail@) == post);
        push_opt_unknown(&mut tail, &self.mme_fqcsid);
        proof {
            post = post + opt_unknown(m.mme_fqcsid);
        }
        assert(ie_views(tail@) == post);
        push_opt_unknown(&mut tail, &self.sgw_fqcsid);
        proof {
            post = post + opt_unknown(m.sgw_fqcsid);
        }
        assert(ie_views(tail@) == post);
        push_opt_unknown(&mut tail, &self.epdg_fqcsid);
        proof {
            post = post + opt_unknown(m.epdg_fqcsid);
        }
        assert(ie_views(tail@) == post);
        push_opt_unknown(&mut tail, &self.twan_fqcsid);
        proof {
            post = post + opt_unknown(m.twan_fqcsid);
        }
        assert(ie_views(tail@) == post);
        push_opt_unknown(&mut tail, &self.pco);
        proof {
            post = post + opt_unknown(m.pco);
        }
        assert(ie_views(tail@) == post);
        push_opt_unknown(&mut tail, &self.uetimezone);
        proof {
            post = post + opt_unknown(m.uetimezone);
        }
        assert(ie_views(tail@) == post);
        push_opt_unknown(&mut tail, &self.uli);
        proof {
            post = post + opt_unknown(m.uli);
        }
        assert(ie_views(tail@) == post);
        push_opt_unknown(&mut tail, &self.uli_timestamp);
        proof {
            post = post + opt_unknown(m.uli_timestamp);
        }
        assert(ie_views(tail@) == post);
        push_opt_unknown(&mut tail, &self.twan_id);
        proof {
            post = post + opt_unknown(m.twan_id);
        }
        assert(ie_views(tail@) == post);
        push_opt_unknown(&mut tail, &self.twan_id_timestamp);
        proof {
            post = post + opt_unknown(m.twan_id_timestamp);
        }
        assert(ie_views(tail@) == post);
        push_overloads(&mut tail, &self.overload_info);
        proof {
            post = post + overload_elements(m.overload_info);
        }
        assert(ie_views(tail@) == post);
        push_opt_unknown(&mut tail, &self.mme_id);
        proof {
            post = post + opt_unknown(m.mme_id);
        }
        assert(ie_views(tail@) == post);
        push_opt_unknown(&mut tail, &self.wlan_loc);
        proof {
            post = post + opt_unknown(m.wlan_loc);
        }
        assert(ie_views(tail@) == post);
        push_opt_unknown(&mut tail, &self.wlan_loc_timestamp);
        proof {
            post = post + opt_unknown(m.wlan_loc_timestamp);
        }
        assert(ie_views(tail@) == post);
        push_opt_unknown(&mut tail, &self.ue_localip);
        proof {
            post = post + opt_unknown(m.ue_localip);
        }
        assert(ie_views(tail@) == post);
        push_opt_unknown(&mut tail, &self.ue_udpport);
        proof {
            post = post + opt_unknown(m.ue_udpport);
        }
        assert(ie_views(tail@) == post);
        push_opt_unknown(&mut tail, &self.nbifom);
        proof {
            post = post + opt_unknown(m.nbifom);
        }
        assert(ie_views(tail@) == post);
        push_opt_unknown(&mut tail, &self.ue_tcpport);
        proof {
            post = post + opt_unknown(m.ue_tcpport);
        }
        assert(ie_views(tail@) == post);
        push_unknowns(&mut tail, &self.secondary_rat_usage_report);
        proof {
            post = post + unknown_elements(m.secondary_rat_usage_report);
        }
        assert(ie_views(tail@) == post);
        push_private_exts(&mut tail, &self.private_ext);
        proof {
            post = post + private_ext_elements(m.private_ext);
        }
        assert(ie_views(tail@) == post);
        let ghost front = ie_views(elements@);
        let ghost back = ie_views(tail@);
        elements.append(&mut tail);
        assert(ie_views(elements@) =~= front + back);
        elements
    }

    /// Places the decoded fields into the message, in order (see
    /// [`dbr_step`]), and reports the first missing mandatory field.
    pub fn from_vec(&mut self, elements: Vec<InformationElement>) -> (r: Result<bool, GTPV2Error>)
        ensures
            final(self)@ == dbr_scan(old(self)@, ie_views(elements@)).msg,
            r == match dbr_reconcile(old(self)@, ie_views(elements@)) {
                Ok(_) => Ok::<bool, GTPV2Error>(true),
                Err(e) => Err(e),
            },
    {
        let ghost start = self@;
        let ghost es = ie_views(elements@);
        let mut cause_seen = false;
        assert(es.take(0) =~= Seq::<IeModel>::empty());
        for e in iter: elements.into_iter()
            invariant
                iter.seq() == elements@,
                es == ie_views(elements@),
                dbr_scan(start, es.take(iter.index() as int)) == (DeleteBearerResponseScan {
                    msg: self@,
                    cause_seen,
                }),
        {
            let ghost k = iter.index() as int;
            let ghost before = self@;
            assert(es.take(k + 1).drop_last() =~= es.take(k));
            assert(es.take(k + 1).last() == e@);
            match e {
                InformationElement::Cause(j) => {
                    if j.ins == 0 && !cause_seen {
                        self.cause = j;
                        cause_seen = true;
                    }
                },
                InformationElement::Ebi(j) => {
                    if j.ins == 0 && self.linked_ebi.is_none() {
                        self.linked_ebi = Some(j);
                    }
                },
                InformationElement::OverloadControlInfo(j) => {
                    if j.ins < 3 {
                        let ghost jv = j@;
                        self.overload_info.push(j);
                        assert(self@.overload_info =~= before.overload_info.push(jv));
                    }
                },
                InformationElement::PrivateExtension(j) => {
                    let ghost jv = j@;
                    self.private_ext.push(j);
                    assert(self@.private_ext =~= before.private_ext.push(jv));
                },
                InformationElement::Unknown(j) => {
                    if j.t == BEARER_CTX && j.ins == 0 {
                        let ghost jv = j@;
                        self.bearer_ctxs.push(j);
                        assert(field_views(self.bearer_ctxs@) =~= before.bearer_ctxs.push(jv));
                    } else if j.t == RECOVERY && j.ins == 0 && self.recovery.is_none() {
                        self.recovery = Some(j);
                    } else if j.t == FQCSID && j.ins == 0 && self.mme_fqcsid.is_none() {
                        self.mme_fqcsid = Some(j);
                    } else if j.t == FQCSID && j.ins == 1 && self.sgw_fqcsid.is_none() {
                        self.sgw_fqcsid = Some(j);
                    } else if j.t == FQCSID && j.ins == 2 && self.epdg_fqcsid.is_none() {
                        self.epdg_fqcsid = Some(j);
                    } else if j.t == FQCSID && j.ins == 3 && self.twan_fqcsid.is_none() {
                        self.twan_fqcsid = Some(j);
                    } else if j.t == PCO && j.ins == 0 && self.pco.is_none() {
                        self.pco = Some(j);
                    } else if j.t == UE_TIME_ZONE && j.ins == 0 && self.uetimezone.is_none() {
                        self.uetimezone = Some(j);
                    } else if j.t == ULI && j.ins == 0 && self.uli.is_none() {
                        self.uli = Some(j);
                    } else if j.t == ULI_TIMESTAMP && j.ins == 0 && self.uli_timestamp.is_none() {
                        self.uli_timestamp = Some(j);
                    } else if j.t == TWAN_ID && j.ins == 0 && self.twan_id.is_none() {
                        self.twan_id = Some(j);
                    } else if j.t == TWAN_ID_TIMESTAMP && j.ins == 0 && self.twan_id_timestamp.is_none() {
                        self.twan_id_timestamp = Some(j);
                    } else if j.t == IP_ADDRESS && j.ins == 0 && self.mme_id.is_none() {
                        self.mme_id = Some(j);
                    } else if j.t == TWAN_ID && j.ins == 1 && self.wlan_loc.is_none() {
                        self.wlan_loc = Some(j);
                    } else if j.t == TWAN_ID_TIMESTAMP && j.ins == 1 && self.wlan_loc_timestamp.is_none() {
                        self.wlan_loc_timestamp = Some(j);
                    } else if j.t == IP_ADDRESS && j.ins == 1 && self.ue_localip.is_none() {
                        self.ue_localip = Some(j);
                    } else if j.t == PORT_NBR && j.ins == 0 && self.ue_udpport.is_none() {
                        self.ue_udpport = Some(j);
                    } else if j.t == FCONTAINER && j.ins == 0 && self.nbifom.is_none() {
                        self.nbifom = Some(j);
                    } else if j.t == PORT_NBR && j.ins == 1 && self.ue_tcpport.is_none() {
                        self.ue_tcpport = Some(j);
                    } else if j.t == SECONDARY_RAT_USAGE_REPORT && j.ins == 0 {
                        let ghost jv = j@;
                        self.secondary_rat_usage_report.push(j);
                        assert(field_views(self.secondary_rat_usage_report@) =~= before.secondary_rat_usage_report.push(jv));
                    }
                },
                _ => {},
            }
            assert(self@.bearer_ctxs =~= dbr_scan(start, es.take(k + 1)).msg.bearer_ctxs);
            assert(self@.overload_info =~= dbr_scan(start, es.take(k + 1)).msg.overload_info);
            assert(self@.secondary_rat_usage_report =~= dbr_scan(start, es.take(k + 1)).msg.secondary_rat_usage_report);
            assert(self@.private_ext =~= dbr_scan(start, es.take(k + 1)).msg.private_ext);
        }
        assert(es.take(es.len() as int) =~= es);
        if !cause_seen {
            Err(GTPV2Error::MessageMandatoryIEMissing(CAUSE))
        } else {
            Ok(true)
        }
    }

    /// Appends the message: header, fields, and the header's length patched
    /// to what follows the length field.
    pub fn marshal(&self, buffer: &mut Vec<u8>)
        requires
            envelope_fits(self.header, dbr_elements(self@)),
        ensures
            final(buffer)@ == old(buffer)@ + dbr_bytes(self@),
    {
        let elements = self.to_vec();
        encode_message(&self.header, &elements, buffer);
    }

    /// Decodes a delete bearer response.
    pub fn unmarshal(buffer: &[u8]) -> (r: Result<Self, GTPV2Error>)
        ensures
            result_view(r) == dbr_of(buffer@),
    {
        let (header, elements) = decode_message(buffer, DELETE_BEARER_RESP)?;
        let mut message = DeleteBearerResponse::default();
        message.header = header;
        match message.from_vec(elements) {
            Ok(_) => Ok(message),
            Err(e) => Err(e),
        }
    }
}

} // verus!
