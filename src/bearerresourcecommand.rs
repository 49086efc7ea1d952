//! Bearer resource command.

use vstd::prelude::*;
use crate::basic::{default_ebi, default_pti, ebi_wf, pti_wf, Ebi, Pti, EBI, PTI};
use crate::catalog::{
    ie_fields, ie_views, ie_wf, ies_wf, lemma_ies_wf_concat, lemma_ies_wf_fit, overload_elements,
    overload_views, private_ext_elements, private_ext_views, push_opt_ebi, push_opt_tad, push_opt_unknown,
    push_overloads, push_private_exts, IeModel, InformationElement,
};
use crate::error::GTPV2Error;
use crate::header::{
    decode_message, encode_message, envelope_bytes, envelope_fits, envelope_of, framed_header, header_len,
    header_wf, lemma_envelope_round_trip, Gtpv2Header,
};
use crate::ie::{fields_bytes, opt_field_view, result_view, FieldModel, Ie};
use crate::overload::{overload_wf, OverloadControlInfo, OverloadControlInfoModel};
use crate::privateextension::{private_ext_wf, PrivateExtension, PrivateExtensionModel};
use crate::reconcile::{
    lemma_fold_concat, lemma_fold_one, lemma_opt_unknown_wf, opt_ebi, opt_tad, opt_unknown, slot_wf,
    EPCO, FCONTAINER, FLOW_QOS, FTEID, INDICATION, PCO, RAT_TYPE, SERVING_NETWORK, SPI, ULI,
};
use crate::tad::{tad_wf, TadModel, TrafficAggregateDescription};

verus! {

pub const BEARER_RSRC_CMD: u8 = 68;

/// Bearer resource command.
#[derive(Debug, Clone, PartialEq)]
pub struct BearerResourceCommand {
    pub header: Gtpv2Header,
    pub linked_ebi: Ebi,
    pub pti: Pti,
    pub flow_qos: Option<Ie>,
    pub tad: Option<TrafficAggregateDescription>,
    pub rattype: Option<Ie>,
    pub servingnetwork: Option<Ie>,
    pub uli: Option<Ie>,
    pub ebi: Option<Ebi>,
    pub indication: Option<Ie>,
    pub sgsn_fteid: Option<Ie>,
    pub rnc_fteid: Option<Ie>,
    pub pco: Option<Ie>,
    pub spi: Option<Ie>,
    pub overload_info: Vec<OverloadControlInfo>,
    pub nbifom: Option<Ie>,
    pub epco: Option<Ie>,
    pub fteid_control: Option<Ie>,
    pub private_ext: Vec<PrivateExtension>,
}

/// The mathematical value of a [`BearerResourceCommand`].
pub struct BearerResourceCommandModel {
    pub header: Gtpv2Header,
    pub linked_ebi: Ebi,
    pub pti: Pti,
    pub flow_qos: Option<FieldModel>,
    pub tad: Option<TadModel>,
    pub rattype: Option<FieldModel>,
    pub servingnetwork: Option<FieldModel>,
    pub uli: Option<FieldModel>,
    pub ebi: Option<Ebi>,
    pub indication: Option<FieldModel>,
    pub sgsn_fteid: Option<FieldModel>,
    pub rnc_fteid: Option<FieldModel>,
    pub pco: Option<FieldModel>,
    pub spi: Option<FieldModel>,
    pub overload_info: Seq<OverloadControlInfoModel>,
    pub nbifom: Option<FieldModel>,
    pub epco: Option<FieldModel>,
    pub fteid_control: Option<FieldModel>,
    pub private_ext: Seq<PrivateExtensionModel>,
}

impl View for BearerResourceCommand {
    type V = BearerResourceCommandModel;

    open spec fn view(&self) -> BearerResourceCommandModel {
        BearerResourceCommandModel {
            header: self.header,
            linked_ebi: self.linked_ebi,
            pti: self.pti,
            flow_qos: opt_field_view(self.flow_qos),
            tad: match self.tad {
                Some(x) => Some(x@),
                None => None,
            },
            rattype: opt_field_view(self.rattype),
            servingnetwork: opt_field_view(self.servingnetwork),
            uli: opt_field_view(self.uli),
            ebi: self.ebi,
            indication: opt_field_view(self.indication),
            sgsn_fteid: opt_field_view(self.sgsn_fteid),
            rnc_fteid: opt_field_view(self.rnc_fteid),
            pco: opt_field_view(self.pco),
            spi: opt_field_view(self.spi),
            overload_info: overload_views(self.overload_info@),
            nbifom: opt_field_view(self.nbifom),
            epco: opt_field_view(self.epco),
            fteid_control: opt_field_view(self.fteid_control),
            private_ext: private_ext_views(self.private_ext@),
        }
    }
}

/// The message's fields in the order they are written: mandatory ones, then
/// optional and repeated ones in declaration order, private extensions last.
pub open spec fn brc_elements(m: BearerResourceCommandModel) -> Seq<IeModel> {
    seq![IeModel::Ebi(m.linked_ebi), IeModel::Pti(m.pti)] + brc_rest(m)
}

/// The fields of a message after its mandatory ones.
pub open spec fn brc_rest(m: BearerResourceCommandModel) -> Seq<IeModel> {
    opt_unknown(m.flow_qos)
        + opt_tad(m.tad)
        + opt_unknown(m.rattype)
        + opt_unknown(m.servingnetwork)
        + opt_unknown(m.uli)
        + opt_ebi(m.ebi)
        + opt_unknown(m.indication)
        + opt_unknown(m.sgsn_fteid)
        + opt_unknown(m.rnc_fteid)
        + opt_unknown(m.pco)
        + opt_unknown(m.spi)
        + overload_elements(m.overload_info)
        + opt_unknown(m.nbifom)
        + opt_unknown(m.epco)
        + opt_unknown(m.fteid_control)
        + private_ext_elements(m.private_ext)
}

/// The bytes of the message.
pub open spec fn brc_bytes(m: BearerResourceCommandModel) -> Seq<u8> {
    envelope_bytes(m.header, brc_elements(m))
}

/// The message being filled in, and which mandatory fields were seen.
pub struct BearerResourceCommandScan {
    pub msg: BearerResourceCommandModel,
    pub ebi_seen: bool,
    pub pti_seen: bool,
}

/// Places one decoded field. The linked bearer identifier (instance 0) and
/// the transaction identifier take the first occurrence; a bearer identifier
/// at instance 1 fills the optional bearer identifier; the three tunnel
/// endpoint roles are told apart by instance (0, 1, 2); the other optional
/// fields take the first occurrence at instance 0; overload reports at
/// instances 0 and 1 and every private extension are appended; everything
/// else is passed over.
pub open spec fn brc_step(a: BearerResourceCommandScan, e: IeModel) -> BearerResourceCommandScan {
    match e {
        IeModel::Ebi(x) => if x.ins == 0 && !a.ebi_seen {
                BearerResourceCommandScan { msg: BearerResourceCommandModel { linked_ebi: x, ..a.msg }, ebi_seen: true, ..a }
            } else if x.ins == 1 && a.msg.ebi is None {
                BearerResourceCommandScan { msg: BearerResourceCommandModel { ebi: Some(x), ..a.msg }, ..a }
            } else {
                a
            },
        IeModel::Pti(x) => if x.ins == 0 && !a.pti_seen {
                BearerResourceCommandScan { msg: BearerResourceCommandModel { pti: x, ..a.msg }, pti_seen: true, ..a }
            } else {
                a
            },
        IeModel::TrafficAggregateDescription(x) => if x.ins == 0 && a.msg.tad is None {
                BearerResourceCommandScan { msg: BearerResourceCommandModel { tad: Some(x), ..a.msg }, ..a }
            } else {
                a
            },
        IeModel::OverloadControlInfo(x) => if x.ins < 2 {
                BearerResourceCommandScan { msg: BearerResourceCommandModel { overload_info: a.msg.overload_info.push(x), ..a.msg }, ..a }
            } else {
                a
            },
        IeModel::PrivateExtension(x) => BearerResourceCommandScan { msg: BearerResourceCommandModel { private_ext: a.msg.private_ext.push(x), ..a.msg }, ..a },
        IeModel::Unknown(f) => if f.t == FLOW_QOS && f.ins == 0 && a.msg.flow_qos is None {
                BearerResourceCommandScan { msg: BearerResourceCommandModel { flow_qos: Some(f), ..a.msg }, ..a }
            } else if f.t == RAT_TYPE && f.ins == 0 && a.msg.rattype is None {
                BearerResourceCommandScan { msg: BearerResourceCommandModel { rattype: Some(f), ..a.msg }, ..a }
            } else if f.t == SERVING_NETWORK && f.ins == 0 && a.msg.servingnetwork is None {
                BearerResourceCommandScan { msg: BearerResourceCommandModel { servingnetwork: Some(f), ..a.msg }, ..a }
            } else if f.t == ULI && f.ins == 0 && a.msg.uli is None {
                BearerResourceCommandScan { msg: BearerResourceCommandModel { uli: Some(f), ..a.msg }, ..a }
            } else if f.t == INDICATION && f.ins == 0 && a.msg.indication is None {
                BearerResourceCommandScan { msg: BearerResourceCommandModel { indication: Some(f), ..a.msg }, ..a }
            } else if f.t == FTEID && f.ins == 0 && a.msg.sgsn_fteid is None {
                BearerResourceCommandScan { msg: BearerResourceCommandModel { sgsn_fteid: Some(f), ..a.msg }, ..a }
            } else if f.t == FTEID && f.ins == 1 && a.msg.rnc_fteid is None {
                BearerResourceCommandScan { msg: BearerResourceCommandModel { rnc_fteid: Some(f), ..a.msg }, ..a }
            } else if f.t == PCO && f.ins == 0 && a.msg.pco is None {
                BearerResourceCommandScan { msg: BearerResourceCommandModel { pco: Some(f), ..a.msg }, ..a }
            } else if f.t == SPI && f.ins == 0 && a.msg.spi is None {
                BearerResourceCommandScan { msg: BearerResourceCommandModel { spi: Some(f), ..a.msg }, ..a }
            } else if f.t == FCONTAINER && f.ins == 0 && a.msg.nbifom is None {
                BearerResourceCommandScan { msg: BearerResourceCommandModel { nbifom: Some(f), ..a.msg }, ..a }
            } else if f.t == EPCO && f.ins == 0 && a.msg.epco is None {
                BearerResourceCommandScan { msg: BearerResourceCommandModel { epco: Some(f), ..a.msg }, ..a }
            } else if f.t == FTEID && f.ins == 2 && a.msg.fteid_control is None {
                BearerResourceCommandScan { msg: BearerResourceCommandModel { fteid_control: Some(f), ..a.msg }, ..a }
            } else {
                a
            },
        _ => a,
    }
}

pub open spec fn brc_step_fn() -> spec_fn(BearerResourceCommandScan, IeModel) -> BearerResourceCommandScan {
    |a: BearerResourceCommandScan, e: IeModel| brc_step(a, e)
}

/// The scan of `es`, in order, starting from `start` with no mandatory field seen.
pub open spec fn brc_scan(start: BearerResourceCommandModel, es: Seq<IeModel>) -> BearerResourceCommandScan {
    es.fold_left(BearerResourceCommandScan { msg: start, ebi_seen: false, pti_seen: false }, brc_step_fn())
}

/// The message the fields fill in, or the first missing mandatory field in
/// the order linked bearer identifier, transaction identifier.
pub open spec fn brc_reconcile(start: BearerResourceCommandModel, es: Seq<IeModel>) -> Result<BearerResourceCommandModel, GTPV2Error> {
    let s = brc_scan(start, es);
    if !s.ebi_seen {
        Err(GTPV2Error::MessageMandatoryIEMissing(EBI))
    } else if !s.pti_seen {
        Err(GTPV2Error::MessageMandatoryIEMissing(PTI))
    } else {
        Ok(s.msg)
    }
}

/// The empty message with header `h`.
pub open spec fn brc_empty(h: Gtpv2Header) -> BearerResourceCommandModel {
    BearerResourceCommandModel {
        header: h,
        linked_ebi: default_ebi(),
        pti: default_pti(),
        flow_qos: None,
        tad: None,
        rattype: None,
        servingnetwork: None,
        uli: None,
        ebi: None,
        indication: None,
        sgsn_fteid: None,
        rnc_fteid: None,
        pco: None,
        spi: None,
        overload_info: Seq::empty(),
        nbifom: None,
        epco: None,
        fteid_control: None,
        private_ext: Seq::empty(),
    }
}

/// The message that `s` holds.
pub open spec fn brc_of(s: Seq<u8>) -> Result<BearerResourceCommandModel, GTPV2Error> {
    match envelope_of(s, BEARER_RSRC_CMD) {
        Err(e) => Err(e),
        Ok((h, es)) => brc_reconcile(brc_empty(h), es),
    }
}

impl Default for BearerResourceCommand {
    fn default() -> (r: Self)
        ensures
            r@ == brc_empty(
                Gtpv2Header {
                    msgtype: BEARER_RSRC_CMD,
                    piggyback: false,
                    message_prio: None,
                    length: 0,
                    teid: Some(0),
                    sqn: 0,
                },
            ),
    {
        let mut hdr = Gtpv2Header::default();
        hdr.msgtype = BEARER_RSRC_CMD;
        hdr.teid = Some(0);
        let r = BearerResourceCommand {
            header: hdr,
            linked_ebi: Ebi::default(),
            pti: Pti::default(),
            flow_qos: None,
            tad: None,
            rattype: None,
            servingnetwork: None,
            uli: None,
            ebi: None,
            indication: None,
            sgsn_fteid: None,
            rnc_fteid: None,
            pco: None,
            spi: None,
            overload_info: Vec::new(),
            nbifom: None,
            epco: None,
            fteid_control: None,
            private_ext: Vec::new(),
        };
        assert(r@.overload_info =~= Seq::<OverloadControlInfoModel>::empty());
        assert(r@.private_ext =~= Seq::<PrivateExtensionModel>::empty());
        r
    }
}

/// A message that encodes and decodes back to itself: each field decodes
/// back to itself and sits where decoding puts it, and the header's length
/// counts the encoded fields.
pub open spec fn brc_wf(m: BearerResourceCommandModel) -> bool {
    &&& header_wf(m.header)
    &&& m.header.msgtype == BEARER_RSRC_CMD
    &&& m.header.length == header_len(m.header) - 4 + fields_bytes(ie_fields(brc_elements(m))).len()
    &&& ebi_wf(m.linked_ebi) && m.linked_ebi.ins == 0
    &&& pti_wf(m.pti) && m.pti.ins == 0
    &&& slot_wf(m.flow_qos, FLOW_QOS, 0)
    &&& m.tad matches Some(x) ==> tad_wf(x) && x.ins == 0
    &&& slot_wf(m.rattype, RAT_TYPE, 0)
    &&& slot_wf(m.servingnetwork, SERVING_NETWORK, 0)
    &&& slot_wf(m.uli, ULI, 0)
    &&& m.ebi matches Some(x) ==> ebi_wf(x) && x.ins == 1
    &&& slot_wf(m.indication, INDICATION, 0)
    &&& slot_wf(m.sgsn_fteid, FTEID, 0)
    &&& slot_wf(m.rnc_fteid, FTEID, 1)
    &&& slot_wf(m.pco, PCO, 0)
    &&& slot_wf(m.spi, SPI, 0)
    &&& forall|i: int| #![trigger m.overload_info[i]] 0 <= i < m.overload_info.len() ==> overload_wf(m.overload_info[i]) && m.overload_info[i].ins < 2
    &&& slot_wf(m.nbifom, FCONTAINER, 0)
    &&& slot_wf(m.epco, EPCO, 0)
    &&& slot_wf(m.fteid_control, FTEID, 2)
    &&& forall|i: int| #![trigger m.private_ext[i]] 0 <= i < m.private_ext.len() ==> private_ext_wf(m.private_ext[i])
}

proof fn lemma_brc_elements_wf(m: BearerResourceCommandModel)
    requires
        brc_wf(m),
    ensures
        ies_wf(brc_elements(m)),
        envelope_fits(m.header, brc_elements(m)),
        framed_header(m.header, fields_bytes(ie_fields(brc_elements(m)))) == m.header,
{
    let h = seq![IeModel::Ebi(m.linked_ebi), IeModel::Pti(m.pti)];
    assert(ies_wf(h)) by {
        assert(ie_wf(h[0]) && ie_wf(h[1]));
    }
    let p0 = opt_unknown(m.flow_qos);
    lemma_opt_unknown_wf(m.flow_qos, FLOW_QOS, 0);
    let p1 = opt_tad(m.tad);
    assert(ies_wf(p1)) by {
        if let Some(x) = m.tad {
            assert(ie_wf(p1[0]));
        }
    }
    lemma_ies_wf_concat(p0, p1);
    let p2 = opt_unknown(m.rattype);
    lemma_opt_unknown_wf(m.rattype, RAT_TYPE, 0);
    lemma_ies_wf_concat(p0 + p1, p2);
    let p3 = opt_unknown(m.servingnetwork);
    lemma_opt_unknown_wf(m.servingnetwork, SERVING_NETWORK, 0);
    lemma_ies_wf_concat(p0 + p1 + p2, p3);
    let p4 = opt_unknown(m.uli);
    lemma_opt_unknown_wf(m.uli, ULI, 0);
    lemma_ies_wf_concat(p0 + p1 + p2 + p3, p4);
    let p5 = opt_ebi(m.ebi);
    assert(ies_wf(p5)) by {
        if let Some(x) = m.ebi {
            assert(ie_wf(p5[0]));
        }
    }
    lemma_ies_wf_concat(p0 + p1 + p2 + p3 + p4, p5);
    let p6 = opt_unknown(m.indication);
    lemma_opt_unknown_wf(m.indication, INDICATION, 0);
    lemma_ies_wf_concat(p0 + p1 + p2 + p3 + p4 + p5, p6);
    let p7 = opt_unknown(m.sgsn_fteid);
    lemma_opt_unknown_wf(m.sgsn_fteid, FTEID, 0);
    lemma_ies_wf_concat(p0 + p1 + p2 + p3 + p4 + p5 + p6, p7);
    let p8 = opt_unknown(m.rnc_fteid);
    lemma_opt_unknown_wf(m.rnc_fteid, FTEID, 1);
    lemma_ies_wf_concat(p0 + p1 + p2 + p3 + p4 + p5 + p6 + p7, p8);
    let p9 = opt_unknown(m.pco);
    lemma_opt_unknown_wf(m.pco, PCO, 0);
    lemma_ies_wf_concat(p0 + p1 + p2 + p3 + p4 + p5 + p6 + p7 + p8, p9);
    let p10 = opt_unknown(m.spi);
    lemma_opt_unknown_wf(m.spi, SPI, 0);
    lemma_ies_wf_concat(p0 + p1 + p2 + p3 + p4 + p5 + p6 + p7 + p8 + p9, p10);
    let p11 = overload_elements(m.overload_info);
    assert(ies_wf(p11)) by {
        assert forall|i: int| 0 <= i < p11.len() implies #[trigger] ie_wf(p11[i]) by {
            assert(overload_wf(m.overload_info[i]));
        }
    }
    lemma_ies_wf_concat(p0 + p1 + p2 + p3 + p4 + p5 + p6 + p7 + p8 + p9 + p10, p11);
    let p12 = opt_unknown(m.nbifom);
    lemma_opt_unknown_wf(m.nbifom, FCONTAINER, 0);
    lemma_ies_wf_concat(p0 + p1 + p2 + p3 + p4 + p5 + p6 + p7 + p8 + p9 + p10 + p11, p12);
    let p13 = opt_unknown(m.epco);
    lemma_opt_unknown_wf(m.epco, EPCO, 0);
    lemma_ies_wf_concat(p0 + p1 + p2 + p3 + p4 + p5 + p6 + p7 + p8 + p9 + p10 + p11 + p12, p13);
    let p14 = opt_unknown(m.fteid_control);
    lemma_opt_unknown_wf(m.fteid_control, FTEID, 2);
    lemma_ies_wf_concat(p0 + p1 + p2 + p3 + p4 + p5 + p6 + p7 + p8 + p9 + p10 + p11 + p12 + p13, p14);
    let p15 = private_ext_elements(m.private_ext);
    assert(ies_wf(p15)) by {
        assert forall|i: int| 0 <= i < p15.len() implies #[trigger] ie_wf(p15[i]) by {
            assert(private_ext_wf(m.private_ext[i]));
        }
    }
    lemma_ies_wf_concat(p0 + p1 + p2 + p3 + p4 + p5 + p6 + p7 + p8 + p9 + p10 + p11 + p12 + p13 + p14, p15);
    lemma_ies_wf_concat(h, brc_rest(m));
    lemma_ies_wf_fit(brc_elements(m));
}

/// Overload reports at instances 0 and 1 are appended in order.
proof fn lemma_brc_scan_overload_info(a: BearerResourceCommandScan, l: Seq<OverloadControlInfoModel>)
    requires
        forall|i: int| 0 <= i < l.len() ==> #[trigger] l[i].ins < 2,
    ensures
        overload_elements(l).fold_left(a, brc_step_fn()) == (BearerResourceCommandScan { msg: BearerResourceCommandModel { overload_info: a.msg.overload_info + l, ..a.msg }, ..a }),
    decreases l.len(),
{
    let es = overload_elements(l);
    if l.len() == 0 {
        assert(a.msg.overload_info + l =~= a.msg.overload_info);
    } else {
        lemma_brc_scan_overload_info(a, l.drop_last());
        assert(es.drop_last() =~= overload_elements(l.drop_last()));
        assert(l[l.len() - 1].ins < 2);
        assert((a.msg.overload_info + l.drop_last()).push(l.last()) =~= a.msg.overload_info + l);
    }
}

/// Private extensions are appended in order.
proof fn lemma_brc_scan_private_ext(a: BearerResourceCommandScan, l: Seq<PrivateExtensionModel>)
    ensures
        private_ext_elements(l).fold_left(a, brc_step_fn()) == (BearerResourceCommandScan { msg: BearerResourceCommandModel { private_ext: a.msg.private_ext + l, ..a.msg }, ..a }),
    decreases l.len(),
{
    let es = private_ext_elements(l);
    if l.len() == 0 {
        assert(a.msg.private_ext + l =~= a.msg.private_ext);
    } else {
        lemma_brc_scan_private_ext(a, l.drop_last());
        assert(es.drop_last() =~= private_ext_elements(l.drop_last()));
        assert((a.msg.private_ext + l.drop_last()).push(l.last()) =~= a.msg.private_ext + l);
    }
}

/// The mandatory fields, scanned from the empty message.
proof fn lemma_brc_scan_head(m: BearerResourceCommandModel)
    requires
        m.linked_ebi.ins == 0 && m.pti.ins == 0,
    ensures
        brc_scan(brc_empty(m.header), seq![IeModel::Ebi(m.linked_ebi), IeModel::Pti(m.pti)]) == (BearerResourceCommandScan {
            msg: BearerResourceCommandModel { linked_ebi: m.linked_ebi, pti: m.pti, ..brc_empty(m.header) },
            ebi_seen: true, pti_seen: true
        }),
{
    let f = brc_step_fn();
    let a0 = BearerResourceCommandScan { msg: brc_empty(m.header), ebi_seen: false, pti_seen: false };
    let x0 = IeModel::Ebi(m.linked_ebi);
    let x1 = IeModel::Pti(m.pti);
    lemma_fold_one(x0, a0, f);
    lemma_fold_concat(seq![x0], seq![x1], a0, f);
    lemma_fold_one(x1, f(a0, x0), f);
    assert(seq![x0] + seq![x1] =~= seq![x0, x1]);
}

/// The scan of a well-formed message once its mandatory fields and its
/// first `k` other slots have been read.
spec fn brc_partial(m: BearerResourceCommandModel, k: int) -> BearerResourceCommandScan {
    BearerResourceCommandScan {
        msg: BearerResourceCommandModel {
            header: m.header,
            linked_ebi: m.linked_ebi,
            pti: m.pti,
            flow_qos: if k > 0 { m.flow_qos } else { None },
            tad: if k > 1 { m.tad } else { None },
            rattype: if k > 2 { m.rattype } else { None },
            servingnetwork: if k > 3 { m.servingnetwork } else { None },
            uli: if k > 4 { m.uli } else { None },
            ebi: if k > 5 { m.ebi } else { None },
            indication: if k > 6 { m.indication } else { None },
            sgsn_fteid: if k > 7 { m.sgsn_fteid } else { None },
            rnc_fteid: if k > 8 { m.rnc_fteid } else { None },
            pco: if k > 9 { m.pco } else { None },
            spi: if k > 10 { m.spi } else { None },
            overload_info: if k > 11 { m.overload_info } else { Seq::empty() },
            nbifom: if k > 12 { m.nbifom } else { None },
            epco: if k > 13 { m.epco } else { None },
            fteid_control: if k > 14 { m.fteid_control } else { None },
            private_ext: if k > 15 { m.private_ext } else { Seq::empty() },
        },
        ebi_seen: true,
        pti_seen: true,
    }
}

proof fn lemma_brc_read_flow_qos(m: BearerResourceCommandModel)
    requires
        brc_wf(m),
    ensures
        opt_unknown(m.flow_qos).fold_left(brc_partial(m, 0), brc_step_fn()) == brc_partial(m, 1),
{
    if let Some(x) = m.flow_qos {
        lemma_fold_one(IeModel::Unknown(x), brc_partial(m, 0), brc_step_fn());
    }
}

proof fn lemma_brc_read_tad(m: BearerResourceCommandModel)
    requires
        brc_wf(m),
    ensures
        opt_tad(m.tad).fold_left(brc_partial(m, 1), brc_step_fn()) == brc_partial(m, 2),
{
    if let Some(x) = m.tad {
        lemma_fold_one(IeModel::TrafficAggregateDescription(x), brc_partial(m, 1), brc_step_fn());
    }
}

proof fn lemma_brc_read_rattype(m: BearerResourceCommandModel)
    requires
        brc_wf(m),
    ensures
        opt_unknown(m.rattype).fold_left(brc_partial(m, 2), brc_step_fn()) == brc_partial(m, 3),
{
    if let Some(x) = m.rattype {
        lemma_fold_one(IeModel::Unknown(x), brc_partial(m, 2), brc_step_fn());
    }
}

proof fn lemma_brc_read_servingnetwork(m: BearerResourceCommandModel)
    requires
        brc_wf(m),
    ensures
        opt_unknown(m.servingnetwork).fold_left(brc_partial(m, 3), brc_step_fn()) == brc_partial(m, 4),
{
    if let Some(x) = m.servingnetwork {
        lemma_fold_one(IeModel::Unknown(x), brc_partial(m, 3), brc_step_fn());
    }
}

proof fn lemma_brc_read_uli(m: BearerResourceCommandModel)
    requires
        brc_wf(m),
    ensures
        opt_unknown(m.uli).fold_left(brc_partial(m, 4), brc_step_fn()) == brc_partial(m, 5),
{
    if let Some(x) = m.uli {
        lemma_fold_one(IeModel::Unknown(x), brc_partial(m, 4), brc_step_fn());
    }
}

proof fn lemma_brc_read_ebi(m: BearerResourceCommandModel)
    requires
        brc_wf(m),
    ensures
        opt_ebi(m.ebi).fold_left(brc_partial(m, 5), brc_step_fn()) == brc_partial(m, 6),
{
    if let Some(x) = m.ebi {
        lemma_fold_one(IeModel::Ebi(x), brc_partial(m, 5), brc_step_fn());
    }
}

proof fn lemma_brc_read_indication(m: BearerResourceCommandModel)
    requires
        brc_wf(m),
    ensures
        opt_unknown(m.indication).fold_left(brc_partial(m, 6), brc_step_fn()) == brc_partial(m, 7),
{
    if let Some(x) = m.indication {
        lemma_fold_one(IeModel::Unknown(x), brc_partial(m, 6), brc_step_fn());
    }
}

proof fn lemma_brc_read_sgsn_fteid(m: BearerResourceCommandModel)
    requires
        brc_wf(m),
    ensures
        opt_unknown(m.sgsn_fteid).fold_left(brc_partial(m, 7), brc_step_fn()) == brc_partial(m, 8),
{
    if let Some(x) = m.sgsn_fteid {
        lemma_fold_one(IeModel::Unknown(x), brc_partial(m, 7), brc_step_fn());
    }
}

proof fn lemma_brc_read_rnc_fteid(m: BearerResourceCommandModel)
    requires
        brc_wf(m),
    ensures
        opt_unknown(m.rnc_fteid).fold_left(brc_partial(m, 8), brc_step_fn()) == brc_partial(m, 9),
{
    if let Some(x) = m.rnc_fteid {
        lemma_fold_one(IeModel::Unknown(x), brc_partial(m, 8), brc_step_fn());
    }
}

proof fn lemma_brc_read_pco(m: BearerResourceCommandModel)
    requires
        brc_wf(m),
    ensures
        opt_unknown(m.pco).fold_left(brc_partial(m, 9), brc_step_fn()) == brc_partial(m, 10),
{
    if let Some(x) = m.pco {
        lemma_fold_one(IeModel::Unknown(x), brc_partial(m, 9), brc_step_fn());
    }
}

proof fn lemma_brc_read_spi(m: BearerResourceCommandModel)
    requires
        brc_wf(m),
    ensures
        opt_unknown(m.spi).fold_left(brc_partial(m, 10), brc_step_fn()) == brc_partial(m, 11),
{
    if let Some(x) = m.spi {
        lemma_fold_one(IeModel::Unknown(x), brc_partial(m, 10), brc_step_fn());
    }
}

proof fn lemma_brc_read_overload_info(m: BearerResourceCommandModel)
    requires
        brc_wf(m),
    ensures
        overload_elements(m.overload_info).fold_left(brc_partial(m, 11), brc_step_fn()) == brc_partial(m, 12),
{
    assert forall|i: int| 0 <= i < m.overload_info.len() implies #[trigger] m.overload_info[i].ins < 2 by {
        assert(overload_wf(m.overload_info[i]) && m.overload_info[i].ins < 2);
    }
    lemma_brc_scan_overload_info(brc_partial(m, 11), m.overload_info);
    assert(Seq::empty() + m.overload_info =~= m.overload_info);
}

proof fn lemma_brc_read_nbifom(m: BearerResourceCommandModel)
    requires
        brc_wf(m),
    ensures
        opt_unknown(m.nbifom).fold_left(brc_partial(m, 12), brc_step_fn()) == brc_partial(m, 13),
{
    if let Some(x) = m.nbifom {
        lemma_fold_one(IeModel::Unknown(x), brc_partial(m, 12), brc_step_fn());
    }
}

proof fn lemma_brc_read_epco(m: BearerResourceCommandModel)
    requires
        brc_wf(m),
    ensures
        opt_unknown(m.epco).fold_left(brc_partial(m, 13), brc_step_fn()) == brc_partial(m, 14),
{
    if let Some(x) = m.epco {
        lemma_fold_one(IeModel::Unknown(x), brc_partial(m, 13), brc_step_fn());
    }
}

proof fn lemma_brc_read_fteid_control(m: BearerResourceCommandModel)
    requires
        brc_wf(m),
    ensures
        opt_unknown(m.fteid_control).fold_left(brc_partial(m, 14), brc_step_fn()) == brc_partial(m, 15),
{
    if let Some(x) = m.fteid_control {
        lemma_fold_one(IeModel::Unknown(x), brc_partial(m, 14), brc_step_fn());
    }
}

proof fn lemma_brc_read_private_ext(m: BearerResourceCommandModel)
    requires
        brc_wf(m),
    ensures
        private_ext_elements(m.private_ext).fold_left(brc_partial(m, 15), brc_step_fn()) == brc_partial(m, 16),
{
    lemma_brc_scan_private_ext(brc_partial(m, 15), m.private_ext);
    assert(Seq::empty() + m.private_ext =~= m.private_ext);
}

/// Decoding an encoded message gives the same message back.
pub proof fn lemma_brc_round_trip(m: BearerResourceCommandModel)
    requires
        brc_wf(m),
    ensures
        brc_of(brc_bytes(m)) == Ok::<BearerResourceCommandModel, GTPV2Error>(m),
{
    lemma_brc_elements_wf(m);
    lemma_envelope_round_trip(m.header, brc_elements(m));
    let f = brc_step_fn();
    let h = seq![IeModel::Ebi(m.linked_ebi), IeModel::Pti(m.pti)];
    let a0 = BearerResourceCommandScan { msg: brc_empty(m.header), ebi_seen: false, pti_seen: false };
    lemma_brc_scan_head(m);
    let s0 = brc_partial(m, 0);
    assert(h.fold_left(a0, f) == s0);
    lemma_fold_concat(h, brc_rest(m), a0, f);
    let p0 = opt_unknown(m.flow_qos);
    lemma_brc_read_flow_qos(m);
    let p1 = opt_tad(m.tad);
    lemma_fold_concat(p0, p1, s0, f);
    lemma_brc_read_tad(m);
    let p2 = opt_unknown(m.rattype);
    lemma_fold_concat(p0 + p1, p2, s0, f);
    lemma_brc_read_rattype(m);
    let p3 = opt_unknown(m.servingnetwork);
    lemma_fold_concat(p0 + p1 + p2, p3, s0, f);
    lemma_brc_read_servingnetwork(m);
    let p4 = opt_unknown(m.uli);
    lemma_fold_concat(p0 + p1 + p2 + p3, p4, s0, f);
    lemma_brc_read_uli(m);
    let p5 = opt_ebi(m.ebi);
    lemma_fold_concat(p0 + p1 + p2 + p3 + p4, p5, s0, f);
    lemma_brc_read_ebi(m);
    let p6 = opt_unknown(m.indication);
    lemma_fold_concat(p0 + p1 + p2 + p3 + p4 + p5, p6, s0, f);
    lemma_brc_read_indication(m);
    let p7 = opt_unknown(m.sgsn_fteid);
    lemma_fold_concat(p0 + p1 + p2 + p3 + p4 + p5 + p6, p7, s0, f);
    lemma_brc_read_sgsn_fteid(m);
    let p8 = opt_unknown(m.rnc_fteid);
    lemma_fold_concat(p0 + p1 + p2 + p3 + p4 + p5 + p6 + p7, p8, s0, f);
    lemma_brc_read_rnc_fteid(m);
    let p9 = opt_unknown(m.pco);
    lemma_fold_concat(p0 + p1 + p2 + p3 + p4 + p5 + p6 + p7 + p8, p9, s0, f);
    lemma_brc_read_pco(m);
    let p10 = opt_unknown(m.spi);
    lemma_fold_concat(p0 + p1 + p2 + p3 + p4 + p5 + p6 + p7 + p8 + p9, p10, s0, f);
    lemma_brc_read_spi(m);
    let p11 = overload_elements(m.overload_info);
    lemma_fold_concat(p0 + p1 + p2 + p3 + p4 + p5 + p6 + p7 + p8 + p9 + p10, p11, s0, f);
    lemma_brc_read_overload_info(m);
    let p12 = opt_unknown(m.nbifom);
    lemma_fold_concat(p0 + p1 + p2 + p3 + p4 + p5 + p6 + p7 + p8 + p9 + p10 + p11, p12, s0, f);
    lemma_brc_read_nbifom(m);
    let p13 = opt_unknown(m.epco);
    lemma_fold_concat(p0 + p1 + p2 + p3 + p4 + p5 + p6 + p7 + p8 + p9 + p10 + p11 + p12, p13, s0, f);
    lemma_brc_read_epco(m);
    let p14 = opt_unknown(m.fteid_control);
    lemma_fold_concat(p0 + p1 + p2 + p3 + p4 + p5 + p6 + p7 + p8 + p9 + p10 + p11 + p12 + p13, p14, s0, f);
    lemma_brc_read_fteid_control(m);
    let p15 = private_ext_elements(m.private_ext);
    lemma_fold_concat(p0 + p1 + p2 + p3 + p4 + p5 + p6 + p7 + p8 + p9 + p10 + p11 + p12 + p13 + p14, p15, s0, f);
    lemma_brc_read_private_ext(m);
    assert(brc_partial(m, 16).msg == m);
}

/// Whether a field takes one of the mandatory slots.
pub open spec fn brc_takes_mandatory(e: IeModel) -> bool {
    match e {
        IeModel::Ebi(x) => x.ins == 0,
        IeModel::Pti(x) => x.ins == 0,
        _ => false,
    }
}

pub open spec fn brc_no_mandatory(es: Seq<IeModel>) -> bool {
    forall|i: int| 0 <= i < es.len() ==> !#[trigger] brc_takes_mandatory(es[i])
}

proof fn lemma_brc_no_mandatory_concat(a: Seq<IeModel>, b: Seq<IeModel>)
    requires
        brc_no_mandatory(a),
        brc_no_mandatory(b),
    ensures
        brc_no_mandatory(a + b),
{
    assert forall|i: int| 0 <= i < (a + b).len() implies !#[trigger] brc_takes_mandatory((a + b)[i]) by {
        if i < a.len() {
            assert((a + b)[i] == a[i]);
            assert(!brc_takes_mandatory(a[i]));
        } else {
            assert((a + b)[i] == b[i - a.len()]);
            assert(!brc_takes_mandatory(b[i - a.len()]));
        }
    }
}

/// Fields that no mandatory slot takes leave the seen flags as they were.
proof fn lemma_brc_flags_kept(a: BearerResourceCommandScan, es: Seq<IeModel>)
    requires
        brc_no_mandatory(es),
    ensures
        es.fold_left(a, brc_step_fn()).ebi_seen == a.ebi_seen,
        es.fold_left(a, brc_step_fn()).pti_seen == a.pti_seen,
    decreases es.len(),
{
    if es.len() > 0 {
        assert(brc_no_mandatory(es.drop_last())) by {
            assert forall|i: int| 0 <= i < es.drop_last().len() implies !#[trigger] brc_takes_mandatory(es.drop_last()[i]) by {
                assert(es.drop_last()[i] == es[i]);
                assert(!brc_takes_mandatory(es[i]));
            }
        }
        lemma_brc_flags_kept(a, es.drop_last());
        assert(!brc_takes_mandatory(es[es.len() - 1]));
    }
}

proof fn lemma_brc_rest(m: BearerResourceCommandModel)
    requires
        m.ebi matches Some(x) ==> x.ins == 1,
    ensures
        brc_no_mandatory(brc_rest(m)),
{
    let p0 = opt_unknown(m.flow_qos);
    assert(brc_no_mandatory(p0));
    let p1 = opt_tad(m.tad);
    assert(brc_no_mandatory(p1));
    lemma_brc_no_mandatory_concat(p0, p1);
    let p2 = opt_unknown(m.rattype);
    assert(brc_no_mandatory(p2));
    lemma_brc_no_mandatory_concat(p0 + p1, p2);
    let p3 = opt_unknown(m.servingnetwork);
    assert(brc_no_mandatory(p3));
    lemma_brc_no_mandatory_concat(p0 + p1 + p2, p3);
    let p4 = opt_unknown(m.uli);
    assert(brc_no_mandatory(p4));
    lemma_brc_no_mandatory_concat(p0 + p1 + p2 + p3, p4);
    let p5 = opt_ebi(m.ebi);
    assert(brc_no_mandatory(p5)) by {
        if let Some(x) = m.ebi {
            assert(!brc_takes_mandatory(p5[0]));
        }
    }
    lemma_brc_no_mandatory_concat(p0 + p1 + p2 + p3 + p4, p5);
    let p6 = opt_unknown(m.indication);
    assert(brc_no_mandatory(p6));
    lemma_brc_no_mandatory_concat(p0 + p1 + p2 + p3 + p4 + p5, p6);
    let p7 = opt_unknown(m.sgsn_fteid);
    assert(brc_no_mandatory(p7));
    lemma_brc_no_mandatory_concat(p0 + p1 + p2 + p3 + p4 + p5 + p6, p7);
    let p8 = opt_unknown(m.rnc_fteid);
    assert(brc_no_mandatory(p8));
    lemma_brc_no_mandatory_concat(p0 + p1 + p2 + p3 + p4 + p5 + p6 + p7, p8);
    let p9 = opt_unknown(m.pco);
    assert(brc_no_mandatory(p9));
    lemma_brc_no_mandatory_concat(p0 + p1 + p2 + p3 + p4 + p5 + p6 + p7 + p8, p9);
    let p10 = opt_unknown(m.spi);
    assert(brc_no_mandatory(p10));
    lemma_brc_no_mandatory_concat(p0 + p1 + p2 + p3 + p4 + p5 + p6 + p7 + p8 + p9, p10);
    let p11 = overload_elements(m.overload_info);
    assert(brc_no_mandatory(p11));
    lemma_brc_no_mandatory_concat(p0 + p1 + p2 + p3 + p4 + p5 + p6 + p7 + p8 + p9 + p10, p11);
    let p12 = opt_unknown(m.nbifom);
    assert(brc_no_mandatory(p12));
    lemma_brc_no_mandatory_concat(p0 + p1 + p2 + p3 + p4 + p5 + p6 + p7 + p8 + p9 + p10 + p11, p12);
    let p13 = opt_unknown(m.epco);
    assert(brc_no_mandatory(p13));
    lemma_brc_no_mandatory_concat(p0 + p1 + p2 + p3 + p4 + p5 + p6 + p7 + p8 + p9 + p10 + p11 + p12, p13);
    let p14 = opt_unknown(m.fteid_control);
    assert(brc_no_mandatory(p14));
    lemma_brc_no_mandatory_concat(p0 + p1 + p2 + p3 + p4 + p5 + p6 + p7 + p8 + p9 + p10 + p11 + p12 + p13, p14);
    let p15 = private_ext_elements(m.private_ext);
    assert(brc_no_mandatory(p15));
    lemma_brc_no_mandatory_concat(p0 + p1 + p2 + p3 + p4 + p5 + p6 + p7 + p8 + p9 + p10 + p11 + p12 + p13 + p14, p15);
}

/// Leaving a field out of a well-formed message keeps it encodable.
proof fn lemma_brc_removed_fits(m: BearerResourceCommandModel, k: int)
    requires
        brc_wf(m),
        0 <= k < brc_elements(m).len(),
    ensures
        ies_wf(brc_elements(m).remove(k)),
        envelope_fits(m.header, brc_elements(m).remove(k)),
{
    lemma_brc_elements_wf(m);
    let es = brc_elements(m);
    let es2 = es.remove(k);
    assert forall|j: int| 0 <= j < es2.len() implies #[trigger] ie_wf(es2[j]) by {
        let src = if j < k { j } else { j + 1 };
        assert(es2[j] == es[src]);
        assert(ie_wf(es[src]));
    }
    lemma_ies_wf_fit(es2);
    assert(ie_fields(es2) =~= ie_fields(es).remove(k));
    crate::ie::lemma_fields_bytes_remove(ie_fields(es), k);
}

/// A message encoded without one of its mandatory fields (linked bearer identifier, transaction identifier, by position
/// `k`) fails to decode, naming that field.
pub proof fn lemma_brc_mandatory_missing(m: BearerResourceCommandModel, k: int)
    requires
        brc_wf(m),
        0 <= k < 2,
    ensures
        brc_of(envelope_bytes(m.header, brc_elements(m).remove(k))) == Err::<BearerResourceCommandModel, GTPV2Error>(
            GTPV2Error::MessageMandatoryIEMissing(if k == 0 { EBI } else { PTI }),
        ),
{
    lemma_brc_rest(m);
    lemma_brc_removed_fits(m, k);
    let es = brc_elements(m);
    let h = seq![IeModel::Ebi(m.linked_ebi), IeModel::Pti(m.pti)];
    let rest = brc_rest(m);
    let hk = h.remove(k);
    let es2 = es.remove(k);
    assert(es2 =~= hk + rest);
    lemma_envelope_round_trip(m.header, es2);
    let h2 = framed_header(m.header, fields_bytes(ie_fields(es2)));
    let f = brc_step_fn();
    let a0 = BearerResourceCommandScan { msg: brc_empty(h2), ebi_seen: false, pti_seen: false };
    let y0 = hk[0];
    assert(hk =~= seq![y0]);
    lemma_fold_one(y0, a0, f);
    lemma_fold_concat(hk, rest, a0, f);
    lemma_brc_flags_kept(hk.fold_left(a0, f), rest);
}

/// Type codes this message carries whole.
pub open spec fn brc_carries(t: u8) -> bool {
    t == FLOW_QOS || t == RAT_TYPE || t == SERVING_NETWORK || t == ULI || t == INDICATION || t == FTEID || t == PCO || t == SPI || t == FCONTAINER || t == EPCO
}

/// A field of a type that neither the catalog nor this message knows is
/// passed over: the message is what it would be without it.
pub proof fn lemma_brc_ignores_unknown(start: BearerResourceCommandModel, a: Seq<IeModel>, u: FieldModel, b: Seq<IeModel>)
    requires
        !brc_carries(u.t),
    ensures
        brc_reconcile(start, a + seq![IeModel::Unknown(u)] + b) == brc_reconcile(start, a + b),
{
    let f = brc_step_fn();
    let s = BearerResourceCommandScan { msg: start, ebi_seen: false, pti_seen: false };
    let x = IeModel::Unknown(u);
    lemma_fold_concat(a + seq![x], b, s, f);
    lemma_fold_concat(a, seq![x], s, f);
    lemma_fold_one(x, a.fold_left(s, f), f);
    lemma_fold_concat(a, b, s, f);
}

/// Bearer identifiers at instances 0 and 1 fill the linked and the optional
/// bearer identifier; a third at an instance past 1 is dropped and leaves
/// them as they are.
pub proof fn lemma_brc_ebi_routing(a: BearerResourceCommandScan, x: Ebi, y: Ebi, z: Ebi)
    requires
        !a.ebi_seen,
        a.msg.ebi is None,
        x.ins == 0,
        y.ins == 1,
        z.ins > 1,
    ensures
        seq![IeModel::Ebi(x), IeModel::Ebi(y), IeModel::Ebi(z)].fold_left(a, brc_step_fn()) == (
        BearerResourceCommandScan {
            msg: BearerResourceCommandModel { linked_ebi: x, ebi: Some(y), ..a.msg },
            ebi_seen: true,
            ..a
        }),
{
    let f = brc_step_fn();
    let ex = IeModel::Ebi(x);
    let ey = IeModel::Ebi(y);
    let ez = IeModel::Ebi(z);
    lemma_fold_one(ex, a, f);
    lemma_fold_concat(seq![ex], seq![ey], a, f);
    lemma_fold_one(ey, f(a, ex), f);
    assert(seq![ex] + seq![ey] =~= seq![ex, ey]);
    lemma_fold_concat(seq![ex, ey], seq![ez], a, f);
    lemma_fold_one(ez, f(f(a, ex), ey), f);
    assert(seq![ex, ey] + seq![ez] =~= seq![ex, ey, ez]);
}

impl BearerResourceCommand {
    /// The message's fields, in the order they are written.
    pub fn to_vec(&self) -> (r: Vec<InformationElement>)
        ensures
            ie_views(r@) == brc_elements(self@),
    {
        let ghost m = self@;
        let mut elements: Vec<InformationElement> = Vec::new();
        elements.push(InformationElement::Ebi(self.linked_ebi));
        elements.push(InformationElement::Pti(self.pti));
        let ghost hd = seq![IeModel::Ebi(m.linked_ebi), IeModel::Pti(m.pti)];
        assert(ie_views(elements@) =~= hd);
        let mut tail: Vec<InformationElement> = Vec::new();
        push_opt_unknown(&mut tail, &self.flow_qos);
        let ghost mut post = opt_unknown(m.flow_qos);
        assert(ie_views(tail@) =~= post);
        push_opt_tad(&mut tail, &self.tad);
        proof {
            post = post + opt_tad(m.tad);
        }
        assert(ie_views(tail@) == post);
        push_opt_unknown(&mut tail, &self.rattype);
        proof {
            post = post + opt_unknown(m.rattype);
        }
        assert(ie_views(tail@) == post);
        push_opt_unknown(&mut tail, &self.servingnetwork);
        proof {
            post = post + opt_unknown(m.servingnetwork);
        }
        assert(ie_views(tail@) == post);
        push_opt_unknown(&mut tail, &self.uli);
        proof {
            post = post + opt_unknown(m.uli);
        }
        assert(ie_views(tail@) == post);
        push_opt_ebi(&mut tail, &self.ebi);
        proof {
            post = post + opt_ebi(m.ebi);
        }
        assert(ie_views(tail@) == post);
        push_opt_unknown(&mut tail, &self.indication);
        proof {
            post = post + opt_unknown(m.indication);
        }
        assert(ie_views(tail@) == post);
        push_opt_unknown(&mut tail, &self.sgsn_fteid);
        proof {
            post = post + opt_unknown(m.sgsn_fteid);
        }
        assert(ie_views(tail@) == post);
        push_opt_unknown(&mut tail, &self.rnc_fteid);
        proof {
            post = post + opt_unknown(m.rnc_fteid);
        }
        assert(ie_views(tail@) == post);
        push_opt_unknown(&mut tail, &self.pco);
        proof {
            post = post + opt_unknown(m.pco);
        }
        assert(ie_views(tail@) == post);
        push_opt_unknown(&mut tail, &self.spi);
        proof {
            post = post + opt_unknown(m.spi);
        }
        assert(ie_views(tail@) == post);
        push_overloads(&mut tail, &self.overload_info);
        proof {
            post = post + overload_elements(m.overload_info);
        }
        assert(ie_views(tail@) == post);
        push_opt_unknown(&mut tail, &self.nbifom);
        proof {
            post = post + opt_unknown(m.nbifom);
        }
        assert(ie_views(tail@) == post);
        push_opt_unknown(&mut tail, &self.epco);
        proof {
            post = post + opt_unknown(m.epco);
        }
        assert(ie_views(tail@) == post);
        push_opt_unknown(&mut tail, &self.fteid_control);
        proof {
            post = post + opt_unknown(m.fteid_control);
        }
        assert(ie_views(tail@) == post);
        push_private_exts(&mut tail, &self.private_ext);
        proof {
            post = post + private_ext_elements(m.private_ext);
        }
        assert(ie_views(tail@) == post);
        let ghost front = ie_views(elements@);
        let ghost back = ie_views(tail@);
        elements.append(&mut tail);
        assert(ie_views(elements@) =~= front + back);
        elements
    }

    /// Places the decoded fields into the message, in order (see
    /// [`brc_step`]), and reports the first missing mandatory field.
    pub fn from_vec(&mut self, elements: Vec<InformationElement>) -> (r: Result<bool, GTPV2Error>)
        ensures
            final(self)@ == brc_scan(old(self)@, ie_views(elements@)).msg,
            r == match brc_reconcile(old(self)@, ie_views(elements@)) {
                Ok(_) => Ok::<bool, GTPV2Error>(true),
                Err(e) => Err(e),
            },
    {
        let ghost start = self@;
        let ghost es = ie_views(elements@);
        let mut ebi_seen = false;
        let mut pti_seen = false;
        assert(es.take(0) =~= Seq::<IeModel>::empty());
        for e in iter: elements.into_iter()
            invariant
                iter.seq() == elements@,
                es == ie_views(elements@),
                brc_scan(start, es.take(iter.index() as int)) == (BearerResourceCommandScan {
                    msg: self@,
                    ebi_seen,
                    pti_seen,
                }),
        {
            let ghost k = iter.index() as int;
            let ghost before = self@;
            assert(es.take(k + 1).drop_last() =~= es.take(k));
            assert(es.take(k + 1).last() == e@);
            match e {
                InformationElement::Ebi(j) => {
                    if j.ins == 0 && !ebi_seen {
                        self.linked_ebi = j;
                        ebi_seen = true;
                    } else if j.ins == 1 && self.ebi.is_none() {
                        self.ebi = Some(j);
                    }
                },
                InformationElement::Pti(j) => {
                    if j.ins == 0 && !pti_seen {
                        self.pti = j;
                        pti_seen = true;
                    }
                },
                InformationElement::TrafficAggregateDescription(j) => {
                    if j.ins == 0 && self.tad.is_none() {
                        self.tad = Some(j);
                    }
                },
                InformationElement::OverloadControlInfo(j) => {
                    if j.ins < 2 {
                        let ghost jv = j@;
                        self.overload_info.push(j);
                        assert(self@.overload_info =~= before.overload_info.push(jv));
                    }
                },
                InformationElement::PrivateExtension(j) => {
                    let ghost jv = j@;
                    self.private_ext.push(j);
                    assert(self@.private_ext =~= before.private_ext.push(jv));
                },
                InformationElement::Unknown(j) => {
                    if j.t == FLOW_QOS && j.ins == 0 && self.flow_qos.is_none() {
                        self.flow_qos = Some(j);
                    } else if j.t == RAT_TYPE && j.ins == 0 && self.rattype.is_none() {
                        self.rattype = Some(j);
                    } else if j.t == SERVING_NETWORK && j.ins == 0 && self.servingnetwork.is_none() {
                        self.servingnetwork = Some(j);
                    } else if j.t == ULI && j.ins == 0 && self.uli.is_none() {
                        self.uli = Some(j);
                    } else if j.t == INDICATION && j.ins == 0 && self.indication.is_none() {
                        self.indication = Some(j);
                    } else if j.t == FTEID && j.ins == 0 && self.sgsn_fteid.is_none() {
                        self.sgsn_fteid = Some(j);
                    } else if j.t == FTEID && j.ins == 1 && self.rnc_fteid.is_none() {
                        self.rnc_fteid = Some(j);
                    } else if j.t == PCO && j.ins == 0 && self.pco.is_none() {
                        self.pco = Some(j);
                    } else if j.t == SPI && j.ins == 0 && self.spi.is_none() {
                        self.spi = Some(j);
                    } else if j.t == FCONTAINER && j.ins == 0 && self.nbifom.is_none() {
                        self.nbifom = Some(j);
                    } else if j.t == EPCO && j.ins == 0 && self.epco.is_none() {
                        self.epco = Some(j);
                    } else if j.t == FTEID && j.ins == 2 && self.fteid_control.is_none() {
                        self.fteid_control = Some(j);
                    }
                },
                _ => {},
            }
            assert(self@.overload_info =~= brc_scan(start, es.take(k + 1)).msg.overload_info);
            assert(self@.private_ext =~= brc_scan(start, es.take(k + 1)).msg.private_ext);
        }
        assert(es.take(es.len() as int) =~= es);
        if !ebi_seen {
            Err(GTPV2Error::MessageMandatoryIEMissing(EBI))
        } else if !pti_seen {
            Err(GTPV2Error::MessageMandatoryIEMissing(PTI))
        } else {
            Ok(true)
        }
    }

    /// Appends the message: header, fields, and the header's length patched
    /// to what follows the length field.
    pub fn marshal(&self, buffer: &mut Vec<u8>)
        requires
            envelope_fits(self.header, brc_elements(self@)),
        ensures
            final(buffer)@ == old(buffer)@ + brc_bytes(self@),
    {
        let elements = self.to_vec();
        encode_message(&self.header, &elements, buffer);
    }

    /// Decodes a bearer resource command.
    pub fn unmarshal(buffer: &[u8]) -> (r: Result<Self, GTPV2Error>)
        ensures
            result_view(r) == brc_of(buffer@),
    {
        let (header, elements) = decode_message(buffer, BEARER_RSRC_CMD)?;
        let mut message = BearerResourceCommand::default();
        message.header = header;
        match message.from_vec(elements) {
            Ok(_) => Ok(message),
            Err(e) => Err(e),
        }
    }
}

} // verus!
