//! What the reconciliation of every message type shares: optional fields
//! kept whole, and the scan over decoded fields as a left fold.

use vstd::prelude::*;
use crate::catalog::IeModel;
use crate::ie::FieldModel;
use crate::catalog::{ie_wf, ies_wf};

verus! {

/// Type codes of fields that messages carry whole, without a decoder of
/// their own.
pub const RECOVERY: u8 = 3;
pub const IP_ADDRESS: u8 = 74;
pub const INDICATION: u8 = 77;
pub const PCO: u8 = 78;
pub const FLOW_QOS: u8 = 81;
pub const RAT_TYPE: u8 = 82;
pub const SERVING_NETWORK: u8 = 83;
pub const ULI: u8 = 86;
pub const FTEID: u8 = 87;
pub const BEARER_CTX: u8 = 93;
pub const UE_TIME_ZONE: u8 = 114;
pub const FCONTAINER: u8 = 118;
pub const PORT_NBR: u8 = 126;
pub const FQCSID: u8 = 132;
pub const SPI: u8 = 157;
pub const TWAN_ID: u8 = 169;
pub const ULI_TIMESTAMP: u8 = 170;
pub const TWAN_ID_TIMESTAMP: u8 = 179;
pub const EPCO: u8 = 197;
pub const SECONDARY_RAT_USAGE_REPORT: u8 = 201;

/// An optional field carried whole, as the sequence of decoded fields it
/// contributes.
pub open spec fn opt_unknown(o: Option<FieldModel>) -> Seq<IeModel> {
    match o {
        Some(f) => seq![IeModel::Unknown(f)],
        None => Seq::empty(),
    }
}

/// An optional field carried whole that holds a field of type `t` at
/// instance `ins`.
pub open spec fn slot_wf(o: Option<FieldModel>, t: u8, ins: u8) -> bool {
    o matches Some(f) ==> f.t == t && f.ins == ins && crate::ie::field_wf(f)
}

/// A field of a repeated slot carried whole: type `t`, instance 0.
pub open spec fn list_field_wf(f: FieldModel, t: u8) -> bool {
    f.t == t && f.ins == 0 && crate::ie::field_wf(f)
}

/// An optional bearer identifier, as the decoded fields it contributes.
pub open spec fn opt_ebi(o: Option<crate::basic::Ebi>) -> Seq<IeModel> {
    match o {
        Some(x) => seq![IeModel::Ebi(x)],
        None => Seq::empty(),
    }
}

/// An optional traffic aggregate description, as the decoded fields it
/// contributes.
pub open spec fn opt_tad(o: Option<crate::tad::TadModel>) -> Seq<IeModel> {
    match o {
        Some(x) => seq![IeModel::TrafficAggregateDescription(x)],
        None => Seq::empty(),
    }
}

/// A scan over `a + b` is the scan over `b` started where the scan over `a`
/// ended.
pub proof fn lemma_fold_concat<S>(a: Seq<IeModel>, b: Seq<IeModel>, acc: S, f: spec_fn(S, IeModel) -> S)
    ensures
        (a + b).fold_left(acc, f) == b.fold_left(a.fold_left(acc, f), f),
{
    let s = a + b;
    s.lemma_fold_left_split(acc, f, a.len() as int);
    assert(s.subrange(0, a.len() as int) =~= a);
    assert(s.subrange(a.len() as int, s.len() as int) =~= b);
}

/// A scan over one field is one step.
pub proof fn lemma_fold_one<S>(x: IeModel, acc: S, f: spec_fn(S, IeModel) -> S)
    ensures
        seq![x].fold_left(acc, f) == f(acc, x),
{
    assert(seq![x].drop_last() == Seq::<IeModel>::empty());
    assert(Seq::<IeModel>::empty().fold_left(acc, f) == acc);
    assert(seq![x].last() == x);
}

/// An optional field of a type without a decoder of its own is well formed
/// as a decoded field.
pub proof fn lemma_opt_unknown_wf(o: Option<FieldModel>, t: u8, ins: u8)
    requires
        slot_wf(o, t, ins),
        !crate::catalog::known_type(t),
    ensures
        ies_wf(opt_unknown(o)),
{
    if let Some(f) = o {
        assert(ie_wf(opt_unknown(o)[0]));
    }
}

} // verus!
