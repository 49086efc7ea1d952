//! Complete request message: an attach or tracking-area-update request carried
//! whole, behind a one-byte kind.

use vstd::prelude::*;
use crate::bytes::{copy_bytes, push_bytes};
use crate::error::GTPV2Error;
use crate::ie::{encode_field, field_bytes, field_wf, front_field, front_fits, front_or, result_view, FieldModel, Ie};

verus! {

pub const COMPLETE_REQ_MSG: u8 = 116;

/// The request that a complete request message carries.
#[derive(Debug, Clone, PartialEq, Eq)]
pub enum RequestMessage {
    Spare,
    AttachRequest(Vec<u8>),
    TauRequest(Vec<u8>),
}

/// The mathematical value of a [`RequestMessage`].
pub enum RequestMessageModel {
    Spare,
    AttachRequest(Seq<u8>),
    TauRequest(Seq<u8>),
}

impl View for RequestMessage {
    type V = RequestMessageModel;

    open spec fn view(&self) -> RequestMessageModel {
        match self {
            RequestMessage::Spare => RequestMessageModel::Spare,
            RequestMessage::AttachRequest(b) => RequestMessageModel::AttachRequest(b@),
            RequestMessage::TauRequest(b) => RequestMessageModel::TauRequest(b@),
        }
    }
}

/// Complete request message.
#[derive(Debug, Clone, PartialEq, Eq)]
pub struct CompleteRequestMessage {
    pub t: u8,
    pub length: u16,
    pub ins: u8,
    pub message: RequestMessage,
}

/// The mathematical value of a [`CompleteRequestMessage`].
pub struct CompleteRequestMessageModel {
    pub t: u8,
    pub length: u16,
    pub ins: u8,
    pub message: RequestMessageModel,
}

impl View for CompleteRequestMessage {
    type V = CompleteRequestMessageModel;

    open spec fn view(&self) -> CompleteRequestMessageModel {
        CompleteRequestMessageModel {
            t: self.t,
            length: self.length,
            ins: self.ins,
            message: self.message@,
        }
    }
}

/// The kind byte (0 attach, 1 tracking area update, 2 spare) and the request.
pub open spec fn request_payload(m: RequestMessageModel) -> Seq<u8> {
    match m {
        RequestMessageModel::Spare => seq![2u8],
        RequestMessageModel::AttachRequest(b) => seq![0u8] + b,
        RequestMessageModel::TauRequest(b) => seq![1u8] + b,
    }
}

pub open spec fn complete_req_msg_field(x: CompleteRequestMessageModel) -> FieldModel {
    FieldModel { t: x.t, ins: x.ins, value: request_payload(x.message) }
}

/// The payload holds at least the kind byte; a kind other than 0 or 1 is a
/// spare request, and the bytes after it are not kept.
pub open spec fn complete_req_msg_of(f: FieldModel) -> Result<CompleteRequestMessageModel, GTPV2Error> {
    let v = f.value;
    if v.len() == 0 {
        Err(GTPV2Error::IEInvalidLength(COMPLETE_REQ_MSG))
    } else {
        Ok(
            CompleteRequestMessageModel {
                t: COMPLETE_REQ_MSG,
                length: v.len() as u16,
                ins: f.ins,
                message: if v[0] == 0 {
                    RequestMessageModel::AttachRequest(v.subrange(1, v.len() as int))
                } else if v[0] == 1 {
                    RequestMessageModel::TauRequest(v.subrange(1, v.len() as int))
                } else {
                    RequestMessageModel::Spare
                },
            },
        )
    }
}

pub open spec fn complete_req_msg_wf(x: CompleteRequestMessageModel) -> bool {
    &&& x.t == COMPLETE_REQ_MSG
    &&& x.length == request_payload(x.message).len()
    &&& request_payload(x.message).len() <= 0xffff
}

impl Default for CompleteRequestMessage {
    fn default() -> (r: Self)
        ensures
            r@ == (CompleteRequestMessageModel {
                t: COMPLETE_REQ_MSG,
                length: 0,
                ins: 0,
                message: RequestMessageModel::Spare,
            }),
    {
        CompleteRequestMessage { t: COMPLETE_REQ_MSG, length: 0, ins: 0, message: RequestMessage::Spare }
    }
}

impl CompleteRequestMessage {
    pub fn to_field(&self) -> (r: Ie)
        ensures
            r@ == complete_req_msg_field(self@),
    {
        let mut value: Vec<u8> = Vec::new();
        match &self.message {
            RequestMessage::Spare => {
                value.push(2);
            },
            RequestMessage::AttachRequest(b) => {
                value.push(0);
                push_bytes(&mut value, b.as_slice());
            },
            RequestMessage::TauRequest(b) => {
                value.push(1);
                push_bytes(&mut value, b.as_slice());
            },
        }
        assert(value@ =~= request_payload(self.message@));
        Ie { t: self.t, ins: self.ins, value }
    }

    pub fn from_field(f: &Ie) -> (r: Result<Self, GTPV2Error>)
        ensures
            result_view(r) == complete_req_msg_of(f@),
    {
        let n = f.value.len();
        if n == 0 {
            return Err(GTPV2Error::IEInvalidLength(COMPLETE_REQ_MSG));
        }
        let bytes = f.value.as_slice();
        let message = if bytes[0] == 0 {
            RequestMessage::AttachRequest(copy_bytes(&bytes[1..n]))
        } else if bytes[0] == 1 {
            RequestMessage::TauRequest(copy_bytes(&bytes[1..n]))
        } else {
            RequestMessage::Spare
        };
        Ok(CompleteRequestMessage { t: COMPLETE_REQ_MSG, length: n as u16, ins: f.ins, message })
    }

    pub fn marshal(&self, buffer: &mut Vec<u8>)
        requires
            request_payload(self.message@).len() <= 0xffff,
        ensures
            final(buffer)@ == old(buffer)@ + field_bytes(complete_req_msg_field(self@)),
    {
        encode_field(&self.to_field(), buffer);
    }

    pub fn unmarshal(buffer: &[u8]) -> (r: Result<Self, GTPV2Error>)
        ensures
            front_fits(buffer@) ==> result_view(r) == complete_req_msg_of(front_field(buffer@)),
            !front_fits(buffer@) ==> r == Err::<Self, GTPV2Error>(
                GTPV2Error::IEInvalidLength(COMPLETE_REQ_MSG),
            ),
    {
        let f = front_or(buffer, COMPLETE_REQ_MSG)?;
        Self::from_field(&f)
    }

    /// Bytes the field takes on the wire, header included.
    pub fn len(&self) -> (r: usize)
        ensures
            r == self.length + 4,
    {
        self.length as usize + 4
    }

    /// Whether the field declares an empty payload.
    pub fn is_empty(&self) -> (r: bool)
        ensures
            r == (self.length == 0),
    {
        self.length == 0
    }
}

pub proof fn lemma_complete_req_msg_round_trip(x: CompleteRequestMessageModel)
    requires
        complete_req_msg_wf(x),
    ensures
        complete_req_msg_of(complete_req_msg_field(x)) == Ok::<CompleteRequestMessageModel, GTPV2Error>(x),
        field_wf(complete_req_msg_field(x)),
{
    let v = request_payload(x.message);
    match x.message {
        RequestMessageModel::AttachRequest(b) => {
            assert(v.subrange(1, v.len() as int) =~= b);
        },
        RequestMessageModel::TauRequest(b) => {
            assert(v.subrange(1, v.len() as int) =~= b);
        },
        RequestMessageModel::Spare => {},
    }
}

} // verus!
