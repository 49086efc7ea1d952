use gtp_rs::basic::{Cause, EpcTimer, CAUSE, EPC_TIMER};
use gtp_rs::catalog::InformationElement;
use gtp_rs::completereqmessage::{CompleteRequestMessage, RequestMessage, COMPLETE_REQ_MSG};
use gtp_rs::error::GTPV2Error;
use gtp_rs::ie::{decode_fields, encode_fields, Ie};
use gtp_rs::pagingserviceinfo::{PagingServiceInfo, PAGING_SRVC_INFO};
use gtp_rs::privateextension::{PrivateExtension, PRIVATE_EXT};
use gtp_rs::tad::{TrafficAggregateDescription, TAD};

#[test]
fn complete_request_msg_ie_marshal_test() {
    let encoded: [u8; 10] = [0x74, 0x00, 0x06, 0x00, 0x00, 0xaa, 0xbb, 0xcc, 0xdd, 0xee];
    let decoded = CompleteRequestMessage {
        t: COMPLETE_REQ_MSG,
        length: 6,
        ins: 0,
        message: RequestMessage::AttachRequest(vec![0xaa, 0xbb, 0xcc, 0xdd, 0xee]),
    };
    let mut buffer: Vec<u8> = vec![];
    decoded.marshal(&mut buffer);
    assert_eq!(buffer, encoded);
}

#[test]
fn complete_request_msg_ie_unmarshal_test() {
    let encoded: [u8; 10] = [0x74, 0x00, 0x06, 0x00, 0x00, 0xaa, 0xbb, 0xcc, 0xdd, 0xee];
    let decoded = CompleteRequestMessage {
        t: COMPLETE_REQ_MSG,
        length: 6,
        ins: 0,
        message: RequestMessage::AttachRequest(vec![0xaa, 0xbb, 0xcc, 0xdd, 0xee]),
    };
    assert_eq!(CompleteRequestMessage::unmarshal(&encoded).unwrap(), decoded);
}

#[test]
fn paging_service_info_ie_unmarshal_test() {
    let encoded: [u8; 7] = [0xba, 0x00, 0x03, 0x00, 0x02, 0x01, 0x03];
    let decoded = PagingServiceInfo { t: PAGING_SRVC_INFO, length: 3, ins: 0, ebi: 2, paging_policy: Some(0x03) };
    let i = PagingServiceInfo::unmarshal(&encoded);
    assert_eq!(i.unwrap(), decoded);
}

#[test]
fn paging_service_info_ie_marshal_test() {
    let encoded: [u8; 7] = [0xba, 0x00, 0x03, 0x00, 0x02, 0x01, 0x03];
    let decoded = PagingServiceInfo { t: PAGING_SRVC_INFO, length: 3, ins: 0, ebi: 2, paging_policy: Some(0x03) };
    let mut buffer: Vec<u8> = vec![];
    decoded.marshal(&mut buffer);
    assert_eq!(buffer, encoded);
}

#[test]
fn private_ext_ie_marshal_test() {
    let encoded: [u8; 7] = [0xff, 0x00, 0x03, 0x00, 0x0a, 0xff, 0x00];
    let decoded = PrivateExtension { t: PRIVATE_EXT, length: 3, ins: 0, enterprise_id: 0xaff, value: vec![0x00] };
    let mut buffer: Vec<u8> = vec![];
    decoded.marshal(&mut buffer);
    assert_eq!(buffer, encoded);
}

#[test]
fn private_ext_ie_unmarshal_test() {
    let encoded: [u8; 7] = [0xff, 0x00, 0x03, 0x00, 0x0a, 0xff, 0x00];
    let decoded = PrivateExtension { t: PRIVATE_EXT, length: 3, ins: 0, enterprise_id: 0xaff, value: vec![0x00] };
    assert_eq!(PrivateExtension::unmarshal(&encoded).unwrap(), decoded);
}

#[test]
fn tad_ie_marshal_test() {
    let encoded: [u8; 8] = [0x55, 0x00, 0x04, 0x00, 0x00, 0x00, 0x00, 0x00];
    let decoded = TrafficAggregateDescription { t: TAD, length: 4, ins: 0, tad: vec![0, 0, 0, 0] };
    let mut buffer: Vec<u8> = vec![];
    decoded.marshal(&mut buffer);
    assert_eq!(buffer, encoded);
}

#[test]
fn tad_ie_unmarshal_test() {
    let encoded: [u8; 8] = [0x55, 0x00, 0x04, 0x00, 0x00, 0x00, 0x00, 0x00];
    let decoded = TrafficAggregateDescription { t: TAD, length: 4, ins: 0, tad: vec![0, 0, 0, 0] };
    assert_eq!(TrafficAggregateDescription::unmarshal(&encoded).unwrap(), decoded);
}

#[test]
fn marshal_writes_true_length_not_declared_one() {
    let decoded = TrafficAggregateDescription { t: TAD, length: 99, ins: 1, tad: vec![7, 8] };
    let mut buffer: Vec<u8> = vec![0xee];
    decoded.marshal(&mut buffer);
    assert_eq!(buffer, vec![0xee, 0x55, 0x00, 0x02, 0x01, 7, 8]);
}

#[test]
fn tad_runs_past_buffer() {
    let encoded: [u8; 6] = [0x55, 0x00, 0x04, 0x00, 0x00, 0x00];
    assert_eq!(TrafficAggregateDescription::unmarshal(&encoded), Err(GTPV2Error::IEInvalidLength(TAD)));
    assert_eq!(TrafficAggregateDescription::unmarshal(&[]), Err(GTPV2Error::IEInvalidLength(TAD)));
}

#[test]
fn paging_service_info_without_policy_and_bad_flag() {
    let none: [u8; 6] = [0xba, 0x00, 0x02, 0x01, 0x1f, 0x00];
    let decoded = PagingServiceInfo::unmarshal(&none).unwrap();
    assert_eq!(decoded, PagingServiceInfo { t: PAGING_SRVC_INFO, length: 2, ins: 1, ebi: 0x0f, paging_policy: None });
    let bad_flag: [u8; 6] = [0xba, 0x00, 0x02, 0x00, 0x02, 0x02];
    assert_eq!(PagingServiceInfo::unmarshal(&bad_flag), Err(GTPV2Error::IEIncorrect(PAGING_SRVC_INFO)));
    let short_policy: [u8; 6] = [0xba, 0x00, 0x02, 0x00, 0x02, 0x01];
    assert_eq!(PagingServiceInfo::unmarshal(&short_policy), Err(GTPV2Error::IEInvalidLength(PAGING_SRVC_INFO)));
}

#[test]
fn complete_request_tau_and_spare() {
    let tau: [u8; 7] = [0x74, 0x00, 0x03, 0x00, 0x01, 0x11, 0x22];
    let decoded = CompleteRequestMessage::unmarshal(&tau).unwrap();
    assert_eq!(decoded.message, RequestMessage::TauRequest(vec![0x11, 0x22]));
    assert_eq!(decoded.len(), 7);
    assert!(!decoded.is_empty());
    let spare = CompleteRequestMessage { t: COMPLETE_REQ_MSG, length: 1, ins: 0, message: RequestMessage::Spare };
    let mut buffer: Vec<u8> = vec![];
    spare.marshal(&mut buffer);
    assert_eq!(buffer, vec![0x74, 0x00, 0x01, 0x00, 0x02]);
    assert_eq!(CompleteRequestMessage::unmarshal(&buffer).unwrap(), spare);
    let empty: [u8; 4] = [0x74, 0x00, 0x00, 0x00];
    assert_eq!(CompleteRequestMessage::unmarshal(&empty), Err(GTPV2Error::IEInvalidLength(COMPLETE_REQ_MSG)));
}

#[test]
fn private_ext_too_short_for_enterprise_id() {
    let encoded: [u8; 5] = [0xff, 0x00, 0x01, 0x00, 0x0a];
    assert_eq!(PrivateExtension::unmarshal(&encoded), Err(GTPV2Error::IEInvalidLength(PRIVATE_EXT)));
}

#[test]
fn cause_with_flags_and_offending_field() {
    let encoded: [u8; 10] = [0x02, 0x00, 0x06, 0x00, 0x41, 0x05, 0x56, 0x00, 0x00, 0x00];
    let c = Cause::unmarshal(&encoded).unwrap();
    assert_eq!(
        c,
        Cause { t: CAUSE, length: 6, ins: 0, value: 0x41, pce: true, bce: false, cs: true, offend_ie_type: Some(0x56) }
    );
    let mut buffer: Vec<u8> = vec![];
    c.marshal(&mut buffer);
    assert_eq!(buffer, encoded);
    let wrong: [u8; 7] = [0x02, 0x00, 0x03, 0x00, 0x41, 0x05, 0x00];
    assert_eq!(Cause::unmarshal(&wrong), Err(GTPV2Error::IEInvalidLength(CAUSE)));
}

#[test]
fn epc_timer_byte() {
    let t = EpcTimer { t: EPC_TIMER, length: 1, ins: 0, timer_unit: 3, timer_value: 31 };
    let mut buffer: Vec<u8> = vec![];
    t.marshal(&mut buffer);
    assert_eq!(buffer, vec![0x9c, 0x00, 0x01, 0x00, 0x7f]);
    assert_eq!(EpcTimer::unmarshal(&buffer).unwrap(), t);
}

#[test]
fn fields_of_unknown_type_are_kept_byte_for_byte() {
    let encoded: [u8; 14] = [0xfe, 0x00, 0x02, 0x03, 0xab, 0xcd, 0x55, 0x00, 0x00, 0x00, 0x49, 0x00, 0x00, 0x00];
    let fields = decode_fields(&encoded).unwrap();
    assert_eq!(fields.len(), 3);
    assert_eq!(fields[0], Ie { t: 0xfe, ins: 3, value: vec![0xab, 0xcd] });
    let mut buffer: Vec<u8> = vec![];
    encode_fields(&fields, &mut buffer);
    assert_eq!(buffer, encoded);
    match InformationElement::from_field(&fields[0]).unwrap() {
        InformationElement::Unknown(f) => assert_eq!(f, fields[0]),
        _ => panic!("a field of unknown type must stay generic"),
    }
    assert_eq!(InformationElement::from_field(&fields[2]), Err(GTPV2Error::IEInvalidLength(0x49)));
}

#[test]
fn fields_running_past_buffer_are_refused() {
    let encoded: [u8; 7] = [0x55, 0x00, 0x00, 0x00, 0x49, 0x00, 0x05];
    assert_eq!(decode_fields(&encoded), Err(GTPV2Error::IEInvalidLength(0x49)));
    assert_eq!(decode_fields(&[]).unwrap(), vec![]);
}
