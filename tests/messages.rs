use gtp_rs::basic::{Cause, Ebi, EpcTimer, Metric, Pti, Sqn, CAUSE, EBI, EPC_TIMER, EPC_TIMER_LENGTH, METRIC, METRIC_LENGTH, PTI, SQN, SQN_LENGTH};
use gtp_rs::bearerresourcecommand::{BearerResourceCommand, BEARER_RSRC_CMD};
use gtp_rs::bearerresourcefailureind::{BearerResourceFailureInd, BEARER_RSRC_FAIL};
use gtp_rs::deletebearerresp::{DeleteBearerResponse, DELETE_BEARER_RESP};
use gtp_rs::error::GTPV2Error;
use gtp_rs::header::Gtpv2Header;
use gtp_rs::ie::Ie;
use gtp_rs::overload::{OverloadControlInfo, OVERLOAD_CNTRL};
use gtp_rs::privateextension::{PrivateExtension, PRIVATE_EXT};
use gtp_rs::tad::{TrafficAggregateDescription, TAD};

#[test]
fn test_bearer_failure_ind_unmarshal() {
    let encoded: [u8; 72] = [
        0x48, 0x45, 0x00, 0x44, 0x00, 0x00, 0x00, 0x00, 0x00, 0x00, 0x68, 0x00, 0x02, 0x00, 0x02, 0x00, 0x4d, 0x00,
        0x49, 0x00, 0x01, 0x00, 0x05, 0x64, 0x00, 0x01, 0x00, 0xff, 0xb4, 0x00, 0x12, 0x00, 0xb7, 0x00, 0x04, 0x00,
        0xff, 0xaa, 0xee, 0x11, 0xb6, 0x00, 0x01, 0x00, 0x60, 0x9c, 0x00, 0x01, 0x00, 0x7f, 0xb4, 0x00, 0x12, 0x01,
        0xb7, 0x00, 0x04, 0x00, 0xff, 0xaa, 0xee, 0x22, 0xb6, 0x00, 0x01, 0x00, 0x60, 0x9c, 0x00, 0x01, 0x00, 0x7e,
    ];
    let mut decoded = BearerResourceFailureInd::default();
    decoded.header =
        Gtpv2Header { msgtype: BEARER_RSRC_FAIL, piggyback: false, message_prio: None, length: 68, teid: Some(0), sqn: 0x68 };
    decoded.cause =
        Cause { t: CAUSE, length: 2, ins: 0, value: 77, pce: false, bce: false, cs: false, offend_ie_type: None };
    decoded.linked_ebi = Ebi { t: 73, length: 1, ins: 0, value: 5 };
    decoded.pti = Pti { t: PTI, length: 1, ins: 0, pti: 0xff };
    decoded.overload_info = vec![
        OverloadControlInfo {
            t: OVERLOAD_CNTRL,
            length: 18,
            ins: 0,
            sqn: Sqn { t: SQN, length: SQN_LENGTH as u16, ins: 0, sqn: 0xffaaee11 },
            metric: Metric { t: METRIC, length: METRIC_LENGTH as u16, ins: 0, metric: 0x60 },
            validity: EpcTimer { t: EPC_TIMER, length: EPC_TIMER_LENGTH as u16, ins: 0, timer_unit: 3, timer_value: 31 },
            list: None,
        },
        OverloadControlInfo {
            t: OVERLOAD_CNTRL,
            length: 18,
            ins: 1,
            sqn: Sqn { t: SQN, length: SQN_LENGTH as u16, ins: 0, sqn: 0xffaaee22 },
            metric: Metric { t: METRIC, length: METRIC_LENGTH as u16, ins: 0, metric: 0x60 },
            validity: EpcTimer { t: EPC_TIMER, length: EPC_TIMER_LENGTH as u16, ins: 0, timer_unit: 3, timer_value: 30 },
            list: None,
        },
    ];
    let message = BearerResourceFailureInd::unmarshal(&encoded).unwrap();
    assert_eq!(message, decoded);
}

#[test]
fn test_bearer_failure_ind_marshal() {
    let encoded: [u8; 72] = [
        0x48, 0x45, 0x00, 0x44, 0x00, 0x00, 0x00, 0x00, 0x00, 0x00, 0x68, 0x00, 0x02, 0x00, 0x02, 0x00, 0x4d, 0x00,
        0x49, 0x00, 0x01, 0x00, 0x05, 0x64, 0x00, 0x01, 0x00, 0xff, 0xb4, 0x00, 0x12, 0x00, 0xb7, 0x00, 0x04, 0x00,
        0xff, 0xaa, 0xee, 0x11, 0xb6, 0x00, 0x01, 0x00, 0x60, 0x9c, 0x00, 0x01, 0x00, 0x7f, 0xb4, 0x00, 0x12, 0x01,
        0xb7, 0x00, 0x04, 0x00, 0xff, 0xaa, 0xee, 0x22, 0xb6, 0x00, 0x01, 0x00, 0x60, 0x9c, 0x00, 0x01, 0x00, 0x7e,
    ];
    let mut decoded = BearerResourceFailureInd::default();
    decoded.header =
        Gtpv2Header { msgtype: BEARER_RSRC_FAIL, piggyback: false, message_prio: None, length: 68, teid: Some(0), sqn: 0x68 };
    decoded.cause =
        Cause { t: CAUSE, length: 2, ins: 0, value: 77, pce: false, bce: false, cs: false, offend_ie_type: None };
    decoded.linked_ebi = Ebi { t: 73, length: 1, ins: 0, value: 5 };
    decoded.pti = Pti { t: PTI, length: 1, ins: 0, pti: 0xff };
    decoded.overload_info = vec![
        OverloadControlInfo {
            t: OVERLOAD_CNTRL,
            length: 18,
            ins: 0,
            sqn: Sqn { t: SQN, length: SQN_LENGTH as u16, ins: 0, sqn: 0xffaaee11 },
            metric: Metric { t: METRIC, length: METRIC_LENGTH as u16, ins: 0, metric: 0x60 },
            validity: EpcTimer { t: EPC_TIMER, length: EPC_TIMER_LENGTH as u16, ins: 0, timer_unit: 3, timer_value: 31 },
            list: None,
        },
        OverloadControlInfo {
            t: OVERLOAD_CNTRL,
            length: 18,
            ins: 1,
            sqn: Sqn { t: SQN, length: SQN_LENGTH as u16, ins: 0, sqn: 0xffaaee22 },
            metric: Metric { t: METRIC, length: METRIC_LENGTH as u16, ins: 0, metric: 0x60 },
            validity: EpcTimer { t: EPC_TIMER, length: EPC_TIMER_LENGTH as u16, ins: 0, timer_unit: 3, timer_value: 30 },
            list: None,
        },
    ];
    let mut buffer: Vec<u8> = vec![];
    decoded.marshal(&mut buffer);
    assert_eq!(buffer, encoded);
}

fn failure_ind_bytes() -> Vec<u8> {
    vec![
        0x48, 0x45, 0x00, 0x44, 0x00, 0x00, 0x00, 0x00, 0x00, 0x00, 0x68, 0x00, 0x02, 0x00, 0x02, 0x00, 0x4d, 0x00,
        0x49, 0x00, 0x01, 0x00, 0x05, 0x64, 0x00, 0x01, 0x00, 0xff, 0xb4, 0x00, 0x12, 0x00, 0xb7, 0x00, 0x04, 0x00,
        0xff, 0xaa, 0xee, 0x11, 0xb6, 0x00, 0x01, 0x00, 0x60, 0x9c, 0x00, 0x01, 0x00, 0x7f, 0xb4, 0x00, 0x12, 0x01,
        0xb7, 0x00, 0x04, 0x00, 0xff, 0xaa, 0xee, 0x22, 0xb6, 0x00, 0x01, 0x00, 0x60, 0x9c, 0x00, 0x01, 0x00, 0x7e,
    ]
}

fn set_length(bytes: &mut Vec<u8>) {
    let n = (bytes.len() - 4) as u16;
    bytes[2] = (n >> 8) as u8;
    bytes[3] = (n & 0xff) as u8;
}

#[test]
fn failure_ind_round_trip() {
    let m = BearerResourceFailureInd::unmarshal(&failure_ind_bytes()).unwrap();
    let mut buffer: Vec<u8> = vec![];
    m.marshal(&mut buffer);
    assert_eq!(buffer, failure_ind_bytes());
    assert_eq!(BearerResourceFailureInd::unmarshal(&buffer).unwrap(), m);
}

#[test]
fn marshal_patches_message_length() {
    let mut m = BearerResourceFailureInd::unmarshal(&failure_ind_bytes()).unwrap();
    m.header.length = 0;
    m.private_ext.push(PrivateExtension { t: PRIVATE_EXT, length: 0, ins: 0, enterprise_id: 0x1234, value: vec![1, 2, 3] });
    let mut buffer: Vec<u8> = vec![0xaa, 0xbb];
    m.marshal(&mut buffer);
    let declared = ((buffer[4] as usize) << 8) | buffer[5] as usize;
    assert_eq!(declared, buffer.len() - 2 - 4);
    assert_eq!(declared, 68 + 9);
    let back = BearerResourceFailureInd::unmarshal(&buffer[2..]).unwrap();
    assert_eq!(back.private_ext.len(), 1);
    assert_eq!(back.private_ext[0].value, vec![1, 2, 3]);
}

#[test]
fn missing_mandatory_fields_are_named() {
    let mut no_cause = failure_ind_bytes();
    no_cause.drain(12..18);
    set_length(&mut no_cause);
    assert_eq!(BearerResourceFailureInd::unmarshal(&no_cause), Err(GTPV2Error::MessageMandatoryIEMissing(CAUSE)));
    let mut no_ebi = failure_ind_bytes();
    no_ebi.drain(18..23);
    set_length(&mut no_ebi);
    assert_eq!(BearerResourceFailureInd::unmarshal(&no_ebi), Err(GTPV2Error::MessageMandatoryIEMissing(EBI)));
    let mut no_pti = failure_ind_bytes();
    no_pti.drain(23..28);
    set_length(&mut no_pti);
    assert_eq!(BearerResourceFailureInd::unmarshal(&no_pti), Err(GTPV2Error::MessageMandatoryIEMissing(PTI)));
}

#[test]
fn injected_unknown_field_is_tolerated() {
    let mut bytes = failure_ind_bytes();
    let injected: [u8; 6] = [0xfe, 0x00, 0x02, 0x00, 0xab, 0xcd];
    for (k, b) in injected.iter().enumerate() {
        bytes.insert(28 + k, *b);
    }
    set_length(&mut bytes);
    let m = BearerResourceFailureInd::unmarshal(&bytes).unwrap();
    let mut plain = BearerResourceFailureInd::unmarshal(&failure_ind_bytes()).unwrap();
    plain.header.length = 74;
    assert_eq!(m, plain);
}

#[test]
fn corrupted_field_length_is_invalid_length() {
    let mut bytes = failure_ind_bytes();
    bytes[20] = 0xff;
    assert_eq!(BearerResourceFailureInd::unmarshal(&bytes), Err(GTPV2Error::IEInvalidLength(EBI)));
}

#[test]
fn overload_at_third_instance_is_dropped() {
    let mut bytes = failure_ind_bytes();
    let third: Vec<u8> = bytes[50..72].to_vec();
    bytes.extend_from_slice(&third);
    bytes[72 + 3] = 2;
    set_length(&mut bytes);
    let m = BearerResourceFailureInd::unmarshal(&bytes).unwrap();
    assert_eq!(m.overload_info.len(), 2);
    assert_eq!(m.overload_info[0].ins, 0);
    assert_eq!(m.overload_info[1].ins, 1);
}

#[test]
fn envelope_errors() {
    let bytes = failure_ind_bytes();
    assert_eq!(BearerResourceCommand::unmarshal(&bytes), Err(GTPV2Error::MessageIncorrectMessageType));
    assert_eq!(BearerResourceFailureInd::unmarshal(&bytes[..60]), Err(GTPV2Error::MessageInvalidMessageFormat));
    assert_eq!(BearerResourceFailureInd::unmarshal(&bytes[..5]), Err(GTPV2Error::MessageInvalidMessageFormat));
    let mut v1 = bytes.clone();
    v1[0] = 0x28;
    assert_eq!(BearerResourceFailureInd::unmarshal(&v1), Err(GTPV2Error::HeaderVersionNotSupported));
}

#[test]
fn header_without_teid_and_with_priority() {
    let h = Gtpv2Header { msgtype: 1, piggyback: true, message_prio: Some(5), length: 4, teid: None, sqn: 0x010203 };
    let mut buffer: Vec<u8> = vec![];
    h.marshal(&mut buffer);
    assert_eq!(buffer, vec![0x54, 0x01, 0x00, 0x04, 0x01, 0x02, 0x03, 0x50]);
    assert_eq!(Gtpv2Header::unmarshal(&buffer).unwrap(), h);
    assert_eq!(h.len(), 8);
}

fn command_bytes() -> Vec<u8> {
    vec![
        0x48, 0x44, 0x00, 0x97, 0x00, 0x00, 0x00, 0x00, 0x00, 0x00, 0x68, 0x00, 0x49, 0x00, 0x01, 0x00, 0x05, 0x64,
        0x00, 0x01, 0x00, 0xff, 0x55, 0x00, 0x04, 0x00, 0x00, 0x00, 0x00, 0x00, 0x52, 0x00, 0x01, 0x00, 0x06, 0x53,
        0x00, 0x03, 0x00, 0x62, 0xf2, 0x10, 0x56, 0x00, 0x0d, 0x00, 0x18, 0x62, 0xf2, 0x10, 0x0b, 0xd9, 0x62, 0xf2,
        0x10, 0x01, 0xba, 0x40, 0x02, 0x4e, 0x00, 0x23, 0x00, 0x80, 0x80, 0x21, 0x10, 0x01, 0x00, 0x00, 0x10, 0x81,
        0x06, 0x00, 0x00, 0x00, 0x00, 0x83, 0x06, 0x00, 0x00, 0x00, 0x00, 0x00, 0x0d, 0x00, 0x00, 0x03, 0x00, 0x00,
        0x0a, 0x00, 0x00, 0x05, 0x00, 0x00, 0x10, 0x00, 0xb4, 0x00, 0x12, 0x00, 0xb7, 0x00, 0x04, 0x00, 0xff, 0xaa,
        0xee, 0x11, 0xb6, 0x00, 0x01, 0x00, 0x60, 0x9c, 0x00, 0x01, 0x00, 0x7f, 0xb4, 0x00, 0x12, 0x01, 0xb7, 0x00,
        0x04, 0x00, 0xff, 0xaa, 0xee, 0x22, 0xb6, 0x00, 0x01, 0x00, 0x60, 0x9c, 0x00, 0x01, 0x00, 0x7e, 0x57, 0x00,
        0x09, 0x02, 0x86, 0x06, 0xd1, 0x82, 0x4c, 0xc1, 0xfe, 0x8b, 0x2d,
    ]
}

#[test]
fn bearer_resource_command_sample() {
    let bytes = command_bytes();
    let m = BearerResourceCommand::unmarshal(&bytes).unwrap();
    assert_eq!(m.header.msgtype, BEARER_RSRC_CMD);
    assert_eq!(m.header.length, 151);
    assert_eq!(m.linked_ebi, Ebi { t: EBI, length: 1, ins: 0, value: 5 });
    assert_eq!(m.pti, Pti { t: PTI, length: 1, ins: 0, pti: 0xff });
    assert_eq!(m.tad, Some(TrafficAggregateDescription { t: TAD, length: 4, ins: 0, tad: vec![0, 0, 0, 0] }));
    assert_eq!(m.rattype, Some(Ie { t: 82, ins: 0, value: vec![6] }));
    assert_eq!(m.servingnetwork, Some(Ie { t: 83, ins: 0, value: vec![0x62, 0xf2, 0x10] }));
    assert_eq!(m.uli.as_ref().map(|u| u.value.len()), Some(13));
    assert_eq!(m.pco.as_ref().map(|p| p.value.len()), Some(35));
    assert_eq!(m.overload_info.len(), 2);
    assert_eq!(
        m.fteid_control,
        Some(Ie { t: 87, ins: 2, value: vec![0x86, 0x06, 0xd1, 0x82, 0x4c, 0xc1, 0xfe, 0x8b, 0x2d] })
    );
    assert_eq!(m.sgsn_fteid, None);
    assert_eq!(m.rnc_fteid, None);
    let mut buffer: Vec<u8> = vec![];
    m.marshal(&mut buffer);
    assert_eq!(buffer, bytes);
}

#[test]
fn bearer_identifiers_routed_by_instance() {
    let mut bytes = command_bytes()[..22].to_vec();
    bytes.extend_from_slice(&[0x49, 0x00, 0x01, 0x01, 0x06]);
    bytes.extend_from_slice(&[0x49, 0x00, 0x01, 0x02, 0x07]);
    set_length(&mut bytes);
    let m = BearerResourceCommand::unmarshal(&bytes).unwrap();
    assert_eq!(m.linked_ebi, Ebi { t: EBI, length: 1, ins: 0, value: 5 });
    assert_eq!(m.ebi, Some(Ebi { t: EBI, length: 1, ins: 1, value: 6 }));
    let no_pti: Vec<u8> = {
        let mut b = command_bytes()[..17].to_vec();
        set_length(&mut b);
        b
    };
    assert_eq!(BearerResourceCommand::unmarshal(&no_pti), Err(GTPV2Error::MessageMandatoryIEMissing(PTI)));
}

#[test]
fn delete_bearer_response_round_trip() {
    let mut m = DeleteBearerResponse::default();
    m.header.teid = Some(0x0909a456);
    m.header.sqn = 0x2f;
    m.cause = Cause { t: CAUSE, length: 2, ins: 0, value: 16, pce: false, bce: false, cs: false, offend_ie_type: None };
    m.linked_ebi = Some(Ebi { t: EBI, length: 1, ins: 0, value: 5 });
    m.bearer_ctxs = vec![Ie { t: 93, ins: 0, value: vec![0x49, 0x00, 0x01, 0x00, 0x05] }];
    m.recovery = Some(Ie { t: 3, ins: 0, value: vec![17] });
    m.sgw_fqcsid = Some(Ie { t: 132, ins: 1, value: vec![1, 2, 3] });
    m.twan_fqcsid = Some(Ie { t: 132, ins: 3, value: vec![4] });
    m.wlan_loc = Some(Ie { t: 169, ins: 1, value: vec![9] });
    m.ue_tcpport = Some(Ie { t: 126, ins: 1, value: vec![0x1f, 0x90] });
    m.secondary_rat_usage_report = vec![Ie { t: 201, ins: 0, value: vec![0xaa] }];
    let mut buffer: Vec<u8> = vec![];
    m.marshal(&mut buffer);
    assert_eq!(buffer[1], DELETE_BEARER_RESP);
    m.header.length = (buffer.len() - 4) as u16;
    assert_eq!(DeleteBearerResponse::unmarshal(&buffer).unwrap(), m);
    let mut no_cause = buffer[..12].to_vec();
    no_cause.extend_from_slice(&buffer[18..]);
    set_length(&mut no_cause);
    assert_eq!(DeleteBearerResponse::unmarshal(&no_cause), Err(GTPV2Error::MessageMandatoryIEMissing(CAUSE)));
}
