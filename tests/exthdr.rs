use gtp_rs::error::GTPV1Error;
use gtp_rs::exthdr::{decode_chain, encode_chain, ExtensionHeader, PduSessionContainer, Unknown, PDU_SESSION_CONTAINER};

#[test]
fn pdu_session_container_exthdr_unmarshal_test() {
    let encoded_ie: [u8; 8] = [0x85, 0x02, 0x00, 0x01, 0x02, 0x03, 0x04, 0x05];
    let test_struct = PduSessionContainer {
        extension_header_type: PDU_SESSION_CONTAINER,
        length: 2,
        container: vec![0, 1, 2, 3, 4, 5],
    };
    let i = PduSessionContainer::unmarshal(&encoded_ie);
    assert_eq!(i.unwrap(), test_struct);
}

#[test]
fn pdu_session_container_exthdr_marshal_test() {
    let encoded_ie: [u8; 8] = [0x85, 0x02, 0x00, 0x01, 0x02, 0x03, 0x04, 0x05];
    let test_struct = PduSessionContainer {
        extension_header_type: PDU_SESSION_CONTAINER,
        length: 2,
        container: vec![0, 1, 2, 3, 4, 5],
    };
    let mut buffer: Vec<u8> = vec![];
    test_struct.marshal(&mut buffer);
    assert_eq!(buffer, encoded_ie);
}

#[test]
fn unknown_exthdr_unmarshal_test() {
    let encoded_ie: [u8; 4] = [0xfa, 0x01, 0xff, 0xff];
    let test_struct = Unknown { extension_header_type: 0xfa, length: 1, value: vec![0xff, 0xff] };
    let i = Unknown::unmarshal(&encoded_ie);
    assert_eq!(i.unwrap(), test_struct);
}

#[test]
fn unknown_ind_exthdr_marshal_test() {
    let encoded_ie: [u8; 4] = [0xfa, 0x01, 0xff, 0xff];
    let test_struct = Unknown { extension_header_type: 0xfa, length: 1, value: vec![0xff, 0xff] };
    let mut buffer: Vec<u8> = vec![];
    test_struct.marshal(&mut buffer);
    assert_eq!(buffer, encoded_ie);
}

#[test]
fn zero_length_link_is_refused() {
    let encoded: [u8; 4] = [0x85, 0x00, 0x01, 0x02];
    assert_eq!(PduSessionContainer::unmarshal(&encoded), Err(GTPV1Error::ExtHeaderInvalidLength));
    assert_eq!(Unknown::unmarshal(&encoded), Err(GTPV1Error::ExtHeaderInvalidLength));
    let short: [u8; 6] = [0x85, 0x02, 0x00, 0x01, 0x02, 0x03];
    assert_eq!(PduSessionContainer::unmarshal(&short), Err(GTPV1Error::ExtHeaderInvalidLength));
    assert_eq!(Unknown::unmarshal(&[0xfa]), Err(GTPV1Error::ExtHeaderInvalidLength));
}

#[test]
fn chain_stops_at_sentinel() {
    // Two links: the first names a next link (0xfa), the second names none.
    let encoded: [u8; 12] = [0x85, 0x01, 0x10, 0xfa, 0xfa, 0x01, 0x30, 0x00, 0xde, 0xad, 0xbe, 0xef];
    let links = decode_chain(&encoded).unwrap();
    assert_eq!(links.len(), 2);
    assert_eq!(
        links[0],
        ExtensionHeader::PduSessionContainer(PduSessionContainer {
            extension_header_type: PDU_SESSION_CONTAINER,
            length: 1,
            container: vec![0x10, 0xfa],
        })
    );
    assert_eq!(
        links[1],
        ExtensionHeader::Unknown(Unknown { extension_header_type: 0xfa, length: 1, value: vec![0x30, 0x00] })
    );
    let mut buffer: Vec<u8> = vec![];
    encode_chain(&links, &mut buffer);
    assert_eq!(buffer, encoded[..8].to_vec());
}

#[test]
fn chain_with_zero_length_fails() {
    let encoded: [u8; 8] = [0x85, 0x01, 0x10, 0xfa, 0xfa, 0x00, 0x30, 0x00];
    assert_eq!(decode_chain(&encoded), Err(GTPV1Error::ExtHeaderInvalidLength));
}

#[test]
fn chain_ends_with_buffer() {
    let encoded: [u8; 4] = [0xfa, 0x01, 0x30, 0x85];
    let links = decode_chain(&encoded).unwrap();
    assert_eq!(links.len(), 1);
    assert_eq!(decode_chain(&[]).unwrap(), vec![]);
}
