use params::{
    Error, GetSetFrame as Frame, GetSetOp, GetSetPayloadType, ParameterPacket,
    ParameterValueTypeId as TypeId, MAX_PARAMS_PER_OP, PREAMBLE_WORD,
};

const FRAME_BYTES: [u8; 46] = [
    0xAB, 0xCD, 0xEF, 0xFF, 0x01, 0x00, 0x00, 0x00, 0x00, 0x00, 0x00, 0x00, 0x01, 0x01, 0x01,
    0x1D, 0x00, 0x07, 0x0A, 0x00, 0x00, 0x00, 0x0B, 0x00, 0x00, 0x00, 0x0C, 0x00, 0x00, 0x00,
    0x0D, 0x00, 0x00, 0x00, 0x0E, 0x00, 0x00, 0x00, 0x0F, 0x00, 0x00, 0x00, 0x10, 0x00, 0x00,
    0x00,
];

const PAYLOAD_BYTES: [u8; 29] = [
    0x07, 0x0A, 0x00, 0x00, 0x00, 0x0B, 0x00, 0x00, 0x00, 0x0C, 0x00, 0x00, 0x00, 0x0D, 0x00,
    0x00, 0x00, 0x0E, 0x00, 0x00, 0x00, 0x0F, 0x00, 0x00, 0x00, 0x10, 0x00, 0x00, 0x00,
];

#[test]
fn getset_header_len() {
    assert_eq!(Frame::header_len(), 17);
    assert_eq!(Frame::buffer_len(22), 17 + 22);
}

#[test]
fn max_fits_in_udp_datagram() {
    let value_size = TypeId::U32.wire_size();
    let f_size = ParameterPacket::buffer_len(value_size);
    assert!(MAX_PARAMS_PER_OP * f_size <= 1500);
}

#[test]
fn getset_construct() {
    let mut f = Frame::new_unchecked(vec![0xFF; 46]);
    assert_eq!(f.check_len(), Ok(()));
    f.set_preamble(PREAMBLE_WORD);
    f.set_node_id(0x01);
    f.set_flags(0);
    f.set_version(1);
    f.set_op(GetSetOp::Get);
    f.set_payload_type(GetSetPayloadType::ParameterIdListPacket);
    f.set_payload_size(PAYLOAD_BYTES.len() as u16);
    f.set_payload(&PAYLOAD_BYTES[..]);
    assert_eq!(f.check_preamble(), Ok(()));
    assert_eq!(&f.into_inner()[..], &FRAME_BYTES[..]);
}

#[test]
fn getset_deconstruct() {
    let f = Frame::new_checked(FRAME_BYTES.to_vec()).unwrap();
    assert_eq!(f.preamble(), PREAMBLE_WORD);
    assert_eq!(f.node_id(), 0x01);
    assert_eq!(f.flags(), 0);
    assert_eq!(f.version(), 1);
    assert_eq!(f.op(), GetSetOp::Get);
    assert_eq!(f.payload_type(), GetSetPayloadType::ParameterIdListPacket);
    assert_eq!(f.payload_size() as usize, PAYLOAD_BYTES.len());
    assert_eq!(f.payload(), &PAYLOAD_BYTES[..]);
}

#[test]
fn preamble_rejection() {
    for i in 0..4 {
        let mut bytes = FRAME_BYTES.to_vec();
        bytes[i] ^= 0x10;
        let f = Frame::new_unchecked(bytes.clone());
        assert_eq!(f.check_preamble(), Err(Error::WirePreamble));
        assert_eq!(Frame::new_checked(bytes).unwrap_err(), Error::WirePreamble);
    }
    assert_eq!(Frame::new_unchecked(vec![0xAB, 0xCD]).check_preamble(), Err(Error::WireTruncated));
}

#[test]
fn length_rejection() {
    for n in 0..17 {
        let f = Frame::new_unchecked(FRAME_BYTES[..n].to_vec());
        assert_eq!(f.check_len(), Err(Error::WireTruncated));
        assert_eq!(Frame::new_checked(FRAME_BYTES[..n].to_vec()).unwrap_err(), Error::WireTruncated);
        let f = Frame::new_unchecked(vec![0xAB; n]);
        assert_eq!(f.check_len(), Err(Error::WireTruncated));
    }
    assert!(Frame::new_checked(FRAME_BYTES[..17].to_vec()).is_ok());
}

#[test]
fn unknown_op_and_payload_bytes_read_leniently() {
    let mut bytes = FRAME_BYTES.to_vec();
    bytes[13] = 7;
    bytes[14] = 9;
    let f = Frame::new_checked(bytes).unwrap();
    assert_eq!(f.op(), GetSetOp::ListAll);
    assert_eq!(f.payload_type(), GetSetPayloadType::Empty);
    assert_eq!(GetSetOp::SetParams.as_u8(), 2);
    assert_eq!(GetSetPayloadType::ParameterListPacket.as_u8(), 2);
}
