use core::mem;
use params::{
    Error, GetSetFrame, GetSetOp, GetSetPayloadType, Parameter, ParameterFlags, ParameterId,
    ParameterListPacket, ParameterPacket, ParameterValue, Response, PREAMBLE_WORD,
};

const FRAME_BYTES: [u8; 151] = [
    0xAB, 0xCD, 0xEF, 0xFF, 0x01, 0x00, 0x00, 0x00, 0x00, 0x00, 0x00, 0x00, 0x01, 0x01, 0x02,
    0x86, 0x00, 7, 0, 0, 0, 0, 0, 0, 0, 0, 10, 0, 0, 0, 0, 0, 0, 0, 0, 0, 0, 0, 0, 0, 0, 0, 0,
    11, 0, 0, 0, 0, 0, 0, 0, 1, 0, 0, 0, 0, 0, 0, 0, 0, 12, 0, 0, 0, 0, 0, 0, 0, 2, 1, 0, 0, 0,
    0, 0, 0, 0, 0, 13, 0, 0, 0, 0, 0, 0, 0, 3, 171, 0, 0, 0, 0, 0, 0, 0, 0, 14, 0, 0, 0, 0, 0,
    0, 0, 5, 210, 4, 0, 0, 0, 0, 0, 0, 0, 0, 0, 0, 15, 0, 0, 0, 0, 0, 0, 0, 6, 46, 251, 255,
    255, 0, 0, 0, 0, 0, 0, 0, 0, 16, 0, 0, 0, 0, 0, 0, 0, 9, 182, 243, 157, 191,
];

const PAYLOAD_BYTES: [u8; 134] = [
    7, 0, 0, 0, 0, 0, 0, 0, 0, 10, 0, 0, 0, 0, 0, 0, 0, 0, 0, 0, 0, 0, 0, 0, 0, 0, 11, 0, 0, 0,
    0, 0, 0, 0, 1, 0, 0, 0, 0, 0, 0, 0, 0, 12, 0, 0, 0, 0, 0, 0, 0, 2, 1, 0, 0, 0, 0, 0, 0, 0,
    0, 13, 0, 0, 0, 0, 0, 0, 0, 3, 171, 0, 0, 0, 0, 0, 0, 0, 0, 14, 0, 0, 0, 0, 0, 0, 0, 5,
    210, 4, 0, 0, 0, 0, 0, 0, 0, 0, 0, 0, 15, 0, 0, 0, 0, 0, 0, 0, 6, 46, 251, 255, 255, 0, 0,
    0, 0, 0, 0, 0, 0, 16, 0, 0, 0, 0, 0, 0, 0, 9, 182, 243, 157, 191,
];

fn params() -> [Parameter; 7] {
    [
        Parameter::new_with_value(ParameterId::new(0x0A), ParameterFlags(0), ParameterValue::Empty),
        Parameter::new_with_value(
            ParameterId::new(0x0B),
            ParameterFlags(0),
            ParameterValue::Notification,
        ),
        Parameter::new_with_value(
            ParameterId::new(0x0C),
            ParameterFlags(0),
            ParameterValue::Bool(true),
        ),
        Parameter::new_with_value(ParameterId::new(0x0D), ParameterFlags(0), ParameterValue::U8(0xAB)),
        Parameter::new_with_value(
            ParameterId::new(0x0E),
            ParameterFlags(0),
            ParameterValue::U32(1234),
        ),
        Parameter::new_with_value(
            ParameterId::new(0x0F),
            ParameterFlags(0),
            ParameterValue::I32(-1234),
        ),
        Parameter::new_with_value(
            ParameterId::new(0x10),
            ParameterFlags(0),
            ParameterValue::F32((-1.234f32).to_bits()),
        ),
    ]
}

#[test]
fn response_wire_size() {
    let mut resp = Response::new(0, 0, GetSetOp::SetParams);
    assert_eq!(
        resp.push(Parameter::new_with_value(
            ParameterId::new(0x0A),
            ParameterFlags(0),
            ParameterValue::I32(-1234),
        )),
        Ok(())
    );
    assert_eq!(
        resp.push(Parameter::new_with_value(
            ParameterId::new(0x0B),
            ParameterFlags(0),
            ParameterValue::Bool(true),
        )),
        Ok(())
    );
    assert_eq!(resp.parameters().len(), 2);
    assert_eq!(
        resp.wire_size(),
        GetSetFrame::header_len()
            + ParameterListPacket::header_len()
            + ParameterPacket::header_len()
            + mem::size_of::<i32>()
            + ParameterPacket::header_len()
            + mem::size_of::<u8>()
    );
}

#[test]
fn response_emit() {
    let mut resp = Response::new(0, 0, GetSetOp::SetParams);
    assert_eq!(resp.op(), GetSetOp::SetParams);
    let p_a = Parameter::new_with_value(
        ParameterId::new(0x0A),
        ParameterFlags(0),
        ParameterValue::I32(-1234),
    );
    let p_b = Parameter::new_with_value(
        ParameterId::new(0x0B),
        ParameterFlags(0),
        ParameterValue::Bool(true),
    );
    assert_eq!(resp.push(p_a), Ok(()));
    assert_eq!(resp.push(p_b), Ok(()));

    let mut frame = GetSetFrame::new_unchecked(vec![0xFF; 64]);
    assert_eq!(resp.emit(&mut frame), Ok(()));
    assert_eq!(frame.check_len(), Ok(()));
    assert_eq!(frame.check_preamble(), Ok(()));
    assert_eq!(frame.op(), GetSetOp::SetParams);
    assert_eq!(frame.payload_size(), resp.payload_wire_size() as u16);
    let packet = ParameterListPacket::new_checked(frame.payload().to_vec()).unwrap();
    assert_eq!(packet.check_len(), Ok(()));
    assert_eq!(packet.count(), 2);
    assert_eq!(packet.parameter_at(0), Ok(p_a));
    assert_eq!(packet.parameter_at(1), Ok(p_b));
}

#[test]
fn response_parse() {
    let f = GetSetFrame::new_checked(FRAME_BYTES.to_vec()).unwrap();
    assert_eq!(f.preamble(), PREAMBLE_WORD);
    assert_eq!(f.node_id(), 0x01);
    assert_eq!(f.flags(), 0);
    assert_eq!(f.version(), 1);
    assert_eq!(f.op(), GetSetOp::Get);
    assert_eq!(f.payload_type(), GetSetPayloadType::ParameterListPacket);
    assert_eq!(f.payload_size() as usize, PAYLOAD_BYTES.len());
    assert_eq!(f.payload(), &PAYLOAD_BYTES[..]);
    let p = ParameterListPacket::new_checked(f.payload().to_vec()).unwrap();
    assert_eq!(p.count() as usize, params().len());
    for index in 0..params().len() {
        assert_eq!(p.parameter_at(index), Ok(params()[index]));
    }

    let resp = Response::parse(&f).unwrap();
    assert_eq!(resp.parameters().len(), params().len());
    for (index, p) in resp.parameters().iter().enumerate() {
        assert_eq!(*p, params()[index]);
    }
}

#[test]
fn response_rejects_other_payload_types() {
    let mut bytes = FRAME_BYTES.to_vec();
    bytes[14] = 1;
    let f = GetSetFrame::new_unchecked(bytes);
    assert_eq!(Response::parse(&f).unwrap_err(), Error::WireInvalidPayloadType);
    let mut bytes = FRAME_BYTES.to_vec();
    bytes[14] = 0;
    let f = GetSetFrame::new_unchecked(bytes);
    assert_eq!(Response::parse(&f).unwrap_err(), Error::WireInvalidPayloadType);
}

#[test]
fn response_capacity_and_editing() {
    let p = Parameter::new_with_value(ParameterId::new(1), ParameterFlags(0), ParameterValue::U8(1));
    let mut resp = Response::new(4, 0, GetSetOp::Get);
    assert_eq!(resp.node_id(), 4);
    for _ in 0..64 {
        assert_eq!(resp.push(p), Ok(()));
    }
    assert_eq!(resp.push(p), Err(Error::Capacity));
    assert_eq!(resp.pop(), Some(p));
    assert_eq!(resp.parameters().len(), 63);
    resp.clear();
    assert_eq!(resp.pop(), None);
    assert_eq!(resp.wire_size(), 18);
}
