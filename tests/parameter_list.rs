use params::{
    Error, Parameter, ParameterFlags, ParameterId, ParameterListPacket as Packet, ParameterValue,
};

const BYTES: [u8; 134] = [
    7, 0, 0, 0, 0, 0, 0, 0, 0, 10, 0, 0, 0, 0, 0, 0, 0, 0, 0, 0, 0, 0, 0, 0, 0, 0, 11, 0, 0, 0,
    0, 0, 0, 0, 1, 0, 0, 0, 0, 0, 0, 0, 0, 12, 0, 0, 0, 0, 0, 0, 0, 2, 1, 0, 0, 0, 0, 0, 0, 0,
    0, 13, 0, 0, 0, 0, 0, 0, 0, 3, 171, 0, 0, 0, 0, 0, 0, 0, 0, 14, 0, 0, 0, 0, 0, 0, 0, 5,
    210, 4, 0, 0, 0, 0, 0, 0, 0, 0, 0, 0, 15, 0, 0, 0, 0, 0, 0, 0, 6, 46, 251, 255, 255, 0, 0,
    0, 0, 0, 0, 0, 0, 16, 0, 0, 0, 0, 0, 0, 0, 9, 182, 243, 157, 191,
];

fn params() -> [Parameter; 7] {
    [
        Parameter::new_with_value(ParameterId::new(0x0A), ParameterFlags(0), ParameterValue::Empty),
        Parameter::new_with_value(
            ParameterId::new(0x0B),
            ParameterFlags(0),
            ParameterValue::Notification,
        ),
        Parameter::new_with_value(
            ParameterId::new(0x0C),
            ParameterFlags(0),
            ParameterValue::Bool(true),
        ),
        Parameter::new_with_value(ParameterId::new(0x0D), ParameterFlags(0), ParameterValue::U8(0xAB)),
        Parameter::new_with_value(
            ParameterId::new(0x0E),
            ParameterFlags(0),
            ParameterValue::U32(1234),
        ),
        Parameter::new_with_value(
            ParameterId::new(0x0F),
            ParameterFlags(0),
            ParameterValue::I32(-1234),
        ),
        Parameter::new_with_value(
            ParameterId::new(0x10),
            ParameterFlags(0),
            ParameterValue::F32((-1.234f32).to_bits()),
        ),
    ]
}

#[test]
fn parameter_list_construct() {
    let mut p = Packet::new_unchecked(vec![0xFF; 134]);
    assert_eq!(p.check_len(), Ok(()));
    p.set_count(params().len() as u8);
    for (index, param) in params().iter().enumerate() {
        assert_eq!(p.set_parameter_at(index, *param), Ok(()));
    }
    assert_eq!(&p.into_inner()[..], &BYTES[..]);
}

#[test]
fn parameter_list_deconstruct() {
    let p = Packet::new_checked(BYTES.to_vec()).unwrap();
    assert_eq!(p.count() as usize, params().len());
    for index in 0..params().len() {
        assert_eq!(p.parameter_at(index), Ok(params()[index]));
    }
}

#[test]
fn parameter_list_errors() {
    let p = Packet::new_checked(BYTES.to_vec()).unwrap();
    assert_eq!(p.parameter_at(7), Err(Error::WireIndexOutOfBounds));
    // The last record loses its final value byte.
    let p = Packet::new_checked(BYTES[..133].to_vec()).unwrap();
    assert_eq!(p.parameter_at(5), Ok(params()[5]));
    assert_eq!(p.parameter_at(6), Err(Error::WireTruncated));
    // A count that promises more records than the bytes hold.
    let mut bytes = BYTES.to_vec();
    bytes[0] = 9;
    let p = Packet::new_checked(bytes).unwrap();
    assert_eq!(p.parameter_at(8), Err(Error::WireTruncated));
    let mut p = Packet::new_unchecked(vec![0; 10]);
    assert_eq!(p.set_parameter_at(64, params()[0]), Err(Error::WireIndexOutOfBounds));
    assert_eq!(p.set_parameter_at(0, params()[0]), Err(Error::WireTruncated));
    assert_eq!(Packet::new_checked(Vec::new()).unwrap_err(), Error::WireTruncated);
}

#[test]
fn parameter_list_round_trip_each_type() {
    let values = [
        ParameterValue::Empty,
        ParameterValue::Notification,
        ParameterValue::Bool(false),
        ParameterValue::U8(200),
        ParameterValue::I8(-100),
        ParameterValue::U32(0xDEAD_BEEF),
        ParameterValue::I32(i32::MIN),
        ParameterValue::U64(u64::MAX),
        ParameterValue::I64(-5),
        ParameterValue::F32(3.5f32.to_bits()),
    ];
    for (i, v) in values.iter().enumerate() {
        let mut param = Parameter::new_with_value(
            ParameterId::new(i as u32 + 100),
            ParameterFlags::new_read_only_broadcast(),
            *v,
        );
        param.set_local_time_ms(0x1122_3344_5566_7788);
        let mut p = Packet::new_unchecked(vec![0xAA; 40]);
        p.set_count(1);
        assert_eq!(p.set_parameter_at(0, param), Ok(()));
        assert_eq!(p.parameter_at(0), Ok(param));
    }
}
