use core::mem;
use params::{Error, ParameterValue as Value, ParameterValueTypeId as TypeId};
use std::str::FromStr;

#[test]
fn value_wire_size() {
    assert_eq!(Value::Empty.type_id().wire_size(), mem::size_of::<()>());
    assert_eq!(Value::Notification.type_id().wire_size(), mem::size_of::<()>());
    assert_eq!(Value::Bool(true).type_id().wire_size(), mem::size_of::<u8>());
    assert_eq!(Value::U8(123).type_id().wire_size(), mem::size_of::<u8>());
    assert_eq!(Value::I8(-123).type_id().wire_size(), mem::size_of::<i8>());
    assert_eq!(Value::U32(123).type_id().wire_size(), mem::size_of::<u32>());
    assert_eq!(Value::I32(-123).type_id().wire_size(), mem::size_of::<i32>());
    assert_eq!(Value::U64(123).type_id().wire_size(), mem::size_of::<u64>());
    assert_eq!(Value::I64(-123).type_id().wire_size(), mem::size_of::<i64>());
    assert_eq!(
        Value::F32((-1.234f32).to_bits()).type_id().wire_size(),
        mem::size_of::<f32>()
    );
}

#[test]
fn inner_types() {
    let val = Value::Bool(true);
    assert_eq!(true, val.as_bool());

    let val = Value::U8(123);
    assert_eq!(123, val.as_u8());

    let val = Value::I8(-123);
    assert_eq!(-123, val.as_i8());

    let val = Value::U32(12345);
    assert_eq!(12345, val.as_u32());

    let val = Value::I32(-123);
    assert_eq!(-123, val.as_i32());

    let val = Value::U64(12345);
    assert_eq!(12345, val.as_u64());

    let val = Value::I64(-123);
    assert_eq!(-123, val.as_i64());

    let val = Value::F32((-1.23f32).to_bits());
    assert!((f32::from_bits(val.as_f32_bits()) - -1.23).abs() < 1e-6);
}

#[test]
fn type_ids() {
    let cases = [
        (Value::Empty, TypeId::Empty),
        (Value::Notification, TypeId::Notification),
        (Value::Bool(true), TypeId::Bool),
        (Value::U8(123), TypeId::U8),
        (Value::I8(-123), TypeId::I8),
        (Value::U32(12345), TypeId::U32),
        (Value::I32(-123), TypeId::I32),
        (Value::U64(12345), TypeId::U64),
        (Value::I64(-123), TypeId::I64),
        (Value::F32((-1.23f32).to_bits()), TypeId::F32),
    ];
    for (val, t) in cases.iter() {
        assert_eq!(val.type_id(), *t);
        assert_eq!(TypeId::from_u8(val.type_id().as_u8()), *t);
    }
}

#[test]
fn type_tags_are_stable() {
    let tags = [
        TypeId::Empty,
        TypeId::Notification,
        TypeId::Bool,
        TypeId::U8,
        TypeId::I8,
        TypeId::U32,
        TypeId::I32,
        TypeId::U64,
        TypeId::I64,
        TypeId::F32,
    ];
    for (tag, t) in tags.iter().enumerate() {
        assert_eq!(t.as_u8() as usize, tag);
    }
    assert_eq!(TypeId::from_u8(10), TypeId::Empty);
    assert_eq!(TypeId::from_u8(0xFF), TypeId::Empty);
    assert_eq!(Value::default(), Value::Empty);
}

#[test]
fn type_names() {
    assert_eq!(TypeId::from_name("U32"), Ok(TypeId::U32));
    assert_eq!(TypeId::from_name("u32"), Ok(TypeId::U32));
    assert_eq!(TypeId::from_name("notif"), Ok(TypeId::Notification));
    assert_eq!(TypeId::from_name("None"), Ok(TypeId::Empty));
    assert_eq!(TypeId::from_name("f32"), Ok(TypeId::F32));
    assert_eq!(TypeId::from_name("i64"), Ok(TypeId::I64));
    assert_eq!(TypeId::from_name("u16"), Err(Error::ParseValue));
    assert_eq!(TypeId::from_name(""), Err(Error::ParseValue));
    assert_eq!(TypeId::from_str("bool"), Ok(TypeId::Bool));
}
