use params::node::error::Error;
use params::node::getset_protocol::{emit_broadcast, GetSetProtocol, MTU};
use params::node::params::Params;
use params::{
    GetSetFrame, GetSetOp, GetSetPayloadType, Parameter, ParameterFlags, ParameterId,
    ParameterListPacket, ParameterValue, Request, Response,
};

const NODE: u32 = 0x21;

fn serve(params: &mut Params, req: &Request) -> Result<Vec<u8>, Error> {
    let mut tx = GetSetFrame::new_unchecked(vec![0; MTU]);
    req.emit(&mut tx).unwrap();
    let bytes = tx.into_inner();
    let mut proto = GetSetProtocol::new(vec![0; MTU]).unwrap();
    proto.receive(&bytes[..req.wire_size()]);
    let n = proto.respond(params, req.wire_size(), NODE, 42)?;
    Ok(proto.buffer()[..n].to_vec())
}

fn store_with_read_only_u32() -> Params {
    let mut params = Params::new();
    let p = Parameter::new_with_value(
        ParameterId::new(10),
        ParameterFlags::new_read_only(),
        ParameterValue::U32(7),
    );
    params.add(p, 0).unwrap();
    params
}

#[test]
fn todo() {
    assert_eq!(GetSetProtocol::new(vec![0; MTU - 1]).err(), Some(Error::Capacity));
    let proto = GetSetProtocol::new(vec![3; MTU]).unwrap();
    assert_eq!(proto.buffer().len(), MTU);
}

#[test]
fn list_all_reports_every_parameter() {
    let rx = vec![
        0xAB, 0xCD, 0xEF, 0xFF, 0x00, 0x00, 0x00, 0x00, 0x00, 0x00, 0x00, 0x00, 0x01, 0x00, 0x00,
        0x00, 0x00,
    ];
    let req = Request::parse(&GetSetFrame::new_checked(rx.clone()).unwrap()).unwrap();
    assert_eq!(req, Request::new(0, 0, GetSetOp::ListAll, GetSetPayloadType::Empty));

    let mut params = store_with_read_only_u32();
    let mut proto = GetSetProtocol::new(vec![0; MTU]).unwrap();
    proto.receive(&rx);
    assert_eq!(proto.process_buffer(rx.len()), Ok(GetSetOp::ListAll));
    let n = proto.respond(&mut params, rx.len(), NODE, 1).unwrap();
    let reply = GetSetFrame::new_checked(proto.buffer()[..n].to_vec()).unwrap();
    assert_eq!(reply.op(), GetSetOp::ListAll);
    assert_eq!(reply.payload_type(), GetSetPayloadType::ParameterListPacket);
    let list = ParameterListPacket::new_checked(reply.payload().to_vec()).unwrap();
    assert_eq!(list.count(), 1);
    // id 10, flags 0x01, type 5, value 7
    assert_eq!(&reply.payload()[9..22], &[10, 0, 0, 0, 1, 0, 0, 0, 5, 7, 0, 0, 0]);
    let p = list.parameter_at(0).unwrap();
    assert_eq!(p.id(), ParameterId::new(10));
    assert_eq!(p.value(), ParameterValue::U32(7));
}

#[test]
fn get_unknown_id_gives_empty_list() {
    let mut params = Params::new();
    let mut req = Request::new(0, 0, GetSetOp::Get, GetSetPayloadType::ParameterIdListPacket);
    req.push_id(ParameterId::new(0xCAFEBABE)).unwrap();
    let reply = serve(&mut params, &req).unwrap();
    let resp = Response::parse(&GetSetFrame::new_checked(reply.clone()).unwrap()).unwrap();
    assert_eq!(resp.op(), GetSetOp::Get);
    assert_eq!(resp.parameters().len(), 0);
    assert_eq!(reply[17], 0);
    assert_eq!(reply.len(), 18);
}

#[test]
fn get_known_ids_in_request_order() {
    let mut params = store_with_read_only_u32();
    let q = Parameter::new_with_value(ParameterId::new(11), ParameterFlags(0), ParameterValue::Bool(true));
    params.add(q, 5).unwrap();
    let mut req = Request::new(0, 0, GetSetOp::Get, GetSetPayloadType::ParameterIdListPacket);
    req.push_id(ParameterId::new(11)).unwrap();
    req.push_id(ParameterId::new(12)).unwrap();
    req.push_id(ParameterId::new(10)).unwrap();
    let reply = serve(&mut params, &req).unwrap();
    let resp = Response::parse(&GetSetFrame::new_checked(reply).unwrap()).unwrap();
    let ids: Vec<u32> = resp.parameters().iter().map(|p| p.id().0).collect();
    assert_eq!(ids, vec![11, 10]);
    assert_eq!(resp.parameters()[0].local_time_ms(), 5);
}

#[test]
fn set_read_only_is_left_out() {
    let mut params = store_with_read_only_u32();
    let mut req = Request::new(0, 0, GetSetOp::SetParams, GetSetPayloadType::ParameterListPacket);
    req.push_parameter(Parameter::new_with_value(
        ParameterId::new(10),
        ParameterFlags(0),
        ParameterValue::U32(99),
    ))
    .unwrap();
    let reply = serve(&mut params, &req).unwrap();
    let resp = Response::parse(&GetSetFrame::new_checked(reply).unwrap()).unwrap();
    assert_eq!(resp.op(), GetSetOp::SetParams);
    assert_eq!(resp.parameters().len(), 0);
    assert_eq!(params.get_value(ParameterId::new(10)), Some(ParameterValue::U32(7)));
}

#[test]
fn set_type_mismatch_is_left_out() {
    let mut params = Params::new();
    params
        .add(
            Parameter::new_with_value(ParameterId::new(10), ParameterFlags(0), ParameterValue::U32(7)),
            0,
        )
        .unwrap();
    assert_eq!(
        params.set(ParameterId::new(10), ParameterValue::Bool(true), false, 0),
        Err(Error::ParamsError(params::Error::ValueTypeMismatch))
    );
    let mut req = Request::new(0, 0, GetSetOp::SetParams, GetSetPayloadType::ParameterListPacket);
    req.push_parameter(Parameter::new_with_value(
        ParameterId::new(10),
        ParameterFlags(0),
        ParameterValue::Bool(true),
    ))
    .unwrap();
    let reply = serve(&mut params, &req).unwrap();
    let resp = Response::parse(&GetSetFrame::new_checked(reply).unwrap()).unwrap();
    assert_eq!(resp.parameters().len(), 0);
    assert_eq!(params.get_value(ParameterId::new(10)), Some(ParameterValue::U32(7)));
}

#[test]
fn set_applies_in_request_order() {
    let mut params = Params::new();
    params
        .add(
            Parameter::new_with_value(ParameterId::new(3), ParameterFlags(0), ParameterValue::I32(0)),
            0,
        )
        .unwrap();
    let mut req = Request::new(0, 0, GetSetOp::SetParams, GetSetPayloadType::ParameterListPacket);
    for v in [1, 2].iter() {
        req.push_parameter(Parameter::new_with_value(
            ParameterId::new(3),
            ParameterFlags(0),
            ParameterValue::I32(*v),
        ))
        .unwrap();
    }
    let reply = serve(&mut params, &req).unwrap();
    assert_eq!(params.get_value(ParameterId::new(3)), Some(ParameterValue::I32(2)));
    let resp = Response::parse(&GetSetFrame::new_checked(reply).unwrap()).unwrap();
    let values: Vec<ParameterValue> = resp.parameters().iter().map(|p| p.value()).collect();
    assert_eq!(values, vec![ParameterValue::I32(1), ParameterValue::I32(2)]);
    assert_eq!(resp.parameters()[1].local_time_ms(), 42);
}

#[test]
fn broadcast_carries_flagged_in_store_order() {
    let mut params = Params::new();
    let bcast = ParameterFlags::new_broadcast();
    let ids_and_flags = [(1, ParameterFlags(0)), (2, bcast), (3, ParameterFlags(0)), (4, bcast), (5, ParameterFlags(0))];
    for (id, flags) in ids_and_flags.iter() {
        params
            .add(Parameter::new_with_value(ParameterId::new(*id), *flags, ParameterValue::U8(*id as u8)), 0)
            .unwrap();
    }
    let mut frame = GetSetFrame::new_unchecked(vec![0; MTU]);
    let n = emit_broadcast(&params, &mut frame, NODE).unwrap();
    let bytes = frame.into_inner();
    let f = GetSetFrame::new_checked(bytes[..n].to_vec()).unwrap();
    assert_eq!(f.payload_type(), GetSetPayloadType::ParameterListPacket);
    assert_eq!(f.node_id(), NODE);
    let resp = Response::parse(&f).unwrap();
    let ids: Vec<u32> = resp.parameters().iter().map(|p| p.id().0).collect();
    assert_eq!(ids, vec![2, 4]);

    let empty = Params::new();
    let mut frame = GetSetFrame::new_unchecked(vec![9; 20]);
    assert_eq!(emit_broadcast(&empty, &mut frame, NODE), Ok(0));
    assert_eq!(frame.into_inner(), vec![9; 20]);
}

#[test]
fn malformed_frame_gets_empty_reply() {
    let mut params = store_with_read_only_u32();
    // A Get request that carries a parameter list.
    let mut rx = vec![0u8; 18];
    rx[..4].copy_from_slice(&[0xAB, 0xCD, 0xEF, 0xFF]);
    rx[12] = 1;
    rx[13] = 1;
    rx[14] = 2;
    rx[15] = 1;
    let mut proto = GetSetProtocol::new(vec![0xEE; MTU]).unwrap();
    proto.receive(&rx);
    assert_eq!(proto.process_buffer(rx.len()), Err(Error::ProtocolMalformed(GetSetOp::Get)));
    let n = proto.respond(&mut params, rx.len(), NODE, 9).unwrap();
    assert_eq!(n, 17);
    let f = GetSetFrame::new_checked(proto.buffer()[..n].to_vec()).unwrap();
    assert_eq!(f.op(), GetSetOp::Get);
    assert_eq!(f.payload_type(), GetSetPayloadType::Empty);
    assert_eq!(f.payload_size(), 0);
    assert_eq!(f.node_id(), NODE);
    assert_eq!(params.get_value(ParameterId::new(10)), Some(ParameterValue::U32(7)));
}

#[test]
fn invalid_frames_get_no_reply() {
    let mut params = Params::new();
    let mut proto = GetSetProtocol::new(vec![0; MTU]).unwrap();
    proto.receive(&[0xAB, 0xCD, 0xEF]);
    assert_eq!(
        proto.respond(&mut params, 3, NODE, 0),
        Err(Error::ParamsError(params::Error::WireTruncated))
    );
    let mut rx = vec![0u8; 17];
    rx[0] = 0xAA;
    proto.receive(&rx);
    assert_eq!(
        proto.respond(&mut params, 17, NODE, 0),
        Err(Error::ParamsError(params::Error::WirePreamble))
    );
}
