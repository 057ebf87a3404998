//! Parameter get/set protocol: wire codec, request/response messages,
//! the node-side parameter store and its event queue.

pub use crate::error::Error;
pub use crate::flags::Flags as ParameterFlags;
pub use crate::getset::{
    Flags as GetSetFlags, NodeId as GetSetNodeId, Op as GetSetOp,
    PayloadType as GetSetPayloadType, Version as GetSetVersion, MAX_PARAMS_PER_OP,
    NODE_ID_ANONYMOUS, PREAMBLE_WORD,
};
pub use crate::id::Id as ParameterId;
pub use crate::parameter::Parameter;
pub use crate::ref_response::RefResponse;
pub use crate::request::Request;
pub use crate::response::Response;
pub use crate::wire::getset::Frame as GetSetFrame;
pub use crate::wire::parameter_id_list::Packet as ParameterIdListPacket;
pub use crate::wire::parameter_list::Packet as ParameterListPacket;
pub use crate::wire::parameter::Packet as ParameterPacket;
pub use crate::value::{TypeId as ParameterValueTypeId, Value as ParameterValue};

pub mod bounded;
pub mod error;
pub mod flags;
pub mod getset;
pub mod id;
pub mod node;
pub mod parameter;
pub mod ref_response;
pub mod request;
pub mod response;
pub mod value;
pub mod wire;
