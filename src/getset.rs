use vstd::prelude::*;

verus! {

/// Largest number of ids or parameters that one message carries.
pub const MAX_PARAMS_PER_OP: usize = 64;

/// Frame preamble; on the wire it reads `AB CD EF FF`.
pub const PREAMBLE_WORD: u32 = 0xFF_EF_CD_AB;

/// Node id of a sender that does not identify itself.
pub const NODE_ID_ANONYMOUS: NodeId = 0;

/// Protocol version written into every frame.
pub const VERSION: Version = 1;

pub type NodeId = u32;

pub type Flags = u32;

pub type Version = u8;

/// Operation carried by a frame.
#[derive(Copy, Clone, PartialEq, Eq, Structural, Debug, Hash)]
pub enum Op {
    /// Request payload: none. Response payload: parameter list.
    ListAll,
    /// Request payload: id list. Response payload: parameter list.
    Get,
    /// Request payload: parameter list. Response payload: parameter list.
    SetParams,
}

impl Op {
    pub open spec fn spec_as_u8(self) -> u8 {
        match self {
            Op::ListAll => 0,
            Op::Get => 1,
            Op::SetParams => 2,
        }
    }

    /// Lenient decoding: an unknown byte reads as `ListAll`.
    pub open spec fn spec_from_u8(v: u8) -> Op {
        if v == 1 {
            Op::Get
        } else if v == 2 {
            Op::SetParams
        } else {
            Op::ListAll
        }
    }

    pub fn as_u8(&self) -> (r: u8)
        ensures
            r == self.spec_as_u8(),
    {
        match self {
            Op::ListAll => 0,
            Op::Get => 1,
            Op::SetParams => 2,
        }
    }

    pub fn from_u8(v: u8) -> (r: Op)
        ensures
            r == Op::spec_from_u8(v),
    {
        if v == 1 {
            Op::Get
        } else if v == 2 {
            Op::SetParams
        } else {
            Op::ListAll
        }
    }

    pub proof fn lemma_u8_round_trip(self)
        ensures
            Op::spec_from_u8(self.spec_as_u8()) == self,
    {
    }
}

impl Default for Op {
    fn default() -> (r: Self)
        ensures
            r == Op::ListAll,
    {
        Op::ListAll
    }
}

/// Kind of sub-packet that follows the frame header.
#[derive(Copy, Clone, PartialEq, Eq, Structural, Debug, Hash)]
pub enum PayloadType {
    Empty,
    ParameterIdListPacket,
    ParameterListPacket,
}

impl PayloadType {
    pub open spec fn spec_as_u8(self) -> u8 {
        match self {
            PayloadType::Empty => 0,
            PayloadType::ParameterIdListPacket => 1,
            PayloadType::ParameterListPacket => 2,
        }
    }

    /// Lenient decoding: an unknown byte reads as `None`.
    pub open spec fn spec_from_u8(v: u8) -> PayloadType {
        if v == 1 {
            PayloadType::ParameterIdListPacket
        } else if v == 2 {
            PayloadType::ParameterListPacket
        } else {
            PayloadType::Empty
        }
    }

    pub fn as_u8(&self) -> (r: u8)
        ensures
            r == self.spec_as_u8(),
    {
        match self {
            PayloadType::Empty => 0,
            PayloadType::ParameterIdListPacket => 1,
            PayloadType::ParameterListPacket => 2,
        }
    }

    pub fn from_u8(v: u8) -> (r: PayloadType)
        ensures
            r == PayloadType::spec_from_u8(v),
    {
        if v == 1 {
            PayloadType::ParameterIdListPacket
        } else if v == 2 {
            PayloadType::ParameterListPacket
        } else {
            PayloadType::Empty
        }
    }

    pub proof fn lemma_u8_round_trip(self)
        ensures
            PayloadType::spec_from_u8(self.spec_as_u8()) == self,
    {
    }
}

impl Default for PayloadType {
    fn default() -> (r: Self)
        ensures
            r == PayloadType::Empty,
    {
        PayloadType::Empty
    }
}

/// The payload type that a request with operation `op` must carry.
pub open spec fn request_payload_type(op: Op) -> PayloadType {
    match op {
        Op::ListAll => PayloadType::Empty,
        Op::Get => PayloadType::ParameterIdListPacket,
        Op::SetParams => PayloadType::ParameterListPacket,
    }
}

/// Whether `(op, payload_type)` is one of the three legal request pairs.
pub fn is_legal_request(op: Op, payload_type: PayloadType) -> (r: bool)
    ensures
        r == (payload_type == request_payload_type(op)),
{
    match op {
        Op::ListAll => payload_type == PayloadType::Empty,
        Op::Get => payload_type == PayloadType::ParameterIdListPacket,
        Op::SetParams => payload_type == PayloadType::ParameterListPacket,
    }
}

} // verus!
