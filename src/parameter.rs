use vstd::prelude::*;
use crate::error::Error;
use crate::flags::Flags;
use crate::id::Id;
use crate::value::Value;
use crate::wire::parameter::{Packet, HEADER_LEN};

verus! {

/// A typed, flagged parameter with the time of its last local change.
#[derive(Copy, Clone, PartialEq, Eq, Structural, Debug, Hash)]
pub struct Parameter {
    pub local_time_ms: u64,
    pub id: Id,
    pub flags: Flags,
    pub value: Value,
}

impl Parameter {
    /// Bytes this parameter's record takes on the wire.
    pub open spec fn spec_wire_size(self) -> nat {
        (HEADER_LEN + self.value.spec_type_id().spec_wire_size()) as nat
    }

    pub fn new(id: Id, flags: Flags) -> (r: Self)
        ensures
            r == (Parameter { local_time_ms: 0, id, flags, value: Value::Empty }),
    {
        Parameter { local_time_ms: 0, id, flags, value: Value::Empty }
    }

    pub fn new_with_value(id: Id, flags: Flags, value: Value) -> (r: Self)
        ensures
            r == (Parameter { local_time_ms: 0, id, flags, value }),
    {
        Parameter { local_time_ms: 0, id, flags, value }
    }

    pub fn local_time_ms(&self) -> (r: u64)
        ensures
            r == self.local_time_ms,
    {
        self.local_time_ms
    }

    pub fn set_local_time_ms(&mut self, time: u64)
        ensures
            *final(self) == (Parameter { local_time_ms: time, ..*old(self) }),
    {
        self.local_time_ms = time;
    }

    pub fn id(&self) -> (r: Id)
        ensures
            r == self.id,
    {
        self.id
    }

    pub fn flags(&self) -> (r: Flags)
        ensures
            r == self.flags,
    {
        self.flags
    }

    pub fn value(&self) -> (r: Value)
        ensures
            r == self.value,
    {
        self.value
    }

    /// Replaces the value, which must keep its variant.
    pub fn set_value(&mut self, value: Value) -> (r: Result<(), Error>)
        ensures
            old(self).value.spec_type_id() == value.spec_type_id() ==> r is Ok && *final(self)
                == (Parameter { value, ..*old(self) }),
            old(self).value.spec_type_id() != value.spec_type_id() ==> r == Err::<(), Error>(
                Error::ValueTypeMismatch,
            ) && *final(self) == *old(self),
    {
        if self.value.type_id() != value.type_id() {
            Err(Error::ValueTypeMismatch)
        } else {
            self.value = value;
            Ok(())
        }
    }

    /// Bytes this parameter's record takes on the wire.
    pub fn wire_size(&self) -> (r: usize)
        ensures
            r == self.spec_wire_size(),
            r <= HEADER_LEN + 8,
    {
        Packet::buffer_len(self.value.type_id().wire_size())
    }

    /// Reads the record at the start of `frame`.
    pub fn parse(frame: &Packet) -> (r: Result<Self, Error>)
        ensures
            r == crate::wire::parameter::read_record_spec(frame@, 0),
    {
        crate::wire::parameter::read_record(frame.as_slice(), 0)
    }

    /// Writes this parameter as the record at the start of `frame`.
    pub fn emit(&self, frame: &mut Packet)
        requires
            self.spec_wire_size() <= old(frame)@.len(),
        ensures
            final(frame)@ == crate::wire::bytes::splice(
                old(frame)@,
                0,
                crate::wire::parameter::record_bytes(*self),
            ),
    {
        crate::wire::parameter::write_record(&mut frame.buffer, 0, *self);
    }
}

} // verus!
