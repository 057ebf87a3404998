use vstd::prelude::*;
use vstd::string::StrSliceExecFns;

verus! {

/// A parameter's value: a tagged union of the wire types.
///
/// `F32` holds the IEEE 754 bit pattern of a 32-bit float, which is also
/// what goes on the wire.
#[derive(Copy, Clone, PartialEq, Eq, Structural, Debug, Hash)]
pub enum Value {
    Empty,
    Notification,
    Bool(bool),
    U8(u8),
    I8(i8),
    U32(u32),
    I32(i32),
    U64(u64),
    I64(i64),
    F32(u32),
}

/// The type tag of a value.
#[derive(Copy, Clone, PartialEq, Eq, Structural, Debug, Hash)]
pub enum TypeId {
    Empty,
    Notification,
    Bool,
    U8,
    I8,
    U32,
    I32,
    U64,
    I64,
    F32,
}

impl Default for Value {
    fn default() -> (r: Self)
        ensures
            r == Value::Empty,
    {
        Value::Empty
    }
}

impl Value {
    pub open spec fn spec_type_id(self) -> TypeId {
        match self {
            Value::Empty => TypeId::Empty,
            Value::Notification => TypeId::Notification,
            Value::Bool(_) => TypeId::Bool,
            Value::U8(_) => TypeId::U8,
            Value::I8(_) => TypeId::I8,
            Value::U32(_) => TypeId::U32,
            Value::I32(_) => TypeId::I32,
            Value::U64(_) => TypeId::U64,
            Value::I64(_) => TypeId::I64,
            Value::F32(_) => TypeId::F32,
        }
    }

    pub fn type_id(&self) -> (r: TypeId)
        ensures
            r == self.spec_type_id(),
    {
        match self {
            Value::Empty => TypeId::Empty,
            Value::Notification => TypeId::Notification,
            Value::Bool(_) => TypeId::Bool,
            Value::U8(_) => TypeId::U8,
            Value::I8(_) => TypeId::I8,
            Value::U32(_) => TypeId::U32,
            Value::I32(_) => TypeId::I32,
            Value::U64(_) => TypeId::U64,
            Value::I64(_) => TypeId::I64,
            Value::F32(_) => TypeId::F32,
        }
    }

    pub fn as_bool(&self) -> (r: bool)
        requires
            self is Bool,
        ensures
            r == self->Bool_0,
    {
        match self {
            Value::Bool(v) => *v,
            _ => false,
        }
    }

    pub fn as_u8(&self) -> (r: u8)
        requires
            self is U8,
        ensures
            r == self->U8_0,
    {
        match self {
            Value::U8(v) => *v,
            _ => 0,
        }
    }

    pub fn as_i8(&self) -> (r: i8)
        requires
            self is I8,
        ensures
            r == self->I8_0,
    {
        match self {
            Value::I8(v) => *v,
            _ => 0,
        }
    }

    pub fn as_u32(&self) -> (r: u32)
        requires
            self is U32,
        ensures
            r == self->U32_0,
    {
        match self {
            Value::U32(v) => *v,
            _ => 0,
        }
    }

    pub fn as_i32(&self) -> (r: i32)
        requires
            self is I32,
        ensures
            r == self->I32_0,
    {
        match self {
            Value::I32(v) => *v,
            _ => 0,
        }
    }

    pub fn as_u64(&self) -> (r: u64)
        requires
            self is U64,
        ensures
            r == self->U64_0,
    {
        match self {
            Value::U64(v) => *v,
            _ => 0,
        }
    }

    pub fn as_i64(&self) -> (r: i64)
        requires
            self is I64,
        ensures
            r == self->I64_0,
    {
        match self {
            Value::I64(v) => *v,
            _ => 0,
        }
    }

    /// The bit pattern of an `F32` value.
    pub fn as_f32_bits(&self) -> (r: u32)
        requires
            self is F32,
        ensures
            r == self->F32_0,
    {
        match self {
            Value::F32(v) => *v,
            _ => 0,
        }
    }
}

/// The type that a name stands for, in either of its spellings.
pub open spec fn type_id_from_name(s: Seq<char>) -> Result<TypeId, crate::Error> {
    if s == "None"@ || s == "none"@ {
        Ok(TypeId::Empty)
    } else if s == "Notification"@ || s == "notif"@ {
        Ok(TypeId::Notification)
    } else if s == "Bool"@ || s == "bool"@ {
        Ok(TypeId::Bool)
    } else if s == "U8"@ || s == "u8"@ {
        Ok(TypeId::U8)
    } else if s == "I8"@ || s == "i8"@ {
        Ok(TypeId::I8)
    } else if s == "U32"@ || s == "u32"@ {
        Ok(TypeId::U32)
    } else if s == "I32"@ || s == "i32"@ {
        Ok(TypeId::I32)
    } else if s == "U64"@ || s == "u64"@ {
        Ok(TypeId::U64)
    } else if s == "I64"@ || s == "i64"@ {
        Ok(TypeId::I64)
    } else if s == "F32"@ || s == "f32"@ {
        Ok(TypeId::F32)
    } else {
        Err(crate::Error::ParseValue)
    }
}

/// Whether two strings hold the same characters.
pub fn str_eq(a: &str, b: &str) -> (r: bool)
    ensures
        r == (a@ == b@),
{
    let n = a.unicode_len();
    if n != b.unicode_len() {
        return false;
    }
    let mut i: usize = 0;
    while i < n
        invariant
            i <= n,
            n == a@.len(),
            n == b@.len(),
            forall|k: int| 0 <= k < i ==> a@[k] == b@[k],
        decreases n - i,
    {
        if a.get_char(i) != b.get_char(i) {
            return false;
        }
        i = i + 1;
    }
    assert(a@ =~= b@);
    true
}

impl core::str::FromStr for TypeId {
    type Err = crate::Error;

    fn from_str(s: &str) -> (r: Result<TypeId, crate::Error>) {
        TypeId::from_name(s)
    }
}

impl TypeId {
    pub open spec fn spec_as_u8(self) -> u8 {
        match self {
            TypeId::Empty => 0,
            TypeId::Notification => 1,
            TypeId::Bool => 2,
            TypeId::U8 => 3,
            TypeId::I8 => 4,
            TypeId::U32 => 5,
            TypeId::I32 => 6,
            TypeId::U64 => 7,
            TypeId::I64 => 8,
            TypeId::F32 => 9,
        }
    }

    /// Lenient decoding: an unknown tag reads as `None`.
    pub open spec fn spec_from_u8(v: u8) -> TypeId {
        if v == 1 {
            TypeId::Notification
        } else if v == 2 {
            TypeId::Bool
        } else if v == 3 {
            TypeId::U8
        } else if v == 4 {
            TypeId::I8
        } else if v == 5 {
            TypeId::U32
        } else if v == 6 {
            TypeId::I32
        } else if v == 7 {
            TypeId::U64
        } else if v == 8 {
            TypeId::I64
        } else if v == 9 {
            TypeId::F32
        } else {
            TypeId::Empty
        }
    }

    /// Size of the value field on the wire.
    pub open spec fn spec_wire_size(self) -> nat {
        match self {
            TypeId::Empty => 0,
            TypeId::Notification => 0,
            TypeId::Bool => 1,
            TypeId::U8 => 1,
            TypeId::I8 => 1,
            TypeId::U32 => 4,
            TypeId::I32 => 4,
            TypeId::U64 => 8,
            TypeId::I64 => 8,
            TypeId::F32 => 4,
        }
    }

    pub fn as_u8(&self) -> (r: u8)
        ensures
            r == self.spec_as_u8(),
    {
        match self {
            TypeId::Empty => 0,
            TypeId::Notification => 1,
            TypeId::Bool => 2,
            TypeId::U8 => 3,
            TypeId::I8 => 4,
            TypeId::U32 => 5,
            TypeId::I32 => 6,
            TypeId::U64 => 7,
            TypeId::I64 => 8,
            TypeId::F32 => 9,
        }
    }

    pub fn from_u8(v: u8) -> (r: TypeId)
        ensures
            r == TypeId::spec_from_u8(v),
    {
        match v {
            1 => TypeId::Notification,
            2 => TypeId::Bool,
            3 => TypeId::U8,
            4 => TypeId::I8,
            5 => TypeId::U32,
            6 => TypeId::I32,
            7 => TypeId::U64,
            8 => TypeId::I64,
            9 => TypeId::F32,
            _ => TypeId::Empty,
        }
    }

    /// Size of the value field on the wire.
    pub fn wire_size(&self) -> (r: usize)
        ensures
            r == self.spec_wire_size(),
            r <= 8,
    {
        match self {
            TypeId::Empty => 0,
            TypeId::Notification => 0,
            TypeId::Bool => 1,
            TypeId::U8 => 1,
            TypeId::I8 => 1,
            TypeId::U32 => 4,
            TypeId::I32 => 4,
            TypeId::U64 => 8,
            TypeId::I64 => 8,
            TypeId::F32 => 4,
        }
    }

    /// Reads a type name in either of its spellings, such as `"U32"` or
    /// `"u32"`; `"notif"` is the short spelling of `"Notification"`.
    pub fn from_name(s: &str) -> (r: Result<TypeId, crate::Error>)
        ensures
            r == type_id_from_name(s@),
    {
        if str_eq(s, "None") || str_eq(s, "none") {
            Ok(TypeId::Empty)
        } else if str_eq(s, "Notification") || str_eq(s, "notif") {
            Ok(TypeId::Notification)
        } else if str_eq(s, "Bool") || str_eq(s, "bool") {
            Ok(TypeId::Bool)
        } else if str_eq(s, "U8") || str_eq(s, "u8") {
            Ok(TypeId::U8)
        } else if str_eq(s, "I8") || str_eq(s, "i8") {
            Ok(TypeId::I8)
        } else if str_eq(s, "U32") || str_eq(s, "u32") {
            Ok(TypeId::U32)
        } else if str_eq(s, "I32") || str_eq(s, "i32") {
            Ok(TypeId::I32)
        } else if str_eq(s, "U64") || str_eq(s, "u64") {
            Ok(TypeId::U64)
        } else if str_eq(s, "I64") || str_eq(s, "i64") {
            Ok(TypeId::I64)
        } else if str_eq(s, "F32") || str_eq(s, "f32") {
            Ok(TypeId::F32)
        } else {
            Err(crate::Error::ParseValue)
        }
    }

    pub proof fn lemma_u8_round_trip(self)
        ensures
            TypeId::spec_from_u8(self.spec_as_u8()) == self,
    {
    }
}

} // verus!
