//! What a field type is on the wire: its class, wire type, tag and canonical name.

use vstd::prelude::*;
use crate::model::{Field, FieldType, FieldView, MessageIndex, TypeView};

verus! {

impl TypeView {
    /// Whether the type is still an unresolved name.
    pub open spec fn is_unresolved(self) -> bool {
        self is MessageOrEnum
    }

    /// Whether the type, or the key or value of a map type, is still an
    /// unresolved name.
    pub open spec fn has_unresolved(self) -> bool {
        match self {
            TypeView::MessageOrEnum(_) => true,
            TypeView::Map_(k, v) => k.is_unresolved() || v.is_unresolved(),
            _ => false,
        }
    }

    /// Primitive types are all but messages, maps, strings and bytes.
    pub open spec fn is_primitive(self) -> bool {
        !(self is Message || self is Map_ || self is StringCow || self is BytesCow
            || self is String_ || self is Bytes_)
    }

    /// Whether the type borrows its bytes, itself or as key or value of a map.
    pub open spec fn has_cow(self) -> bool
        decreases self,
    {
        match self {
            TypeView::BytesCow | TypeView::StringCow => true,
            TypeView::Map_(k, v) => k.has_cow() || v.has_cow(),
            _ => false,
        }
    }

    /// Owned strings and owned bytes.
    pub open spec fn has_bytes_and_string(self) -> bool {
        self is Bytes_ || self is String_
    }

    /// Wire type of a single, unpacked value: 0 varint, 1 64-bit, 2
    /// length-delimited, 5 32-bit. An unresolved name has none.
    pub open spec fn wire_type(self) -> u32
        recommends
            !self.is_unresolved(),
    {
        match self {
            TypeView::Int32
            | TypeView::Sint32
            | TypeView::Int64
            | TypeView::Sint64
            | TypeView::Uint32
            | TypeView::Uint64
            | TypeView::Bool
            | TypeView::Enum(_) => 0,
            TypeView::Fixed64 | TypeView::Sfixed64 | TypeView::Double => 1,
            TypeView::StringCow
            | TypeView::BytesCow
            | TypeView::String_
            | TypeView::Bytes_
            | TypeView::Message(_)
            | TypeView::Map_(_, _) => 2,
            TypeView::Fixed32 | TypeView::Sfixed32 | TypeView::Float => 5,
            TypeView::MessageOrEnum(_) => 0,
        }
    }

    /// Wire type of a field of this type: length-delimited whenever packed.
    pub open spec fn wire_type_packed(self, packed: bool) -> u32 {
        if packed {
            2
        } else {
            self.wire_type()
        }
    }

    /// Types of a fixed width: the 64-bit and 32-bit wire types.
    pub open spec fn is_fixed_size(self) -> bool {
        self.wire_type() == 1 || self.wire_type() == 5
    }

    /// The message that a message type refers to.
    pub open spec fn message(self) -> Option<Seq<usize>> {
        match self {
            TypeView::Message(m) => Some(m),
            _ => None,
        }
    }

    /// Name of the type in the schema language.
    pub open spec fn proto_type(self) -> Seq<char>
        recommends
            !self.is_unresolved(),
    {
        match self {
            TypeView::Int32 => "int32"@,
            TypeView::Sint32 => "sint32"@,
            TypeView::Int64 => "int64"@,
            TypeView::Sint64 => "sint64"@,
            TypeView::Uint32 => "uint32"@,
            TypeView::Uint64 => "uint64"@,
            TypeView::Bool => "bool"@,
            TypeView::Enum(_) => "enum"@,
            TypeView::Fixed32 => "fixed32"@,
            TypeView::Sfixed32 => "sfixed32"@,
            TypeView::Float => "float"@,
            TypeView::Fixed64 => "fixed64"@,
            TypeView::Sfixed64 => "sfixed64"@,
            TypeView::Double => "double"@,
            TypeView::String_ => "string"@,
            TypeView::Bytes_ => "bytes"@,
            TypeView::StringCow => "string"@,
            TypeView::BytesCow => "bytes"@,
            TypeView::Message(_) => "message"@,
            TypeView::Map_(_, _) => "map"@,
            TypeView::MessageOrEnum(_) => ""@,
        }
    }
}

/// The 32 bits of a field number, read as an unsigned integer.
pub open spec fn number_bits(number: i32) -> u32 {
    if number >= 0 {
        number as u32
    } else {
        (number + 0x1_0000_0000) as u32
    }
}

/// The tag that precedes a field on the wire: the field number above the
/// three bits of the wire type.
pub open spec fn tag_of(number: u32, typ: TypeView, packed: bool) -> u32 {
    (number << 3) | typ.wire_type_packed(packed)
}

impl FieldView {
    /// The packed setting of the field: unset counts as not packed.
    pub open spec fn is_packed(self) -> bool {
        match self.packed {
            Some(p) => p,
            None => false,
        }
    }

    /// The tag of the field.
    pub open spec fn tag(self) -> u32 {
        tag_of(number_bits(self.number), self.typ, self.is_packed())
    }
}

impl FieldType {
    /// Whether the type is a map.
    pub fn is_map(&self) -> (r: bool)
        ensures
            r == (self@ is Map_),
    {
        matches!(*self, FieldType::Map_(_, _))
    }

    /// Whether the type is primitive: not a message, map, string or bytes.
    pub fn is_primitive(&self) -> (r: bool)
        ensures
            r == self@.is_primitive(),
    {
        !matches!(
            *self,
            FieldType::Message(_)
                | FieldType::Map_(_, _)
                | FieldType::StringCow
                | FieldType::BytesCow
                | FieldType::String_
                | FieldType::Bytes_
        )
    }

    /// Whether the type borrows its bytes, itself or as key or value of a map.
    pub fn has_cow(&self) -> (r: bool)
        ensures
            r == self@.has_cow(),
        decreases self,
    {
        match self {
            FieldType::BytesCow | FieldType::StringCow => true,
            FieldType::Map_(k, v) => k.has_cow() || v.has_cow(),
            _ => false,
        }
    }

    /// Whether the type is an owned string or owned bytes.
    pub fn has_bytes_and_string(&self) -> (r: bool)
        ensures
            r == self@.has_bytes_and_string(),
    {
        matches!(*self, FieldType::Bytes_ | FieldType::String_)
    }

    /// Wire type of a field of this type, packed or not.
    pub fn wire_type_num(&self, packed: bool) -> (r: u32)
        requires
            !self@.is_unresolved(),
        ensures
            r == self@.wire_type_packed(packed),
            r == 0 || r == 1 || r == 2 || r == 5,
    {
        if packed {
            2
        } else {
            self.wire_type_num_non_packed()
        }
    }

    /// Wire type of a single, unpacked value of this type.
    pub fn wire_type_num_non_packed(&self) -> (r: u32)
        requires
            !self@.is_unresolved(),
        ensures
            r == self@.wire_type(),
            r == 0 || r == 1 || r == 2 || r == 5,
    {
        match *self {
            FieldType::Int32
            | FieldType::Sint32
            | FieldType::Int64
            | FieldType::Sint64
            | FieldType::Uint32
            | FieldType::Uint64
            | FieldType::Bool
            | FieldType::Enum(_) => 0,
            FieldType::Fixed64 | FieldType::Sfixed64 | FieldType::Double => 1,
            FieldType::StringCow
            | FieldType::BytesCow
            | FieldType::String_
            | FieldType::Bytes_
            | FieldType::Message(_)
            | FieldType::Map_(_, _) => 2,
            FieldType::Fixed32 | FieldType::Sfixed32 | FieldType::Float => 5,
            FieldType::MessageOrEnum(_) => 0,
        }
    }

    /// Name of the type in the schema language.
    pub fn proto_type(&self) -> (r: &'static str)
        requires
            !self@.is_unresolved(),
        ensures
            r@ == self@.proto_type(),
    {
        match *self {
            FieldType::Int32 => "int32",
            FieldType::Sint32 => "sint32",
            FieldType::Int64 => "int64",
            FieldType::Sint64 => "sint64",
            FieldType::Uint32 => "uint32",
            FieldType::Uint64 => "uint64",
            FieldType::Bool => "bool",
            FieldType::Enum(_) => "enum",
            FieldType::Fixed32 => "fixed32",
            FieldType::Sfixed32 => "sfixed32",
            FieldType::Float => "float",
            FieldType::Fixed64 => "fixed64",
            FieldType::Sfixed64 => "sfixed64",
            FieldType::Double => "double",
            FieldType::String_ => "string",
            FieldType::Bytes_ => "bytes",
            FieldType::StringCow => "string",
            FieldType::BytesCow => "bytes",
            FieldType::Message(_) => "message",
            FieldType::Map_(_, _) => "map",
            FieldType::MessageOrEnum(_) => "",
        }
    }

    /// Whether the type has a fixed width on the wire.
    pub fn is_fixed_size(&self) -> (r: bool)
        requires
            !self@.is_unresolved(),
        ensures
            r == self@.is_fixed_size(),
    {
        let w = self.wire_type_num_non_packed();
        w == 1 || w == 5
    }

    /// The message that a message type refers to.
    pub fn message(&self) -> (r: Option<&MessageIndex>)
        ensures
            r is Some <==> self@ is Message,
            r is Some ==> Some(r->0@) == self@.message(),
    {
        if let FieldType::Message(ref m) = self {
            Some(m)
        } else {
            None
        }
    }

    /// Whether two types are the same.
    pub fn same(&self, other: &FieldType) -> (r: bool)
        ensures
            r == (self@ == other@),
        decreases self,
    {
        match (self, other) {
            (FieldType::Int32, FieldType::Int32) => true,
            (FieldType::Int64, FieldType::Int64) => true,
            (FieldType::Uint32, FieldType::Uint32) => true,
            (FieldType::Uint64, FieldType::Uint64) => true,
            (FieldType::Sint32, FieldType::Sint32) => true,
            (FieldType::Sint64, FieldType::Sint64) => true,
            (FieldType::Bool, FieldType::Bool) => true,
            (FieldType::Enum(a), FieldType::Enum(b)) => a.same(b),
            (FieldType::Fixed64, FieldType::Fixed64) => true,
            (FieldType::Sfixed64, FieldType::Sfixed64) => true,
            (FieldType::Double, FieldType::Double) => true,
            (FieldType::StringCow, FieldType::StringCow) => true,
            (FieldType::BytesCow, FieldType::BytesCow) => true,
            (FieldType::String_, FieldType::String_) => true,
            (FieldType::Bytes_, FieldType::Bytes_) => true,
            (FieldType::Message(a), FieldType::Message(b)) => a.same(b),
            (FieldType::MessageOrEnum(a), FieldType::MessageOrEnum(b)) => *a == *b,
            (FieldType::Fixed32, FieldType::Fixed32) => true,
            (FieldType::Sfixed32, FieldType::Sfixed32) => true,
            (FieldType::Float, FieldType::Float) => true,
            (FieldType::Map_(k1, v1), FieldType::Map_(k2, v2)) => k1.same(k2) && v1.same(v2),
            _ => false,
        }
    }
}

/// Calculates the tag value.
pub fn tag(number: u32, typ: &FieldType, packed: bool) -> (r: u32)
    requires
        !typ@.is_unresolved(),
    ensures
        r == tag_of(number, typ@, packed),
{
    number << 3 | typ.wire_type_num(packed)
}

/// For a field number below 2^29 the tag is eight times the number plus the
/// wire type.
pub proof fn lemma_tag_arithmetic(number: u32, typ: TypeView, packed: bool)
    requires
        number < 0x2000_0000,
    ensures
        tag_of(number, typ, packed) == 8 * number + typ.wire_type_packed(packed),
        tag_of(number, typ, packed) & 7 == typ.wire_type_packed(packed),
        tag_of(number, typ, packed) >> 3 == number,
{
    let w = typ.wire_type_packed(packed);
    assert(w < 8);
    assert(number < 0x2000_0000 && w < 8 ==> ((number << 3) | w) == 8 * number + w) by (bit_vector);
    assert(number < 0x2000_0000 && w < 8 ==> ((number << 3) | w) & 7 == w) by (bit_vector);
    assert(number < 0x2000_0000 && w < 8 ==> ((number << 3) | w) >> 3 == number) by (bit_vector);
}

impl Field {
    /// The packed setting of the field: unset counts as not packed.
    pub fn packed(&self) -> (r: bool)
        ensures
            r == self@.is_packed(),
    {
        match self.packed {
            Some(p) => p,
            None => false,
        }
    }

    /// The tag of the field.
    pub fn tag(&self) -> (r: u32)
        requires
            !self@.typ.is_unresolved(),
        ensures
            r == self@.tag(),
    {
        let bits: u32 = if self.number >= 0 {
            self.number as u32
        } else {
            (self.number as i64 + 0x1_0000_0000) as u32
        };
        tag(bits, &self.typ, self.packed())
    }
}

} // verus!
