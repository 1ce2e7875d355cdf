//! The wire-encoding plan of a field: the shape of its representation, how
//! it is read, when and how it is written, and what it costs in bytes.

use vstd::prelude::*;
use crate::errors::{Error, ErrorView};
use crate::model::{
    Config, DescView, Field, FieldType, FieldView, FileDescriptor, Frequency, Message,
    MessageView, Syntax, TypeView,
};
use crate::sizeofs::{len_delimited_size, sizeof_len, sizeof_varint, varint_len};
use crate::typetext::regular_default_text;

verus! {

/// How a single value of a type is read.
#[derive(Debug, Clone, Copy, PartialEq, Eq, Structural)]
pub enum ReadKind {
    /// A nested message, read through its length.
    Message,
    /// A string or bytes that borrow the input.
    Borrowed,
    /// A string or bytes that are copied out of the input.
    Owned,
    /// A number, a boolean or an enum.
    Scalar,
}

/// What a single value of a type costs in bytes, without its tag.
#[derive(Debug, Clone, Copy, PartialEq, Eq, Structural)]
pub enum ValueSize {
    /// The varint of the value as an unsigned 64-bit number.
    Varint,
    /// The varint of the zigzag code of a 32-bit value.
    Zigzag32,
    /// The varint of the zigzag code of a 64-bit value.
    Zigzag64,
    /// Eight bytes.
    Fixed64,
    /// Four bytes.
    Fixed32,
    /// The length of a string or of bytes, after its varint.
    Length,
    /// The size of a message, after its varint.
    MessageLength,
    /// A map entry: two tags of one byte, the key and the value.
    Entry,
    /// Nothing that can be stated: the type is a name.
    Unknown,
}

/// How a single value of a type is written.
#[derive(Debug, Clone, Copy, PartialEq, Eq, Structural)]
pub enum WriteKind {
    Enum,
    Scalar,
    Text,
    Bytes,
    Message,
    BoxedMessage,
    Entry,
}

/// The shape of the representation of a field in memory.
#[derive(Debug, Clone, Copy, PartialEq, Eq, Structural)]
pub enum Shape {
    /// A deprecated field that is not kept: it has no representation.
    Omitted,
    /// An optional value behind an indirection.
    Boxed,
    /// A value that is present or absent.
    Presence,
    /// A sequence that can borrow the input.
    BorrowedSequence,
    /// A growable sequence.
    Sequence,
    /// The bare value.
    Bare,
}

/// What the reader does with a field when it meets the tag of the field.
#[derive(Debug, Clone, Copy, PartialEq, Eq, Structural)]
pub enum ReadRule {
    /// A deprecated field that is not kept: its tag is unknown to the reader.
    Omitted,
    /// One entry of a map is read, key and value as given, and inserted.
    Entry(ReadKind, ReadKind),
    /// The value is read, boxed and stored as present.
    BoxedSome(ReadKind),
    /// The value is read and stored as present.
    Present(ReadKind),
    /// The value is read and stored.
    Assign(ReadKind),
    /// All values are read in one block of fixed-width values.
    PackedFixed,
    /// All values are read from one length-delimited block.
    Packed(ReadKind),
    /// The value is read and appended.
    Push(ReadKind),
}

/// When a field is on the wire and how often.
#[derive(Debug, Clone, Copy, PartialEq, Eq, Structural)]
pub enum WireRule {
    /// A deprecated field that is not kept: never.
    Omitted,
    /// Once if the value is present.
    IfPresent,
    /// Once unless the value equals the default that the field declares.
    UnlessDeclaredDefault,
    /// Once unless the value equals the default of the type.
    UnlessRegularDefault,
    /// Once unless the bytes are empty.
    UnlessEmpty,
    /// Once per entry of the map, each entry as a length-delimited message.
    Entries,
    /// Always once.
    Always,
    /// Unless empty, all values in one length-delimited block of values of
    /// the given width.
    PackedFixed(usize),
    /// Unless empty, all values in one length-delimited block.
    Packed,
    /// Once per value.
    Repeated,
}

impl TypeView {
    /// How a single value of the type is read. A map has no such procedure.
    pub open spec fn read_kind(self) -> Result<ReadKind, ErrorView> {
        match self {
            TypeView::Message(_) => Ok(ReadKind::Message),
            TypeView::Map_(_, _) => Err(ErrorView::ReadFnMap),
            TypeView::StringCow | TypeView::BytesCow => Ok(ReadKind::Borrowed),
            TypeView::String_ | TypeView::Bytes_ => Ok(ReadKind::Owned),
            _ => Ok(ReadKind::Scalar),
        }
    }

    /// What a single value of the type costs in bytes.
    pub open spec fn value_size(self) -> ValueSize {
        match self {
            TypeView::Int32
            | TypeView::Int64
            | TypeView::Uint32
            | TypeView::Uint64
            | TypeView::Bool
            | TypeView::Enum(_) => ValueSize::Varint,
            TypeView::Sint32 => ValueSize::Zigzag32,
            TypeView::Sint64 => ValueSize::Zigzag64,
            TypeView::Fixed64 | TypeView::Sfixed64 | TypeView::Double => ValueSize::Fixed64,
            TypeView::Fixed32 | TypeView::Sfixed32 | TypeView::Float => ValueSize::Fixed32,
            TypeView::StringCow | TypeView::BytesCow | TypeView::String_ | TypeView::Bytes_ =>
                ValueSize::Length,
            TypeView::Message(_) => ValueSize::MessageLength,
            TypeView::Map_(_, _) => ValueSize::Entry,
            TypeView::MessageOrEnum(_) => ValueSize::Unknown,
        }
    }

    /// How a single value of the type is written.
    pub open spec fn write_kind(self, boxed: bool) -> WriteKind {
        match self {
            TypeView::Enum(_) => WriteKind::Enum,
            TypeView::StringCow | TypeView::String_ => WriteKind::Text,
            TypeView::BytesCow | TypeView::Bytes_ => WriteKind::Bytes,
            TypeView::Message(_) => if boxed {
                WriteKind::BoxedMessage
            } else {
                WriteKind::Message
            },
            TypeView::Map_(_, _) => WriteKind::Entry,
            _ => WriteKind::Scalar,
        }
    }

    /// The width in bytes of a value of fixed width.
    pub open spec fn fixed_width(self) -> usize {
        if self.wire_type() == 1 {
            8
        } else {
            4
        }
    }
}

impl FieldView {
    /// Whether the field is part of the generated code: all fields but the
    /// deprecated ones, and those too if deprecated fields are kept.
    pub open spec fn is_emitted(self, config: &Config) -> bool {
        !self.deprecated || config.add_deprecated_fields
    }

    /// Whether the field is held as a value that is present or absent: an
    /// optional field that is a message, or that is of a proto2 file and
    /// declares no default.
    pub open spec fn has_presence(self, syntax: Syntax) -> bool {
        self.frequency == Frequency::Optional && ((syntax == Syntax::Proto2 && self.default
            is None) || self.typ is Message)
    }

    /// The shape of the representation of the field.
    pub open spec fn shape(self, syntax: Syntax, config: &Config) -> Shape {
        if !self.is_emitted(config) {
            Shape::Omitted
        } else if self.boxed {
            Shape::Boxed
        } else if self.has_presence(syntax) {
            Shape::Presence
        } else if self.frequency == Frequency::Repeated {
            if self.is_packed() && self.typ.is_fixed_size() && !config.dont_use_cow {
                Shape::BorrowedSequence
            } else {
                Shape::Sequence
            }
        } else {
            Shape::Bare
        }
    }

    /// What the reader does with the field, or the error of a map that is
    /// the key or the value of a map.
    pub open spec fn read_rule(self, syntax: Syntax, config: &Config) -> Result<ReadRule, ErrorView> {
        if !self.is_emitted(config) {
            Ok(ReadRule::Omitted)
        } else {
            match self.typ {
                TypeView::Map_(k, v) => match k.read_kind() {
                    Ok(key) => match v.read_kind() {
                        Ok(value) => Ok(ReadRule::Entry(key, value)),
                        Err(e) => Err(e),
                    },
                    Err(e) => Err(e),
                },
                _ => {
                    let kind = self.typ.read_kind()->Ok_0;
                    if self.boxed {
                        Ok(ReadRule::BoxedSome(kind))
                    } else if self.has_presence(syntax) {
                        Ok(ReadRule::Present(kind))
                    } else if self.frequency == Frequency::Repeated {
                        if self.is_packed() && self.typ.is_fixed_size() {
                            Ok(ReadRule::PackedFixed)
                        } else if self.is_packed() {
                            Ok(ReadRule::Packed(kind))
                        } else {
                            Ok(ReadRule::Push(kind))
                        }
                    } else {
                        Ok(ReadRule::Assign(kind))
                    }
                },
            }
        }
    }

    /// When the field is on the wire.
    pub open spec fn wire_rule(self, syntax: Syntax, config: &Config) -> WireRule {
        if !self.is_emitted(config) {
            WireRule::Omitted
        } else {
            match self.frequency {
                Frequency::Optional => if syntax == Syntax::Proto2 || self.typ is Message {
                    if self.default is None {
                        WireRule::IfPresent
                    } else {
                        WireRule::UnlessDeclaredDefault
                    }
                } else if self.typ is Bytes_ {
                    WireRule::UnlessEmpty
                } else if self.default is Some {
                    WireRule::UnlessDeclaredDefault
                } else {
                    WireRule::UnlessRegularDefault
                },
                Frequency::Required => if self.typ is Map_ {
                    WireRule::Entries
                } else {
                    WireRule::Always
                },
                Frequency::Repeated => if self.is_packed() {
                    if self.typ.is_fixed_size() {
                        WireRule::PackedFixed(self.typ.fixed_width())
                    } else {
                        WireRule::Packed
                    }
                } else {
                    WireRule::Repeated
                },
            }
        }
    }

    /// The default that the value of the field is compared with before it
    /// is written: the declared one, else that of the type.
    pub open spec fn effective_default(self, d: DescView) -> Option<Seq<char>> {
        match self.default {
            Some(own) => Some(own),
            None => regular_default_text(d, self.typ),
        }
    }

    /// The size in bytes of the tag of the field.
    pub open spec fn tag_size(self) -> nat {
        varint_len(self.tag() as nat)
    }
}

/// The sum of a list of sizes.
pub open spec fn total(sizes: Seq<usize>) -> nat
    decreases sizes.len(),
{
    if sizes.len() == 0 {
        0
    } else {
        total(sizes.drop_last()) + sizes.last() as nat
    }
}

/// The sum of a list of sizes, each wrapped as a length-delimited chunk and
/// preceded by a tag.
pub open spec fn total_entries(tag_size: nat, sizes: Seq<usize>) -> nat
    decreases sizes.len(),
{
    if sizes.len() == 0 {
        0
    } else {
        total_entries(tag_size, sizes.drop_last()) + tag_size + len_delimited_size(
            sizes.last() as nat,
        )
    }
}

/// The sum of a list of sizes, each preceded by a tag.
pub open spec fn total_tagged(tag_size: nat, sizes: Seq<usize>) -> nat
    decreases sizes.len(),
{
    if sizes.len() == 0 {
        0
    } else {
        total_tagged(tag_size, sizes.drop_last()) + tag_size + sizes.last() as nat
    }
}

/// What the entry of a map costs before it is wrapped: two tags of one
/// byte, the key and the value.
pub open spec fn entry_size(key: nat, value: nat) -> nat {
    2 + key + value
}

/// What a field costs on the wire. `sizes` holds what each value of the
/// field costs without its tag: one size for a single value, one per value
/// of a repeated field, one per entry of a map. `set` says whether a single
/// value is on the wire at all: present, not the default, not empty, as the
/// rule asks.
pub open spec fn field_cost(rule: WireRule, tag_size: nat, set: bool, sizes: Seq<usize>) -> nat {
    match rule {
        WireRule::Omitted => 0,
        WireRule::IfPresent
        | WireRule::UnlessDeclaredDefault
        | WireRule::UnlessRegularDefault
        | WireRule::UnlessEmpty => if set && sizes.len() > 0 {
            tag_size + sizes[0] as nat
        } else {
            0
        },
        WireRule::Always => if sizes.len() > 0 {
            tag_size + sizes[0] as nat
        } else {
            tag_size
        },
        WireRule::Entries => total_entries(tag_size, sizes),
        WireRule::PackedFixed(width) => if sizes.len() == 0 {
            0
        } else {
            tag_size + len_delimited_size(sizes.len() * width as nat)
        },
        WireRule::Packed => if sizes.len() == 0 {
            0
        } else {
            tag_size + len_delimited_size(total(sizes))
        },
        WireRule::Repeated => total_tagged(tag_size, sizes),
    }
}

/// Default suppression: an optional field that is no message stands on the
/// wire by its value under proto3, left out when it has the default, and by
/// its presence under proto2 when it declares no default; an optional
/// message stands by its presence; a required field always stands; a
/// repeated field without values costs nothing, as does any field that is
/// left out.
pub proof fn lemma_default_suppression(f: FieldView, config: &Config, tag_size: nat, sizes: Seq<usize>)
    requires
        f.is_emitted(config),
    ensures
        f.frequency == Frequency::Optional && !(f.typ is Message) ==> {
            let rule = f.wire_rule(Syntax::Proto3, config);
            rule == WireRule::UnlessDeclaredDefault || rule == WireRule::UnlessRegularDefault
                || rule == WireRule::UnlessEmpty
        },
        f.frequency == Frequency::Optional && f.default is None ==> f.wire_rule(
            Syntax::Proto2,
            config,
        ) == WireRule::IfPresent,
        f.frequency == Frequency::Optional && f.typ is Message && f.default is None ==> f.wire_rule(
            Syntax::Proto3,
            config,
        ) == WireRule::IfPresent,
        f.frequency == Frequency::Required ==> {
            let rule = f.wire_rule(Syntax::Proto3, config);
            (rule == WireRule::Always || rule == WireRule::Entries) && rule == f.wire_rule(
                Syntax::Proto2,
                config,
            )
        },
        f.frequency == Frequency::Repeated ==> field_cost(
            f.wire_rule(Syntax::Proto3, config),
            tag_size,
            true,
            Seq::empty(),
        ) == 0,
        f.frequency == Frequency::Optional ==> field_cost(
            f.wire_rule(Syntax::Proto3, config),
            tag_size,
            false,
            sizes,
        ) == 0,
        f.frequency == Frequency::Optional && sizes.len() > 0 ==> field_cost(
            f.wire_rule(Syntax::Proto3, config),
            tag_size,
            true,
            sizes,
        ) == tag_size + sizes[0],
{
}

impl FieldType {
    /// How a single value of this type is read. A map has no such procedure.
    pub fn read_kind(&self) -> (r: Result<ReadKind, Error>)
        ensures
            r is Ok <==> !(self@ is Map_),
            r is Ok ==> Ok::<ReadKind, ErrorView>(r->Ok_0) == self@.read_kind(),
            r is Err ==> r->Err_0@ == ErrorView::ReadFnMap,
    {
        match self {
            FieldType::Message(_) => Ok(ReadKind::Message),
            FieldType::Map_(_, _) => Err(Error::ReadFnMap),
            FieldType::StringCow | FieldType::BytesCow => Ok(ReadKind::Borrowed),
            FieldType::String_ | FieldType::Bytes_ => Ok(ReadKind::Owned),
            _ => Ok(ReadKind::Scalar),
        }
    }

    /// What a single value of this type costs in bytes.
    pub fn value_size(&self) -> (r: ValueSize)
        ensures
            r == self@.value_size(),
    {
        match self {
            FieldType::Int32
            | FieldType::Int64
            | FieldType::Uint32
            | FieldType::Uint64
            | FieldType::Bool
            | FieldType::Enum(_) => ValueSize::Varint,
            FieldType::Sint32 => ValueSize::Zigzag32,
            FieldType::Sint64 => ValueSize::Zigzag64,
            FieldType::Fixed64 | FieldType::Sfixed64 | FieldType::Double => ValueSize::Fixed64,
            FieldType::Fixed32 | FieldType::Sfixed32 | FieldType::Float => ValueSize::Fixed32,
            FieldType::StringCow
            | FieldType::BytesCow
            | FieldType::String_
            | FieldType::Bytes_ => ValueSize::Length,
            FieldType::Message(_) => ValueSize::MessageLength,
            FieldType::Map_(_, _) => ValueSize::Entry,
            FieldType::MessageOrEnum(_) => ValueSize::Unknown,
        }
    }

    /// How a single value of this type is written.
    pub fn write_kind(&self, boxed: bool) -> (r: WriteKind)
        ensures
            r == self@.write_kind(boxed),
    {
        match self {
            FieldType::Enum(_) => WriteKind::Enum,
            FieldType::StringCow | FieldType::String_ => WriteKind::Text,
            FieldType::BytesCow | FieldType::Bytes_ => WriteKind::Bytes,
            FieldType::Message(_) => if boxed {
                WriteKind::BoxedMessage
            } else {
                WriteKind::Message
            },
            FieldType::Map_(_, _) => WriteKind::Entry,
            _ => WriteKind::Scalar,
        }
    }
}

impl Field {
    /// Whether the field is part of the generated code.
    pub fn is_emitted(&self, config: &Config) -> (r: bool)
        ensures
            r == self@.is_emitted(config),
    {
        !self.deprecated || config.add_deprecated_fields
    }

    /// Whether the field is held as a value that is present or absent.
    pub fn has_presence(&self, desc: &FileDescriptor) -> (r: bool)
        ensures
            r == self@.has_presence(desc@.syntax),
    {
        match self.frequency {
            Frequency::Optional => {
                let proto2 = match desc.syntax {
                    Syntax::Proto2 => true,
                    Syntax::Proto3 => false,
                };
                (proto2 && self.default.is_none()) || self.typ.message().is_some()
            },
            _ => false,
        }
    }

    /// The shape of the representation of the field in memory.
    pub fn shape(&self, desc: &FileDescriptor, config: &Config) -> (r: Shape)
        requires
            !self@.typ.is_unresolved(),
        ensures
            r == self@.shape(desc@.syntax, config),
    {
        if !self.is_emitted(config) {
            Shape::Omitted
        } else if self.boxed {
            Shape::Boxed
        } else if self.has_presence(desc) {
            Shape::Presence
        } else {
            match self.frequency {
                Frequency::Repeated => {
                    if self.packed() && self.typ.is_fixed_size() && !config.dont_use_cow {
                        Shape::BorrowedSequence
                    } else {
                        Shape::Sequence
                    }
                },
                _ => Shape::Bare,
            }
        }
    }

    /// What the reader does with the field when it meets its tag. A map
    /// whose key or value is a map cannot be read.
    pub fn read_rule(&self, desc: &FileDescriptor, config: &Config) -> (r: Result<ReadRule, Error>)
        requires
            !self@.typ.is_unresolved(),
        ensures
            r is Ok <==> self@.read_rule(desc@.syntax, config) is Ok,
            r is Ok ==> Ok::<ReadRule, ErrorView>(r->Ok_0) == self@.read_rule(desc@.syntax, config),
            r is Err ==> Err::<ReadRule, ErrorView>(r->Err_0@) == self@.read_rule(
                desc@.syntax,
                config,
            ),
    {
        if !self.is_emitted(config) {
            return Ok(ReadRule::Omitted);
        }
        match &self.typ {
            FieldType::Map_(k, v) => {
                let key = match k.read_kind() {
                    Ok(kind) => kind,
                    Err(e) => {
                        return Err(e);
                    },
                };
                let value = match v.read_kind() {
                    Ok(kind) => kind,
                    Err(e) => {
                        return Err(e);
                    },
                };
                Ok(ReadRule::Entry(key, value))
            },
            _ => {
                let kind = match self.typ.read_kind() {
                    Ok(kind) => kind,
                    Err(e) => {
                        return Err(e);
                    },
                };
                if self.boxed {
                    Ok(ReadRule::BoxedSome(kind))
                } else if self.has_presence(desc) {
                    Ok(ReadRule::Present(kind))
                } else {
                    match self.frequency {
                        Frequency::Repeated => {
                            if self.packed() && self.typ.is_fixed_size() {
                                Ok(ReadRule::PackedFixed)
                            } else if self.packed() {
                                Ok(ReadRule::Packed(kind))
                            } else {
                                Ok(ReadRule::Push(kind))
                            }
                        },
                        _ => Ok(ReadRule::Assign(kind)),
                    }
                }
            },
        }
    }

    /// When the field is on the wire and how often.
    pub fn wire_rule(&self, desc: &FileDescriptor, config: &Config) -> (r: WireRule)
        requires
            !self@.typ.is_unresolved(),
        ensures
            r == self@.wire_rule(desc@.syntax, config),
    {
        if !self.is_emitted(config) {
            return WireRule::Omitted;
        }
        match self.frequency {
            Frequency::Optional => {
                let proto2 = match desc.syntax {
                    Syntax::Proto2 => true,
                    Syntax::Proto3 => false,
                };
                if proto2 || self.typ.message().is_some() {
                    if self.default.is_none() {
                        WireRule::IfPresent
                    } else {
                        WireRule::UnlessDeclaredDefault
                    }
                } else {
                    match self.typ {
                        FieldType::Bytes_ => WireRule::UnlessEmpty,
                        _ => {
                            if self.default.is_some() {
                                WireRule::UnlessDeclaredDefault
                            } else {
                                WireRule::UnlessRegularDefault
                            }
                        },
                    }
                }
            },
            Frequency::Required => {
                if self.typ.is_map() {
                    WireRule::Entries
                } else {
                    WireRule::Always
                }
            },
            Frequency::Repeated => {
                if self.packed() {
                    let w = self.typ.wire_type_num_non_packed();
                    if w == 1 {
                        WireRule::PackedFixed(8)
                    } else if w == 5 {
                        WireRule::PackedFixed(4)
                    } else {
                        WireRule::Packed
                    }
                } else {
                    WireRule::Repeated
                }
            },
        }
    }

    /// The default that the value of the field is compared with before it
    /// is written.
    pub fn effective_default(&self, desc: &FileDescriptor) -> (r: Option<String>)
        ensures
            r is Some <==> self@.effective_default(desc@) is Some,
            r is Some ==> r->0@ == self@.effective_default(desc@)->0,
    {
        match &self.default {
            Some(own) => Some(own.clone()),
            None => self.typ.regular_default(desc),
        }
    }

    /// The size in bytes of the tag of the field.
    pub fn tag_size(&self) -> (r: usize)
        requires
            !self@.typ.is_unresolved(),
        ensures
            r == self@.tag_size(),
            1 <= r <= 5,
    {
        proof {
            reveal_with_fuel(varint_len, 6);
        }
        sizeof_varint(self.tag() as u64)
    }
}

/// The sum of a list of sizes, if it fits.
pub fn sum_sizes(sizes: &Vec<usize>) -> (r: Option<usize>)
    ensures
        r is Some <==> total(sizes@) <= usize::MAX,
        r is Some ==> r->0 == total(sizes@),
{
    let n = sizes.len();
    let mut sum: usize = 0;
    let mut i: usize = 0;
    assert(sizes@.take(0) =~= Seq::<usize>::empty());
    while i < n
        invariant
            i <= n,
            n == sizes@.len(),
            sum == total(sizes@.take(i as int)),
        decreases n - i,
    {
        proof {
            assert(sizes@.take(i as int + 1).drop_last() =~= sizes@.take(i as int));
            assert(sizes@.take(i as int + 1).last() == sizes@[i as int]);
            lemma_total_grows(sizes@, i as int + 1);
        }
        if sizes[i] > usize::MAX - sum {
            return None;
        }
        sum = sum + sizes[i];
        i += 1;
    }
    assert(sizes@.take(n as int) =~= sizes@);
    Some(sum)
}

/// The sum of the first sizes is at most the sum of all.
pub proof fn lemma_total_grows(sizes: Seq<usize>, upto: int)
    requires
        0 <= upto <= sizes.len(),
    ensures
        total(sizes.take(upto)) <= total(sizes),
    decreases sizes.len() - upto,
{
    if upto < sizes.len() {
        lemma_total_grows(sizes, upto + 1);
        assert(sizes.take(upto + 1).drop_last() =~= sizes.take(upto));
    } else {
        assert(sizes.take(upto) =~= sizes);
    }
}

/// The sum of two sizes, if it fits.
fn plus(a: usize, b: usize) -> (r: Option<usize>)
    ensures
        r is Some <==> a + b <= usize::MAX,
        r is Some ==> r->0 == a + b,
{
    if b > usize::MAX - a {
        None
    } else {
        Some(a + b)
    }
}

/// The size of a length-delimited chunk, if it fits.
fn wrapped_size(len: usize) -> (r: Option<usize>)
    ensures
        r is Some <==> len_delimited_size(len as nat) <= usize::MAX,
        r is Some ==> r->0 == len_delimited_size(len as nat),
{
    let head = sizeof_varint(len as u64);
    plus(head, len)
}

/// The sum of a list of sizes, each preceded by a tag, if it fits.
fn sum_tagged(tag_size: usize, sizes: &Vec<usize>) -> (r: Option<usize>)
    ensures
        r is Some <==> total_tagged(tag_size as nat, sizes@) <= usize::MAX,
        r is Some ==> r->0 == total_tagged(tag_size as nat, sizes@),
{
    let n = sizes.len();
    let mut sum: usize = 0;
    let mut i: usize = 0;
    assert(sizes@.take(0) =~= Seq::<usize>::empty());
    while i < n
        invariant
            i <= n,
            n == sizes@.len(),
            sum == total_tagged(tag_size as nat, sizes@.take(i as int)),
        decreases n - i,
    {
        proof {
            assert(sizes@.take(i as int + 1).drop_last() =~= sizes@.take(i as int));
            assert(sizes@.take(i as int + 1).last() == sizes@[i as int]);
            lemma_total_tagged_grows(tag_size as nat, sizes@, i as int + 1);
        }
        let with_tag = match plus(sum, tag_size) {
            Some(x) => x,
            None => {
                return None;
            },
        };
        sum = match plus(with_tag, sizes[i]) {
            Some(x) => x,
            None => {
                return None;
            },
        };
        i += 1;
    }
    assert(sizes@.take(n as int) =~= sizes@);
    Some(sum)
}

/// The sum of the first tagged sizes is at most the sum of all.
pub proof fn lemma_total_tagged_grows(tag_size: nat, sizes: Seq<usize>, upto: int)
    requires
        0 <= upto <= sizes.len(),
    ensures
        total_tagged(tag_size, sizes.take(upto)) <= total_tagged(tag_size, sizes),
    decreases sizes.len() - upto,
{
    if upto < sizes.len() {
        lemma_total_tagged_grows(tag_size, sizes, upto + 1);
        assert(sizes.take(upto + 1).drop_last() =~= sizes.take(upto));
    } else {
        assert(sizes.take(upto) =~= sizes);
    }
}

/// The sum of the first wrapped entries is at most the sum of all.
pub proof fn lemma_total_entries_grows(tag_size: nat, sizes: Seq<usize>, upto: int)
    requires
        0 <= upto <= sizes.len(),
    ensures
        total_entries(tag_size, sizes.take(upto)) <= total_entries(tag_size, sizes),
    decreases sizes.len() - upto,
{
    if upto < sizes.len() {
        lemma_total_entries_grows(tag_size, sizes, upto + 1);
        assert(sizes.take(upto + 1).drop_last() =~= sizes.take(upto));
    } else {
        assert(sizes.take(upto) =~= sizes);
    }
}

/// The sum of a list of sizes, each wrapped and preceded by a tag, if it fits.
fn sum_entries(tag_size: usize, sizes: &Vec<usize>) -> (r: Option<usize>)
    ensures
        r is Some <==> total_entries(tag_size as nat, sizes@) <= usize::MAX,
        r is Some ==> r->0 == total_entries(tag_size as nat, sizes@),
{
    let n = sizes.len();
    let mut sum: usize = 0;
    let mut i: usize = 0;
    assert(sizes@.take(0) =~= Seq::<usize>::empty());
    while i < n
        invariant
            i <= n,
            n == sizes@.len(),
            sum == total_entries(tag_size as nat, sizes@.take(i as int)),
        decreases n - i,
    {
        proof {
            assert(sizes@.take(i as int + 1).drop_last() =~= sizes@.take(i as int));
            assert(sizes@.take(i as int + 1).last() == sizes@[i as int]);
            lemma_total_entries_grows(tag_size as nat, sizes@, i as int + 1);
        }
        let entry = match wrapped_size(sizes[i]) {
            Some(x) => x,
            None => {
                return None;
            },
        };
        let with_tag = match plus(sum, tag_size) {
            Some(x) => x,
            None => {
                return None;
            },
        };
        sum = match plus(with_tag, entry) {
            Some(x) => x,
            None => {
                return None;
            },
        };
        i += 1;
    }
    assert(sizes@.take(n as int) =~= sizes@);
    Some(sum)
}

/// What the entry of a map costs before it is wrapped, or nothing if the
/// number does not fit: two tags of one byte, the key and the value.
pub fn entry_cost(key: usize, value: usize) -> (r: Option<usize>)
    ensures
        r is Some <==> entry_size(key as nat, value as nat) <= usize::MAX,
        r is Some ==> r->0 == entry_size(key as nat, value as nat),
{
    match plus(key, value) {
        Some(both) => plus(2, both),
        None => None,
    }
}

/// `count` times `width`, if it fits.
fn times(count: usize, width: usize) -> (r: Option<usize>)
    ensures
        r is Some <==> count * width <= usize::MAX,
        r is Some ==> r->0 == count * width,
{
    let mut product: usize = 0;
    let mut i: usize = 0;
    while i < count
        invariant
            i <= count,
            product == i * width,
        decreases count - i,
    {
        proof {
            assert((i + 1) * width == i * width + width) by (nonlinear_arith);
            assert((i + 1) * width <= count * width) by (nonlinear_arith)
                requires
                    i + 1 <= count,
            ;
        }
        product = match plus(product, width) {
            Some(x) => x,
            None => {
                return None;
            },
        };
        i += 1;
    }
    Some(product)
}

/// What a field costs on the wire, or nothing if the number does not fit.
/// `sizes` holds what each value of the field costs without its tag, and
/// `set` says whether a single value is on the wire at all.
pub fn field_size(rule: WireRule, tag_size: usize, set: bool, sizes: &Vec<usize>) -> (r: Option<usize>)
    ensures
        r is Some <==> field_cost(rule, tag_size as nat, set, sizes@) <= usize::MAX,
        r is Some ==> r->0 == field_cost(rule, tag_size as nat, set, sizes@),
{
    match rule {
        WireRule::Omitted => Some(0),
        WireRule::IfPresent
        | WireRule::UnlessDeclaredDefault
        | WireRule::UnlessRegularDefault
        | WireRule::UnlessEmpty => {
            if set && sizes.len() > 0 {
                plus(tag_size, sizes[0])
            } else {
                Some(0)
            }
        },
        WireRule::Always => {
            if sizes.len() > 0 {
                plus(tag_size, sizes[0])
            } else {
                Some(tag_size)
            }
        },
        WireRule::Entries => sum_entries(tag_size, sizes),
        WireRule::PackedFixed(width) => {
            if sizes.len() == 0 {
                Some(0)
            } else {
                let payload = match times(sizes.len(), width) {
                    Some(x) => x,
                    None => {
                        return None;
                    },
                };
                let block = match wrapped_size(payload) {
                    Some(x) => x,
                    None => {
                        return None;
                    },
                };
                plus(tag_size, block)
            }
        },
        WireRule::Packed => {
            if sizes.len() == 0 {
                Some(0)
            } else {
                let payload = match sum_sizes(sizes) {
                    Some(x) => x,
                    None => {
                        return None;
                    },
                };
                let block = match wrapped_size(payload) {
                    Some(x) => x,
                    None => {
                        return None;
                    },
                };
                plus(tag_size, block)
            }
        },
        WireRule::Repeated => sum_tagged(tag_size, sizes),
    }
}

/// Which imports the code generated for a list of messages needs.
#[derive(Debug, Clone, Copy, PartialEq, Eq, Structural)]
pub struct CommonUses {
    /// The vector type, which a build without the standard library names.
    pub vec: bool,
    /// The type of values that borrow or own.
    pub cow: bool,
    /// The conversion to an owned value.
    pub to_owned: bool,
    /// The box type.
    pub boxed: bool,
    /// A map type.
    pub map: bool,
}

/// Whether a field makes its message name the borrowing type: it borrows
/// its bytes, or it is packed and of fixed width.
pub open spec fn field_uses_cow(f: FieldView) -> bool {
    f.typ.has_cow() || (f.is_packed() && f.typ.is_fixed_size())
}

/// What to look for in the fields of a list of messages.
#[derive(Debug, Clone, Copy, PartialEq, Eq, Structural)]
pub enum FieldQuestion {
    /// Is there a field that makes its message name the borrowing type?
    UsesCow,
    /// Is there a field of owned strings or bytes?
    OwnsBytesOrString,
    /// Is there a boxed field?
    Boxed,
    /// Is there a map field in a message that is not imported?
    MapOfOwnFile,
}

impl FieldQuestion {
    /// Whether the field `f` of the message `m` answers the question.
    pub open spec fn holds(self, m: MessageView, f: FieldView) -> bool {
        match self {
            FieldQuestion::UsesCow => field_uses_cow(f),
            FieldQuestion::OwnsBytesOrString => f.typ.has_bytes_and_string(),
            FieldQuestion::Boxed => f.boxed,
            FieldQuestion::MapOfOwnFile => !m.imported && f.typ is Map_,
        }
    }
}

/// Whether a field of one of the messages answers the question.
pub open spec fn any_field(messages: Seq<MessageView>, question: FieldQuestion) -> bool {
    exists|k: int, j: int|
        0 <= k < messages.len() && 0 <= j < messages[k].all_fields().len() && question.holds(
            messages[k],
            #[trigger] messages[k].all_fields()[j],
        )
}

/// Whether one of the messages borrows the bytes it is read from.
pub open spec fn any_lifetime(d: DescView, messages: Seq<MessageView>, config: &Config) -> bool {
    exists|k: int|
        0 <= k < messages.len() && crate::lifetime::message_has_lifetime(
            d,
            config.add_deprecated_fields,
            #[trigger] messages[k],
            Seq::empty(),
        )
}

impl DescView {
    /// Which imports the code generated for `messages` needs.
    pub open spec fn common_uses(self, messages: Seq<MessageView>, config: &Config) -> CommonUses {
        CommonUses {
            vec: config.nostd,
            cow: !config.dont_use_cow && any_field(messages, FieldQuestion::UsesCow),
            to_owned: config.dont_use_cow && config.nostd && any_field(
                messages,
                FieldQuestion::OwnsBytesOrString,
            ),
            boxed: config.nostd && ((self.owned && any_lifetime(self, messages, config))
                || any_field(messages, FieldQuestion::Boxed)),
            map: any_field(messages, FieldQuestion::MapOfOwnFile),
        }
    }
}

/// Whether no type of a field of the messages is still a name.
pub open spec fn fields_resolved(messages: Seq<MessageView>) -> bool {
    forall|k: int, j: int|
        0 <= k < messages.len() && 0 <= j < messages[k].all_fields().len() ==> !(
        #[trigger] messages[k].all_fields()[j]).typ.is_unresolved()
}

/// Whether a field of one of the messages answers the question.
pub fn asks_any_field(messages: &Vec<Message>, question: FieldQuestion) -> (r: bool)
    requires
        fields_resolved(crate::model::messages_view(messages@)),
    ensures
        r == any_field(crate::model::messages_view(messages@), question),
{
    let ghost all = crate::model::messages_view(messages@);
    let n = messages.len();
    let mut k: usize = 0;
    while k < n
        invariant
            k <= n,
            n == messages@.len(),
            all == crate::model::messages_view(messages@),
            fields_resolved(all),
            forall|x: int, j: int|
                0 <= x < k && 0 <= j < all[x].all_fields().len() ==> !question.holds(
                    all[x],
                    #[trigger] all[x].all_fields()[j],
                ),
        decreases n - k,
    {
        let m = &messages[k];
        assert(all[k as int] == m@);
        let fields = m.all_fields();
        let len = fields.len();
        let mut j: usize = 0;
        assert(crate::tree::field_refs_view(fields@).len() == len);
        while j < len
            invariant
                j <= len,
                k < n,
                len == fields@.len(),
                all == crate::model::messages_view(messages@),
                n == all.len(),
                all[k as int] == m@,
                fields_resolved(all),
                crate::tree::field_refs_view(fields@) == m@.all_fields(),
                forall|x: int| 0 <= x < j ==> !question.holds(m@, #[trigger] m@.all_fields()[x]),
            decreases len - j,
        {
            let f: &Field = fields[j];
            assert(m@.all_fields()[j as int] == f@);
            assert(!all[k as int].all_fields()[j as int].typ.is_unresolved());
            let hit = match question {
                FieldQuestion::UsesCow => f.typ.has_cow() || (f.packed() && f.typ.is_fixed_size()),
                FieldQuestion::OwnsBytesOrString => f.typ.has_bytes_and_string(),
                FieldQuestion::Boxed => f.boxed,
                FieldQuestion::MapOfOwnFile => !m.imported && f.typ.is_map(),
            };
            if hit {
                proof {
                    assert(question.holds(all[k as int], all[k as int].all_fields()[j as int]));
                }
                return true;
            }
            j += 1;
        }
        k += 1;
    }
    false
}

impl Message {
    /// Which imports the code generated for `messages` needs.
    pub fn common_uses(messages: &Vec<Message>, desc: &FileDescriptor, config: &Config) -> (r:
        CommonUses)
        requires
            fields_resolved(crate::model::messages_view(messages@)),
        ensures
            r == desc@.common_uses(crate::model::messages_view(messages@), config),
    {
        let ghost all = crate::model::messages_view(messages@);
        let cow = !config.dont_use_cow && asks_any_field(messages, FieldQuestion::UsesCow);
        let to_owned = config.dont_use_cow && config.nostd && asks_any_field(
            messages,
            FieldQuestion::OwnsBytesOrString,
        );
        let mut boxed = false;
        if config.nostd {
            if desc.owned {
                let n = messages.len();
                let mut k: usize = 0;
                while k < n && !boxed
                    invariant
                        k <= n,
                        n == messages@.len(),
                        all == crate::model::messages_view(messages@),
                        boxed ==> any_lifetime(desc@, all, config),
                        !boxed ==> forall|x: int|
                            0 <= x < k ==> !crate::lifetime::message_has_lifetime(
                                desc@,
                                config.add_deprecated_fields,
                                #[trigger] all[x],
                                Seq::empty(),
                            ),
                    decreases n - k, if boxed { 0int } else { 1int },
                {
                    let mut ignore: Vec<crate::model::MessageIndex> = Vec::new();
                    assert(crate::passes::paths_view(ignore@) =~= Seq::<Seq<usize>>::empty());
                    assert(all[k as int] == messages@[k as int]@);
                    if messages[k].has_lifetime(desc, config, &mut ignore) {
                        boxed = true;
                    } else {
                        k += 1;
                    }
                }
            }
            if !boxed {
                boxed = asks_any_field(messages, FieldQuestion::Boxed);
            }
        }
        let map = asks_any_field(messages, FieldQuestion::MapOfOwnFile);
        CommonUses { vec: config.nostd, cow, to_owned, boxed, map }
    }
}

/// The fields of a list that have a default other than that of their type,
/// in order.
pub open spec fn unregular(d: DescView, fields: Seq<FieldView>) -> Seq<FieldView>
    decreases fields.len(),
{
    if fields.len() == 0 {
        Seq::empty()
    } else {
        unregular(d, fields.drop_last()) + if fields.last().has_regular_default(d) {
            Seq::<FieldView>::empty()
        } else {
            seq![fields.last()]
        }
    }
}

impl Message {
    /// The fields of this message, those of its oneofs not counted, that
    /// start with a default other than that of their type.
    pub fn unregular_defaults<'a>(&'a self, desc: &FileDescriptor) -> (r: Vec<&'a Field>)
        ensures
            crate::tree::field_refs_view(r@) == unregular(desc@, self@.fields),
    {
        let mut out: Vec<&Field> = Vec::new();
        let ghost all = self@.fields;
        let n = self.fields.len();
        let mut i: usize = 0;
        proof {
            assert(all.take(0) =~= Seq::<FieldView>::empty());
            assert(crate::tree::field_refs_view(out@) =~= unregular(desc@, all.take(0)));
        }
        while i < n
            invariant
                i <= n,
                n == self.fields@.len(),
                all == self@.fields,
                crate::tree::field_refs_view(out@) == unregular(desc@, all.take(i as int)),
            decreases n - i,
        {
            let ghost before = crate::tree::field_refs_view(out@);
            proof {
                assert(all.take(i as int + 1).drop_last() =~= all.take(i as int));
                assert(all.take(i as int + 1).last() == self.fields@[i as int]@);
            }
            if !self.fields[i].has_regular_default(desc) {
                out.push(&self.fields[i]);
                assert(crate::tree::field_refs_view(out@) =~= before.push(self.fields@[i as int]@));
            }
            proof {
                assert(crate::tree::field_refs_view(out@) =~= unregular(
                    desc@,
                    all.take(i as int + 1),
                ));
            }
            i += 1;
        }
        assert(all.take(n as int) =~= all);
        out
    }
}

impl FieldView {
    /// What the reader does with the field as a member of a oneof: the
    /// value is read, boxed if the field is, and stored as the member that
    /// is set. A map cannot be a member.
    pub open spec fn oneof_read_rule(self, config: &Config) -> Result<ReadRule, ErrorView> {
        if !self.is_emitted(config) {
            Ok(ReadRule::Omitted)
        } else {
            match self.typ.read_kind() {
                Ok(kind) => if self.boxed {
                    Ok(ReadRule::BoxedSome(kind))
                } else {
                    Ok(ReadRule::Assign(kind))
                },
                Err(e) => Err(e),
            }
        }
    }
}

impl Field {
    /// What the reader does with the field as a member of a oneof.
    pub fn oneof_read_rule(&self, config: &Config) -> (r: Result<ReadRule, Error>)
        ensures
            r is Ok <==> self@.oneof_read_rule(config) is Ok,
            r is Ok ==> Ok::<ReadRule, ErrorView>(r->Ok_0) == self@.oneof_read_rule(config),
            r is Err ==> Err::<ReadRule, ErrorView>(r->Err_0@) == self@.oneof_read_rule(config),
    {
        if !self.is_emitted(config) {
            return Ok(ReadRule::Omitted);
        }
        match self.typ.read_kind() {
            Ok(kind) => {
                if self.boxed {
                    Ok(ReadRule::BoxedSome(kind))
                } else {
                    Ok(ReadRule::Assign(kind))
                }
            },
            Err(e) => Err(e),
        }
    }
}

impl FileDescriptor {
    /// How many modules deep the generated code of the file stands: one
    /// more than its package has dots.
    pub fn import_depth(&self) -> (r: usize)
        ensures
            r == crate::typetext::split_dots(self@.package).len(),
            r >= 1,
    {
        let parts = crate::typetext::split_at_dots(self.package.as_str());
        proof {
            lemma_split_is_not_empty(self@.package);
            assert(crate::symbols::strings_view(parts@).len() == parts@.len());
        }
        parts.len()
    }

    /// Whether every top-level message of the file is a unit.
    pub fn all_units(&self) -> (r: bool)
        ensures
            r == forall|k: int|
                0 <= k < self@.messages.len() ==> (#[trigger] self@.messages[k]).is_unit(),
    {
        let n = self.messages.len();
        let mut k: usize = 0;
        while k < n
            invariant
                k <= n,
                n == self.messages@.len(),
                forall|x: int| 0 <= x < k ==> (#[trigger] self@.messages[x]).is_unit(),
            decreases n - k,
        {
            assert(self@.messages[k as int] == self.messages@[k as int]@);
            if !self.messages[k].is_unit() {
                return false;
            }
            k += 1;
        }
        true
    }
}

/// A dotted name has at least one segment.
pub proof fn lemma_split_is_not_empty(s: Seq<char>)
    ensures
        crate::typetext::split_dots(s).len() >= 1,
    decreases s.len(),
{
    if s.len() > 0 {
        lemma_split_is_not_empty(s.drop_last());
    }
}

} // verus!
