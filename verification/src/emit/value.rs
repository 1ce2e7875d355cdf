//! How single values are read, measured and written in the generated code.

use vstd::prelude::*;
use vstd::string::*;
use crate::emit::number::{decimal_text, number_text};
use crate::errors::{Error, ErrorView};
use crate::field_type::{tag, tag_of};
use crate::index::message_at;
use crate::model::{DescView, FieldType, FileDescriptor, TypeView};
use crate::typetext::modules_of;

verus! {

impl TypeView {
    /// Whether the type holds no name, neither itself nor as key or value
    /// of a map, at any depth.
    pub open spec fn is_known(self) -> bool
        decreases self,
    {
        match self {
            TypeView::MessageOrEnum(_) => false,
            TypeView::Map_(k, v) => k.is_known() && v.is_known(),
            _ => true,
        }
    }

    /// The call that reads a value of the type from the input, before the
    /// error of the call is handled.
    pub open spec fn read_call(self) -> Seq<char> {
        "r.read_"@ + self.proto_type() + "(bytes)"@
    }

    /// The two expressions that read a value of the type: the plain one,
    /// and the one that gives the value in the form in which the message
    /// holds it. A map has none.
    pub open spec fn read_texts(self, d: DescView) -> Result<(Seq<char>, Seq<char>), ErrorView> {
        match self {
            TypeView::Message(p) => {
                let path = match message_at(d.messages, p) {
                    Some(m) => modules_of(m.module, m.imported, d.package) + m.name,
                    None => Seq::empty(),
                };
                let text = "r.read_message::<"@ + path + ">(bytes)?"@;
                Ok((text, text))
            },
            TypeView::Map_(_, _) => Err(ErrorView::ReadFnMap),
            TypeView::StringCow | TypeView::BytesCow => Ok(
                (self.read_call(), self.read_call() + ".map(Cow::Borrowed)?"@),
            ),
            TypeView::String_ | TypeView::Bytes_ => Ok(
                (self.read_call(), self.read_call() + "?.to_owned()"@),
            ),
            _ => Ok((self.read_call() + "?"@, self.read_call() + "?"@)),
        }
    }

    /// The expression that measures the value `s` of the type.
    pub open spec fn size_text(self, s: Seq<char>) -> Seq<char>
        decreases self,
    {
        match self {
            TypeView::Int32
            | TypeView::Int64
            | TypeView::Uint32
            | TypeView::Uint64
            | TypeView::Bool
            | TypeView::Enum(_) => "sizeof_varint(*("@ + s + ") as u64)"@,
            TypeView::Sint32 => "sizeof_sint32(*("@ + s + "))"@,
            TypeView::Sint64 => "sizeof_sint64(*("@ + s + "))"@,
            TypeView::Fixed64 | TypeView::Sfixed64 | TypeView::Double => "8"@,
            TypeView::Fixed32 | TypeView::Sfixed32 | TypeView::Float => "4"@,
            TypeView::StringCow | TypeView::BytesCow | TypeView::String_ | TypeView::Bytes_ =>
                "sizeof_len(("@ + s + ").len())"@,
            TypeView::Message(_) => "sizeof_len(("@ + s + ").get_size())"@,
            TypeView::Map_(k, v) => "2 + "@ + k.size_text("k"@) + " + "@ + v.size_text("v"@),
            TypeView::MessageOrEnum(_) => Seq::empty(),
        }
    }

    /// The call that writes the value `s` of the type.
    pub open spec fn write_text(self, s: Seq<char>, boxed: bool) -> Seq<char>
        decreases self,
    {
        match self {
            TypeView::Enum(_) => "write_enum(*"@ + s + " as i32)"@,
            TypeView::StringCow | TypeView::String_ => "write_string(&**"@ + s + ")"@,
            TypeView::BytesCow | TypeView::Bytes_ => "write_bytes(&**"@ + s + ")"@,
            TypeView::Message(_) => if boxed {
                "write_message(&**"@ + s + ")"@
            } else {
                "write_message("@ + s + ")"@
            },
            TypeView::Map_(k, v) => "write_map("@ + self.size_text(Seq::empty()) + ", "@
                + decimal_text(tag_of(1, *k, false) as nat) + ", |w| w."@ + k.write_text(
                "k"@,
                false,
            ) + ", "@ + decimal_text(tag_of(2, *v, false) as nat) + ", |w| w."@ + v.write_text(
                "v"@,
                false,
            ) + ")"@,
            TypeView::MessageOrEnum(_) => Seq::empty(),
            _ => "write_"@ + self.proto_type() + "(*"@ + s + ")"@,
        }
    }
}

impl FieldType {
    /// The call that reads a value of this type from the input.
    fn read_call(&self) -> (r: String)
        requires
            !self@.is_unresolved(),
        ensures
            r@ == self@.read_call(),
    {
        let mut s = String::from_str("r.read_");
        s.append(self.proto_type());
        s.append("(bytes)");
        s
    }

    /// The two expressions that read a value of this type: the plain one,
    /// and the one that gives the value in the form in which the message
    /// holds it. A map is read entry by entry and has no such expression.
    pub fn read_fn(&self, desc: &FileDescriptor) -> (r: Result<(String, String), Error>)
        requires
            !self@.is_unresolved(),
        ensures
            r is Ok <==> !(self@ is Map_),
            r is Ok ==> Ok::<(Seq<char>, Seq<char>), ErrorView>((r->Ok_0.0@, r->Ok_0.1@))
                == self@.read_texts(desc@),
            r is Err ==> r->Err_0@ == ErrorView::ReadFnMap,
    {
        match self {
            FieldType::Message(p) => {
                let path = match p.find_message(desc) {
                    Some(m) => {
                        let mut s = m.get_modules(desc);
                        s.append(m.name.as_str());
                        s
                    },
                    None => {
                        proof {
                            reveal_strlit("");
                            assert(""@ =~= Seq::<char>::empty());
                        }
                        String::from_str("")
                    },
                };
                let mut text = String::from_str("r.read_message::<");
                text.append(path.as_str());
                text.append(">(bytes)?");
                let again = text.clone();
                Ok((text, again))
            },
            FieldType::Map_(_, _) => Err(Error::ReadFnMap),
            FieldType::StringCow | FieldType::BytesCow => {
                let plain = self.read_call();
                let mut held = self.read_call();
                held.append(".map(Cow::Borrowed)?");
                Ok((plain, held))
            },
            FieldType::String_ | FieldType::Bytes_ => {
                let plain = self.read_call();
                let mut held = self.read_call();
                held.append("?.to_owned()");
                Ok((plain, held))
            },
            _ => {
                let mut plain = self.read_call();
                plain.append("?");
                let held = plain.clone();
                Ok((plain, held))
            },
        }
    }

    /// The expression that measures the value `s` of this type.
    pub fn get_size(&self, s: &str) -> (r: String)
        ensures
            r@ == self@.size_text(s@),
        decreases self,
    {
        match self {
            FieldType::Int32
            | FieldType::Int64
            | FieldType::Uint32
            | FieldType::Uint64
            | FieldType::Bool
            | FieldType::Enum(_) => crate::text::concat3("sizeof_varint(*(", s, ") as u64)"),
            FieldType::Sint32 => crate::text::concat3("sizeof_sint32(*(", s, "))"),
            FieldType::Sint64 => crate::text::concat3("sizeof_sint64(*(", s, "))"),
            FieldType::Fixed64 | FieldType::Sfixed64 | FieldType::Double => String::from_str("8"),
            FieldType::Fixed32 | FieldType::Sfixed32 | FieldType::Float => String::from_str("4"),
            FieldType::StringCow
            | FieldType::BytesCow
            | FieldType::String_
            | FieldType::Bytes_ => crate::text::concat3("sizeof_len((", s, ").len())"),
            FieldType::Message(_) => crate::text::concat3("sizeof_len((", s, ").get_size())"),
            FieldType::Map_(k, v) => {
                let mut text = String::from_str("2 + ");
                let key = k.get_size("k");
                let value = v.get_size("v");
                text.append(key.as_str());
                text.append(" + ");
                text.append(value.as_str());
                text
            },
            FieldType::MessageOrEnum(_) => {
                proof {
                    reveal_strlit("");
                    assert(""@ =~= Seq::<char>::empty());
                }
                String::from_str("")
            },
        }
    }

    /// The call that writes the value `s` of this type.
    pub fn get_write(&self, s: &str, boxed: bool) -> (r: String)
        requires
            self@.is_known(),
        ensures
            r@ == self@.write_text(s@, boxed),
        decreases self,
    {
        proof {
            reveal_with_fuel(TypeView::is_known, 2);
        }
        match self {
            FieldType::Enum(_) => crate::text::concat3("write_enum(*", s, " as i32)"),
            FieldType::StringCow | FieldType::String_ => crate::text::concat3(
                "write_string(&**",
                s,
                ")",
            ),
            FieldType::BytesCow | FieldType::Bytes_ => crate::text::concat3(
                "write_bytes(&**",
                s,
                ")",
            ),
            FieldType::Message(_) => {
                if boxed {
                    crate::text::concat3("write_message(&**", s, ")")
                } else {
                    crate::text::concat3("write_message(", s, ")")
                }
            },
            FieldType::Map_(k, v) => {
                proof {
                    reveal_strlit("");
                    assert(""@ =~= Seq::<char>::empty());
                }
                let mut text = String::from_str("write_map(");
                let size = self.get_size("");
                text.append(size.as_str());
                text.append(", ");
                let key_tag = number_text(tag(1, k, false) as u64);
                text.append(key_tag.as_str());
                text.append(", |w| w.");
                let key = k.get_write("k", false);
                text.append(key.as_str());
                text.append(", ");
                let value_tag = number_text(tag(2, v, false) as u64);
                text.append(value_tag.as_str());
                text.append(", |w| w.");
                let value = v.get_write("v", false);
                text.append(value.as_str());
                text.append(")");
                text
            },
            FieldType::MessageOrEnum(_) => {
                proof {
                    reveal_strlit("");
                    assert(""@ =~= Seq::<char>::empty());
                }
                String::from_str("")
            },
            _ => {
                let mut text = String::from_str("write_");
                text.append(self.proto_type());
                text.append("(*");
                text.append(s);
                text.append(")");
                text
            },
        }
    }
}

} // verus!
