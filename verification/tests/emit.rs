use pb_rs::emit::number::{number_text, signed_number_text};
use pb_rs::errors::Error;
use pb_rs::model::{
    Config, EnumField, Enumerator, Field, FieldType, FileDescriptor, Frequency, Message, OneOf,
    Syntax,
};

fn generation() -> Config {
    Config {
        in_file: "demo.proto".to_string(),
        out_file: "demo.rs".to_string(),
        single_module: false,
        import_search_path: vec![],
        no_output: false,
        error_cycle: false,
        headers: true,
        dont_use_cow: false,
        custom_repr: None,
        default_custom_struct_derive: String::new(),
        custom_struct_derive: vec![],
        custom_includes: vec![],
        owned: false,
        nostd: false,
        hashbrown: false,
        gen_info: false,
        add_deprecated_fields: false,
    }
}

fn member(name: &str, typ: FieldType, frequency: Frequency, number: i32) -> Field {
    Field {
        name: name.to_string(),
        frequency,
        typ,
        number,
        default: None,
        packed: None,
        boxed: false,
        deprecated: false,
        attributes: vec![],
    }
}

fn demo() -> FileDescriptor {
    let m = Message {
        name: "M".to_string(),
        fields: vec![
            member("a", FieldType::Int32, Frequency::Optional, 1),
            member("s", FieldType::StringCow, Frequency::Optional, 2),
            member("r", FieldType::Fixed32, Frequency::Repeated, 3),
            member(
                "m",
                FieldType::Map_(Box::new(FieldType::StringCow), Box::new(FieldType::Int32)),
                Frequency::Optional,
                4,
            ),
            member("next", FieldType::MessageOrEnum("M".to_string()), Frequency::Optional, 5),
            member("level", FieldType::MessageOrEnum("Level".to_string()), Frequency::Optional, 7),
        ],
        oneofs: vec![OneOf {
            name: "pick".to_string(),
            fields: vec![
                member("x", FieldType::Int32, Frequency::Optional, 6),
                member("f", FieldType::Double, Frequency::Optional, 8),
            ],
            ..OneOf::default()
        }],
        enums: vec![Enumerator {
            name: "Level".to_string(),
            fields: vec![
                EnumField { name: "LOW".to_string(), tag: 0, attributes: vec![] },
                EnumField { name: "HIGH".to_string(), tag: 1, attributes: vec![] },
            ],
            ..Enumerator::default()
        }],
        ..Message::default()
    };
    let mut desc = FileDescriptor {
        package: "demo".to_string(),
        syntax: Syntax::Proto3,
        messages: vec![m],
        ..FileDescriptor::default()
    };
    desc.set_source("demo.proto", None, "demo");
    desc.set_packages();
    desc.prepare(&generation(), &vec!["type".to_string()]).unwrap();
    desc
}

#[test]
fn numbers_as_text() {
    assert_eq!(number_text(0), "0");
    assert_eq!(number_text(9), "9");
    assert_eq!(number_text(10), "10");
    assert_eq!(number_text(1234567890), "1234567890");
    assert_eq!(number_text(u64::MAX), "18446744073709551615");
    assert_eq!(signed_number_text(-1), "-1");
    assert_eq!(signed_number_text(i32::MIN), "-2147483648");
    assert_eq!(signed_number_text(42), "42");
}

#[test]
fn lines_of_a_scalar_field() {
    let desc = demo();
    let config = generation();
    let a = &desc.messages[0].fields[0];
    assert_eq!(a.write_definition(&desc, &config), "    pub a: i32,\n");
    assert_eq!(
        a.write_match_tag(&desc, &config).unwrap(),
        "                Ok(8) => msg.a = r.read_int32(bytes)?,\n"
    );
    assert_eq!(
        a.write_get_size(&desc, &config),
        "        + if self.a == 0i32 { 0 } else { 1 + sizeof_varint(*(&self.a) as u64) }\n"
    );
    assert_eq!(
        a.write_write(&desc, &config),
        "        if self.a != 0i32 { w.write_with_tag(8, |w| w.write_int32(*&self.a))?; }\n"
    );
}

#[test]
fn lines_of_a_borrowed_string() {
    let desc = demo();
    let config = generation();
    let s = &desc.messages[0].fields[1];
    assert_eq!(s.write_definition(&desc, &config), "    pub s: Cow<'a, str>,\n");
    assert_eq!(
        s.write_match_tag(&desc, &config).unwrap(),
        "                Ok(18) => msg.s = r.read_string(bytes).map(Cow::Borrowed)?,\n"
    );
    assert_eq!(
        s.write_get_size(&desc, &config),
        "        + if self.s == \"\" { 0 } else { 1 + sizeof_len((&self.s).len()) }\n"
    );
    assert_eq!(
        s.write_write(&desc, &config),
        "        if self.s != \"\" { w.write_with_tag(18, |w| w.write_string(&**&self.s))?; }\n"
    );
}

#[test]
fn lines_of_a_packed_field() {
    let desc = demo();
    let config = generation();
    let r = &desc.messages[0].fields[2];
    assert_eq!(r.packed, Some(true));
    assert_eq!(r.write_definition(&desc, &config), "    pub r: Cow<'a, [u32]>,\n");
    assert_eq!(
        r.write_match_tag(&desc, &config).unwrap(),
        "                Ok(26) => msg.r = r.read_packed_fixed(bytes)?.into(),\n"
    );
    assert_eq!(
        r.write_get_size(&desc, &config),
        "        + if self.r.is_empty() { 0 } else { 1 + sizeof_len(self.r.len() * 4) }\n"
    );
    assert_eq!(
        r.write_write(&desc, &config),
        "        w.write_packed_fixed_with_tag(26, &self.r)?;\n"
    );
    let mut plain = member("v", FieldType::Sint64, Frequency::Repeated, 9);
    assert_eq!(
        plain.write_get_size(&desc, &config),
        "        + self.v.iter().map(|s| 1 + sizeof_sint64(*(s))).sum::<usize>()\n"
    );
    assert_eq!(
        plain.write_write(&desc, &config),
        "        for s in &self.v { w.write_with_tag(72, |w| w.write_sint64(*s))?; }\n"
    );
    plain.packed = Some(true);
    assert_eq!(
        plain.write_get_size(&desc, &config),
        "        + if self.v.is_empty() { 0 } else { 1 + sizeof_len(self.v.iter().map(|s| sizeof_sint64(*(s))).sum::<usize>()) }\n"
    );
    assert_eq!(
        plain.write_write(&desc, &config),
        "        w.write_packed_with_tag(74, &self.v, |w, m| w.write_sint64(*m), &|m| sizeof_sint64(*(m)))?;\n"
    );
    assert_eq!(
        plain.write_match_tag(&desc, &config).unwrap(),
        "                Ok(74) => msg.v = r.read_packed(bytes, |r, bytes| Ok(r.read_sint64(bytes)?))?,\n"
    );
    let doubles = member("d", FieldType::Double, Frequency::Repeated, 2);
    assert_eq!(doubles.write_get_size(&desc, &config), "        + (1 + 8) * self.d.len()\n");
    assert_eq!(
        doubles.write_match_tag(&desc, &config).unwrap(),
        "                Ok(17) => msg.d.push(r.read_double(bytes)?),\n"
    );
}

#[test]
fn lines_of_a_map() {
    let desc = demo();
    let config = generation();
    let m = &desc.messages[0].fields[3];
    assert_eq!(m.frequency, Frequency::Required);
    assert_eq!(m.write_definition(&desc, &config), "    pub m: KVMap<Cow<'a, str>, i32>,\n");
    assert_eq!(
        m.write_match_tag(&desc, &config).unwrap(),
        "                Ok(34) => {\n                    let (key, value) = r.read_map(bytes, |r, bytes| Ok(r.read_string(bytes).map(Cow::Borrowed)?), |r, bytes| Ok(r.read_int32(bytes)?))?;\n                    msg.m.insert(key, value);\n                }\n"
    );
    assert_eq!(
        m.write_get_size(&desc, &config),
        "        + self.m.iter().map(|(k, v)| 1 + sizeof_len(2 + sizeof_len((k).len()) + sizeof_varint(*(v) as u64))).sum::<usize>()\n"
    );
    assert_eq!(
        m.write_write(&desc, &config),
        "        for (k, v) in self.m.iter() { w.write_with_tag(34, |w| w.write_map(2 + sizeof_len((k).len()) + sizeof_varint(*(v) as u64), 10, |w| w.write_string(&**k), 16, |w| w.write_int32(*v)))?; }\n"
    );
    assert!(matches!(m.typ.read_fn(&desc), Err(Error::ReadFnMap)));
}

#[test]
fn lines_of_a_boxed_message_and_an_enum() {
    let desc = demo();
    let config = generation();
    let next = &desc.messages[0].fields[4];
    assert!(next.boxed);
    assert_eq!(next.write_definition(&desc, &config), "    pub next: Option<Box<demo::M<'a>>>,\n");
    assert_eq!(
        next.write_match_tag(&desc, &config).unwrap(),
        "                Ok(42) => msg.next = Some(Box::new(r.read_message::<demo::M>(bytes)?)),\n"
    );
    assert_eq!(
        next.write_get_size(&desc, &config),
        "        + self.next.as_ref().map_or(0, |m| 1 + sizeof_len((m).get_size()))\n"
    );
    assert_eq!(
        next.write_write(&desc, &config),
        "        if let Some(ref s) = self.next { w.write_with_tag(42, |w| w.write_message(&**s))?; }\n"
    );
    let level = &desc.messages[0].fields[5];
    assert_eq!(level.write_definition(&desc, &config), "    pub level: demo::mod_M::Level,\n");
    assert_eq!(
        level.write_get_size(&desc, &config),
        "        + if self.level == demo::mod_M::Level::LOW { 0 } else { 1 + sizeof_varint(*(&self.level) as u64) }\n"
    );
    assert_eq!(
        level.write_write(&desc, &config),
        "        if self.level != demo::mod_M::Level::LOW { w.write_with_tag(56, |w| w.write_enum(*&self.level as i32))?; }\n"
    );
    let mut old = member("old", FieldType::Bool, Frequency::Optional, 9);
    old.deprecated = true;
    old.attributes = vec!["    #[doc(hidden)]".to_string()];
    assert_eq!(old.write_definition(&desc, &config), "");
    assert_eq!(old.write_match_tag(&desc, &config).unwrap(), "");
    assert_eq!(old.write_get_size(&desc, &config), "");
    assert_eq!(old.write_write(&desc, &config), "");
    let mut keep = generation();
    keep.add_deprecated_fields = true;
    assert_eq!(
        old.write_definition(&desc, &keep),
        "    #[deprecated]\n    #[doc(hidden)]\n    pub old: bool,\n"
    );
}

#[test]
fn text_of_an_enum() {
    let desc = demo();
    let level = &desc.messages[0].enums[0];
    assert_eq!(
        level.write(&generation()),
        "\n#[derive(Debug, PartialEq, Eq, Clone, Copy)]\npub enum Level {\n    LOW = 0,\n    HIGH = 1,\n}\n\nimpl Default for Level {\n    fn default() -> Self {\n        Level::LOW\n    }\n}\n\nimpl From<i32> for Level {\n    fn from(i: i32) -> Self {\n        match i {\n            0 => Level::LOW,\n            1 => Level::HIGH,\n            _ => Self::default(),\n        }\n    }\n}\n\nimpl<'a> From<&'a str> for Level {\n    fn from(s: &'a str) -> Self {\n        match s {\n            \"LOW\" => Level::LOW,\n            \"HIGH\" => Level::HIGH,\n            _ => Self::default(),\n        }\n    }\n}\n"
    );
    let mut derived = generation();
    derived.default_custom_struct_derive = "Hash, ".to_string();
    derived.custom_struct_derive =
        vec![("demo.mod_M.Level".to_string(), "serde::Serialize, ".to_string())];
    assert!(level
        .write_definition(&derived)
        .starts_with("#[derive(serde::Serialize, Debug, PartialEq, Eq, Clone, Copy)]\n"));
    let mut other = level.clone();
    other.name = "Other".to_string();
    other.fields[0].tag = -3;
    other.fields[0].name = "a\"b".to_string();
    assert!(other
        .write_definition(&derived)
        .starts_with("#[derive(Hash, Debug, PartialEq, Eq, Clone, Copy)]\npub enum Other {\n    a\"b = -3,\n"));
    assert!(other.write_from_str().contains("            \"a\\\"b\" => Other::a\"b,\n"));
    let empty = Enumerator { name: "Nothing".to_string(), ..Enumerator::default() };
    assert_eq!(
        empty.write(&generation()),
        "\n#[derive(Debug, PartialEq, Eq, Clone, Copy)]\npub enum Nothing {\n}\n\n"
    );
}

#[test]
fn text_of_a_oneof() {
    let desc = demo();
    let config = generation();
    let pick = &desc.messages[0].oneofs[0];
    assert_eq!(
        pick.write_definition(&desc, &config),
        "#[derive(Debug, PartialEq, Clone)]\npub enum OneOfpick {\n    x(i32),\n    f(f64),\n    None,\n}\n"
    );
    assert_eq!(
        pick.write_impl_default(&desc, &config),
        "impl Default for OneOfpick {\n    fn default() -> Self {\n        OneOfpick::None\n    }\n}\n"
    );
    assert_eq!(
        pick.write_message_definition(&desc, &config),
        "    pub pick: demo::mod_M::OneOfpick,\n"
    );
    assert_eq!(
        pick.write_match_tag(&desc, &config).unwrap(),
        "                Ok(48) => msg.pick = demo::mod_M::OneOfpick::x(r.read_int32(bytes)?),\n                Ok(65) => msg.pick = demo::mod_M::OneOfpick::f(r.read_double(bytes)?),\n"
    );
    assert_eq!(
        pick.write_get_size(&desc, &config),
        "        + match self.pick {\n            demo::mod_M::OneOfpick::x(ref m) => 1 + sizeof_varint(*(m) as u64),\n            demo::mod_M::OneOfpick::f(_) => 1 + 8,\n            demo::mod_M::OneOfpick::None => 0,\n    }"
    );
    assert_eq!(
        pick.write_write(&desc, &config),
        "        match self.pick {            demo::mod_M::OneOfpick::x(ref m) => { w.write_with_tag(48, |w| w.write_int32(*m))? },\n            demo::mod_M::OneOfpick::f(ref m) => { w.write_with_tag(65, |w| w.write_double(*m))? },\n            demo::mod_M::OneOfpick::None => {},\n    }"
    );
    let mut with_map = pick.clone();
    with_map.fields[0].typ =
        FieldType::Map_(Box::new(FieldType::Int32), Box::new(FieldType::Int32));
    assert!(matches!(with_map.write_match_tag(&desc, &config), Err(Error::ReadFnMap)));
    with_map.fields[0].deprecated = true;
    assert!(with_map.write_match_tag(&desc, &config).is_ok());
}

#[test]
fn text_of_a_message() {
    let desc = demo();
    let config = generation();
    let m = &desc.messages[0];
    assert!(desc.is_known());
    assert_eq!(
        m.write_definition(&desc, &config),
        "#[allow(clippy::derive_partial_eq_without_eq)]\n#[derive(Debug, Default, PartialEq, Clone)]\npub struct M<'a> {\n    pub a: i32,\n    pub s: Cow<'a, str>,\n    pub r: Cow<'a, [u32]>,\n    pub m: KVMap<Cow<'a, str>, i32>,\n    pub next: Option<Box<demo::M<'a>>>,\n    pub level: demo::mod_M::Level,\n    pub pick: demo::mod_M::OneOfpick,\n}\n"
    );
    assert_eq!(
        m.write_impl_message_info(&desc, &config),
        "impl<'a> MessageInfo for M<'a> {\n    const PATH : &'static str = \"demo.M\";\n}\n"
    );
    let read = m.write_impl_message_read(&desc, &config).unwrap();
    assert!(read.starts_with(
        "impl<'a> MessageRead<'a> for M<'a> {\n    fn from_reader(r: &mut BytesReader, bytes: &'a [u8]) -> Result<Self> {\n        let mut msg = Self::default();\n        while !r.is_eof() {\n            match r.next_tag(bytes) {\n                Ok(8) => msg.a = r.read_int32(bytes)?,\n"
    ));
    assert!(read.ends_with(
        "                Ok(65) => msg.pick = demo::mod_M::OneOfpick::f(r.read_double(bytes)?),\n                Ok(t) => { r.read_unknown(bytes, t)?; }\n                Err(e) => return Err(e),\n            }\n        }\n        Ok(msg)\n    }\n}\n"
    ));
    let write = m.write_impl_message_write(&desc, &config);
    assert!(write.starts_with(
        "impl<'a> MessageWrite for M<'a> {\n    fn get_size(&self) -> usize {\n        0\n        + if self.a == 0i32 { 0 } else { 1 + sizeof_varint(*(&self.a) as u64) }\n"
    ));
    assert!(write.contains(
        "            demo::mod_M::OneOfpick::None => 0,\n    }    }\n\n    fn write_message<W: WriterBackend>(&self, w: &mut Writer<W>) -> Result<()> {\n"
    ));
    assert!(write.ends_with("            demo::mod_M::OneOfpick::None => {},\n    }        Ok(())\n    }\n}\n"));
    let all = m.write(&desc, &config).unwrap();
    assert!(all.ends_with(
        "\npub mod mod_M {\n\nuse super::*;\n\n#[derive(Debug, PartialEq, Eq, Clone, Copy)]\npub enum Level {\n    LOW = 0,\n    HIGH = 1,\n}\n\nimpl Default for Level {\n    fn default() -> Self {\n        Level::LOW\n    }\n}\n\nimpl From<i32> for Level {\n    fn from(i: i32) -> Self {\n        match i {\n            0 => Level::LOW,\n            1 => Level::HIGH,\n            _ => Self::default(),\n        }\n    }\n}\n\nimpl<'a> From<&'a str> for Level {\n    fn from(s: &'a str) -> Self {\n        match s {\n            \"LOW\" => Level::LOW,\n            \"HIGH\" => Level::HIGH,\n            _ => Self::default(),\n        }\n    }\n}\n\n#[derive(Debug, PartialEq, Clone)]\npub enum OneOfpick {\n    x(i32),\n    f(f64),\n    None,\n}\n\nimpl Default for OneOfpick {\n    fn default() -> Self {\n        OneOfpick::None\n    }\n}\n\n}\n"
    ));
}

#[test]
fn defaults_start_the_reader() {
    let mut desc = demo();
    desc.messages[0].fields[0].default = Some("7i32".to_string());
    let read = desc.messages[0].write_impl_message_read(&desc, &generation()).unwrap();
    assert!(read.contains(
        "        let mut msg = M {\n            a: 7i32,\n            ..Self::default()\n        };\n"
    ));
    assert_eq!(
        desc.messages[0].fields[0].write_get_size(&desc, &generation()),
        "        + if self.a == 7i32 { 0 } else { 1 + sizeof_varint(*(&self.a) as u64) }\n"
    );
}

#[test]
fn text_of_a_whole_file() {
    let mut desc = FileDescriptor {
        messages: vec![Message { name: "E".to_string(), ..Message::default() }],
        ..FileDescriptor::default()
    };
    desc.set_source("e.proto", None, "e");
    desc.set_packages();
    desc.prepare(&generation(), &vec![]).unwrap();
    let text = desc.write("e.proto", &generation(), "").unwrap();
    assert_eq!(
        text,
        "// Automatically generated rust module for 'e.proto' file\n\n#![allow(non_snake_case)]\n#![allow(non_upper_case_globals)]\n#![allow(non_camel_case_types)]\n#![allow(unused_imports)]\n#![allow(unknown_lints)]\n#![allow(clippy::all)]\n#![cfg_attr(rustfmt, rustfmt_skip)]\n\n\nuse quick_protobuf::{BytesReader, Result, MessageInfo, MessageRead, MessageWrite};\nuse super::*;\n\n#[allow(clippy::derive_partial_eq_without_eq)]\n#[derive(Debug, Default, PartialEq, Clone)]\npub struct E { }\n\nimpl<'a> MessageRead<'a> for E {\n    fn from_reader(r: &mut BytesReader, _: &[u8]) -> Result<Self> {\n        r.read_to_end();\n        Ok(Self::default())\n    }\n}\n\nimpl MessageWrite for E { }\n\n"
    );
    let mut bare = generation();
    bare.headers = false;
    let short = desc.write("e.proto", &bare, "\ntrait S {}\n").unwrap();
    assert!(short.starts_with("\nuse quick_protobuf::{BytesReader"));
    assert!(short.ends_with("impl MessageWrite for E { }\n\ntrait S {}\n\n"));
}

#[test]
fn imports_of_a_file_with_fields() {
    let mut desc = demo();
    let mut config = generation();
    config.custom_includes = vec!["use crate::extra::*;".to_string()];
    assert_eq!(
        desc.write_uses(&config),
        "use std::borrow::Cow;\nuse std::collections::HashMap;\ntype KVMap<K, V> = HashMap<K, V>;\nuse quick_protobuf::{MessageInfo, MessageRead, MessageWrite, BytesReader, Writer, WriterBackend, Result};\nuse quick_protobuf::sizeofs::*;\nuse crate::extra::*;\n"
    );
    assert_eq!(desc.write_imports(), "use super::*;\n");
    desc.package = "a.b.c".to_string();
    assert_eq!(desc.write_imports(), "use super::super::super::*;\n");
    desc.owned = true;
    config.nostd = true;
    config.hashbrown = true;
    let uses = desc.write_uses(&config);
    assert!(uses.starts_with(
        "use alloc::vec::Vec;\nuse alloc::borrow::Cow;\n\nuse alloc::boxed::Box;\nuse hashbrown::HashMap;\n"
    ));
    assert!(uses.contains("use core::convert::{TryFrom, TryInto};\nuse quick_protobuf::Owned;\n"));
    let whole = desc.write("demo.proto", &config, "").unwrap();
    assert!(whole.contains("pub struct MOwned {"));
    assert!(whole.contains("            impl TryFrom<Vec<u8>> for MOwned {\n"));
    config.gen_info = true;
    let whole = desc.write("demo.proto", &config, "").unwrap();
    assert!(whole.contains("                const PATH: &'static str = \"demo.M\";\n"));
    desc.messages[0].imported = true;
    let nothing = desc.write("demo.proto", &config, "").unwrap();
    assert!(!nothing.contains("pub struct M"));
}

#[test]
fn owned_message_without_lifetime_converts_from_bytes() {
    let mut desc = FileDescriptor {
        messages: vec![Message {
            name: "N".to_string(),
            fields: vec![member("n", FieldType::Int32, Frequency::Optional, 1)],
            ..Message::default()
        }],
        ..FileDescriptor::default()
    };
    desc.set_source("n.proto", None, "n");
    desc.set_packages();
    let mut config = generation();
    config.owned = true;
    desc.prepare(&config, &vec![]).unwrap();
    let text = desc.messages[0].write(&desc, &config).unwrap();
    assert!(text.ends_with(
        "\n\n            impl TryFrom<&[u8]> for N {\n                type Error=quick_protobuf::Error;\n\n                fn try_from(buf: &[u8]) -> Result<Self> {\n                    let mut reader = BytesReader::from_bytes(&buf);\n                    Ok(N::from_reader(&mut reader, &buf)?)\n                }\n            }\n\n            impl TryFrom<Vec<u8>> for N {\n                type Error=quick_protobuf::Error;\n\n                fn try_from(buf: Vec<u8>) -> Result<Self> {\n                    N::try_from(buf.as_slice())\n                }\n            }\n            "
    ));
}

#[test]
fn unreadable_map_stops_the_file() {
    let mut desc = demo();
    desc.messages[0].fields[3].typ = FieldType::Map_(
        Box::new(FieldType::Int32),
        Box::new(FieldType::Map_(Box::new(FieldType::Int32), Box::new(FieldType::Int32))),
    );
    assert!(matches!(desc.write("demo.proto", &generation(), ""), Err(Error::ReadFnMap)));
    let mut unknown = demo();
    unknown.messages[0].fields[0].typ = FieldType::MessageOrEnum("X".to_string());
    assert!(!unknown.is_known());
}
