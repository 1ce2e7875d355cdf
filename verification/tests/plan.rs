use pb_rs::errors::Error;
use pb_rs::field_type::tag;
use pb_rs::model::{
    Config, EnumField, EnumIndex, Enumerator, Field, FieldType, FileDescriptor, Frequency,
    Message, MessageIndex, OneOf, Syntax,
};
use pb_rs::options::{extension_matches, get_file_stem};
use pb_rs::plan::{
    field_size, CommonUses, ReadKind, ReadRule, Shape, ValueSize, WireRule, WriteKind,
};
use pb_rs::sizeofs::{sizeof_int32, sizeof_len};
use pb_rs::text::split_package;
use pb_rs::typetext::{get_modules, split_at_dots};

fn settings() -> Config {
    Config {
        in_file: "in.proto".to_string(),
        out_file: "out.rs".to_string(),
        single_module: false,
        import_search_path: vec![],
        no_output: false,
        error_cycle: false,
        headers: true,
        dont_use_cow: false,
        custom_repr: None,
        default_custom_struct_derive: String::new(),
        custom_struct_derive: vec![],
        custom_includes: vec![],
        owned: false,
        nostd: false,
        hashbrown: false,
        gen_info: false,
        add_deprecated_fields: false,
    }
}

fn plain(typ: FieldType, frequency: Frequency, number: i32) -> Field {
    Field {
        name: "x".to_string(),
        frequency,
        typ,
        number,
        default: None,
        packed: None,
        boxed: false,
        deprecated: false,
        attributes: vec![],
    }
}

fn proto(syntax: Syntax) -> FileDescriptor {
    FileDescriptor { syntax, ..FileDescriptor::default() }
}

fn somewhere() -> FieldType {
    FieldType::Message(MessageIndex { indexes: vec![0] })
}

#[test]
fn wire_tags() {
    assert_eq!(tag(1, &FieldType::Int32, false), 8);
    assert_eq!(tag(1, &FieldType::StringCow, false), 10);
    assert_eq!(tag(2, &FieldType::Fixed32, true), 18);
    assert_eq!(tag(2, &FieldType::Fixed32, false), 21);
    assert_eq!(tag(3, &FieldType::Double, false), 25);
    assert_eq!(tag(16, &somewhere(), false), 130);
    let mut f = plain(FieldType::Fixed32, Frequency::Repeated, 2);
    f.packed = Some(true);
    assert_eq!(f.tag(), 18);
    assert_eq!(f.tag_size(), 1);
    assert_eq!(plain(FieldType::Int32, Frequency::Optional, 16).tag_size(), 2);
    assert_eq!(plain(FieldType::Int32, Frequency::Optional, 1).tag(), 8);
    assert_eq!(plain(FieldType::String_, Frequency::Optional, 1).tag(), 10);
}

#[test]
fn wire_types_and_classes() {
    assert_eq!(FieldType::Bool.wire_type_num(false), 0);
    assert_eq!(FieldType::Sfixed64.wire_type_num(false), 1);
    assert_eq!(FieldType::Bytes_.wire_type_num(false), 2);
    assert_eq!(FieldType::Float.wire_type_num(false), 5);
    assert_eq!(FieldType::Float.wire_type_num(true), 2);
    assert_eq!(FieldType::Enum(EnumIndex::default()).wire_type_num_non_packed(), 0);
    assert!(FieldType::Double.is_fixed_size());
    assert!(!FieldType::Int64.is_fixed_size());
    assert!(FieldType::Sint32.is_primitive());
    assert!(!FieldType::StringCow.is_primitive());
    assert!(!somewhere().is_primitive());
    assert!(FieldType::Map_(Box::new(FieldType::Int32), Box::new(FieldType::BytesCow)).has_cow());
    assert!(!FieldType::Map_(Box::new(FieldType::Int32), Box::new(FieldType::Bytes_)).has_cow());
    assert!(FieldType::String_.has_bytes_and_string());
    assert!(FieldType::Map_(Box::new(FieldType::Int32), Box::new(FieldType::Int32)).is_map());
    assert_eq!(FieldType::Sfixed32.proto_type(), "sfixed32");
    assert_eq!(FieldType::StringCow.proto_type(), "string");
    assert_eq!(somewhere().message().unwrap().indexes, vec![0]);
    assert!(FieldType::Int32.message().is_none());
    assert!(somewhere().same(&somewhere()));
    assert!(!somewhere().same(&FieldType::Message(MessageIndex { indexes: vec![1] })));
    assert!(somewhere().clone().same(&somewhere()));
}

#[test]
fn proto3_scalar_is_left_out_at_its_default() {
    let desc = proto(Syntax::Proto3);
    let f = plain(FieldType::Int32, Frequency::Optional, 1);
    let rule = f.wire_rule(&desc, &settings());
    assert_eq!(rule, WireRule::UnlessRegularDefault);
    assert_eq!(f.effective_default(&desc), Some("0i32".to_string()));
    assert_eq!(field_size(rule, f.tag_size(), false, &vec![sizeof_int32(0)]), Some(0));
    assert_eq!(field_size(rule, f.tag_size(), true, &vec![sizeof_int32(5)]), Some(2));
    assert_eq!(f.shape(&desc, &settings()), Shape::Bare);
}

#[test]
fn proto2_optional_goes_by_presence() {
    let desc = proto(Syntax::Proto2);
    let f = plain(FieldType::Int32, Frequency::Optional, 1);
    assert_eq!(f.wire_rule(&desc, &settings()), WireRule::IfPresent);
    assert_eq!(f.shape(&desc, &settings()), Shape::Presence);
    assert_eq!(f.read_rule(&desc, &settings()).unwrap(), ReadRule::Present(ReadKind::Scalar));
    let mut with_default = plain(FieldType::Int32, Frequency::Optional, 1);
    with_default.default = Some("7i32".to_string());
    assert_eq!(with_default.wire_rule(&desc, &settings()), WireRule::UnlessDeclaredDefault);
    assert_eq!(with_default.shape(&desc, &settings()), Shape::Bare);
    assert_eq!(
        with_default.read_rule(&desc, &settings()).unwrap(),
        ReadRule::Assign(ReadKind::Scalar)
    );
    assert_eq!(with_default.effective_default(&desc), Some("7i32".to_string()));
}

#[test]
fn shapes_in_order_of_priority() {
    let proto3 = proto(Syntax::Proto3);
    let mut boxed = plain(somewhere(), Frequency::Optional, 1);
    boxed.boxed = true;
    assert_eq!(boxed.shape(&proto3, &settings()), Shape::Boxed);
    assert_eq!(boxed.read_rule(&proto3, &settings()).unwrap(), ReadRule::BoxedSome(ReadKind::Message));
    let message = plain(somewhere(), Frequency::Optional, 1);
    assert_eq!(message.shape(&proto3, &settings()), Shape::Presence);
    assert_eq!(message.wire_rule(&proto3, &settings()), WireRule::IfPresent);
    let mut packed = plain(FieldType::Fixed32, Frequency::Repeated, 1);
    packed.packed = Some(true);
    assert_eq!(packed.shape(&proto3, &settings()), Shape::BorrowedSequence);
    assert_eq!(packed.read_rule(&proto3, &settings()).unwrap(), ReadRule::PackedFixed);
    assert_eq!(packed.wire_rule(&proto3, &settings()), WireRule::PackedFixed(4));
    let mut owned = settings();
    owned.dont_use_cow = true;
    assert_eq!(packed.shape(&proto3, &owned), Shape::Sequence);
    let mut varints = plain(FieldType::Int64, Frequency::Repeated, 1);
    varints.packed = Some(true);
    assert_eq!(varints.shape(&proto3, &settings()), Shape::Sequence);
    assert_eq!(varints.read_rule(&proto3, &settings()).unwrap(), ReadRule::Packed(ReadKind::Scalar));
    assert_eq!(varints.wire_rule(&proto3, &settings()), WireRule::Packed);
    let strings = plain(FieldType::StringCow, Frequency::Repeated, 1);
    assert_eq!(strings.shape(&proto3, &settings()), Shape::Sequence);
    assert_eq!(strings.read_rule(&proto3, &settings()).unwrap(), ReadRule::Push(ReadKind::Borrowed));
    assert_eq!(strings.wire_rule(&proto3, &settings()), WireRule::Repeated);
    let required = plain(FieldType::Bytes_, Frequency::Required, 1);
    assert_eq!(required.shape(&proto3, &settings()), Shape::Bare);
    assert_eq!(required.wire_rule(&proto3, &settings()), WireRule::Always);
    assert_eq!(required.read_rule(&proto3, &settings()).unwrap(), ReadRule::Assign(ReadKind::Owned));
    let bytes = plain(FieldType::Bytes_, Frequency::Optional, 1);
    assert_eq!(bytes.wire_rule(&proto3, &settings()), WireRule::UnlessEmpty);
    let mut doubles = plain(FieldType::Double, Frequency::Repeated, 1);
    doubles.packed = Some(true);
    assert_eq!(doubles.wire_rule(&proto3, &settings()), WireRule::PackedFixed(8));
}

#[test]
fn deprecated_fields_are_left_out_unless_kept() {
    let desc = proto(Syntax::Proto3);
    let mut old = plain(FieldType::Int32, Frequency::Optional, 1);
    old.deprecated = true;
    assert!(!old.is_emitted(&settings()));
    assert_eq!(old.shape(&desc, &settings()), Shape::Omitted);
    assert_eq!(old.wire_rule(&desc, &settings()), WireRule::Omitted);
    assert_eq!(old.read_rule(&desc, &settings()).unwrap(), ReadRule::Omitted);
    assert_eq!(field_size(WireRule::Omitted, 1, true, &vec![3]), Some(0));
    let mut keep = settings();
    keep.add_deprecated_fields = true;
    assert!(old.is_emitted(&keep));
    assert_eq!(old.shape(&desc, &keep), Shape::Bare);
}

#[test]
fn maps_are_read_and_written_by_entry() {
    let desc = proto(Syntax::Proto3);
    let map = plain(
        FieldType::Map_(Box::new(FieldType::StringCow), Box::new(somewhere())),
        Frequency::Required,
        4,
    );
    assert_eq!(
        map.read_rule(&desc, &settings()).unwrap(),
        ReadRule::Entry(ReadKind::Borrowed, ReadKind::Message)
    );
    assert_eq!(map.wire_rule(&desc, &settings()), WireRule::Entries);
    assert_eq!(map.typ.value_size(), ValueSize::Entry);
    assert_eq!(map.typ.write_kind(false), WriteKind::Entry);
    assert!(matches!(map.typ.read_kind(), Err(Error::ReadFnMap)));
    let nested = plain(
        FieldType::Map_(
            Box::new(FieldType::Int32),
            Box::new(FieldType::Map_(Box::new(FieldType::Int32), Box::new(FieldType::Int32))),
        ),
        Frequency::Required,
        4,
    );
    assert!(matches!(nested.read_rule(&desc, &settings()), Err(Error::ReadFnMap)));
    let mut member = plain(
        FieldType::Map_(Box::new(FieldType::Int32), Box::new(FieldType::Int32)),
        Frequency::Optional,
        4,
    );
    assert!(matches!(member.oneof_read_rule(&settings()), Err(Error::ReadFnMap)));
    member.typ = somewhere();
    member.boxed = true;
    assert_eq!(member.oneof_read_rule(&settings()).unwrap(), ReadRule::BoxedSome(ReadKind::Message));
    member.boxed = false;
    assert_eq!(member.oneof_read_rule(&settings()).unwrap(), ReadRule::Assign(ReadKind::Message));
}

#[test]
fn value_kinds() {
    assert_eq!(FieldType::Int32.value_size(), ValueSize::Varint);
    assert_eq!(FieldType::Sint32.value_size(), ValueSize::Zigzag32);
    assert_eq!(FieldType::Sint64.value_size(), ValueSize::Zigzag64);
    assert_eq!(FieldType::Double.value_size(), ValueSize::Fixed64);
    assert_eq!(FieldType::Float.value_size(), ValueSize::Fixed32);
    assert_eq!(FieldType::BytesCow.value_size(), ValueSize::Length);
    assert_eq!(somewhere().value_size(), ValueSize::MessageLength);
    assert_eq!(FieldType::Enum(EnumIndex::default()).write_kind(false), WriteKind::Enum);
    assert_eq!(FieldType::Sfixed32.write_kind(false), WriteKind::Scalar);
    assert_eq!(FieldType::StringCow.write_kind(false), WriteKind::Text);
    assert_eq!(FieldType::Bytes_.write_kind(false), WriteKind::Bytes);
    assert_eq!(somewhere().write_kind(false), WriteKind::Message);
    assert_eq!(somewhere().write_kind(true), WriteKind::BoxedMessage);
    assert_eq!(FieldType::Bool.read_kind().unwrap(), ReadKind::Scalar);
    assert_eq!(FieldType::BytesCow.read_kind().unwrap(), ReadKind::Borrowed);
    assert_eq!(FieldType::String_.read_kind().unwrap(), ReadKind::Owned);
    assert_eq!(somewhere().read_kind().unwrap(), ReadKind::Message);
}

#[test]
fn sizes_by_rule() {
    assert_eq!(field_size(WireRule::IfPresent, 1, false, &vec![9]), Some(0));
    assert_eq!(field_size(WireRule::IfPresent, 1, true, &vec![9]), Some(10));
    assert_eq!(field_size(WireRule::UnlessEmpty, 2, true, &vec![sizeof_len(3)]), Some(6));
    assert_eq!(field_size(WireRule::UnlessDeclaredDefault, 1, false, &vec![4]), Some(0));
    assert_eq!(field_size(WireRule::Always, 1, false, &vec![8]), Some(9));
    assert_eq!(field_size(WireRule::PackedFixed(4), 1, true, &vec![4, 4, 4]), Some(14));
    assert_eq!(field_size(WireRule::PackedFixed(8), 1, true, &vec![]), Some(0));
    assert_eq!(field_size(WireRule::PackedFixed(8), 2, true, &vec![8; 20]), Some(2 + 2 + 160));
    assert_eq!(field_size(WireRule::Packed, 1, true, &vec![1, 2, 3]), Some(1 + 1 + 6));
    assert_eq!(field_size(WireRule::Packed, 1, true, &vec![]), Some(0));
    assert_eq!(field_size(WireRule::Repeated, 1, true, &vec![1, 2, 3]), Some(9));
    assert_eq!(field_size(WireRule::Repeated, 2, true, &vec![]), Some(0));
    let entry = pb_rs::plan::entry_cost(1, 5).unwrap();
    assert_eq!(entry, 8);
    assert_eq!(pb_rs::plan::entry_cost(usize::MAX, 1), None);
    assert_eq!(field_size(WireRule::Entries, 1, true, &vec![entry, entry]), Some(2 * (1 + 1 + 8)));
    assert_eq!(field_size(WireRule::Repeated, 1, true, &vec![usize::MAX, 1]), None);
    assert_eq!(field_size(WireRule::PackedFixed(usize::MAX), 1, true, &vec![1, 1]), None);
}

fn colors() -> Enumerator {
    let mut e = Enumerator {
        name: "Color".to_string(),
        fields: vec![
            EnumField { name: "RED".to_string(), tag: 0, attributes: vec![] },
            EnumField { name: "BLUE".to_string(), tag: 5, attributes: vec![] },
        ],
        ..Enumerator::default()
    };
    e.set_package("shop.v1", "shop.v1");
    e
}

#[test]
fn enum_variants_are_qualified() {
    let e = colors();
    assert_eq!(e.package, "shop.v1");
    assert_eq!(
        e.partially_qualified_fields,
        vec![("Color::RED".to_string(), 0), ("Color::BLUE".to_string(), 5)]
    );
    assert_eq!(
        e.fully_qualified_fields,
        vec![("shop::v1::Color::RED".to_string(), 0), ("shop::v1::Color::BLUE".to_string(), 5)]
    );
    let mut bare = colors();
    bare.set_package("", "");
    assert_eq!(bare.fully_qualified_fields[1], ("Color::BLUE".to_string(), 5));
}

#[test]
fn module_paths() {
    let packaged = FileDescriptor { package: "a.b".to_string(), ..FileDescriptor::default() };
    let bare = FileDescriptor::default();
    assert_eq!(get_modules("a.b.mod_M", false, &packaged), "a::b::mod_M::");
    assert_eq!(get_modules("file.mod_M", false, &bare), "mod_M::");
    assert_eq!(get_modules("file.mod_M", true, &bare), "file::mod_M::");
    assert_eq!(get_modules("", false, &bare), "");
    assert_eq!(get_modules("a..b.", false, &packaged), "a::b::");
    assert_eq!(split_at_dots("a..b."), vec!["a", "", "b", ""]);
    assert_eq!(split_at_dots(""), vec![""]);
    assert_eq!(packaged.import_depth(), 2);
    assert_eq!(bare.import_depth(), 1);
    assert_eq!(split_package("a.b.c"), ("a.b".to_string(), "c".to_string()));
    assert_eq!(split_package("a"), ("".to_string(), "a".to_string()));
    assert_eq!(split_package(""), ("".to_string(), "".to_string()));
}

fn shop() -> FileDescriptor {
    let item = Message {
        name: "Item".to_string(),
        fields: vec![plain(FieldType::StringCow, Frequency::Optional, 1)],
        ..Message::default()
    };
    let cart = Message {
        name: "Cart".to_string(),
        fields: vec![plain(FieldType::MessageOrEnum("Item".to_string()), Frequency::Repeated, 1)],
        ..Message::default()
    };
    let plain_message = Message {
        name: "Count".to_string(),
        fields: vec![plain(FieldType::Int32, Frequency::Optional, 1)],
        ..Message::default()
    };
    let mut desc = FileDescriptor {
        package: "shop".to_string(),
        module: "shop".to_string(),
        messages: vec![item, cart, plain_message],
        enums: vec![Enumerator {
            name: "Color".to_string(),
            fields: vec![EnumField { name: "RED".to_string(), tag: 0, attributes: vec![] }],
            ..Enumerator::default()
        }],
        ..FileDescriptor::default()
    };
    desc.set_packages();
    desc.resolve_types().unwrap();
    desc
}

#[test]
fn type_texts() {
    let desc = shop();
    let config = settings();
    assert_eq!(FieldType::Sint32.rust_type(&desc, &config), "i32");
    assert_eq!(FieldType::Fixed64.rust_type(&desc, &config), "u64");
    assert_eq!(FieldType::BytesCow.rust_type(&desc, &config), "Cow<'a, [u8]>");
    assert_eq!(desc.messages[1].fields[0].typ.rust_type(&desc, &config), "shop::Item<'a>");
    let count = FieldType::Message(MessageIndex { indexes: vec![2] });
    assert_eq!(count.rust_type(&desc, &config), "shop::Count");
    let color = FieldType::Enum(EnumIndex { msg_index: MessageIndex::default(), index: 0 });
    assert_eq!(color.rust_type(&desc, &config), "shop::Color");
    let map = FieldType::Map_(Box::new(FieldType::StringCow), Box::new(count));
    assert_eq!(map.rust_type(&desc, &config), "KVMap<Cow<'a, str>, shop::Count>");
    assert_eq!(color.regular_default(&desc), Some("shop::Color::RED".to_string()));
    assert_eq!(FieldType::Bool.regular_default(&desc), Some("false".to_string()));
    assert_eq!(FieldType::StringCow.regular_default(&desc), Some("\"\"".to_string()));
    assert_eq!(FieldType::Bytes_.regular_default(&desc), Some("vec![]".to_string()));
    assert_eq!(map.regular_default(&desc), None);
}

#[test]
fn defaults_are_written_for_their_types() {
    let desc = shop();
    let config = settings();
    let text = |typ: FieldType, literal: &str| {
        let mut f = plain(typ, Frequency::Optional, 1);
        f.default = Some(literal.to_string());
        f.sanitize_default(&desc, &config);
        f.default.unwrap()
    };
    assert_eq!(text(FieldType::Int32, "5"), "5i32");
    assert_eq!(text(FieldType::Fixed32, "5"), "5u32");
    assert_eq!(text(FieldType::Uint64, "5"), "5u64");
    assert_eq!(text(FieldType::Sfixed64, "-5"), "-5i64");
    assert_eq!(text(FieldType::Float, "1.5"), "1.5f32");
    assert_eq!(text(FieldType::Float, "inf"), "::core::f32::INFINITY");
    assert_eq!(text(FieldType::Float, "INF"), "::core::f32::INFINITY");
    assert_eq!(text(FieldType::Double, "-Inf"), "::core::f64::NEG_INFINITY");
    assert_eq!(text(FieldType::Double, "NaN"), "::core::f64::NAN");
    assert_eq!(text(FieldType::Double, "2"), "2f64");
    assert_eq!(text(FieldType::StringCow, "\"a\""), "Cow::Borrowed(\"a\")");
    assert_eq!(text(FieldType::BytesCow, "\"a\""), "Cow::Borrowed(b\"a\")");
    assert_eq!(text(FieldType::String_, "\"a\""), "String::from(\"a\")");
    assert_eq!(text(FieldType::Bytes_, "\"a\""), "b\"a\".to_vec()");
    assert_eq!(text(FieldType::Bool, "true"), "true");
    let color = FieldType::Enum(EnumIndex { msg_index: MessageIndex::default(), index: 0 });
    assert_eq!(text(color, "RED"), "shop::Color::RED");
    let mut none = plain(FieldType::Int32, Frequency::Optional, 1);
    none.sanitize_default(&desc, &config);
    assert!(none.default.is_none());
    assert!(none.has_regular_default(&desc));
    none.default = Some("0i32".to_string());
    assert!(none.has_regular_default(&desc));
    none.default = Some("1i32".to_string());
    assert!(!none.has_regular_default(&desc));
}

#[test]
fn borrowing_is_found_through_messages() {
    let desc = shop();
    let config = settings();
    assert!(desc.messages[0].has_lifetime(&desc, &config, &mut vec![]));
    assert!(desc.messages[1].has_lifetime(&desc, &config, &mut vec![]));
    assert!(!desc.messages[2].has_lifetime(&desc, &config, &mut vec![]));
    assert!(desc.messages[1].is_lifetime_bound(&desc, &config));
    let mut owned = settings();
    owned.dont_use_cow = true;
    assert!(!desc.messages[1].is_lifetime_bound(&desc, &owned));
    let mut ignore = vec![MessageIndex { indexes: vec![0] }];
    assert!(!desc.messages[1].has_lifetime(&desc, &config, &mut ignore));
    assert_eq!(ignore.len(), 1);
    assert!(FieldType::Fixed32.has_lifetime(&desc, &config, true, &mut vec![]));
    assert!(!FieldType::Fixed32.has_lifetime(&desc, &config, false, &mut vec![]));
    assert!(!FieldType::Int32.has_lifetime(&desc, &config, true, &mut vec![]));
    let map = FieldType::Map_(Box::new(FieldType::Int32), Box::new(FieldType::BytesCow));
    assert!(map.has_lifetime(&desc, &config, false, &mut vec![]));
    let choice = OneOf {
        name: "choice".to_string(),
        fields: vec![plain(FieldType::Message(MessageIndex { indexes: vec![0] }), Frequency::Optional, 1)],
        ..OneOf::default()
    };
    assert!(choice.has_lifetime(&desc, &config));
}

#[test]
fn borrowing_search_ends_in_a_cycle() {
    let a = Message {
        name: "A".to_string(),
        fields: vec![plain(FieldType::MessageOrEnum("B".to_string()), Frequency::Optional, 1)],
        ..Message::default()
    };
    let b = Message {
        name: "B".to_string(),
        fields: vec![
            plain(FieldType::MessageOrEnum("A".to_string()), Frequency::Optional, 1),
            plain(FieldType::Int32, Frequency::Optional, 2),
        ],
        ..Message::default()
    };
    let mut desc = FileDescriptor {
        module: "file".to_string(),
        messages: vec![a, b],
        ..FileDescriptor::default()
    };
    desc.set_packages();
    desc.resolve_types().unwrap();
    assert!(!desc.messages[0].has_lifetime(&desc, &settings(), &mut vec![]));
    desc.messages[1].fields[1].typ = FieldType::StringCow;
    assert!(desc.messages[0].has_lifetime(&desc, &settings(), &mut vec![]));
    desc.messages[1].fields[1].deprecated = true;
    assert!(!desc.messages[0].has_lifetime(&desc, &settings(), &mut vec![]));
}

#[test]
fn imports_follow_the_fields() {
    let desc = shop();
    let config = settings();
    assert_eq!(
        Message::common_uses(&desc.messages, &desc, &config),
        CommonUses { vec: false, cow: true, to_owned: false, boxed: false, map: false }
    );
    let mut bare = settings();
    bare.nostd = true;
    bare.dont_use_cow = true;
    let mut other = shop();
    other.messages[2].fields[0].typ = FieldType::Bytes_;
    other.messages[2].fields[0].boxed = true;
    other.messages[0].fields[0].typ =
        FieldType::Map_(Box::new(FieldType::Int32), Box::new(FieldType::Int32));
    assert_eq!(
        Message::common_uses(&other.messages, &other, &bare),
        CommonUses { vec: true, cow: false, to_owned: true, boxed: true, map: true }
    );
    other.messages[0].imported = true;
    assert!(!Message::common_uses(&other.messages, &other, &bare).map);
    assert!(!desc.all_units());
    assert!(FileDescriptor { messages: vec![Message::default()], ..FileDescriptor::default() }
        .all_units());
    assert!(Message::default().is_unit());
    assert!(!desc.messages[0].is_unit());
}

#[test]
fn file_names() {
    assert_eq!(get_file_stem("my-file.v1"), "my_file_v1");
    assert_eq!(get_file_stem("données_2"), "données_2");
    assert_eq!(get_file_stem(""), "");
    assert!(extension_matches(Some("proto"), "proto").is_ok());
    assert_eq!(
        extension_matches(Some("txt"), "proto"),
        Err("Expected path with extension 'proto', not: 'txt'".to_string())
    );
    assert_eq!(
        extension_matches(None, "rs"),
        Err("Expected path with extension 'rs'".to_string())
    );
}

#[test]
fn fields_with_their_own_default_are_listed() {
    let desc = shop();
    let mut m = Message {
        name: "M".to_string(),
        fields: vec![
            plain(FieldType::Int32, Frequency::Optional, 1),
            plain(FieldType::Int32, Frequency::Optional, 2),
            plain(FieldType::Bool, Frequency::Optional, 3),
        ],
        ..Message::default()
    };
    m.fields[0].default = Some("0i32".to_string());
    m.fields[1].default = Some("4i32".to_string());
    m.fields[1].name = "four".to_string();
    m.fields[2].default = Some("true".to_string());
    m.fields[2].name = "yes".to_string();
    let names: Vec<String> =
        m.unregular_defaults(&desc).iter().map(|f| f.name.clone()).collect();
    assert_eq!(names, vec!["four", "yes"]);
}
