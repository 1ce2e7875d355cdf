use pb_rs::errors::Error;
use pb_rs::model::{
    Config, EnumField, Enumerator, Field, FieldType, FileDescriptor, Frequency, Message,
    MessageIndex, OneOf, Syntax,
};

fn options() -> Config {
    Config {
        in_file: "in.proto".to_string(),
        out_file: "out.rs".to_string(),
        single_module: false,
        import_search_path: vec![],
        no_output: false,
        error_cycle: false,
        headers: true,
        dont_use_cow: false,
        custom_repr: None,
        default_custom_struct_derive: String::new(),
        custom_struct_derive: vec![],
        custom_includes: vec![],
        owned: false,
        nostd: false,
        hashbrown: false,
        gen_info: false,
        add_deprecated_fields: false,
    }
}

fn reserved_words() -> Vec<String> {
    vec!["type".to_string(), "mod".to_string(), "match".to_string()]
}

fn entry(name: &str, typ: FieldType, frequency: Frequency, number: i32) -> Field {
    Field {
        name: name.to_string(),
        frequency,
        typ,
        number,
        default: None,
        packed: None,
        boxed: false,
        deprecated: false,
        attributes: vec![],
    }
}

fn named(name: &str) -> FieldType {
    FieldType::MessageOrEnum(name.to_string())
}

fn record(name: &str, fields: Vec<Field>) -> Message {
    Message { name: name.to_string(), fields, ..Message::default() }
}

fn level() -> Enumerator {
    Enumerator {
        name: "Level".to_string(),
        fields: vec![
            EnumField { name: "LOW".to_string(), tag: 0, attributes: vec![] },
            EnumField { name: "HIGH".to_string(), tag: 1, attributes: vec![] },
        ],
        ..Enumerator::default()
    }
}

fn schema(syntax: Syntax, messages: Vec<Message>) -> FileDescriptor {
    let mut desc = FileDescriptor {
        package: "demo".to_string(),
        syntax,
        messages,
        enums: vec![level()],
        ..FileDescriptor::default()
    };
    desc.set_source("demo.proto", None, "demo");
    desc.set_packages();
    desc
}

#[test]
fn empty_file_is_refused() {
    let mut desc = FileDescriptor::default();
    assert!(matches!(desc.prepare(&options(), &reserved_words()), Err(Error::EmptyRead)));
    let mut only_enum = FileDescriptor { enums: vec![level()], ..FileDescriptor::default() };
    assert!(only_enum.prepare(&options(), &reserved_words()).is_ok());
}

#[test]
fn whole_pipeline_on_a_small_schema() {
    let mut with_default = entry("level", named("Level"), Frequency::Optional, 3);
    with_default.default = Some("HIGH".to_string());
    let mut count = entry("count", FieldType::Int32, Frequency::Optional, 4);
    count.default = Some("3".to_string());
    let mut names = entry("names", FieldType::StringCow, Frequency::Repeated, 5);
    names.packed = Some(true);
    let user = record(
        "User",
        vec![
            entry("friend", named("User"), Frequency::Optional, 1),
            entry(
                "tags",
                FieldType::Map_(Box::new(FieldType::StringCow), Box::new(named("Level"))),
                Frequency::Optional,
                2,
            ),
            with_default,
            count,
            names,
            entry("scores", FieldType::Fixed32, Frequency::Repeated, 6),
        ],
    );
    let mut desc = schema(Syntax::Proto3, vec![user]);
    let mut config = options();
    config.owned = true;
    assert!(desc.prepare(&config, &reserved_words()).is_ok());
    let fields = &desc.messages[0].fields;
    assert!(desc.owned);
    assert_eq!(desc.module, "demo");
    assert_eq!(desc.messages[0].path, "demo.proto");
    assert!(matches!(fields[0].typ, FieldType::Message(_)));
    assert!(fields[0].boxed);
    assert_eq!(fields[1].frequency, Frequency::Required);
    assert!(matches!(&fields[1].typ, FieldType::Map_(_, v) if matches!(**v, FieldType::Enum(_))));
    assert_eq!(fields[2].default.as_deref(), Some("demo::Level::HIGH"));
    assert_eq!(fields[3].default.as_deref(), Some("3i32"));
    assert_eq!(fields[4].packed, None);
    assert_eq!(fields[5].packed, Some(true));
    assert_eq!(desc.package, "demo");
    assert_eq!(desc.enums[0].fully_qualified_fields[0].0, "demo::Level::LOW");
}

#[test]
fn proto2_does_not_pack_by_itself() {
    let m = record("M", vec![entry("scores", FieldType::Fixed32, Frequency::Repeated, 1)]);
    let mut desc = schema(Syntax::Proto2, vec![m]);
    assert!(desc.prepare(&options(), &reserved_words()).is_ok());
    assert_eq!(desc.messages[0].fields[0].packed, None);
}

#[test]
fn single_module_drops_the_package() {
    let m = record("M", vec![entry("s", FieldType::StringCow, Frequency::Optional, 1)]);
    let mut desc = schema(Syntax::Proto3, vec![m]);
    let mut config = options();
    config.single_module = true;
    config.dont_use_cow = true;
    assert!(desc.prepare(&config, &reserved_words()).is_ok());
    assert_eq!(desc.package, "");
    assert!(matches!(desc.messages[0].fields[0].typ, FieldType::String_));
}

#[test]
fn borrowed_types_become_owned() {
    let mut m = record(
        "M",
        vec![
            entry("s", FieldType::StringCow, Frequency::Optional, 1),
            entry(
                "m",
                FieldType::Map_(Box::new(FieldType::StringCow), Box::new(FieldType::BytesCow)),
                Frequency::Optional,
                2,
            ),
            entry("n", FieldType::Int32, Frequency::Optional, 3),
        ],
    );
    m.messages.push(record("Inner", vec![entry("b", FieldType::BytesCow, Frequency::Optional, 1)]));
    m.oneofs.push(OneOf {
        name: "pick".to_string(),
        fields: vec![entry("t", FieldType::StringCow, Frequency::Optional, 4)],
        ..OneOf::default()
    });
    let mut desc = schema(Syntax::Proto3, vec![m]);
    desc.convert_cow_to_owned();
    let m = &desc.messages[0];
    assert!(matches!(m.fields[0].typ, FieldType::String_));
    assert!(matches!(
        &m.fields[1].typ,
        FieldType::Map_(k, v) if matches!(**k, FieldType::String_) && matches!(**v, FieldType::Bytes_)
    ));
    assert!(matches!(m.fields[2].typ, FieldType::Int32));
    assert!(matches!(m.messages[0].fields[0].typ, FieldType::Bytes_));
    assert!(matches!(m.oneofs[0].fields[0].typ, FieldType::String_));
    assert_eq!(m.all_fields().len(), 4);
    assert_eq!(m.all_fields()[3].name, "t");
    let mut one = desc.messages[0].clone();
    one.convert_field_types(&FieldType::Int32, &FieldType::Int64);
    assert!(matches!(one.fields[2].typ, FieldType::Int64));
    assert!(matches!(desc.messages[0].fields[2].typ, FieldType::Int32));
}

#[test]
fn reserved_names_and_numbers_are_refused() {
    let mut by_name = record("M", vec![entry("old", FieldType::Int32, Frequency::Optional, 1)]);
    by_name.reserved_names = Some(vec!["older".to_string(), "old".to_string()]);
    let mut desc = schema(Syntax::Proto3, vec![by_name]);
    match desc.prepare(&options(), &reserved_words()) {
        Err(Error::InvalidMessage(text)) => {
            assert_eq!(text, "Error in message M\nField old conflict with reserved fields")
        }
        other => panic!("unexpected: {:?}", other),
    }
    let mut by_number = record("M", vec![entry("x", FieldType::Int32, Frequency::Optional, 7)]);
    by_number.reserved_nums = Some(vec![6, 7]);
    by_number.oneofs.push(OneOf {
        name: "pick".to_string(),
        fields: vec![entry("y", FieldType::Int32, Frequency::Optional, 6)],
        ..OneOf::default()
    });
    let mut desc = schema(Syntax::Proto3, vec![by_number]);
    assert!(matches!(desc.sanity_checks(), Err(Error::InvalidMessage(_))));
    desc.messages[0].reserved_nums = Some(vec![6]);
    match desc.sanity_checks() {
        Err(Error::InvalidMessage(text)) => assert!(text.contains("Field y ")),
        other => panic!("unexpected: {:?}", other),
    }
    desc.messages[0].reserved_nums = Some(vec![5]);
    assert!(desc.sanity_checks().is_ok());
}

#[test]
fn default_must_name_a_variant() {
    let mut bad = entry("level", named("Level"), Frequency::Optional, 1);
    bad.default = Some("MIDDLE".to_string());
    let mut desc = schema(Syntax::Proto2, vec![record("M", vec![bad])]);
    match desc.prepare(&options(), &reserved_words()) {
        Err(Error::InvalidDefaultEnum(text)) => assert_eq!(
            text,
            "Error in message M\nEnum field level has a default value 'MIDDLE' which is not valid for its enum"
        ),
        other => panic!("unexpected: {:?}", other),
    }
}

#[test]
fn message_fields_cannot_have_a_default() {
    let mut bad = entry("other", named("N"), Frequency::Optional, 1);
    bad.default = Some("x".to_string());
    let mut desc = schema(Syntax::Proto2, vec![record("M", vec![bad]), record("N", vec![])]);
    match desc.prepare(&options(), &reserved_words()) {
        Err(Error::InvalidMessage(text)) => assert_eq!(
            text,
            "Error in message M\nField other is a message or a map and cannot have a default value"
        ),
        other => panic!("unexpected: {:?}", other),
    }
}

#[test]
fn boolean_default_must_be_a_boolean() {
    let mut bad = entry("flag", FieldType::Bool, Frequency::Optional, 1);
    bad.default = Some("yes".to_string());
    let mut inner = record("Inner", vec![bad]);
    inner.fields[0].name = "deep".to_string();
    let mut outer = record("Outer", vec![]);
    outer.messages.push(inner);
    let mut desc = schema(Syntax::Proto2, vec![outer]);
    match desc.prepare(&options(), &reserved_words()) {
        Err(Error::InvalidMessage(text)) => assert_eq!(
            text,
            "Error in message Inner\nField deep has a default value 'yes' which is not a boolean"
        ),
        other => panic!("unexpected: {:?}", other),
    }
    let mut good = entry("flag", FieldType::Bool, Frequency::Optional, 1);
    good.default = Some("false".to_string());
    let mut desc = schema(Syntax::Proto2, vec![record("M", vec![good])]);
    assert!(desc.prepare(&options(), &reserved_words()).is_ok());
    assert_eq!(desc.messages[0].fields[0].default.as_deref(), Some("false"));
}

#[test]
fn unknown_type_ends_the_pipeline() {
    let m = record("M", vec![entry("x", named("Nowhere"), Frequency::Optional, 1)]);
    let mut desc = schema(Syntax::Proto3, vec![m]);
    match desc.prepare(&options(), &reserved_words()) {
        Err(Error::MessageOrEnumNotFound(name)) => assert_eq!(name, "Nowhere"),
        other => panic!("unexpected: {:?}", other),
    }
}

#[test]
fn strict_mode_ends_the_pipeline() {
    let a = record("A", vec![entry("b", named("B"), Frequency::Required, 1)]);
    let b = record("B", vec![entry("a", named("A"), Frequency::Required, 1)]);
    let mut desc = schema(Syntax::Proto2, vec![a, b]);
    let mut strict = options();
    strict.error_cycle = true;
    match desc.prepare(&strict, &reserved_words()) {
        Err(Error::Cycle(names)) => assert_eq!(names, vec!["A", "B"]),
        other => panic!("unexpected: {:?}", other),
    }
}

#[test]
fn batch_stops_at_the_first_failure() {
    let good = || schema(Syntax::Proto3, vec![record("M", vec![])]);
    let bad = schema(
        Syntax::Proto3,
        vec![record("M", vec![entry("x", named("Nowhere"), Frequency::Optional, 1)])],
    );
    let mut files = vec![good(), bad, good()];
    let configs = vec![options(), options(), options()];
    assert!(matches!(
        FileDescriptor::run(&mut files, &configs, &reserved_words()),
        Err(Error::MessageOrEnumNotFound(_))
    ));
    assert_eq!(files[0].messages[0].index.indexes, vec![0]);
    assert!(files[2].messages[0].index.indexes.is_empty());
    let mut fine = vec![good(), good()];
    assert!(FileDescriptor::run(&mut fine, &vec![options(), options()], &reserved_words()).is_ok());
    assert_eq!(fine[1].messages[0].index.indexes, vec![0]);
}

#[test]
fn packages_reach_nested_declarations() {
    let mut outer = record("Outer", vec![]);
    let mut inner = record("Inner", vec![]);
    inner.enums.push(level());
    inner.oneofs.push(OneOf { name: "pick".to_string(), ..OneOf::default() });
    outer.messages.push(inner);
    let mut desc = FileDescriptor {
        package: "a.b".to_string(),
        messages: vec![outer],
        ..FileDescriptor::default()
    };
    desc.set_source("dir/x.proto", Some("x.proto"), "x");
    desc.set_packages();
    assert_eq!(desc.module, "a.b");
    let outer = &desc.messages[0];
    assert_eq!(outer.import, "x.proto");
    assert_eq!((outer.package.as_str(), outer.module.as_str()), ("a.b", "a.b"));
    let inner = &outer.messages[0];
    assert_eq!((inner.package.as_str(), inner.module.as_str()), ("a.b.Outer", "a.b.mod_Outer"));
    assert_eq!(inner.enums[0].package, "a.b.Outer.Inner");
    assert_eq!(inner.enums[0].module, "a.b.mod_Outer.mod_Inner");
    assert_eq!(inner.oneofs[0].module, "a.b.mod_Outer.mod_Inner");
    assert_eq!(
        inner.enums[0].fully_qualified_fields[1].0,
        "a::b::mod_Outer::mod_Inner::Level::HIGH"
    );
    let mut bare = FileDescriptor {
        messages: vec![record("Top", vec![])],
        ..FileDescriptor::default()
    };
    bare.messages[0].messages.push(record("Sub", vec![]));
    bare.set_source("dir/my.proto", None, "my");
    bare.set_packages();
    assert_eq!(bare.module, "my");
    assert_eq!(bare.messages[0].package, "");
    assert_eq!(bare.messages[0].module, "my");
    assert_eq!(bare.messages[0].messages[0].package, "Top");
    assert_eq!(bare.messages[0].messages[0].module, "my.mod_Top");
    let copy = bare.clone();
    assert_eq!(copy.messages[0].messages[0].module, "my.mod_Top");
    bare.messages[0].set_imported();
    assert!(bare.messages[0].messages[0].imported);
    assert!(!copy.messages[0].messages[0].imported);
}

#[test]
fn keywords_get_a_suffix() {
    let mut name = "type".to_string();
    pb_rs::names::sanitize_keyword(&mut name, &reserved_words());
    assert_eq!(name, "type_pb");
    let mut dotted = "a.mod.b.match".to_string();
    pb_rs::names::sanitize_keyword(&mut dotted, &reserved_words());
    assert_eq!(dotted, "a.mod_pb.b.match_pb");
    let mut plain = "types.model".to_string();
    pb_rs::names::sanitize_keyword(&mut plain, &reserved_words());
    assert_eq!(plain, "types.model");
    let mut empty = String::new();
    pb_rs::names::sanitize_keyword(&mut empty, &reserved_words());
    assert_eq!(empty, "");
    let mut inner = record("match", vec![entry("mod", FieldType::Int32, Frequency::Optional, 1)]);
    inner.enums.push(Enumerator {
        name: "type".to_string(),
        fields: vec![EnumField { name: "mod".to_string(), tag: 0, attributes: vec![] }],
        ..Enumerator::default()
    });
    inner.oneofs.push(OneOf {
        name: "type".to_string(),
        fields: vec![entry("match", FieldType::Int32, Frequency::Optional, 2)],
        ..OneOf::default()
    });
    let mut outer = record("Outer", vec![entry("type", FieldType::Int32, Frequency::Optional, 1)]);
    outer.messages.push(inner);
    let mut desc = FileDescriptor {
        package: "mod".to_string(),
        messages: vec![outer],
        ..FileDescriptor::default()
    };
    desc.set_source("x.proto", None, "x");
    desc.set_packages();
    assert!(desc.prepare(&options(), &reserved_words()).is_ok());
    let outer = &desc.messages[0];
    assert_eq!(outer.fields[0].name, "type_pb");
    assert_eq!(outer.package, "mod_pb");
    assert_eq!(outer.module, "mod");
    let inner = &outer.messages[0];
    assert_eq!(inner.name, "match_pb");
    assert_eq!(inner.package, "mod_pb.Outer");
    assert_eq!(inner.fields[0].name, "mod_pb");
    assert_eq!(inner.enums[0].name, "type_pb");
    assert_eq!(inner.enums[0].fields[0].name, "mod_pb");
    assert_eq!(inner.oneofs[0].name, "type_pb");
    assert_eq!(inner.oneofs[0].fields[0].name, "match_pb");
}

fn inner_message() -> FieldType {
    FieldType::Message(MessageIndex { indexes: vec![0, 0] })
}

fn nested_schema(syntax: Syntax, link: FieldType) -> FileDescriptor {
    let mut kept = entry("kept", FieldType::Int64, Frequency::Repeated, 3);
    kept.packed = Some(false);
    let mut texts = entry("texts", FieldType::StringCow, Frequency::Repeated, 4);
    texts.packed = Some(true);
    let mut inner = record(
        "Inner",
        vec![
            entry("ids", FieldType::Int32, Frequency::Repeated, 1),
            entry(
                "by_name",
                FieldType::Map_(Box::new(FieldType::StringCow), Box::new(FieldType::Int32)),
                Frequency::Optional,
                2,
            ),
            kept,
            texts,
        ],
    );
    let mut blobs = entry("blobs", FieldType::BytesCow, Frequency::Repeated, 6);
    blobs.packed = Some(true);
    inner.oneofs.push(OneOf {
        name: "pick".to_string(),
        fields: vec![entry("one", FieldType::Int32, Frequency::Optional, 5), blobs],
        ..OneOf::default()
    });
    let mut links = entry("links", link, Frequency::Repeated, 1);
    links.packed = Some(true);
    let mut deepest = record("Deepest", vec![links]);
    deepest.fields.push(entry("flags", FieldType::Bool, Frequency::Repeated, 2));
    let mut middle = record("Middle", vec![entry("sizes", FieldType::Fixed64, Frequency::Repeated, 1)]);
    middle.messages.push(deepest);
    let mut outer = record("Outer", vec![entry("top", FieldType::Sint32, Frequency::Repeated, 1)]);
    outer.messages.push(inner);
    outer.messages.push(middle);
    schema(syntax, vec![outer])
}

#[test]
fn defaults_reach_nested_messages_under_proto3() {
    let mut desc = nested_schema(Syntax::Proto3, inner_message());
    assert!(desc.set_defaults(&options()).is_ok());
    let outer = &desc.messages[0];
    assert_eq!(outer.fields[0].packed, Some(true));
    let inner = &outer.messages[0];
    assert_eq!(inner.fields[0].packed, Some(true));
    assert_eq!(inner.fields[1].frequency, Frequency::Required);
    assert_eq!(inner.fields[1].packed, None);
    assert_eq!(inner.fields[2].packed, Some(false));
    assert_eq!(inner.fields[3].packed, None);
    assert_eq!(inner.oneofs[0].fields[0].packed, None);
    assert_eq!(inner.oneofs[0].fields[0].frequency, Frequency::Optional);
    assert_eq!(inner.oneofs[0].fields[1].packed, None);
    let middle = &outer.messages[1];
    assert_eq!(middle.fields[0].packed, Some(true));
    let deepest = &middle.messages[0];
    assert_eq!(deepest.fields[0].packed, None);
    assert_eq!(deepest.fields[0].frequency, Frequency::Repeated);
    assert_eq!(deepest.fields[1].packed, Some(true));
}

#[test]
fn defaults_reach_nested_messages_under_proto2() {
    let mut desc = nested_schema(Syntax::Proto2, inner_message());
    assert!(desc.set_defaults(&options()).is_ok());
    let outer = &desc.messages[0];
    assert_eq!(outer.fields[0].packed, None);
    let inner = &outer.messages[0];
    assert_eq!(inner.fields[0].packed, None);
    assert_eq!(inner.fields[1].frequency, Frequency::Required);
    assert_eq!(inner.fields[2].packed, Some(false));
    assert_eq!(inner.fields[3].packed, None);
    assert_eq!(inner.oneofs[0].fields[1].packed, None);
    let deepest = &outer.messages[1].messages[0];
    assert_eq!(deepest.fields[0].packed, None);
    assert_eq!(deepest.fields[1].packed, None);
}

#[test]
fn packing_of_one_message_goes_down() {
    let mut desc = nested_schema(Syntax::Proto3, inner_message());
    let outer = &mut desc.messages[0];
    outer.set_repeated_as_packed();
    assert_eq!(outer.fields[0].packed, Some(true));
    assert_eq!(outer.messages[0].fields[0].packed, Some(true));
    assert_eq!(outer.messages[0].fields[2].packed, Some(false));
    assert_eq!(outer.messages[1].messages[0].fields[1].packed, Some(true));
    assert_eq!(outer.messages[1].messages[0].fields[0].packed, Some(true));
    outer.unset_packed_non_primitives();
    assert_eq!(outer.messages[0].fields[3].packed, None);
    assert_eq!(outer.messages[0].oneofs[0].fields[1].packed, None);
    assert_eq!(outer.messages[1].messages[0].fields[0].packed, None);
    assert_eq!(outer.messages[1].messages[0].fields[1].packed, Some(true));
    assert_eq!(outer.messages[0].fields[0].packed, Some(true));
}

#[test]
fn prepared_file_has_nested_fields_settled() {
    let mut desc = nested_schema(Syntax::Proto3, named("Inner"));
    assert!(desc.prepare(&options(), &reserved_words()).is_ok());
    let inner = &desc.messages[0].messages[0];
    assert_eq!(inner.fields[0].packed, Some(true));
    assert_eq!(inner.fields[1].frequency, Frequency::Required);
    let deepest = &desc.messages[0].messages[1].messages[0];
    assert!(matches!(deepest.fields[0].typ, FieldType::Message(_)));
    assert_eq!(deepest.fields[0].packed, None);
    assert_eq!(deepest.fields[1].packed, Some(true));
}

#[test]
fn reserved_names_are_refused_in_nested_messages() {
    let mut inner = record("Inner", vec![entry("gone", FieldType::Int32, Frequency::Optional, 1)]);
    inner.reserved_names = Some(vec!["gone".to_string()]);
    let mut second = record("Second", vec![entry("n", FieldType::Int32, Frequency::Optional, 9)]);
    second.reserved_nums = Some(vec![9]);
    let mut outer = record("Outer", vec![entry("fine", FieldType::Int32, Frequency::Optional, 1)]);
    outer.messages.push(inner);
    let mut desc = schema(Syntax::Proto3, vec![outer, second]);
    match desc.sanity_checks() {
        Err(Error::InvalidMessage(text)) => {
            assert_eq!(text, "Error in message Inner\nField gone conflict with reserved fields")
        }
        other => panic!("unexpected: {:?}", other),
    }
    desc.messages[0].messages[0].reserved_names = None;
    match desc.sanity_checks() {
        Err(Error::InvalidMessage(text)) => {
            assert_eq!(text, "Error in message Second\nField n conflict with reserved fields")
        }
        other => panic!("unexpected: {:?}", other),
    }
    desc.messages[1].reserved_nums = None;
    assert!(desc.sanity_checks().is_ok());
    desc.messages[0].messages[0].reserved_nums = Some(vec![1]);
    assert!(matches!(
        desc.prepare(&options(), &reserved_words()),
        Err(Error::InvalidMessage(_))
    ));
}

#[test]
fn failed_pipeline_leaves_what_the_steps_before_made() {
    let mut config = options();
    config.owned = true;
    config.error_cycle = true;
    config.dont_use_cow = true;

    let mut empty = FileDescriptor::default();
    assert!(matches!(empty.prepare(&config, &reserved_words()), Err(Error::EmptyRead)));
    assert!(empty.owned);

    let mut inner = record("Inner", vec![entry("x", named("Nowhere"), Frequency::Optional, 1)]);
    inner.fields.push(entry("text", FieldType::StringCow, Frequency::Optional, 2));
    let mut outer = record("Outer", vec![entry("i", named("Inner"), Frequency::Optional, 1)]);
    outer.messages.push(inner);
    let mut missing = schema(Syntax::Proto3, vec![outer]);
    match missing.prepare(&config, &reserved_words()) {
        Err(Error::MessageOrEnumNotFound(name)) => assert_eq!(name, "Nowhere"),
        other => panic!("unexpected: {:?}", other),
    }
    assert!(missing.owned);
    assert_eq!(missing.messages[0].messages[0].index.indexes, vec![0, 0]);
    assert!(matches!(missing.messages[0].fields[0].typ, FieldType::MessageOrEnum(_)));
    assert!(matches!(missing.messages[0].messages[0].fields[1].typ, FieldType::StringCow));

    let a = record(
        "A",
        vec![
            entry("b", named("B"), Frequency::Required, 1),
            entry("text", FieldType::StringCow, Frequency::Optional, 2),
        ],
    );
    let b = record(
        "B",
        vec![
            entry("a", named("A"), Frequency::Optional, 1),
            entry("ids", FieldType::Int32, Frequency::Repeated, 2),
        ],
    );
    let mut cyclic = schema(Syntax::Proto3, vec![a, b]);
    match cyclic.prepare(&config, &reserved_words()) {
        Err(Error::Cycle(names)) => assert_eq!(names, vec!["A".to_string(), "B".to_string()]),
        other => panic!("unexpected: {:?}", other),
    }
    assert!(matches!(cyclic.messages[0].fields[0].typ, FieldType::Message(_)));
    assert!(!cyclic.messages[0].fields[0].boxed);
    assert_eq!(cyclic.messages[0].fields[0].frequency, Frequency::Required);
    assert!(cyclic.messages[1].fields[0].boxed);
    assert!(matches!(cyclic.messages[0].fields[1].typ, FieldType::StringCow));
    assert_eq!(cyclic.messages[1].fields[1].packed, None);

    let mut flag = entry("flag", FieldType::Bool, Frequency::Optional, 1);
    flag.default = Some("yes".to_string());
    let plain = record(
        "Plain",
        vec![flag, entry("text", FieldType::StringCow, Frequency::Optional, 2)],
    );
    let mut bad = schema(Syntax::Proto3, vec![plain]);
    assert!(matches!(bad.prepare(&config, &reserved_words()), Err(Error::InvalidMessage(_))));
    assert!(matches!(bad.messages[0].fields[1].typ, FieldType::String_));
    assert_eq!(bad.messages[0].fields[0].default, Some("yes".to_string()));

    let mut reserved = record("Kept", vec![entry("text", FieldType::StringCow, Frequency::Optional, 2)]);
    reserved.reserved_nums = Some(vec![2]);
    let mut faulty = schema(Syntax::Proto3, vec![reserved]);
    assert!(matches!(faulty.prepare(&config, &reserved_words()), Err(Error::InvalidMessage(_))));
    assert!(matches!(faulty.messages[0].fields[0].typ, FieldType::StringCow));
}

#[test]
fn failing_file_of_a_batch_keeps_what_was_done() {
    let good = || schema(Syntax::Proto3, vec![record("Fine", vec![entry("n", FieldType::Int32, Frequency::Repeated, 1)])]);
    let bad = schema(
        Syntax::Proto3,
        vec![record("Broken", vec![entry("x", named("Nowhere"), Frequency::Optional, 1)])],
    );
    let mut files = vec![good(), bad, good()];
    let configs = vec![options(), options(), options()];
    match FileDescriptor::run(&mut files, &configs, &reserved_words()) {
        Err(Error::MessageOrEnumNotFound(name)) => assert_eq!(name, "Nowhere"),
        other => panic!("unexpected: {:?}", other),
    }
    assert_eq!(files.len(), 3);
    assert_eq!(files[0].messages[0].fields[0].packed, Some(true));
    assert_eq!(files[0].messages[0].index.indexes, vec![0]);
    assert_eq!(files[1].messages[0].index.indexes, vec![0]);
    assert!(matches!(files[1].messages[0].fields[0].typ, FieldType::MessageOrEnum(_)));
    assert_eq!(files[2].messages[0].fields[0].packed, None);
    assert!(files[2].messages[0].index.indexes.is_empty());
}
