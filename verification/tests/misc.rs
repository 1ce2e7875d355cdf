use pb_rs::errors::Error;
use pb_rs::model::{Config, Field, FieldType, FileDescriptor, Frequency, OneOf};
use pb_rs::modfile::{line_holds, line_names_module, update_mod_file};
use pb_rs::names::{rust_keywords, sanitize_keyword};
use pb_rs::options::{choose_output, file_module, found_import, output_stem, parse_derive};
use pb_rs::typetext::{float_default_from, float_default_text};

#[test]
fn module_index_is_extended_once() {
    let header = "// Automatically generated mod.rs".to_string();
    assert_eq!(
        update_mod_file(None, "demo"),
        Some("// Automatically generated mod.rs\npub mod demo;\n".to_string())
    );
    let ours = vec![header.clone(), "pub mod other;".to_string()];
    assert_eq!(update_mod_file(Some(&ours), "demo"), Some("pub mod demo;\n".to_string()));
    let listed = vec![header.clone(), "pub mod other;".to_string(), "pub mod demo;".to_string()];
    assert_eq!(update_mod_file(Some(&listed), "demo"), None);
    let foreign = vec!["// my own file".to_string()];
    assert_eq!(update_mod_file(Some(&foreign), "demo"), None);
    let empty: Vec<String> = vec![];
    assert_eq!(update_mod_file(Some(&empty), "demo"), Some("pub mod demo;\n".to_string()));
    let longer = vec![header, "pub mod demonstration;".to_string()];
    assert_eq!(update_mod_file(Some(&longer), "demo"), Some("pub mod demo;\n".to_string()));
}

#[test]
fn lines_of_a_module_index() {
    assert!(line_names_module("pub mod demo;", "demo"));
    assert!(line_names_module("    pub mod demo;", "demo"));
    assert!(!line_names_module("pub mod demo", "demo"));
    assert!(!line_names_module("pub mod ", "demo"));
    assert!(!line_names_module("mod demo;", "demo"));
    assert!(!line_names_module("pub mod demos;", "demo"));
    assert!(line_names_module("pub mod ;", ""));
    assert!(line_holds("abc // Automatically generated mod.rs!", "// Automatically generated mod.rs"));
    assert!(!line_holds("// Automatically generated mod", "// Automatically generated mod.rs"));
    assert!(line_holds("abc", "c"));
    assert!(line_holds("abc", "abc"));
    assert!(!line_holds("abc", "abcd"));
    assert!(!line_holds("", ""));
}

#[test]
fn derive_arguments() {
    assert_eq!(parse_derive("Hash,Eq"), (None, "Hash, Eq, ".to_string()));
    assert_eq!(
        parse_derive("demo.M=Hash,Eq"),
        (Some("demo.M".to_string()), "Hash, Eq, ".to_string())
    );
    assert_eq!(parse_derive("a=b=c"), (Some("a".to_string()), "b=c, ".to_string()));
    assert_eq!(parse_derive(""), (None, ", ".to_string()));
    assert_eq!(parse_derive("=X"), (Some("".to_string()), "X, ".to_string()));
}

#[test]
fn messages_of_errors() {
    assert_eq!(Error::NoProto.message(), "No .proto file provided");
    assert_eq!(
        Error::InputFile("a.proto".to_string()).message(),
        "Cannot read input file 'a.proto'"
    );
    assert_eq!(
        Error::InvalidMessage("x".to_string()).message(),
        "Message checks errored: x\r\nProto definition might be invalid or something got wrong in the parsing"
    );
    assert_eq!(
        Error::MessageOrEnumNotFound("T".to_string()).message(),
        "Could not find message or enum T"
    );
    assert_eq!(
        Error::InvalidDefaultEnum("V".to_string()).message(),
        "Enum field cannot be set to 'V', this variant does not exist"
    );
    assert_eq!(Error::ReadFnMap.message(), "There should be a special case for maps");
    assert_eq!(
        Error::Cycle(vec!["A".to_string(), "B\"".to_string()]).message(),
        "Messages [\"A\", \"B\\\"\"] are cyclic (missing an optional field)"
    );
    assert_eq!(
        Error::Cycle(vec![]).message(),
        "Messages [] are cyclic (missing an optional field)"
    );
    assert_eq!(
        Error::OutputAndOutputDir.message(),
        "only one of --output or --output_directory allowed"
    );
    assert_eq!(
        Error::EmptyRead.message(),
        "No message or enum were read;either definition might be invalid or there were only unsupported structures"
    );
}

#[test]
fn conversions_into_a_oneof() {
    let typed = |name: &str, typ: FieldType| Field {
        name: name.to_string(),
        frequency: Frequency::Optional,
        typ,
        number: 1,
        default: None,
        packed: None,
        boxed: false,
        deprecated: false,
        attributes: vec![],
    };
    let mut pick = OneOf {
        name: "pick".to_string(),
        fields: vec![
            typed("a", FieldType::Int32),
            typed("b", FieldType::Sint32),
            typed("c", FieldType::StringCow),
        ],
        ..OneOf::default()
    };
    let config = Config {
        in_file: String::new(),
        out_file: String::new(),
        single_module: false,
        import_search_path: vec![],
        no_output: false,
        error_cycle: false,
        headers: true,
        dont_use_cow: false,
        custom_repr: None,
        default_custom_struct_derive: String::new(),
        custom_struct_derive: vec![],
        custom_includes: vec![],
        owned: false,
        nostd: false,
        hashbrown: false,
        gen_info: false,
        add_deprecated_fields: false,
    };
    let desc = FileDescriptor::default();
    assert_eq!(
        pick.generate_impl_from_for_enums(&desc, &config),
        "impl From<i32> for OneOfpick {\n   fn from(f: i32) -> OneOfpick {\n      OneOfpick::a(f)\n   }\n}\nimpl From<Cow<'a, str>> for OneOfpick {\n   fn from(f: Cow<'a, str>) -> OneOfpick {\n      OneOfpick::c(f)\n   }\n}\n"
    );
    pick.fields[0].deprecated = true;
    assert!(pick
        .generate_impl_from_for_enums(&desc, &config)
        .starts_with("impl From<i32> for OneOfpick {\n   fn from(f: i32) -> OneOfpick {\n      OneOfpick::b(f)\n"));
}

#[test]
fn output_options() {
    let file = || Some("out.rs".to_string());
    let dir = || Some("gen".to_string());
    assert!(matches!(choose_output(0, None, file(), None, false), Err(Error::NoProto)));
    match choose_output(2, Some("b.proto".to_string()), file(), dir(), true) {
        Err(Error::InputFile(f)) => assert_eq!(f, "b.proto"),
        other => panic!("unexpected: {:?}", other),
    }
    assert!(matches!(choose_output(1, None, file(), dir(), true), Err(Error::OutputAndOutputDir)));
    assert!(matches!(choose_output(2, None, file(), None, false), Err(Error::OutputMultipleInputs)));
    assert_eq!(choose_output(1, None, file(), None, false).unwrap(), file());
    assert_eq!(choose_output(3, None, None, dir(), true).unwrap(), dir());
    match choose_output(3, None, None, dir(), false) {
        Err(Error::OutputDirectory(d)) => assert_eq!(d, "gen"),
        other => panic!("unexpected: {:?}", other),
    }
    assert_eq!(choose_output(3, None, None, None, false).unwrap(), None);
}

#[test]
fn modules_of_files() {
    let words = vec!["type".to_string()];
    assert_eq!(file_module(Some("my-file"), "dir/my-file.proto", &words).unwrap(), "my_file");
    assert_eq!(file_module(Some("type"), "type.proto", &words).unwrap(), "type_pb");
    match file_module(None, "..", &words) {
        Err(Error::OutputFile(shown)) => assert_eq!(shown, ".."),
        other => panic!("unexpected: {:?}", other),
    }
}

#[test]
fn schema_file_is_read_and_placed() {
    let desc = FileDescriptor::read_proto(
        "package a.b; message M { enum E { X = 0; } }",
        "dir/m.proto",
        Some("m.proto"),
        "m",
    )
    .unwrap();
    assert_eq!(desc.module, "a.b");
    assert_eq!(desc.messages[0].path, "dir/m.proto");
    assert_eq!(desc.messages[0].import, "m.proto");
    assert_eq!(desc.messages[0].package, "a.b");
    assert_eq!(desc.messages[0].enums[0].module, "a.b.mod_M");
    assert_eq!(desc.messages[0].enums[0].fully_qualified_fields[0].0, "a::b::mod_M::E::X");
    let bare = FileDescriptor::read_proto("message M {}", "m.proto", None, "m").unwrap();
    assert_eq!(bare.module, "m");
    assert_eq!(bare.messages[0].module, "m");
    assert!(matches!(
        FileDescriptor::read_proto("message M {", "m.proto", None, "m"),
        Err(Error::TrailingGarbage(_))
    ));
}

#[test]
fn model_types_are_reachable_under_one_roof() {
    let desc = pb_rs::types::FileDescriptor::empty();
    assert!(desc.messages.is_empty());
    assert_eq!(desc.syntax, pb_rs::types::Syntax::Proto2);
    assert!(desc.all_messages().is_empty());
}

#[test]
fn import_that_is_found_nowhere() {
    assert_eq!(found_import(Some("dir/a.proto".to_string()), "a.proto").unwrap(), "dir/a.proto");
    match found_import(None, "a.proto") {
        Err(Error::InvalidImport(text)) => {
            assert_eq!(text, "file a.proto not found on import path")
        }
        other => panic!("unexpected: {:?}", other),
    }
    assert_eq!(
        Error::InvalidImport("x".to_string()).message(),
        "Cannot convert protobuf import into module import:: x\r\nImport definition might be invalid, some characters may not be supported"
    );
}

#[test]
fn float_defaults_by_their_lower_case_form() {
    assert_eq!(float_default_from("inf", "Inf", "f32"), "::core::f32::INFINITY");
    assert_eq!(float_default_from("-inf", "-INF", "f64"), "::core::f64::NEG_INFINITY");
    assert_eq!(float_default_from("nan", "NaN", "f32"), "::core::f32::NAN");
    assert_eq!(float_default_from("1.5e3", "1.5E3", "f64"), "1.5E3f64");
    assert_eq!(float_default_from("", "", "f32"), "f32");
    assert_eq!(float_default_from("infinity", "Infinity", "f32"), "Infinityf32");
    assert_eq!(float_default_text("-Inf", "f32"), "::core::f32::NEG_INFINITY");
    assert_eq!(float_default_text("INF", "f64"), "::core::f64::INFINITY");
    assert_eq!(float_default_text("nAn", "f64"), "::core::f64::NAN");
    assert_eq!(float_default_text("2.5", "f32"), "2.5f32");
}

#[test]
fn stem_of_the_output_file() {
    let words = rust_keywords();
    assert_eq!(output_stem("", "types", &words), "types");
    assert_eq!(output_stem("", "mod", &words), "mod");
    assert_eq!(output_stem("users", "types", &words), "users");
    assert_eq!(output_stem("type", "types", &words), "type_pb");
    assert_eq!(output_stem("self", "", &words), "self_pb");
    assert_eq!(output_stem("a.match", "x", &words), "a.match_pb");
    assert_eq!(output_stem("plain", "x", &Vec::new()), "plain");
}

#[test]
fn list_of_keywords() {
    let words = rust_keywords();
    assert_eq!(words.len(), 52);
    assert_eq!(words[0], "abstract");
    assert_eq!(words[2], "as");
    assert_eq!(words[35], "Self");
    assert_eq!(words[36], "self");
    assert_eq!(words[51], "yield");
    for word in ["extern", "final", "fn", "impl", "loop", "typeof", "virtual", "where"] {
        assert!(words.iter().any(|w| w == word));
    }
    for word in ["async", "await", "dyn", "try", "union", "message", "Type", ""] {
        assert!(!words.iter().any(|w| w == word));
    }
    let mut sorted = words.clone();
    sorted.sort();
    sorted.dedup();
    assert_eq!(sorted.len(), 52);
    for word in &words {
        let mut name = word.clone();
        sanitize_keyword(&mut name, &words);
        assert_eq!(name, format!("{}_pb", word));
    }
    let mut name = "pkg.type.Inner.async".to_string();
    sanitize_keyword(&mut name, &words);
    assert_eq!(name, "pkg.type_pb.Inner.async");
}
