use pb_rs::errors::Error;
use pb_rs::model::{FieldType, Frequency, Syntax};
use pb_rs::schema::grammar::parse_number;
use pb_rs::schema::lexer::{tokenize, Token};
use pb_rs::schema::parser::file_descriptor;

const SAMPLE: &str = r#"
// A sample schema.
syntax = "proto3";
package shop.v1;

import "other.proto";
import public "more/types.proto";

option java_package = "com.example";

/* An order
   with items. */
message Order {
    option deprecated = true;
    reserved 2, 15, 9 to 11;
    reserved "foo", "bar";

    enum Status {
        option allow_alias = true;
        NEW = 0;
        PAID = 1 [deprecated = true];
        GONE = -1;
    }

    message Item {
        string name = 1;
        sint64 price = 0x10 [default = -3];
    }

    int32 id = 1;
    repeated Item items = 3 [packed = false, deprecated = true];
    optional Status status = 4 [default = NEW];
    required bytes payload = 5;
    map<string, Item> by_name = 6;
    string note = 7 [default = "a \" quote", json_name = "n"];
    extensions 100 to 199;

    oneof extra {
        option (x) = 1;
        string text = 8;
        .shop.v1.Order parent = 12;
    }
};

enum Color { RED = 0; }

service Shop {
    option (a) = "b";
    rpc Buy (Order) returns (stream Reply);
    rpc Sell(stream Order) returns (Reply) { option (c) = 1; }
}
"#;

#[test]
fn tokens_of_a_text() {
    let text = "a.b = 'x\\'y' ; // end\n{ /* c */ }0x1F";
    let (tokens, stop) = tokenize(text);
    assert_eq!(stop, text.len());
    let shown: Vec<String> = tokens
        .iter()
        .map(|l| match &l.token {
            Token::Word(w) => format!("W:{}@{}", w, l.offset),
            Token::Text(t) => format!("T:{}@{}", t, l.offset),
            Token::Symbol(c) => format!("S:{}@{}", c, l.offset),
        })
        .collect();
    assert_eq!(
        shown,
        vec![
            "W:a.b@0".to_string(),
            "S:=@4".to_string(),
            "T:x\\'y@6".to_string(),
            format!("S:;@{}", text.find(';').unwrap()),
            format!("S:{{@{}", text.find('{').unwrap()),
            format!("S:}}@{}", text.find('}').unwrap()),
            format!("W:0x1F@{}", text.find("0x1F").unwrap()),
        ]
    );
    let (open, at) = tokenize("ok \"never closed");
    assert_eq!(open.len(), 1);
    assert_eq!(at, 3);
    let (none, end) = tokenize("  /* open comment");
    assert!(none.is_empty());
    assert_eq!(end, 17);
}

#[test]
fn numbers_as_written() {
    assert_eq!(parse_number("0"), Some(0));
    assert_eq!(parse_number("42"), Some(42));
    assert_eq!(parse_number("-42"), Some(-42));
    assert_eq!(parse_number("0x10"), Some(16));
    assert_eq!(parse_number("0xff"), Some(255));
    assert_eq!(parse_number("0XFF"), None);
    assert_eq!(parse_number("2147483647"), Some(i32::MAX));
    assert_eq!(parse_number("2147483648"), None);
    assert_eq!(parse_number("-2147483648"), Some(i32::MIN));
    assert_eq!(parse_number("-2147483649"), None);
    assert_eq!(parse_number("99999999999999999999999999"), None);
    assert_eq!(parse_number("12a"), None);
    assert_eq!(parse_number("-"), None);
    assert_eq!(parse_number("0x"), None);
    assert_eq!(parse_number(""), None);
    assert_eq!(parse_number("007"), Some(7));
}

#[test]
fn declarations_of_a_schema() {
    let desc = file_descriptor(SAMPLE).unwrap();
    assert_eq!(desc.syntax, Syntax::Proto3);
    assert_eq!(desc.package, "shop.v1");
    assert_eq!(desc.import_paths, vec!["other.proto", "more/types.proto"]);
    assert_eq!(desc.messages.len(), 1);
    assert_eq!(desc.enums.len(), 1);
    assert_eq!(desc.enums[0].name, "Color");
    let order = &desc.messages[0];
    assert_eq!(order.name, "Order");
    assert_eq!(order.reserved_nums, Some(vec![2, 15, 9, 10, 11]));
    assert_eq!(order.reserved_names, Some(vec!["foo".to_string(), "bar".to_string()]));
    assert_eq!(order.enums.len(), 1);
    let status = &order.enums[0];
    assert_eq!(status.name, "Status");
    let variants: Vec<(&str, i32)> =
        status.fields.iter().map(|f| (f.name.as_str(), f.tag)).collect();
    assert_eq!(variants, vec![("NEW", 0), ("PAID", 1), ("GONE", -1)]);
    assert_eq!(order.messages.len(), 1);
    let item = &order.messages[0];
    assert_eq!(item.fields[1].name, "price");
    assert_eq!(item.fields[1].number, 16);
    assert!(matches!(item.fields[1].typ, FieldType::Sint64));
    assert_eq!(item.fields[1].default.as_deref(), Some("-3"));
    let names: Vec<&str> = order.fields.iter().map(|f| f.name.as_str()).collect();
    assert_eq!(names, vec!["id", "items", "status", "payload", "by_name", "note"]);
    assert_eq!(order.fields[0].frequency, Frequency::Optional);
    assert!(matches!(order.fields[0].typ, FieldType::Int32));
    assert_eq!(order.fields[1].frequency, Frequency::Repeated);
    assert_eq!(order.fields[1].packed, Some(false));
    assert!(order.fields[1].deprecated);
    assert!(matches!(&order.fields[1].typ, FieldType::MessageOrEnum(n) if n == "Item"));
    assert_eq!(order.fields[2].default.as_deref(), Some("NEW"));
    assert_eq!(order.fields[3].frequency, Frequency::Required);
    assert!(matches!(order.fields[3].typ, FieldType::BytesCow));
    match &order.fields[4].typ {
        FieldType::Map_(k, v) => {
            assert!(matches!(**k, FieldType::StringCow));
            assert!(matches!(&**v, FieldType::MessageOrEnum(n) if n == "Item"));
        }
        other => panic!("unexpected: {:?}", other),
    }
    assert_eq!(order.fields[5].default.as_deref(), Some("\"a \\\" quote\""));
    assert_eq!(order.oneofs.len(), 1);
    assert_eq!(order.oneofs[0].name, "extra");
    assert_eq!(order.oneofs[0].fields.len(), 2);
    assert!(
        matches!(&order.oneofs[0].fields[1].typ, FieldType::MessageOrEnum(n) if n == ".shop.v1.Order")
    );
    assert_eq!(order.oneofs[0].fields[1].number, 12);
    assert_eq!(desc.rpc_services.len(), 1);
    let shop = &desc.rpc_services[0];
    assert_eq!(shop.service_name, "Shop");
    let rpcs: Vec<(&str, &str, &str)> = shop
        .functions
        .iter()
        .map(|f| (f.name.as_str(), f.arg.as_str(), f.ret.as_str()))
        .collect();
    assert_eq!(rpcs, vec![("Buy", "Order", "Reply"), ("Sell", "Order", "Reply")]);
}

#[test]
fn text_that_is_no_declaration_is_reported() {
    match file_descriptor("message A { int32 x = 1; }\n  garbage here") {
        Err(Error::TrailingGarbage(text)) => assert_eq!(text, "garbage here"),
        other => panic!("unexpected: {:?}", other),
    }
    let long = format!("message A {{}} {}", "x".repeat(80));
    match file_descriptor(&long) {
        Err(Error::TrailingGarbage(text)) => assert_eq!(text, "x".repeat(50)),
        other => panic!("unexpected: {:?}", other),
    }
    match file_descriptor("message A { int32 x = ; }") {
        Err(Error::TrailingGarbage(text)) => assert_eq!(text, "message A { int32 x = ; }"),
        other => panic!("unexpected: {:?}", other),
    }
    match file_descriptor("enum E { A = 0; }\nmessage B { string s = 1 [default = \"open ]; }") {
        Err(Error::TrailingGarbage(text)) => assert!(text.starts_with("message B {")),
        other => panic!("unexpected: {:?}", other),
    }
    match file_descriptor("message A { reserved 1 to max; }") {
        Err(Error::TrailingGarbage(_)) => {}
        other => panic!("unexpected: {:?}", other),
    }
    let empty = file_descriptor("  // nothing\n").unwrap();
    assert!(empty.messages.is_empty() && empty.enums.is_empty());
    assert_eq!(empty.syntax, Syntax::Proto2);
}

#[test]
fn schema_text_runs_through_the_pipeline() {
    let mut desc = file_descriptor(
        "syntax = \"proto3\";\nmessage Tree { repeated Tree kids = 1; Leaf leaf = 2; message Leaf { string s = 1; } }",
    )
    .unwrap();
    desc.set_source("tree.proto", None, "tree");
    desc.set_packages();
    let config = pb_rs::model::Config {
        in_file: "tree.proto".to_string(),
        out_file: "tree.rs".to_string(),
        single_module: false,
        import_search_path: vec![],
        no_output: false,
        error_cycle: false,
        headers: false,
        dont_use_cow: false,
        custom_repr: None,
        default_custom_struct_derive: String::new(),
        custom_struct_derive: vec![],
        custom_includes: vec![],
        owned: false,
        nostd: false,
        hashbrown: false,
        gen_info: false,
        add_deprecated_fields: false,
    };
    assert_eq!(desc.prepare(&config, &vec![]).unwrap(), vec![vec!["Tree".to_string()]]);
    let text = desc.write("tree.proto", &config, "").unwrap();
    assert!(text.contains("pub struct Tree<'a> {\n    pub kids: Vec<Tree<'a>>,\n    pub leaf: Option<mod_Tree::Leaf<'a>>,\n}\n"));
    assert!(text.contains("pub struct Leaf<'a> {\n    pub s: Cow<'a, str>,\n}\n"));
}
