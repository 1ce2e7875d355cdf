use pb_rs::errors::Error;
use pb_rs::model::{
    EnumField, Enumerator, Field, FieldType, FileDescriptor, Frequency, Message, MessageIndex,
    OneOf, Syntax,
};
use pb_rs::symbols::candidates;

fn named_field(name: &str, typ: FieldType, number: i32) -> Field {
    Field {
        name: name.to_string(),
        frequency: Frequency::Optional,
        typ,
        number,
        default: None,
        packed: None,
        boxed: false,
        deprecated: false,
        attributes: vec![],
    }
}

fn reference(name: &str) -> FieldType {
    FieldType::MessageOrEnum(name.to_string())
}

fn message(name: &str, fields: Vec<Field>, nested: Vec<Message>) -> Message {
    Message { name: name.to_string(), fields, messages: nested, ..Message::default() }
}

fn file(package: &str, messages: Vec<Message>, enums: Vec<Enumerator>) -> FileDescriptor {
    let mut desc = FileDescriptor {
        package: package.to_string(),
        module: if package.is_empty() { "file".to_string() } else { package.to_string() },
        syntax: Syntax::Proto2,
        messages,
        enums,
        ..FileDescriptor::default()
    };
    desc.set_packages();
    desc
}

fn path_of(typ: &FieldType) -> Vec<usize> {
    match typ {
        FieldType::Message(m) => m.indexes.clone(),
        other => panic!("not a message: {:?}", other),
    }
}

fn holds_names(m: &Message) -> bool {
    m.all_fields().iter().any(|f| match &f.typ {
        FieldType::MessageOrEnum(_) => true,
        FieldType::Map_(k, v) => {
            matches!(**k, FieldType::MessageOrEnum(_)) || matches!(**v, FieldType::MessageOrEnum(_))
        }
        _ => false,
    }) || m.messages.iter().any(holds_names)
}

#[test]
fn nested_message_shadows_top_level_message() {
    let outer = message(
        "Outer",
        vec![named_field("inner", reference("Inner"), 1)],
        vec![message("Inner", vec![], vec![])],
    );
    let top = message("Inner", vec![], vec![]);
    let mut desc = file("pkg", vec![outer, top], vec![]);
    assert!(desc.resolve_types().is_ok());
    assert_eq!(path_of(&desc.messages[0].fields[0].typ), vec![0, 0]);
    assert_eq!(desc.messages[0].messages[0].index.indexes, vec![0, 0]);
    assert_eq!(desc.messages[1].index.indexes, vec![1]);
}

#[test]
fn leading_dot_names_the_absolute_path() {
    let outer = message(
        "Outer",
        vec![named_field("inner", reference(".pkg.Inner"), 1)],
        vec![message("Inner", vec![], vec![])],
    );
    let top = message("Inner", vec![], vec![]);
    let mut desc = file("pkg", vec![outer, top], vec![]);
    assert!(desc.resolve_types().is_ok());
    assert_eq!(path_of(&desc.messages[0].fields[0].typ), vec![1]);
}

#[test]
fn candidates_go_from_the_innermost_scope_outwards() {
    let got = candidates(&"a.b.c".to_string(), &"M".to_string(), &"X".to_string());
    assert_eq!(got, vec!["a.b.c.M.X", "a.b.c.X", "a.b.X", "a.X", "X"]);
    let bare = candidates(&"".to_string(), &"M".to_string(), &"X".to_string());
    assert_eq!(bare, vec!["M.X", "X"]);
    let absolute = candidates(&"a.b".to_string(), &"M".to_string(), &".q.X".to_string());
    assert_eq!(absolute, vec!["q.X"]);
}

#[test]
fn ancestor_package_is_searched() {
    let mut shared = message("Shared", vec![], vec![]);
    shared.package = "a".to_string();
    let user = message("User", vec![named_field("s", reference("Shared"), 1)], vec![]);
    let mut desc = FileDescriptor {
        package: "a.b".to_string(),
        module: "a.b".to_string(),
        messages: vec![user],
        ..FileDescriptor::default()
    };
    desc.set_packages();
    desc.messages.push(shared);
    assert!(desc.resolve_types().is_ok());
    assert_eq!(path_of(&desc.messages[0].fields[0].typ), vec![1]);
}

#[test]
fn unknown_name_is_reported_and_nothing_is_resolved() {
    let first = message("First", vec![named_field("ok", reference("Second"), 1)], vec![]);
    let second = message(
        "Second",
        vec![named_field("bad", reference("Missing"), 1), named_field("worse", reference("Gone"), 2)],
        vec![],
    );
    let mut desc = file("", vec![first, second], vec![]);
    match desc.resolve_types() {
        Err(Error::MessageOrEnumNotFound(name)) => assert_eq!(name, "Missing"),
        other => panic!("unexpected: {:?}", other),
    }
    assert!(matches!(desc.messages[0].fields[0].typ, FieldType::MessageOrEnum(_)));
}

#[test]
fn resolution_leaves_no_name_behind() {
    let color = Enumerator {
        name: "Color".to_string(),
        fields: vec![
            EnumField { name: "RED".to_string(), tag: 0, attributes: vec![] },
            EnumField { name: "BLUE".to_string(), tag: 1, attributes: vec![] },
        ],
        ..Enumerator::default()
    };
    let kind = Enumerator { name: "Kind".to_string(), ..Enumerator::default() };
    let mut leaf = message("Leaf", vec![named_field("c", reference("Color"), 1)], vec![]);
    leaf.enums.push(kind);
    leaf.fields.push(named_field("k", reference("Kind"), 2));
    let mut root = message(
        "Root",
        vec![
            named_field("leaf", reference("Leaf"), 1),
            named_field(
                "by_name",
                FieldType::Map_(Box::new(FieldType::StringCow), Box::new(reference("Root.Leaf"))),
                2,
            ),
        ],
        vec![leaf],
    );
    root.oneofs.push(OneOf {
        name: "choice".to_string(),
        fields: vec![named_field("color", reference("Color"), 3)],
        ..OneOf::default()
    });
    let mut desc = file("", vec![root], vec![color]);
    assert!(desc.resolve_types().is_ok());
    assert!(!desc.messages.iter().any(holds_names));
    assert_eq!(path_of(&desc.messages[0].fields[0].typ), vec![0, 0]);
    match &desc.messages[0].fields[1].typ {
        FieldType::Map_(k, v) => {
            assert!(matches!(**k, FieldType::StringCow));
            assert_eq!(path_of(v), vec![0, 0]);
        }
        other => panic!("unexpected: {:?}", other),
    }
    match &desc.messages[0].oneofs[0].fields[0].typ {
        FieldType::Enum(e) => {
            assert!(e.msg_index.indexes.is_empty());
            assert_eq!(e.index, 0);
        }
        other => panic!("unexpected: {:?}", other),
    }
    match &desc.messages[0].messages[0].fields[1].typ {
        FieldType::Enum(e) => {
            assert_eq!(e.msg_index.indexes, vec![0, 0]);
            assert_eq!(e.index, 0);
            assert_eq!(e.get_enum(&desc).name, "Kind");
        }
        other => panic!("unexpected: {:?}", other),
    }
}

#[test]
fn first_declaration_of_a_name_wins() {
    let one = message("Twin", vec![], vec![]);
    let two = message("Twin", vec![], vec![]);
    let user = message("User", vec![named_field("t", reference("Twin"), 1)], vec![]);
    let mut desc = file("", vec![user, one, two], vec![]);
    assert!(desc.resolve_types().is_ok());
    assert_eq!(path_of(&desc.messages[0].fields[0].typ), vec![1]);
}

#[test]
fn message_is_found_before_enum_of_the_same_name() {
    let thing = Enumerator { name: "Thing".to_string(), ..Enumerator::default() };
    let user = message("User", vec![named_field("t", reference("Thing"), 1)], vec![]);
    let same = message("Thing", vec![], vec![]);
    let mut desc = file("", vec![user, same], vec![thing]);
    assert!(desc.resolve_types().is_ok());
    assert_eq!(path_of(&desc.messages[0].fields[0].typ), vec![1]);
}

#[test]
fn imported_message_is_resolved_by_its_package() {
    let other = FileDescriptor {
        package: "other".to_string(),
        module: "other".to_string(),
        messages: vec![message("Msg", vec![], vec![message("Part", vec![], vec![])])],
        enums: vec![Enumerator { name: "Level".to_string(), ..Enumerator::default() }],
        ..FileDescriptor::default()
    };
    let user = message(
        "User",
        vec![
            named_field("m", reference("other.Msg"), 1),
            named_field("p", reference("other.Msg.Part"), 2),
            named_field("l", reference("other.Level"), 3),
        ],
        vec![],
    );
    let mut desc = file("", vec![user], vec![]);
    desc.merge_import(other, "dir/other.proto", "other.proto");
    assert_eq!(desc.messages.len(), 2);
    assert!(desc.messages[1].imported);
    assert!(desc.messages[1].messages[0].imported);
    assert!(!desc.messages[0].imported);
    assert_eq!(desc.messages[1].package, "other");
    assert_eq!(desc.messages[1].messages[0].package, "other.Msg");
    assert_eq!(desc.messages[1].messages[0].module, "other.mod_Msg");
    assert_eq!(desc.messages[1].path, "dir/other.proto");
    assert_eq!(desc.messages[1].import, "other.proto");
    assert!(desc.enums[0].imported);
    assert_eq!(desc.enums[0].package, "other");
    assert!(desc.resolve_types().is_ok());
    assert_eq!(path_of(&desc.messages[0].fields[0].typ), vec![1]);
    assert_eq!(path_of(&desc.messages[0].fields[1].typ), vec![1, 0]);
    assert!(matches!(desc.messages[0].fields[2].typ, FieldType::Enum(_)));
}

#[test]
fn index_finds_the_message_it_names() {
    let mut desc = file(
        "",
        vec![message("A", vec![], vec![message("B", vec![], vec![message("C", vec![], vec![])])])],
        vec![],
    );
    assert!(desc.resolve_types().is_ok());
    let c = MessageIndex { indexes: vec![0, 0, 0] };
    assert_eq!(c.get_message(&desc).name, "C");
    assert!(MessageIndex { indexes: vec![0, 1] }.find_message(&desc).is_none());
    assert!(MessageIndex { indexes: vec![] }.find_message(&desc).is_none());
    assert!(c.same(&desc.messages[0].messages[0].messages[0].index));
    let mut walk = MessageIndex::default();
    walk.push(0);
    walk.push(0);
    assert_eq!(walk.get_message(&desc).name, "B");
    walk.pop();
    assert_eq!(walk.get_message(&desc).name, "A");
}

fn family() -> FileDescriptor {
    let kind = Enumerator { name: "Kind".to_string(), ..Enumerator::default() };
    let tone = Enumerator { name: "Tone".to_string(), ..Enumerator::default() };
    let mut grandchild = message("Grandchild", vec![named_field("k", reference("Kind"), 1)], vec![]);
    grandchild.enums.push(tone);
    let mut child = message(
        "Child",
        vec![named_field("up", reference("Parent"), 1), named_field("n", FieldType::Int32, 2)],
        vec![grandchild],
    );
    child.oneofs.push(OneOf {
        name: "pick".to_string(),
        fields: vec![named_field("g", reference("Grandchild"), 3)],
        ..OneOf::default()
    });
    let mut parent = message(
        "Parent",
        vec![named_field("c", reference("Child"), 1), named_field("s", FieldType::StringCow, 2)],
        vec![child, message("Sibling", vec![], vec![])],
    );
    parent.reserved_nums = Some(vec![9]);
    let other = message("Other", vec![named_field("p", reference("fam.Parent.Sibling"), 7)], vec![]);
    file("fam", vec![parent, other], vec![kind])
}

#[test]
fn every_identity_leads_back_to_its_declaration() {
    let mut desc = family();
    assert!(desc.resolve_types().is_ok());
    let all = desc.all_messages();
    assert_eq!(all.len(), 5);
    let paths: Vec<Vec<usize>> = all.iter().map(|m| m.index.indexes.clone()).collect();
    assert_eq!(paths, vec![vec![0], vec![0, 0], vec![0, 0, 0], vec![0, 1], vec![1]]);
    for m in &all {
        let found = m.index.get_message(&desc);
        assert_eq!(found.name, m.name);
        assert_eq!(found.package, m.package);
        assert!(found.index.same(&m.index));
        for e in &m.enums {
            assert_eq!(e.index.get_enum(&desc).name, e.name);
            assert!(e.index.msg_index.same(&m.index));
        }
    }
    for e in &desc.enums {
        assert_eq!(e.index.get_enum(&desc).name, e.name);
        assert!(e.index.msg_index.indexes.is_empty());
    }
    assert_eq!(path_of(&desc.messages[1].fields[0].typ), vec![0, 1]);
    assert_eq!(path_of(&desc.messages[0].messages[0].fields[0].typ), vec![0]);
    assert_eq!(path_of(&desc.messages[0].messages[0].oneofs[0].fields[0].typ), vec![0, 0, 0]);
}

#[test]
fn resolution_changes_nothing_but_types() {
    let before = family();
    let mut after = family();
    assert!(after.resolve_types().is_ok());
    assert_eq!(after.package, before.package);
    assert_eq!(after.module, before.module);
    assert_eq!(after.enums.len(), before.enums.len());
    assert_eq!(after.enums[0].name, before.enums[0].name);
    let old = before.all_messages();
    let new = after.all_messages();
    assert_eq!(old.len(), new.len());
    for (m, r) in old.iter().zip(new.iter()) {
        assert_eq!(r.name, m.name);
        assert_eq!(r.package, m.package);
        assert_eq!(r.module, m.module);
        assert_eq!(r.imported, m.imported);
        assert_eq!(r.reserved_nums, m.reserved_nums);
        assert_eq!(r.enums.len(), m.enums.len());
        assert_eq!(r.oneofs.len(), m.oneofs.len());
        assert_eq!(r.messages.len(), m.messages.len());
        let fields = m.all_fields();
        let resolved = r.all_fields();
        assert_eq!(fields.len(), resolved.len());
        for (f, g) in fields.iter().zip(resolved.iter()) {
            assert_eq!(g.name, f.name);
            assert_eq!(g.number, f.number);
            assert_eq!(g.frequency, f.frequency);
            assert_eq!(g.default, f.default);
            assert_eq!(g.packed, f.packed);
            assert_eq!(g.boxed, f.boxed);
            assert_eq!(g.deprecated, f.deprecated);
            match &f.typ {
                FieldType::MessageOrEnum(_) => {
                    assert!(matches!(g.typ, FieldType::Message(_) | FieldType::Enum(_)))
                }
                FieldType::Int32 => assert!(matches!(g.typ, FieldType::Int32)),
                FieldType::StringCow => assert!(matches!(g.typ, FieldType::StringCow)),
                other => panic!("unexpected: {:?}", other),
            }
        }
    }
}
