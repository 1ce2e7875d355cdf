use pb_rs::errors::Error;
use pb_rs::model::{Field, FieldType, FileDescriptor, Frequency, Message};

fn link(name: &str, frequency: Frequency, target: &str) -> Field {
    Field {
        name: name.to_string(),
        frequency,
        typ: FieldType::MessageOrEnum(target.to_string()),
        number: 1,
        default: None,
        packed: None,
        boxed: false,
        deprecated: false,
        attributes: vec![],
    }
}

fn node(name: &str, fields: Vec<Field>) -> Message {
    Message { name: name.to_string(), fields, ..Message::default() }
}

fn graph(messages: Vec<Message>) -> FileDescriptor {
    let mut desc = FileDescriptor {
        module: "file".to_string(),
        messages,
        ..FileDescriptor::default()
    };
    desc.set_packages();
    desc.resolve_types().unwrap();
    desc
}

fn flags(desc: &FileDescriptor) -> Vec<(String, String, bool, Frequency)> {
    let mut out = vec![];
    for m in desc.all_messages() {
        for f in m.all_fields() {
            out.push((m.name.clone(), f.name.clone(), f.boxed, f.frequency));
        }
    }
    out
}

#[test]
fn optional_side_of_a_two_message_cycle_is_boxed() {
    let a = node("A", vec![link("b", Frequency::Required, "B")]);
    let b = node("B", vec![link("a", Frequency::Optional, "A")]);
    let mut desc = graph(vec![a, b]);
    let sccs = desc.sccs();
    assert_eq!(sccs.len(), 1);
    assert_eq!(sccs[0].len(), 2);
    assert_eq!(sccs[0][0].indexes, vec![0]);
    assert_eq!(sccs[0][1].indexes, vec![1]);
    assert!(desc.break_cycles(false).is_ok());
    assert_eq!(
        flags(&desc),
        vec![
            ("A".to_string(), "b".to_string(), true, Frequency::Optional),
            ("B".to_string(), "a".to_string(), true, Frequency::Optional),
        ]
    );
}

#[test]
fn required_edge_in_a_cycle_is_refused_in_strict_mode() {
    let a = node("A", vec![link("b", Frequency::Required, "B")]);
    let b = node("B", vec![link("a", Frequency::Optional, "A")]);
    let mut desc = graph(vec![a, b]);
    match desc.break_cycles(true) {
        Err(Error::Cycle(names)) => assert_eq!(names, vec!["A", "B"]),
        other => panic!("unexpected: {:?}", other),
    }
    assert!(desc.messages[1].fields[0].boxed);
    assert!(!desc.messages[0].fields[0].boxed);
}

#[test]
fn required_cycle_is_refused_in_strict_mode() {
    let a = node("A", vec![link("b", Frequency::Required, "B")]);
    let b = node("B", vec![link("a", Frequency::Required, "A")]);
    let mut desc = graph(vec![a, b]);
    match desc.break_cycles(true) {
        Err(Error::Cycle(names)) => assert_eq!(names, vec!["A", "B"]),
        other => panic!("unexpected: {:?}", other),
    }
}

#[test]
fn required_cycle_is_repaired_without_strict_mode() {
    let a = node("A", vec![link("b", Frequency::Required, "B")]);
    let b = node("B", vec![link("a", Frequency::Required, "A")]);
    let mut desc = graph(vec![a, b]);
    assert_eq!(
        desc.break_cycles(false).unwrap(),
        vec![vec!["A".to_string(), "B".to_string()]]
    );
    assert_eq!(
        flags(&desc),
        vec![
            ("A".to_string(), "b".to_string(), true, Frequency::Optional),
            ("B".to_string(), "a".to_string(), true, Frequency::Optional),
        ]
    );
}

#[test]
fn optional_cycle_passes_strict_mode() {
    let a = node("A", vec![link("b", Frequency::Optional, "B")]);
    let b = node("B", vec![link("a", Frequency::Optional, "A")]);
    let mut desc = graph(vec![a, b]);
    assert_eq!(desc.break_cycles(true).unwrap(), Vec::<Vec<String>>::new());
    assert!(flags(&desc).iter().all(|f| f.2));
}

#[test]
fn message_that_holds_itself_is_boxed() {
    let list = node("List", vec![link("next", Frequency::Optional, "List")]);
    let mut desc = graph(vec![list]);
    assert!(desc.break_cycles(true).is_ok());
    assert!(desc.messages[0].fields[0].boxed);
}

#[test]
fn messages_without_cycle_stay_as_they_are() {
    let a = node("A", vec![link("b", Frequency::Optional, "B")]);
    let b = node("B", vec![link("c", Frequency::Required, "C")]);
    let c = node("C", vec![]);
    let mut desc = graph(vec![a, b, c]);
    let sccs = desc.sccs();
    assert_eq!(sccs.len(), 3);
    assert!(desc.break_cycles(true).is_ok());
    assert!(flags(&desc).iter().all(|f| !f.2));
    assert_eq!(desc.messages[1].fields[0].frequency, Frequency::Required);
}

#[test]
fn only_fields_inside_the_cycle_are_boxed() {
    let a = node(
        "A",
        vec![link("b", Frequency::Optional, "B"), link("out", Frequency::Optional, "Z")],
    );
    let b = node("B", vec![link("a", Frequency::Optional, "A")]);
    let z = node("Z", vec![]);
    let mut desc = graph(vec![a, b, z]);
    assert!(desc.break_cycles(false).is_ok());
    assert!(desc.messages[0].fields[0].boxed);
    assert!(!desc.messages[0].fields[1].boxed);
    assert!(desc.messages[1].fields[0].boxed);
}

#[test]
fn map_values_do_not_make_a_cycle() {
    let mut by_name = link("all", Frequency::Optional, "Tree");
    by_name.typ = FieldType::Map_(
        Box::new(FieldType::StringCow),
        Box::new(FieldType::MessageOrEnum("Tree".to_string())),
    );
    let tree = node("Tree", vec![by_name]);
    let mut desc = graph(vec![tree]);
    assert!(desc.break_cycles(true).is_ok());
    assert!(!desc.messages[0].fields[0].boxed);
}

#[test]
fn repeated_reference_counts_as_unbroken() {
    let tree = node("Tree", vec![link("children", Frequency::Repeated, "Tree")]);
    let mut strict = graph(vec![tree]);
    match strict.break_cycles(true) {
        Err(Error::Cycle(names)) => assert_eq!(names, vec!["Tree"]),
        other => panic!("unexpected: {:?}", other),
    }
    let tree = node("Tree", vec![link("children", Frequency::Repeated, "Tree")]);
    let mut lenient = graph(vec![tree]);
    assert!(lenient.break_cycles(false).is_ok());
    assert!(!lenient.messages[0].fields[0].boxed);
    assert_eq!(lenient.messages[0].fields[0].frequency, Frequency::Repeated);
}

#[test]
fn nested_messages_take_part_in_cycles() {
    let inner = node("Inner", vec![link("back", Frequency::Optional, "Outer")]);
    let mut outer = node("Outer", vec![link("inner", Frequency::Required, "Inner")]);
    outer.messages.push(inner);
    let mut desc = graph(vec![outer]);
    assert!(desc.break_cycles(false).is_ok());
    assert!(desc.messages[0].fields[0].boxed);
    assert_eq!(desc.messages[0].fields[0].frequency, Frequency::Optional);
    assert!(desc.messages[0].messages[0].fields[0].boxed);
}

#[test]
fn breaking_twice_gives_the_same_fields() {
    let build = || {
        graph(vec![
            node(
                "A",
                vec![link("b", Frequency::Optional, "B"), link("c", Frequency::Required, "C")],
            ),
            node("B", vec![link("c", Frequency::Optional, "C")]),
            node(
                "C",
                vec![link("a", Frequency::Optional, "A"), link("d", Frequency::Optional, "D")],
            ),
            node("D", vec![]),
        ])
    };
    let mut first = build();
    let mut second = build();
    assert!(first.break_cycles(false).is_ok());
    assert!(second.break_cycles(false).is_ok());
    assert_eq!(flags(&first), flags(&second));
    let once = flags(&first);
    assert!(first.break_cycles(false).is_ok());
    assert_eq!(flags(&first), once);
    assert_eq!(
        once.iter().map(|f| f.2).collect::<Vec<_>>(),
        vec![true, true, true, true, false]
    );
}

#[test]
fn long_required_chain_with_one_optional_link() {
    let a = node("A", vec![link("b", Frequency::Required, "B")]);
    let b = node("B", vec![link("c", Frequency::Required, "C")]);
    let c = node("C", vec![link("a", Frequency::Optional, "A")]);
    let mut desc = graph(vec![a, b, c]);
    assert!(desc.break_cycles(false).is_ok());
    assert_eq!(
        flags(&desc).iter().map(|f| (f.2, f.3)).collect::<Vec<_>>(),
        vec![
            (true, Frequency::Optional),
            (true, Frequency::Optional),
            (false, Frequency::Optional),
        ]
    );
}

#[test]
fn a_boxed_field_is_optional_and_else_as_it_was() {
    let mut hub = node(
        "Hub",
        vec![
            link("spoke", Frequency::Required, "Spoke"),
            link("spokes", Frequency::Repeated, "Leaf"),
        ],
    );
    hub.fields[0].number = 4;
    hub.fields[0].deprecated = true;
    hub.fields[0].default = None;
    let mut spoke = node("Spoke", vec![link("hub", Frequency::Optional, "Hub")]);
    spoke.fields[0].number = 8;
    spoke.fields[0].attributes = vec!["#[allow(unused)]".to_string()];
    let leaf = node("Leaf", vec![]);
    let before = graph(vec![hub.clone(), spoke.clone(), leaf.clone()]);
    let mut after = graph(vec![hub, spoke, leaf]);
    assert_eq!(after.break_cycles(false).unwrap(), vec![vec!["Hub".to_string(), "Spoke".to_string()]]);
    let old = before.all_messages();
    let new = after.all_messages();
    assert_eq!(old.len(), new.len());
    let mut changed = vec![];
    for (m, r) in old.iter().zip(new.iter()) {
        assert_eq!(r.name, m.name);
        assert!(r.index.same(&m.index));
        for (f, g) in m.all_fields().iter().zip(r.all_fields().iter()) {
            assert_eq!(g.name, f.name);
            assert_eq!(g.number, f.number);
            assert_eq!(g.deprecated, f.deprecated);
            assert_eq!(g.attributes, f.attributes);
            assert_eq!(g.packed, f.packed);
            assert!(g.typ.same(&f.typ));
            if g.boxed != f.boxed || g.frequency != f.frequency {
                assert!(g.boxed);
                assert_eq!(g.frequency, Frequency::Optional);
                assert!(matches!(f.typ, FieldType::Message(_)));
                assert_ne!(f.frequency, Frequency::Repeated);
                changed.push(g.name.clone());
            }
        }
    }
    assert_eq!(changed, vec!["spoke".to_string(), "hub".to_string()]);
}

#[test]
fn a_second_run_changes_nothing() {
    let build = || {
        graph(vec![
            node(
                "A",
                vec![link("b", Frequency::Required, "B"), link("again", Frequency::Optional, "A")],
            ),
            node(
                "B",
                vec![link("c", Frequency::Required, "C"), link("a", Frequency::Optional, "A")],
            ),
            node("C", vec![link("b", Frequency::Required, "B")]),
        ])
    };
    let mut lenient = build();
    assert!(lenient.break_cycles(false).is_ok());
    let once = flags(&lenient);
    assert!(lenient.break_cycles(false).is_ok());
    assert_eq!(flags(&lenient), once);
    assert!(lenient.break_cycles(false).is_ok());
    assert_eq!(flags(&lenient), once);
    let mut strict = graph(vec![
        node("A", vec![link("b", Frequency::Optional, "B")]),
        node("B", vec![link("a", Frequency::Optional, "A"), link("c", Frequency::Required, "C")]),
        node("C", vec![]),
    ]);
    assert!(strict.break_cycles(true).is_ok());
    let once = flags(&strict);
    assert_eq!(once.iter().map(|f| f.2).collect::<Vec<_>>(), vec![true, true, false]);
    assert!(strict.break_cycles(true).is_ok());
    assert_eq!(flags(&strict), once);
}
