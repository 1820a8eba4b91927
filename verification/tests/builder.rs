use get_docs::builder::{build, build_visiting, DocError};
use get_docs::model::{FieldDef, FieldDoc, RecordDefinition};
use get_docs::registry::Registry;

fn lines(list: &[&str]) -> Vec<String> {
    list.iter().map(|s| s.to_string()).collect()
}

fn field(name: &str, signature: &str, docs: &[&str]) -> FieldDef {
    FieldDef::new(name.to_string(), signature.to_string(), lines(docs))
}

fn node(name: &str, signature: &str, docs: &[&str], children: Vec<FieldDoc>) -> FieldDoc {
    FieldDoc::new(name.to_string(), signature.to_string(), lines(docs), children)
}

fn registry_of(records: Vec<(&str, Vec<FieldDef>)>) -> Registry {
    let mut registry = Registry::new();
    for (name, fields) in records {
        registry.insert(RecordDefinition::new(name.to_string(), fields));
    }
    registry
}

fn simple_fields() -> Vec<FieldDef> {
    vec![
        field("name", "String", &["Name for simple example"]),
        field("length", "u64", &["Length of something", "second line"]),
    ]
}

fn simple_nodes() -> Vec<FieldDoc> {
    vec![
        node("name", "String", &["Name for simple example"], vec![]),
        node("length", "u64", &["Length of something", "second line"], vec![]),
    ]
}

#[test]
fn unknown_root_fails_with_unknown_type() {
    let registry = registry_of(vec![("Simple", simple_fields())]);
    assert_eq!(
        build("DoesNotExist", &registry),
        Err(DocError::UnknownType { name: "DoesNotExist".to_string() })
    );
    assert_eq!(
        build("Simple", &Registry::new()),
        Err(DocError::UnknownType { name: "Simple".to_string() })
    );
    assert_eq!(
        build_visiting("simple", &registry, &vec![]),
        Err(DocError::UnknownType { name: "simple".to_string() })
    );
}

#[test]
fn root_name_is_not_trimmed() {
    let registry = registry_of(vec![("Simple", simple_fields())]);
    assert_eq!(
        build(" Simple", &registry),
        Err(DocError::UnknownType { name: " Simple".to_string() })
    );
}

#[test]
fn plain_record_gives_one_leaf_per_field() {
    let registry = registry_of(vec![("Simple", simple_fields())]);
    assert_eq!(build("Simple", &registry), Ok(simple_nodes()));
}

#[test]
fn record_without_fields_gives_no_nodes() {
    let registry = registry_of(vec![("Empty", vec![]), ("Holder", vec![field("e", "Empty", &[])])]);
    assert_eq!(build("Empty", &registry), Ok(vec![]));
    assert_eq!(build("Holder", &registry), Ok(vec![node("e", "Empty", &[], vec![])]));
}

#[test]
fn field_order_is_the_declared_order() {
    let declared = ["zeta", "alpha", "mid", "alpha2", "beta"];
    let fields: Vec<FieldDef> = declared.iter().map(|n| field(n, "u8", &[])).collect();
    let registry = registry_of(vec![("Rec", fields)]);
    let docs = build("Rec", &registry).unwrap();
    let built: Vec<&str> = docs.iter().map(|d| d.name.as_str()).collect();
    assert_eq!(built, declared);
}

#[test]
fn direct_match_has_the_tree_of_the_record_as_children() {
    let registry = registry_of(vec![
        ("Simple", simple_fields()),
        ("Holder", vec![field("inner", "Simple", &["the inner one"])]),
    ]);
    let docs = build("Holder", &registry).unwrap();
    assert_eq!(docs.len(), 1);
    assert!(!docs[0].children.is_empty());
    assert_eq!(docs[0].children, build("Simple", &registry).unwrap());
    assert_eq!(
        docs,
        vec![node("inner", "Simple", &["the inner one"], simple_nodes())]
    );
}

#[test]
fn container_match_keeps_signature_and_lines() {
    let registry = registry_of(vec![
        ("Simple", simple_fields()),
        (
            "SimpleMap",
            vec![field("simple", "Mapping<String, Simple>", &["Map for simple struct"])],
        ),
    ]);
    let docs = build("SimpleMap", &registry).unwrap();
    assert_eq!(docs.len(), 1);
    assert_eq!(docs[0].name, "simple");
    assert_eq!(docs[0].type_signature, "Mapping<String, Simple>");
    assert_eq!(docs[0].doc_lines, lines(&["Map for simple struct"]));
    assert_eq!(docs[0].children, build("Simple", &registry).unwrap());
    assert_eq!(docs[0].children.len(), 2);
    assert_eq!(docs[0].children[0].name, "name");
    assert_eq!(docs[0].children[1].name, "length");
    assert!(docs[0].children[0].children.is_empty());
    assert!(docs[0].children[1].children.is_empty());
}

#[test]
fn non_match_has_no_children() {
    let registry = registry_of(vec![
        ("Simple", simple_fields()),
        (
            "Rec",
            vec![
                field("a", "u64", &["a"]),
                field("b", "Mapping<String, u64>", &["b"]),
                field("c", "Vec<Vec<Simple>>", &[]),
                field("d", "Vec<Simple", &[]),
            ],
        ),
    ]);
    assert_eq!(
        build("Rec", &registry),
        Ok(vec![
            node("a", "u64", &["a"], vec![]),
            node("b", "Mapping<String, u64>", &["b"], vec![]),
            node("c", "Vec<Vec<Simple>>", &[], vec![]),
            node("d", "Vec<Simple", &[], vec![]),
        ])
    );
}

#[test]
fn self_reference_is_cut() {
    let registry = registry_of(vec![(
        "A",
        vec![field("value", "u8", &[]), field("next", "A", &["the next one"])],
    )]);
    assert_eq!(
        build("A", &registry),
        Ok(vec![
            node("value", "u8", &[], vec![]),
            node("next", "A", &["the next one"], vec![]),
        ])
    );
}

#[test]
fn self_reference_in_a_container_is_cut() {
    let registry = registry_of(vec![("Tree", vec![field("children", "Vec<Tree>", &[])])]);
    assert_eq!(
        build("Tree", &registry),
        Ok(vec![node("children", "Vec<Tree>", &[], vec![])])
    );
}

#[test]
fn mutual_reference_is_cut_where_it_closes() {
    let registry = registry_of(vec![
        ("A", vec![field("b", "B", &["to b"])]),
        ("B", vec![field("a", "Option<A>", &["back to a"]), field("n", "u8", &[])]),
    ]);
    assert_eq!(
        build("A", &registry),
        Ok(vec![node(
            "b",
            "B",
            &["to b"],
            vec![
                node("a", "Option<A>", &["back to a"], vec![]),
                node("n", "u8", &[], vec![]),
            ]
        )])
    );
    assert_eq!(
        build("B", &registry),
        Ok(vec![
            node(
                "a",
                "Option<A>",
                &["back to a"],
                vec![node("b", "B", &["to b"], vec![])]
            ),
            node("n", "u8", &[], vec![]),
        ])
    );
}

#[test]
fn sibling_fields_are_expanded_independently() {
    let registry = registry_of(vec![
        ("Simple", simple_fields()),
        ("Rec", vec![field("one", "Simple", &[]), field("two", "Vec<Simple>", &[])]),
    ]);
    assert_eq!(
        build("Rec", &registry),
        Ok(vec![
            node("one", "Simple", &[], simple_nodes()),
            node("two", "Vec<Simple>", &[], simple_nodes()),
        ])
    );
}

#[test]
fn several_records_in_one_signature_are_concatenated_in_order() {
    let registry = registry_of(vec![
        ("Left", vec![field("l", "u8", &["left"])]),
        ("Right", vec![field("r1", "u8", &[]), field("r2", "u8", &[])]),
        (
            "Rec",
            vec![
                field("lr", "Pair<Left, Right>", &[]),
                field("rl", "Pair<Right, Left>", &[]),
                field("ll", "Pair<Left, Left>", &[]),
            ],
        ),
    ]);
    let left = || vec![node("l", "u8", &["left"], vec![])];
    let right = || vec![node("r1", "u8", &[], vec![]), node("r2", "u8", &[], vec![])];
    let mut lr = left();
    lr.extend(right());
    let mut rl = right();
    rl.extend(left());
    let mut ll = left();
    ll.extend(left());
    assert_eq!(
        build("Rec", &registry),
        Ok(vec![
            node("lr", "Pair<Left, Right>", &[], lr),
            node("rl", "Pair<Right, Left>", &[], rl),
            node("ll", "Pair<Left, Left>", &[], ll),
        ])
    );
}

#[test]
fn deep_chain_is_expanded_to_its_end() {
    let registry = registry_of(vec![
        ("A", vec![field("b", "B", &[])]),
        ("B", vec![field("c", "Vec<C>", &[])]),
        ("C", vec![field("d", "D", &[])]),
        ("D", vec![field("x", "u8", &["end"])]),
    ]);
    assert_eq!(
        build("A", &registry),
        Ok(vec![node(
            "b",
            "B",
            &[],
            vec![node(
                "c",
                "Vec<C>",
                &[],
                vec![node("d", "D", &[], vec![node("x", "u8", &["end"], vec![])])]
            )]
        )])
    );
}

#[test]
fn building_twice_gives_the_same_tree() {
    let registry = registry_of(vec![
        ("Simple", simple_fields()),
        ("A", vec![field("b", "B", &[]), field("s", "Vec<Simple>", &["s"])]),
        ("B", vec![field("a", "A", &[]), field("s", "Simple", &[])]),
    ]);
    for root in ["Simple", "A", "B", "Missing"] {
        assert_eq!(build(root, &registry), build(root, &registry));
    }
}

#[test]
fn visiting_records_are_not_expanded() {
    let registry = registry_of(vec![
        ("Simple", simple_fields()),
        ("Rec", vec![field("s", "Simple", &[]), field("r", "Rec", &[])]),
    ]);
    assert_eq!(
        build_visiting("Rec", &registry, &lines(&["Simple", "Rec"])),
        Ok(vec![node("s", "Simple", &[], vec![]), node("r", "Rec", &[], vec![])])
    );
    assert_eq!(
        build_visiting("Rec", &registry, &lines(&["Rec"])),
        build("Rec", &registry)
    );
    assert_eq!(
        build_visiting("Rec", &registry, &lines(&["Unrelated"])),
        Ok(vec![
            node("s", "Simple", &[], simple_nodes()),
            node(
                "r",
                "Rec",
                &[],
                vec![node("s", "Simple", &[], simple_nodes()), node("r", "Rec", &[], vec![])]
            ),
        ])
    );
}

#[test]
fn replaced_definition_is_the_one_documented() {
    let mut registry = registry_of(vec![
        ("Simple", simple_fields()),
        ("Rec", vec![field("s", "Simple", &[])]),
    ]);
    registry.insert(RecordDefinition::new(
        "Simple".to_string(),
        vec![field("only", "bool", &["replaced"])],
    ));
    assert_eq!(
        build("Rec", &registry),
        Ok(vec![node(
            "s",
            "Simple",
            &[],
            vec![node("only", "bool", &["replaced"], vec![])]
        )])
    );
}

fn levels(docs: &[FieldDoc]) -> usize {
    docs.iter().map(|d| 1 + levels(&d.children)).max().unwrap_or(0)
}

fn count(docs: &[FieldDoc]) -> usize {
    docs.iter().map(|d| 1 + count(&d.children)).sum()
}

#[test]
fn fully_connected_records_give_a_finite_tree() {
    let names = ["A", "B", "C", "D", "E", "F"];
    let mut registry = Registry::new();
    for name in names {
        let fields: Vec<FieldDef> = names
            .iter()
            .filter(|other| **other != name)
            .map(|other| field(&other.to_lowercase(), &format!("Vec<{}>", other), &[]))
            .collect();
        registry.insert(RecordDefinition::new(name.to_string(), fields));
    }
    for root in names {
        let docs = build(root, &registry).unwrap();
        assert_eq!(docs.len(), 5);
        assert_eq!(levels(&docs), registry.len());
        assert_eq!(count(&docs), 5 + 5 * 5 + 5 * 4 * 5 + 5 * 4 * 3 * 5 + 5 * 4 * 3 * 2 * 5 + 5 * 4 * 3 * 2 * 5);
    }
}

#[test]
fn tree_is_never_higher_than_the_registry_is_large() {
    let registry = registry_of(vec![
        ("A", vec![field("b", "B", &[]), field("a", "A", &[])]),
        ("B", vec![field("c", "Pair<C, A>", &[])]),
        ("C", vec![field("a", "A", &[]), field("b", "B", &[]), field("c", "C", &[])]),
        ("Leaf", vec![field("x", "u8", &[])]),
    ]);
    for root in ["A", "B", "C", "Leaf"] {
        let docs = build(root, &registry).unwrap();
        assert!(levels(&docs) <= registry.len());
    }
    assert_eq!(levels(&build("A", &registry).unwrap()), 3);
    assert_eq!(levels(&build("Leaf", &registry).unwrap()), 1);
}

#[test]
fn clone_copies_the_whole_tree() {
    let registry = registry_of(vec![
        ("Simple", simple_fields()),
        ("Rec", vec![field("one", "Simple", &["x", "y"]), field("two", "u8", &[])]),
    ]);
    let docs = build("Rec", &registry).unwrap();
    let copies: Vec<FieldDoc> = docs.iter().map(|d| d.clone()).collect();
    assert_eq!(copies, docs);
    assert_eq!(copies[0].children, simple_nodes());
}
