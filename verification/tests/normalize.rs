use moho::model::{Block, Declaration, Field, Method, Property, Type, Value};
use moho::parser::MohoParser;

fn prop(name: &str) -> Property {
    Property { meta: false, name: name.to_string(), value: None }
}

fn field(name: &str, props: &[&str]) -> Declaration {
    Declaration::Field(Field {
        is_static: false,
        properties: props.iter().map(|p| prop(p)).collect(),
        name: name.to_string(),
        typ: Type::Integer,
        value: Some(Value::Integer(1)),
    })
}

fn method(name: &str, props: &[&str]) -> Declaration {
    Declaration::Method(Method {
        is_static: true,
        properties: props.iter().map(|p| prop(p)).collect(),
        name: name.to_string(),
        returns: "void".to_string(),
        arguments: vec![],
    })
}

fn block(props: &[&str], inner: Vec<Declaration>) -> Block {
    Block { properties: props.iter().map(|p| prop(p)).collect(), inner }
}

fn names(props: &[Property]) -> Vec<&str> {
    props.iter().map(|p| p.name.as_str()).collect()
}

fn sample() -> Block {
    block(
        &["A"],
        vec![
            field("f1", &["x"]),
            Declaration::Block(block(
                &["B"],
                vec![
                    Declaration::Block(block(&["C"], vec![field("f3", &["z"]), method("m2", &[])])),
                    field("f2", &["y"]),
                ],
            )),
            method("m1", &["w"]),
            Declaration::Block(block(&[], vec![field("f4", &[])])),
        ],
    )
}

#[test]
fn outer_properties_come_first() {
    let mut outer = block(&["B"], vec![field("leaf", &["C"])]);
    let fields = outer.fields();
    assert_eq!(fields.len(), 1);
    assert_eq!(names(&fields[0].properties), vec!["B", "C"]);
}

#[test]
fn class_property_does_not_reach_the_leaves() {
    let mut unit = MohoParser::apply("[A] class K { [B] { [C] int leaf; } }").unwrap();
    let class = &mut unit.0[0];
    assert_eq!(names(&class.properties), vec!["A"]);
    let fields = class.inner.fields();
    assert_eq!(fields.len(), 1);
    assert_eq!(names(&fields[0].properties), vec!["B", "C"]);
    let flat = class.inner.normalize();
    assert!(flat.properties.is_empty());
    assert_eq!(flat.inner.len(), 1);
}

#[test]
fn own_leaves_come_before_nested_ones() {
    let flat = sample().normalize();
    assert!(flat.properties.is_empty());
    let order: Vec<String> = flat
        .inner
        .iter()
        .map(|d| match d {
            Declaration::Field(f) => f.name.clone(),
            Declaration::Method(m) => m.name.clone(),
            Declaration::Block(_) => panic!("a normalized block holds no block"),
        })
        .collect();
    assert_eq!(order, vec!["f1", "m1", "f2", "f3", "m2", "f4"]);
}

#[test]
fn every_leaf_gets_the_properties_of_all_blocks_around_it() {
    let mut b = sample();
    let fields = b.fields();
    let got: Vec<(&str, Vec<&str>)> =
        fields.iter().map(|f| (f.name.as_str(), names(&f.properties))).collect();
    assert_eq!(
        got,
        vec![
            ("f1", vec!["A", "x"]),
            ("f2", vec!["A", "B", "y"]),
            ("f3", vec!["A", "B", "C", "z"]),
            ("f4", vec!["A"]),
        ]
    );
    let methods = b.methods();
    let got: Vec<(&str, Vec<&str>)> =
        methods.iter().map(|m| (m.name.as_str(), names(&m.properties))).collect();
    assert_eq!(got, vec![("m1", vec!["A", "w"]), ("m2", vec!["A", "B", "C"])]);
    assert_eq!(b, sample());
}

#[test]
fn normalizing_twice_changes_nothing() {
    let once = sample().normalize();
    let twice = once.normalize();
    assert_eq!(once, twice);
    assert_eq!(once.inner.len(), 6);
}

#[test]
fn leaves_keep_everything_but_their_properties() {
    let mut b = block(&["P"], vec![field("f", &[]), method("m", &[])]);
    let f = &b.fields()[0];
    assert!(!f.is_static);
    assert_eq!(f.typ, Type::Integer);
    assert_eq!(f.value, Some(Value::Integer(1)));
    let m = &b.methods()[0];
    assert!(m.is_static);
    assert_eq!(m.returns, "void");
}

#[test]
fn duplicates_are_kept() {
    let mut b = block(&["A"], vec![Declaration::Block(block(&["A"], vec![field("f", &["A"])]))]);
    assert_eq!(names(&b.fields()[0].properties), vec!["A", "A", "A"]);
}

#[test]
fn empty_blocks_flatten_to_nothing() {
    let mut b = block(&["A"], vec![Declaration::Block(block(&["B"], vec![]))]);
    assert!(b.fields().is_empty());
    assert!(b.methods().is_empty());
    assert!(b.normalize().inner.is_empty());
}
