use moho::error::{MohoError, Reason};
use moho::grammar::{LineColLocation, MohoGrammar};
use moho::model::{Class, Declaration, Field, Method, Property, Type, Value};
use moho::parser::MohoParser;
use moho::tree::{Pair, Rule, Span};

fn only_class(text: &str) -> Class {
    let mut unit = MohoParser::apply(text).unwrap();
    assert_eq!(unit.0.len(), 1);
    unit.0.remove(0)
}

fn fields_of_body(body: &str) -> Vec<Field> {
    let mut class = only_class(&format!("class T {{ {} }}", body));
    class.inner.fields()
}

fn fragment(rule: Rule, text: &str, inner: Vec<Pair>) -> Pair {
    Pair { rule, span: Span { start: 3, end: 3 + text.chars().count() }, text: text.to_string(), inner }
}

fn property(meta: bool, name: &str, value: Option<Value>) -> Property {
    Property { meta, name: name.to_string(), value }
}

#[test]
fn empty_text_is_an_empty_unit() {
    let unit = MohoParser::apply("").unwrap();
    assert!(unit.0.is_empty());
    let unit = MohoParser::apply(" \n\t\r\n").unwrap();
    assert!(unit.0.is_empty());
}

#[test]
fn single_properties() {
    assert!(MohoGrammar::parse(Rule::properties, "[]").is_err());

    let tree = MohoGrammar::parse(Rule::properties, "[A]").unwrap();
    let props = MohoParser::parse_properties(&tree[0]).unwrap();
    assert_eq!(props, vec![property(false, "A", None)]);

    let tree = MohoGrammar::parse(Rule::properties, "[A=5]").unwrap();
    let props = MohoParser::parse_properties(&tree[0]).unwrap();
    assert_eq!(props, vec![property(false, "A", Some(Value::Integer(5)))]);
}

#[test]
fn property_values_of_every_kind() {
    let tree = MohoGrammar::parse(
        Rule::properties,
        "[A=5, B = \"hello world, jeremy!\", C='104', D =3.14, E=nullptr, meta F = true, G=-7]",
    )
    .unwrap();
    let props = MohoParser::parse_properties(&tree[0]).unwrap();
    assert_eq!(
        props,
        vec![
            property(false, "A", Some(Value::Integer(5))),
            property(false, "B", Some(Value::Str("\"hello world, jeremy!\"".to_string()))),
            property(false, "C", Some(Value::Char(104))),
            property(false, "D", Some(Value::Float("3.14".to_string()))),
            property(false, "E", Some(Value::Nullptr)),
            property(true, "F", Some(Value::Bool(true))),
            property(false, "G", Some(Value::Integer(-7))),
        ]
    );
}

#[test]
fn class_without_bases() {
    let mut class = only_class("class Abc {}");
    assert_eq!(class.name, "Abc");
    assert!(class.inherit.is_empty());
    assert!(class.properties.is_empty());
    assert!(class.inner.fields().is_empty());
    assert!(class.inner.methods().is_empty());
}

#[test]
fn class_with_bases() {
    let class = only_class("class Abc : Def {}");
    assert_eq!(class.inherit, vec!["Def".to_string()]);
    let class = only_class("class Abc:Def ,Ghi,\n Abc, Def{}");
    assert_eq!(class.inherit, vec!["Def", "Ghi", "Abc", "Def"]);
}

#[test]
fn class_properties_stay_with_the_class() {
    let mut class = only_class("[Meta, VeryMeta, Count=5] class Abc { int a; }");
    assert_eq!(
        class.properties,
        vec![
            property(false, "Meta", None),
            property(false, "VeryMeta", None),
            property(false, "Count", Some(Value::Integer(5))),
        ]
    );
    assert!(class.inner.properties.is_empty());
    let fields = class.inner.fields();
    assert_eq!(fields.len(), 1);
    assert!(fields[0].properties.is_empty());
}

#[test]
fn pointer_fields() {
    let fields = fields_of_body("int* x = nullptr; Actor* a;");
    assert_eq!(fields.len(), 2);
    assert_eq!(fields[0].name, "x");
    assert_eq!(fields[0].typ, Type::Pointer(Box::new(Type::Integer), 1));
    assert_eq!(fields[0].value, Some(Value::Nullptr));
    assert_eq!(fields[1].name, "a");
    assert_eq!(fields[1].typ, Type::Pointer(Box::new(Type::Class("Actor".to_string())), 1));
    assert_eq!(fields[1].value, None);
}

#[test]
fn array_field() {
    let fields = fields_of_body("SimpleController[] bindings;");
    assert_eq!(fields.len(), 1);
    assert_eq!(fields[0].name, "bindings");
    assert_eq!(
        fields[0].typ,
        Type::Array(Box::new(Type::Class("SimpleController".to_string())))
    );
}

#[test]
fn every_type_form() {
    let fields = fields_of_body(
        "bool a; char b; float c; double d; int e; long f; string g; Foo h; int** i; int& j; \
         Matrix<float> k; Matrix<Foo*>[] l; int ** * m;",
    );
    let types: Vec<Type> = fields.iter().map(|f| f.typ.clone()).collect();
    assert_eq!(
        types,
        vec![
            Type::Bool,
            Type::Char,
            Type::Float,
            Type::Float,
            Type::Integer,
            Type::Integer,
            Type::String,
            Type::Class("Foo".to_string()),
            Type::Pointer(Box::new(Type::Integer), 2),
            Type::Reference(Box::new(Type::Integer)),
            Type::Matrix(Box::new(Type::Float)),
            Type::Array(Box::new(Type::Matrix(Box::new(Type::Pointer(
                Box::new(Type::Class("Foo".to_string())),
                1
            ))))),
            Type::Pointer(Box::new(Type::Pointer(Box::new(Type::Integer), 2)), 1),
        ]
    );
}

#[test]
fn value_is_not_held_against_the_type() {
    let fields = fields_of_body("int a = 3.14; char b = \"hey jude\"; bool x = 5;");
    assert_eq!(fields.len(), 3);
    assert_eq!(fields[0].typ, Type::Integer);
    assert_eq!(fields[0].value, Some(Value::Float("3.14".to_string())));
    assert_eq!(fields[1].typ, Type::Char);
    assert_eq!(fields[1].value, Some(Value::Str("\"hey jude\"".to_string())));
    assert_eq!(fields[2].typ, Type::Bool);
    assert_eq!(fields[2].value, Some(Value::Integer(5)));
}

#[test]
fn float_literal_keeps_its_precision() {
    let mut fields = fields_of_body("double pi = 3.14; double e = -2.718281828459045;");
    let mut pi = fields[0].get_value();
    assert_eq!(pi, Value::Float("3.14".to_string()));
    assert_eq!(pi.print(), "3.14");
    assert_eq!(pi.print().parse::<f64>().unwrap(), 3.14);
    let mut e = fields[1].get_value();
    assert_eq!(e.print().parse::<f64>().unwrap(), -2.718281828459045);
}

#[test]
fn static_fields_and_methods() {
    let mut class = only_class(
        "class A { static int count = 0; int plain; static void Reset(); void Tick(float dt); }",
    );
    let fields = class.inner.fields();
    assert_eq!(fields.iter().map(|f| f.is_static).collect::<Vec<_>>(), vec![true, false]);
    let methods = class.inner.methods();
    assert_eq!(methods.iter().map(|m| m.is_static).collect::<Vec<_>>(), vec![true, false]);
    assert_eq!(methods[0].name, "Reset");
    assert_eq!(methods[0].returns, "void");
    assert!(methods[0].arguments.is_empty());
    assert_eq!(methods[1].arguments.len(), 1);
    assert_eq!(methods[1].arguments[0].typ, "float");
    assert_eq!(methods[1].arguments[0].name, "dt");
}

#[test]
fn method_with_raw_types_and_defaults() {
    let mut class = only_class(
        "class A { [BlueprintCallable] APawn* GetPlayerPawn(const UObject* WorldContextObject, \n \
         [Clamp] int32 PlayerIndex = 0); }",
    );
    let mut methods: Vec<Method> = class.inner.methods();
    assert_eq!(methods.len(), 1);
    let m = &mut methods[0];
    assert_eq!(m.name, "GetPlayerPawn");
    assert_eq!(m.returns, "APawn*");
    assert_eq!(m.properties, vec![property(false, "BlueprintCallable", None)]);
    assert_eq!(m.arguments.len(), 2);
    assert_eq!(m.arguments[0].typ, "const UObject*");
    assert_eq!(m.arguments[0].name, "WorldContextObject");
    assert_eq!(m.arguments[0].value, None);
    assert_eq!(m.arguments[1].properties, vec![property(false, "Clamp", None)]);
    assert_eq!(m.arguments[1].typ, "int32");
    assert_eq!(m.arguments[1].name, "PlayerIndex");
    assert_eq!(m.arguments[1].value, Some(Value::Integer(0)));
    assert_eq!(m.arguments_as_str(), "const UObject* WorldContextObject, int32 PlayerIndex");
}

#[test]
fn every_declaration_is_a_block() {
    let class = only_class("class A { [P] int a; { int b; } }");
    assert_eq!(class.inner.inner.len(), 2);
    match &class.inner.inner[0] {
        Declaration::Block(b) => {
            assert_eq!(b.properties, vec![property(false, "P", None)]);
            assert_eq!(b.inner.len(), 1);
            assert!(matches!(&b.inner[0], Declaration::Field(f) if f.name == "a"));
        }
        other => panic!("not a block: {:?}", other),
    }
    match &class.inner.inner[1] {
        Declaration::Block(b) => {
            assert!(b.properties.is_empty());
            assert_eq!(b.inner.len(), 1);
            assert!(matches!(&b.inner[0], Declaration::Block(_)));
        }
        other => panic!("not a block: {:?}", other),
    }
}

#[test]
fn classes_come_in_the_order_written() {
    let unit = MohoParser::apply("class B {} class A : B {}\n[X] class C : A, B { int c; }").unwrap();
    let names: Vec<&str> = unit.0.iter().map(|c| c.name.as_str()).collect();
    assert_eq!(names, vec!["B", "A", "C"]);
}

#[test]
fn syntax_errors_carry_line_and_column() {
    let e = MohoParser::apply("class A {}\nclass B { int x }").unwrap_err();
    assert_eq!(
        e,
        MohoError::TokenizerError(
            "expected a class or the end of the text".to_string(),
            LineColLocation { line: 2, column: 1 }
        )
    );
    assert!(matches!(MohoParser::apply("[] class A {}"), Err(MohoError::TokenizerError(_, _))));
    assert!(matches!(MohoParser::apply("class {}"), Err(MohoError::TokenizerError(_, _))));
}

#[test]
fn value_errors_carry_the_span_of_the_literal() {
    let e = MohoParser::apply("class A { char c = 'h'; }").unwrap_err();
    assert_eq!(
        e,
        MohoError::ParseValueError(
            "invalid digit found in string".to_string(),
            Span { start: 20, end: 21 }
        )
    );
    let e = MohoParser::apply("class A { char c = '256'; }").unwrap_err();
    assert_eq!(
        e,
        MohoError::ParseValueError(
            "number too large to fit in target type".to_string(),
            Span { start: 20, end: 23 }
        )
    );
    let e = MohoParser::apply("[N=99999999999999999999] class A {}").unwrap_err();
    assert_eq!(
        e,
        MohoError::ParseValueError(
            "number too large to fit in target type".to_string(),
            Span { start: 3, end: 23 }
        )
    );
    let e = MohoParser::apply("[N=-99999999999999999999] class A {}").unwrap_err();
    assert_eq!(
        e,
        MohoError::ParseValueError(
            "number too small to fit in target type".to_string(),
            Span { start: 3, end: 24 }
        )
    );
}

#[test]
fn first_failure_wins() {
    let e = MohoParser::apply("class A { char a = 'x'; char b = '999'; }").unwrap_err();
    assert_eq!(
        e,
        MohoError::ParseValueError(
            "invalid digit found in string".to_string(),
            Span { start: 20, end: 21 }
        )
    );
}

#[test]
fn class_errors_on_built_trees() {
    let nameless = fragment(Rule::class, "class {}", vec![]);
    assert_eq!(
        MohoParser::parse_class(&nameless).unwrap_err(),
        MohoError::ParseClassError("Class name missing.".to_string(), Span { start: 3, end: 11 })
    );
    let odd = fragment(
        Rule::class,
        "class A 5",
        vec![fragment(Rule::name, "A", vec![]), fragment(Rule::integer, "5", vec![])],
    );
    assert_eq!(
        MohoParser::parse_class(&odd).unwrap_err(),
        MohoError::because(Reason::UnexpectedInClass, Span { start: 3, end: 12 })
    );
    assert!(matches!(MohoParser::parse_class(&odd), Err(MohoError::ParseClassError(_, _))));
}

#[test]
fn property_and_value_errors_on_built_trees() {
    let nameless = fragment(Rule::property, "meta", vec![fragment(Rule::meta, "meta", vec![])]);
    assert_eq!(
        MohoParser::parse_property(&nameless).unwrap_err(),
        MohoError::ParsePropertyError("Expected property name".to_string(), Span { start: 3, end: 7 })
    );
    let hollow = fragment(Rule::value, "", vec![]);
    assert_eq!(
        MohoParser::match_value(&hollow).unwrap_err(),
        MohoError::ParsePropertyError("Failed to parse property".to_string(), Span { start: 3, end: 3 })
    );
    let stray = fragment(Rule::identifier, "abc", vec![]);
    assert_eq!(
        MohoParser::match_value(&stray).unwrap_err(),
        MohoError::ParseValueError("Cannot read value".to_string(), Span { start: 3, end: 6 })
    );
    let odd_bool = fragment(Rule::bool, "yes", vec![]);
    assert_eq!(
        MohoParser::match_value(&odd_bool).unwrap_err(),
        MohoError::because(Reason::NotABool, Span { start: 3, end: 6 })
    );
    let odd_float = fragment(Rule::float, "1e5", vec![]);
    assert_eq!(
        MohoParser::match_value(&odd_float).unwrap_err(),
        MohoError::because(Reason::NotAFloat, Span { start: 3, end: 6 })
    );
    let no_number = fragment(Rule::integer, "", vec![]);
    assert_eq!(
        MohoParser::match_value(&no_number).unwrap_err(),
        MohoError::because(Reason::EmptyNumber, Span { start: 3, end: 3 })
    );
    assert_eq!(MohoParser::parse_value(&vec![], 0).unwrap(), Value::Default);
}

#[test]
fn type_errors_on_built_trees() {
    let empty = fragment(Rule::type_decl, "", vec![]);
    assert_eq!(
        MohoParser::parse_type(&empty).unwrap_err(),
        MohoError::ParseTypeError("Parsing type failed.".to_string(), Span { start: 3, end: 3 })
    );
    let hollow = fragment(Rule::type_decl, "*", vec![fragment(Rule::pointer_type, "*", vec![])]);
    assert_eq!(
        MohoParser::parse_type(&hollow).unwrap_err(),
        MohoError::ParseTypeError("Parsing type failed.".to_string(), Span { start: 3, end: 4 })
    );
    let unknown = fragment(Rule::type_decl, "5", vec![fragment(Rule::integer, "5", vec![])]);
    assert_eq!(
        MohoParser::parse_type(&unknown).unwrap_err(),
        MohoError::ParseTypeError("Unknown type.".to_string(), Span { start: 3, end: 4 })
    );
    let name = fragment(Rule::identifier, "double", vec![]);
    assert_eq!(MohoParser::parse_type(&name).unwrap(), Type::Float);
}

#[test]
fn declaration_field_and_argument_errors_on_built_trees() {
    let stray = fragment(Rule::declaration, "5", vec![fragment(Rule::integer, "5", vec![])]);
    assert_eq!(
        MohoParser::parse_declaration(&stray).unwrap_err(),
        MohoError::DeclarationError("Unexpected token in block.".to_string(), Span { start: 3, end: 4 })
    );
    let field = fragment(Rule::field_decl, "x y", vec![fragment(Rule::name, "x", vec![])]);
    assert_eq!(
        MohoParser::parse_field(&field).unwrap_err(),
        MohoError::ParseFieldError("Cannot parse this in a field.".to_string(), Span { start: 3, end: 6 })
    );
    let method = fragment(Rule::method_decl, "x y", vec![fragment(Rule::name, "x", vec![])]);
    assert!(matches!(MohoParser::parse_method(&method), Err(MohoError::ParseFieldError(_, _))));
    let argument = fragment(Rule::argument, "x", vec![fragment(Rule::name, "x", vec![])]);
    assert_eq!(
        MohoParser::parse_argument(&argument).unwrap_err(),
        MohoError::ParseArgumentError("Cannot parse argument.".to_string(), Span { start: 3, end: 4 })
    );
}

#[test]
fn built_fields_trim_their_names_and_split_typed_names() {
    let field = fragment(
        Rule::field_decl,
        "int  x ;",
        vec![
            fragment(Rule::type_decl, "int", vec![fragment(Rule::identifier, "int", vec![])]),
            fragment(Rule::identifier, " \tx \n", vec![]),
        ],
    );
    match MohoParser::parse_field(&field).unwrap() {
        Declaration::Field(f) => {
            assert_eq!(f.name, "x");
            assert_eq!(f.typ, Type::Integer);
        }
        other => panic!("not a field: {:?}", other),
    }
    let method = fragment(
        Rule::method_decl,
        "Make();",
        vec![fragment(Rule::dont_care_type_decl, "Make", vec![])],
    );
    match MohoParser::parse_method(&method).unwrap() {
        Declaration::Method(m) => {
            assert_eq!(m.name, "Make");
            assert_eq!(m.returns, "");
        }
        other => panic!("not a method: {:?}", other),
    }
    let method = fragment(
        Rule::method_decl,
        "unsigned long int Count();",
        vec![fragment(Rule::dont_care_type_decl, "unsigned long int Count", vec![])],
    );
    match MohoParser::parse_method(&method).unwrap() {
        Declaration::Method(m) => {
            assert_eq!(m.name, "Count");
            assert_eq!(m.returns, "unsigned long int");
        }
        other => panic!("not a method: {:?}", other),
    }
}

#[test]
fn text_beyond_ascii_and_line_ends_of_every_kind() {
    let text = "[Doc=\"héllo — wörld\"]\r\nclass Ünused {}\r\n";
    assert!(matches!(MohoParser::apply(text), Err(MohoError::TokenizerError(_, _))));
    let text = "[Doc=\"héllo — wörld\"]\r\nclass Used\r\n{\r\n\tstring s = \"日本語\";\r\n}\r\n";
    let mut class = only_class(text);
    assert_eq!(class.properties[0].value, Some(Value::Str("\"héllo — wörld\"".to_string())));
    let fields = class.inner.fields();
    assert_eq!(fields[0].typ, Type::String);
    assert_eq!(fields[0].value, Some(Value::Str("\"日本語\"".to_string())));
    let e = MohoParser::apply("class A {}\r\n\r\n  class B { char c = 'é'; }").unwrap_err();
    assert_eq!(
        e,
        MohoError::ParseValueError(
            "invalid digit found in string".to_string(),
            Span { start: 36, end: 37 }
        )
    );
}

#[test]
fn deep_nesting_keeps_its_shape() {
    let mut text = String::from("class Deep { ");
    for i in 0..50 {
        text.push_str(&format!("[P{}] {{ ", i));
    }
    text.push_str("int leaf;");
    for _ in 0..50 {
        text.push_str(" }");
    }
    text.push_str(" }");
    let mut class = only_class(&text);
    let fields = class.inner.fields();
    assert_eq!(fields.len(), 1);
    assert_eq!(fields[0].properties.len(), 50);
    assert_eq!(fields[0].properties[0].name, "P0");
    assert_eq!(fields[0].properties[49].name, "P49");
}
