use moho::model::{Argument, Block, Class, Declaration, Field, Method, Property, Type, Value};

fn prop(meta: bool, name: &str, value: Option<Value>) -> Property {
    Property { meta, name: name.to_string(), value }
}

#[test]
fn value_kinds_and_texts() {
    let mut cases = vec![
        (Value::Default, "default", "(*void)0"),
        (Value::Nullptr, "nullptr", "nullptr"),
        (Value::Char(104), "char", "(char)104"),
        (Value::Char(0), "char", "(char)0"),
        (Value::Bool(true), "bool", "true"),
        (Value::Bool(false), "bool", "false"),
        (Value::Float("3.14".to_string()), "float", "3.14"),
        (Value::Str("\"hi\"".to_string()), "string", "\"hi\""),
        (Value::Integer(-12), "integer", "-12"),
        (Value::Integer(i64::MIN), "integer", "-9223372036854775808"),
    ];
    for (value, kind, text) in cases.iter_mut() {
        assert_eq!(value.pure(), *kind);
        assert_eq!(value.print(), *text);
        assert_eq!(value.to_text(), *text);
        assert_eq!(value.is_empty(), *kind == "default");
    }
}

#[test]
fn type_kinds() {
    let class = || Type::Class("Actor".to_string());
    let mut cases = vec![
        (Type::Void, "none", true),
        (Type::Char, "char", true),
        (Type::Bool, "bool", true),
        (Type::Float, "float", true),
        (Type::String, "string", true),
        (Type::Integer, "integer", true),
        (Type::Array(Box::new(class())), "array", false),
        (Type::Matrix(Box::new(Type::Float)), "matrix", false),
        (Type::Pointer(Box::new(Type::Integer), 2), "pointer", false),
        (Type::Reference(Box::new(Type::Bool)), "reference", false),
        (class(), "Actor", false),
    ];
    for (typ, kind, primitive) in cases.iter_mut() {
        assert_eq!(typ.pure(), *kind);
        assert_eq!(typ.is_primitive(), *primitive);
    }
}

#[test]
fn inner_unwraps_one_level() {
    let class = || Type::Class("Actor".to_string());
    assert_eq!(Type::Array(Box::new(class())).inner(), class());
    assert_eq!(Type::Matrix(Box::new(Type::Float)).inner(), Type::Float);
    assert_eq!(
        Type::Pointer(Box::new(Type::Pointer(Box::new(Type::Integer), 1)), 2).inner(),
        Type::Pointer(Box::new(Type::Integer), 1)
    );
    assert_eq!(Type::Reference(Box::new(Type::Bool)).inner(), Type::Bool);
    assert_eq!(class().inner(), class());
}

#[test]
fn getters_hand_out_copies() {
    let mut p = prop(true, "Range", Some(Value::Integer(3)));
    assert_eq!(p.get_name(), "Range");
    assert_eq!(p.get_value(), Some(Value::Integer(3)));

    let mut f = Field {
        is_static: true,
        properties: vec![prop(false, "A", None)],
        name: "f".to_string(),
        typ: Type::Pointer(Box::new(Type::Char), 1),
        value: None,
    };
    assert_eq!(f.get_properties(), vec![prop(false, "A", None)]);
    assert_eq!(f.get_name(), "f");
    assert_eq!(f.get_type(), Type::Pointer(Box::new(Type::Char), 1));
    assert_eq!(f.get_value(), Value::Default);
    assert!(f.get_is_static());
    f.value = Some(Value::Nullptr);
    assert_eq!(f.get_value(), Value::Nullptr);

    let mut a = Argument {
        properties: vec![prop(false, "In", None)],
        name: "n".to_string(),
        typ: "const int&".to_string(),
        value: Some(Value::Integer(1)),
    };
    assert_eq!(a.get_properties(), vec![prop(false, "In", None)]);
    assert_eq!(a.get_name(), "n");
    assert_eq!(a.get_type(), "const int&");
    assert_eq!(a.get_value(), Some(Value::Integer(1)));
    assert_eq!(a.clone(), a);
}

#[test]
fn method_splits_its_properties_by_the_meta_mark() {
    let mut m = Method {
        is_static: false,
        properties: vec![
            prop(false, "A", None),
            prop(true, "B", None),
            prop(false, "C", Some(Value::Bool(true))),
            prop(true, "D", None),
        ],
        name: "m".to_string(),
        returns: "void".to_string(),
        arguments: vec![],
    };
    assert_eq!(
        m.get_properties(),
        vec![prop(false, "A", None), prop(false, "C", Some(Value::Bool(true)))]
    );
    assert_eq!(m.get_meta_properties(), vec![prop(true, "B", None), prop(true, "D", None)]);
    assert_eq!(m.get_name(), "m");
    assert_eq!(m.get_return_type(), "void");
    assert!(m.get_arguments().is_empty());
    assert_eq!(m.arguments_as_str(), "");
    assert!(!m.get_is_static());
    m.arguments.push(Argument {
        properties: vec![],
        name: "x".to_string(),
        typ: "int".to_string(),
        value: None,
    });
    assert_eq!(m.arguments_as_str(), "int x");
    m.arguments.push(Argument {
        properties: vec![],
        name: "y".to_string(),
        typ: "".to_string(),
        value: None,
    });
    assert_eq!(m.arguments_as_str(), "int x,  y");
    assert_eq!(m.get_arguments().len(), 2);
}

#[test]
fn block_and_class_getters() {
    let leaf = Declaration::Field(Field {
        is_static: false,
        properties: vec![],
        name: "f".to_string(),
        typ: Type::Bool,
        value: None,
    });
    let nested = Declaration::Block(Block { properties: vec![prop(false, "N", None)], inner: vec![leaf] });
    let mut b = Block { properties: vec![prop(false, "P", None)], inner: vec![nested] };
    assert_eq!(b.get_properties(), vec![prop(false, "P", None)]);
    assert_eq!(b.get_inner(), b.inner);
    assert_eq!(b.clone(), b);

    let mut c = Class {
        properties: vec![prop(false, "K", None)],
        name: "C".to_string(),
        inherit: vec!["A".to_string(), "B".to_string()],
        inner: b.clone(),
    };
    assert_eq!(c.get_name(), "C");
    assert_eq!(c.get_inherit(), vec!["A", "B"]);
    assert_eq!(c.get_inner(), b);
    assert_eq!(c.get_properties(), vec![prop(false, "K", None)]);
    assert_eq!(c.clone(), c);
}
