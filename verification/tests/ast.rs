use moho::ast::MohoAST;
use moho::tree::Rule;

#[test]
fn ast_parse_properties() {
    let p = MohoAST::parse(Rule::properties, "[]");
    assert!(p.is_err());

    let p = MohoAST::parse(Rule::properties, "[A]");
    assert!(p.is_ok());

    let p = MohoAST::parse(Rule::properties, "[A=5]");
    assert!(p.is_ok());

    let p = MohoAST::parse(
        Rule::properties,
        "[A=5, B = \"hello world, jeremy!\", C='h', D =3.14, E=nullptr]",
    );
    assert!(p.is_ok());
}

#[test]
fn ast_parse_class_no_inherit() {
    let p = MohoAST::parse(Rule::class, "class Abc {}");
    assert!(p.is_ok());
}

#[test]
fn ast_parse_class_inherit() {
    let p = MohoAST::parse(Rule::class, "class Abc : Def {}");
    assert!(p.is_ok());
}

#[test]
fn ast_parse_class_properties() {
    let p = MohoAST::parse(Rule::class, "[Meta, VeryMeta, Count=5] class Abc {}");
    assert!(p.is_ok());
}

#[test]
fn ast_parse_declarations() {
    let p = MohoAST::parse(Rule::body, "int a; char b = 5; bool x = false;");
    assert!(p.is_ok());

    // at this point, we don't check types
    let p = MohoAST::parse(
        Rule::body,
        "int a = 3.14; char b = \"hey jude\"; bool x = 'c';",
    );
    assert!(p.is_ok());

    // we can do pointers
    let p = MohoAST::parse(Rule::body, "int* x = nullptr; Actor* a;");
    assert!(p.is_ok());

    // references too
    let p = MohoAST::parse(Rule::body, "int& x;");
    assert!(p.is_ok());

    // and arrays
    let p = MohoAST::parse(Rule::body, "SimpleController[] bindings;");
    assert!(p.is_ok());
}

#[test]
fn ast_parse_files() {
    let p = MohoAST::parse(
        Rule::class,
        "[Replicated]\nclass Player : AActor\n{\n    int health = 100;\n    void Jump(float height);\n}\n",
    );
    assert!(p.is_ok());

    let p = MohoAST::parse(
        Rule::class,
        "class First : AActor\n{\n    int a;\n}\n\nclass Second : First, Other\n{\n}\n",
    );
    assert!(p.is_ok());
}
