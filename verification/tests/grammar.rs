use moho::grammar::MohoGrammar;
use moho::tree::Rule;

const SINGLE_CLASS: &str = "[Replicated]
class Player : AActor
{
    [Category=\"Stats\"]
    {
        int health = 100;
        float speed = 1.5;
    }

    static Actor* owner = nullptr;
    void Jump(float height);
}
";

const MULTI_CLASSES: &str = "class First : AActor
{
    int a;
}

class Second : First, Other
{
    SimpleController[] bindings;
}
";

#[test]
fn grammar_parse_properties() {
    let p = MohoGrammar::parse(Rule::properties, "[]");
    assert!(p.is_err());

    let p = MohoGrammar::parse(Rule::properties, "[A]");
    assert!(p.is_ok());

    let p = MohoGrammar::parse(Rule::properties, "[A=5]");
    assert!(p.is_ok());

    let p = MohoGrammar::parse(
        Rule::properties,
        "[A=5, B = \"hello world, jeremy!\", C='h', D =3.14, E=nullptr]",
    );
    assert!(p.is_ok());
}

#[test]
fn grammar_parse_class_no_inherit() {
    let p = MohoGrammar::parse(Rule::class, "class Abc {}");
    assert!(p.is_ok());
}

#[test]
fn grammar_parse_class_inherit() {
    let p = MohoGrammar::parse(Rule::class, "class Abc : Def {}");
    assert!(p.is_ok());
}

#[test]
fn grammar_parse_class_properties() {
    let p = MohoGrammar::parse(Rule::class, "[Meta, VeryMeta, Count=5] class Abc {}");
    assert!(p.is_ok());
}

#[test]
fn grammar_parse_declarations() {
    let p = MohoGrammar::parse(Rule::body, "int a; char b = 5; bool x = false;");
    assert!(p.is_ok());

    // at this point, we don't check types
    let p = MohoGrammar::parse(
        Rule::body,
        "int a = 3.14; char b = \"hey jude\"; bool x = 'c';",
    );
    assert!(p.is_ok());

    // we can do pointers
    let p = MohoGrammar::parse(Rule::body, "int* x = nullptr; Actor* a;");
    assert!(p.is_ok());

    // references too
    let p = MohoGrammar::parse(Rule::body, "int& x;");
    assert!(p.is_ok());

    // and arrays
    let p = MohoGrammar::parse(Rule::body, "SimpleController[] bindings;");
    assert!(p.is_ok());
}

#[test]
fn grammar_parse_files() {
    let p = MohoGrammar::parse(Rule::class, SINGLE_CLASS);
    assert!(p.is_ok());

    let p = MohoGrammar::parse(Rule::class, MULTI_CLASSES);
    assert!(p.is_ok());
}

#[test]
fn parse_method() {
    let p = MohoGrammar::parse(Rule::method_decl, "APawn* GetPlayerPawn(const UObject* WorldContextObject, 
            int32 PlayerIndex);");
    assert!(p.is_ok());
    println!("{:?}", p);
}

#[test]
fn body_yields_one_fragment_per_declaration() {
    let p = MohoGrammar::parse(Rule::body, "int a; char b = 5; bool x = false;").unwrap();
    assert_eq!(p.len(), 3);
    assert!(p.iter().all(|d| d.rule == Rule::declaration));
    assert_eq!(p[0].text, "int a;");
    assert_eq!(p[1].text, "char b = 5;");
    assert_eq!(p[2].text, "bool x = false;");
    assert_eq!((p[1].span.start, p[1].span.end), (7, 18));

    let p = MohoGrammar::parse(Rule::body, "int a = 3.14; char b = \"hey jude\"; bool x = 'c';")
        .unwrap();
    assert_eq!(p.len(), 3);
}

#[test]
fn whole_text_must_be_classes_only() {
    assert!(MohoGrammar::parse(Rule::moho, "").is_ok());
    assert!(MohoGrammar::parse(Rule::moho, "  \n\t ").is_ok());
    assert!(MohoGrammar::parse(Rule::moho, MULTI_CLASSES).is_ok());
    let tree = MohoGrammar::parse(Rule::moho, MULTI_CLASSES).unwrap();
    assert_eq!(tree.len(), 1);
    assert_eq!(tree[0].inner.len(), 2);

    let e = MohoGrammar::parse(Rule::moho, "class A {}\n  garbage").unwrap_err();
    assert_eq!((e.location.line, e.location.column), (2, 3));
    let e = MohoGrammar::parse(Rule::moho, "class A {} class {}").unwrap_err();
    assert_eq!((e.location.line, e.location.column), (1, 12));
    assert_eq!(e.message, "expected a class or the end of the text");
}

#[test]
fn a_rule_matches_at_the_start_only() {
    assert!(MohoGrammar::parse(Rule::class, " class Abc {}").is_err());
    assert!(MohoGrammar::parse(Rule::class, "class Abc {} trailing").is_ok());
    let e = MohoGrammar::parse(Rule::class, "klass Abc {}").unwrap_err();
    assert_eq!((e.location.line, e.location.column), (1, 1));
    assert_eq!(e.message, "the text does not start with what the rule asks for");
}

#[test]
fn method_fragment_holds_type_name_and_arguments() {
    let p = MohoGrammar::parse(
        Rule::method_decl,
        "static APawn* GetPlayerPawn(const UObject* WorldContextObject, int32 PlayerIndex = 0);",
    )
    .unwrap();
    let m = &p[0];
    assert_eq!(m.rule, Rule::method_decl);
    let rules: Vec<Rule> = m.inner.iter().map(|x| x.rule).collect();
    assert_eq!(rules, vec![Rule::static_spec, Rule::dont_care_type_decl, Rule::arguments]);
    assert_eq!(m.inner[1].text, "APawn* GetPlayerPawn");
    let args = &m.inner[2];
    assert_eq!(args.inner.len(), 2);
    assert_eq!(args.inner[0].inner[0].text, "const UObject* WorldContextObject");
    assert_eq!(args.inner[1].inner[0].text, "int32 PlayerIndex");
    assert_eq!(args.inner[1].inner[1].rule, Rule::value);
    assert_eq!(args.inner[1].inner[1].text, "0");
}

#[test]
fn type_wrappers_nest_from_the_inside_out() {
    let p = MohoGrammar::parse(Rule::type_decl, "Matrix<int>*[]").unwrap();
    let t = &p[0];
    assert_eq!(t.rule, Rule::type_decl);
    assert_eq!(t.text, "Matrix<int>*[]");
    assert_eq!(t.inner[0].rule, Rule::array_type);
    let pointer = &t.inner[0].inner[0];
    assert_eq!(pointer.rule, Rule::type_decl);
    assert_eq!(pointer.text, "Matrix<int>*");
    assert_eq!(pointer.inner[0].rule, Rule::pointer_type);
    let matrix = &pointer.inner[0].inner[0];
    assert_eq!(matrix.inner[0].rule, Rule::matrix_type);
    assert_eq!(matrix.inner[0].inner[0].text, "int");

    let p = MohoGrammar::parse(Rule::dbpointer_type, "int**").unwrap();
    assert_eq!(p[0].rule, Rule::dbpointer_type);
    assert!(MohoGrammar::parse(Rule::pointer_type, "int**").is_err());
    assert!(MohoGrammar::parse(Rule::pointer_type, "int*").is_ok());
}

#[test]
fn literals_are_told_apart() {
    let kind = |text: &str| MohoGrammar::parse(Rule::value, text).unwrap()[0].inner[0].rule;
    assert_eq!(kind("true"), Rule::bool);
    assert_eq!(kind("false"), Rule::bool);
    assert_eq!(kind("nullptr"), Rule::nullptr);
    assert_eq!(kind("3.14"), Rule::float);
    assert_eq!(kind("-3.14"), Rule::float);
    assert_eq!(kind("5"), Rule::integer);
    assert_eq!(kind("-5"), Rule::integer);
    assert_eq!(kind("'65'"), Rule::char);
    assert_eq!(kind("\"a \\\" b\""), Rule::string);
    let v = MohoGrammar::parse(Rule::value, "'65'").unwrap();
    assert_eq!(v[0].text, "'65'");
    assert_eq!(v[0].inner[0].text, "65");
    let v = MohoGrammar::parse(Rule::value, "\"a \\\" b\" rest").unwrap();
    assert_eq!(v[0].text, "\"a \\\" b\"");
    assert!(MohoGrammar::parse(Rule::value, "\"open").is_err());
    assert!(MohoGrammar::parse(Rule::value, "''").is_err());
    assert!(MohoGrammar::parse(Rule::value, "x").is_err());
}

#[test]
fn meta_marker_needs_a_name_behind_it() {
    let p = MohoGrammar::parse(Rule::properties, "[meta Hidden, meta, metadata = 1]").unwrap();
    let props = &p[0].inner;
    assert_eq!(props.len(), 3);
    assert_eq!(props[0].inner[0].rule, Rule::meta);
    assert_eq!(props[0].inner[1].text, "Hidden");
    assert_eq!(props[1].inner.len(), 1);
    assert_eq!(props[1].inner[0].text, "meta");
    assert_eq!(props[2].inner[0].text, "metadata");
}
