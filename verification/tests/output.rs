use moho::defaults::{copy_default_files, default_file_names};
use moho::driver::{
    any_string_in_array, append_to_path, class_skeleton, config_path, join_property_array,
    join_string_array,
};
use moho::model::{Property, Value};
use moho::output::{join_path, OutputTemplate, OutputWriter, StringWriter};
use moho::parser::MohoParser;

#[test]
fn string_writer_grows_at_its_end() {
    let mut w = StringWriter::new();
    assert_eq!(w.get(), "");
    w.add("ab".to_string());
    w.add("".to_string());
    w.add("c".to_string());
    assert_eq!(w.get(), "abc");
    let mut v = StringWriter::default();
    v.add("x".to_string());
    v.add_string_writer(w.clone());
    assert_eq!(v.get(), "xabc");
    assert_eq!(w.get(), "abc");
}

#[test]
fn template_fills_the_holes_of_its_names() {
    let mut t = OutputTemplate::new("Hi, my name is {{name}} and I'm a {{lang}} developer.".to_string());
    t.put("name", "Michael");
    t.put("lang", "Rust");
    assert_eq!(t.finish(), "Hi, my name is Michael and I'm a Rust developer.");
}

#[test]
fn template_keeps_the_last_value_put_for_a_name() {
    let mut t = OutputTemplate::new("{{a}}-{{b}}-{{c}}".to_string());
    t.put("a", "1");
    t.put("b", "2");
    t.put("a", "3");
    let mut w = StringWriter::new();
    w.add("four".to_string());
    t.put_string_writer("b", w);
    assert_eq!(t.finish(), "3-four-{{c}}");
}

#[test]
fn template_without_holes_is_its_pattern() {
    let t = OutputTemplate::new("plain { text }".to_string());
    assert_eq!(t.finish(), "plain { text }");
    assert_eq!(OutputTemplate::default().finish(), "");
}

#[test]
fn writer_collects_text_and_names_its_files() {
    let mut w = OutputWriter::new("out".to_string(), "cfg".to_string());
    assert_eq!(w.get(), "");
    w.add("class ".to_string());
    let mut t = OutputTemplate::new("{{n}};".to_string());
    t.put("n", "A");
    w.embed(t);
    assert_eq!(w.get(), "class A;");
    assert_eq!(w.template_path("AActor.rhai"), "cfg\\AActor.rhai");
    let (path, text) = w.write_to("A.h".to_string());
    assert_eq!(path, "out\\A.h");
    assert_eq!(text, "class A;");
    assert_eq!(w.get(), "class A;");
    let mut s = w.snippet();
    s.add("x".to_string());
    assert_eq!(s.get(), "x");
    let copy = w.clone();
    w.clear();
    assert_eq!(w.get(), "");
    assert_eq!(copy.get(), "class A;");
    assert_eq!(join_path("a", "b"), "a\\b");
}

#[test]
fn joins() {
    assert_eq!(join_string_array(vec![]), "");
    assert_eq!(join_string_array(vec!["a".to_string()]), "a");
    assert_eq!(join_string_array(vec!["a".to_string(), "".to_string(), "c".to_string()]), "a, , c");
    assert!(!any_string_in_array(vec![]));
    assert!(any_string_in_array(vec!["".to_string()]));
    let props = vec![
        Property { meta: false, name: "A".to_string(), value: None },
        Property { meta: true, name: "B".to_string(), value: Some(Value::Integer(5)) },
        Property { meta: false, name: "C".to_string(), value: Some(Value::Char(7)) },
        Property { meta: false, name: "D".to_string(), value: Some(Value::Str("\"s\"".to_string())) },
    ];
    assert_eq!(join_property_array(props), "A, B=5, C=(char)7, D=\"s\"");
    assert_eq!(join_property_array(vec![]), "");
}

#[test]
fn paths_and_skeleton() {
    assert_eq!(append_to_path("/home/u", "/", "base.rhai"), "/home/u/base.rhai");
    assert_eq!(config_path(Some("/home/u/.config".to_string()), "/"), "/home/u/.config/.moho");
    assert_eq!(config_path(None, "/"), ".");
    assert_eq!(class_skeleton("Hero", "AActor"), "class Hero : AActor\n{\n\n}\n");
    let unit = MohoParser::apply(&class_skeleton("Hero", "AActor")).unwrap();
    assert_eq!(unit.0[0].name, "Hero");
    assert_eq!(unit.0[0].inherit, vec!["AActor"]);
}

#[test]
fn scripts_are_chosen_by_the_primary_base() {
    let unit = MohoParser::apply("class A {} class B : AActor {} class C : X, Y, Z {}").unwrap();
    assert_eq!(unit.0[0].script_name(), "base.rhai");
    assert_eq!(unit.0[0].primary_base(), None);
    assert!(unit.0[0].other_bases().is_empty());
    assert_eq!(unit.0[1].script_name(), "AActor.rhai");
    assert_eq!(unit.0[1].primary_base(), Some("AActor".to_string()));
    assert!(unit.0[1].other_bases().is_empty());
    assert_eq!(unit.0[2].script_name(), "X.rhai");
    assert_eq!(unit.0[2].other_bases(), vec!["Y", "Z"]);
}

#[test]
fn default_files() {
    let names = default_file_names();
    assert_eq!(names.len(), 18);
    assert_eq!(names[0], "base.rhai");
    assert_eq!(names[1], "AActor.rhai");
    assert_eq!(names[17], "method-declaration-template.txt");
    let paths = copy_default_files("cfg", "/");
    assert_eq!(paths.len(), 18);
    for (name, path) in names.iter().zip(paths.iter()) {
        assert_eq!(*path, format!("cfg/{}", name));
    }
}
