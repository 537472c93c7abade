//! The parser: from the tree of fragments to classes with their fields and
//! methods.

use vstd::prelude::*;
use vstd::string::*;
use crate::error::{Failure, MohoError, Reason};
use crate::grammar::{run_end, trim_end, MohoGrammar};
use crate::literal::{float_text, parse_bool, parse_byte, parse_integer};
use crate::meaning::{
    argument_from, argument_of, arguments_from, arguments_of, blank_argument, blank_block,
    blank_class, blank_field, blank_method, block_from, class_from, class_of, classes_of,
    declaration_of, entries_from, failure_at, field_from, field_of, is_wrapper, last_blank,
    method_from, method_of, name_part, named_type, names_from, properties_from, properties_of,
    property_of, trimmed, type_of, type_part, unit_of, value_from, value_of, with_entry,
    wrapper_of, written,
};
use crate::model::{
    lemma_block_view_inner, view_arguments, view_classes, view_declarations, view_names,
    view_properties, Argument, Block, Class, Declaration, Field, Method, Property, TranslationUnit,
    Type, Value,
};
use crate::syntax::CharClass;
use crate::text::{chars_of, text_between};
use crate::tree::{lemma_pair_view_inner, view_pairs, Pair, Rule};

verus! {

/// `found` is what `expected` says: the value with that view, or an error
/// that reports that failure.
pub open spec fn agrees<T: View>(
    found: Result<T, MohoError>,
    expected: Result<T::V, Failure>,
) -> bool {
    match expected {
        Ok(v) => found matches Ok(x) && x@ == v,
        Err(f) => found matches Err(e) && e.reports(f),
    }
}

/// The failure for `reason` at the fragment `p`.
fn failed(reason: Reason, p: &Pair) -> (e: MohoError)
    ensures
        e.reports(failure_at(reason, p@)),
{
    MohoError::because(reason, p.span)
}

/// Tells whether `a` is the text `b`.
fn same_text(a: &String, b: &str) -> (yes: bool)
    ensures
        yes == (a@ == b@),
{
    *a == String::from_str(b)
}

/// The type that a name stands for.
fn type_named(name: &String) -> (t: Type)
    ensures
        t@ == named_type(name@),
{
    if same_text(name, "bool") {
        Type::Bool
    } else if same_text(name, "char") {
        Type::Char
    } else if same_text(name, "float") || same_text(name, "double") {
        Type::Float
    } else if same_text(name, "int") || same_text(name, "long") {
        Type::Integer
    } else if same_text(name, "string") {
        Type::String
    } else {
        Type::Class(name.clone())
    }
}

/// Tells whether `rule` is one of the five rules for a wrapper of a type.
fn wraps(rule: Rule) -> (yes: bool)
    ensures
        yes == is_wrapper(rule),
{
    rule == Rule::dbpointer_type || rule == Rule::pointer_type || rule == Rule::reference_type
        || rule == Rule::array_type || rule == Rule::matrix_type
}

/// The type `inner` under the wrapper of `rule`.
fn wrapped_in(rule: Rule, inner: Type) -> (t: Type)
    ensures
        t@ == wrapper_of(rule, inner@),
{
    match rule {
        Rule::dbpointer_type => Type::Pointer(Box::new(inner), 2),
        Rule::pointer_type => Type::Pointer(Box::new(inner), 1),
        Rule::reference_type => Type::Reference(Box::new(inner)),
        Rule::matrix_type => Type::Matrix(Box::new(inner)),
        _ => Type::Array(Box::new(inner)),
    }
}

/// The position of the last blank before `end`, if there is one.
fn find_last_blank(chars: &Vec<char>) -> (at: Option<usize>)
    ensures
        match at {
            Some(k) => k == last_blank(chars@, chars.len() as int) && k < chars.len(),
            None => last_blank(chars@, chars.len() as int) == -1,
        },
{
    let mut end: usize = chars.len();
    while end > 0
        invariant
            end <= chars.len(),
            last_blank(chars@, chars.len() as int) == last_blank(chars@, end as int),
        decreases end,
    {
        if chars[end - 1] == ' ' {
            return Some(end - 1);
        }
        end -= 1;
    }
    None
}

/// The type and the name in a text that holds both, split at the last blank.
fn split_typed_name(text: &String) -> (parts: (String, String))
    ensures
        parts.0@ == type_part(text@),
        parts.1@ == name_part(text@),
{
    let chars = chars_of(text.as_str());
    match find_last_blank(&chars) {
        Some(at) => (text_between(&chars, 0, at), text_between(&chars, at + 1, chars.len())),
        None => {
            let whole = text_between(&chars, 0, chars.len());
            let none = String::new();
            assert(none@ =~= Seq::<char>::empty());
            (none, whole)
        },
    }
}

/// `text` without the white space at its start and at its end.
fn trim(text: &String) -> (short: String)
    ensures
        short@ == trimmed(text@),
{
    let chars = chars_of(text.as_str());
    let from = run_end(&chars, 0, CharClass::Space);
    let end = trim_end(&chars, from, chars.len());
    text_between(&chars, from, end)
}

/// Adds the properties `more` at the end of `list`.
fn add_properties(list: &mut Vec<Property>, more: Vec<Property>)
    ensures
        view_properties(final(list)@) == view_properties(old(list)@) + view_properties(more@),
{
    let mut more = more;
    let ghost added = more@;
    list.append(&mut more);
    assert(view_properties(list@) =~= view_properties(old(list)@) + view_properties(added));
}

/// Adds the declaration `d` at the end of the entries of `b`.
fn add_entry(b: &mut Block, d: Declaration)
    ensures
        final(b)@ == with_entry(old(b)@, d@),
{
    proof {
        lemma_block_view_inner(*b);
    }
    b.inner.push(d);
    proof {
        lemma_block_view_inner(*b);
        assert(view_declarations(b.inner@) =~= view_declarations(old(b).inner@).push(d@));
    }
}

/// Adds the class `c` at the end of `list`.
fn add_class(list: &mut Vec<Class>, c: Class)
    ensures
        view_classes(final(list)@) == view_classes(old(list)@).push(c@),
{
    list.push(c);
    assert(view_classes(list@) =~= view_classes(old(list)@).push(c@));
}

/// A block without properties and entries.
fn empty_block() -> (b: Block)
    ensures
        b@ == blank_block(),
{
    let b = Block { properties: Vec::new(), inner: Vec::new() };
    proof {
        lemma_block_view_inner(b);
        assert(view_properties(b.properties@) =~= Seq::empty());
        assert(view_declarations(b.inner@) =~= Seq::empty());
    }
    b
}

/// The parser of the language.
#[derive(Debug)]
pub struct MohoParser;

impl MohoParser {
    /// Reads the literal `val`.
    pub fn match_value(val: &Pair) -> (r: Result<Value, MohoError>)
        ensures
            agrees(r, value_of(val@)),
        decreases *val,
    {
        match val.rule {
            Rule::bool => match parse_bool(val.text.as_str()) {
                Ok(b) => Ok(Value::Bool(b)),
                Err(reason) => Err(failed(reason, val)),
            },
            Rule::char => match parse_byte(val.text.as_str()) {
                Ok(c) => Ok(Value::Char(c)),
                Err(reason) => Err(failed(reason, val)),
            },
            Rule::string => Ok(Value::Str(val.text.clone())),
            Rule::integer => match parse_integer(val.text.as_str()) {
                Ok(i) => Ok(Value::Integer(i)),
                Err(reason) => Err(failed(reason, val)),
            },
            Rule::float => if float_text(val.text.as_str()) {
                Ok(Value::Float(val.text.clone()))
            } else {
                Err(failed(Reason::NotAFloat, val))
            },
            Rule::nullptr => Ok(Value::Nullptr),
            Rule::value => {
                proof {
                    lemma_pair_view_inner(*val);
                }
                if val.inner.len() > 0 {
                    Self::match_value(&val.inner[0])
                } else {
                    Err(failed(Reason::ValueMissing, val))
                }
            },
            _ => Err(failed(Reason::UnreadableValue, val)),
        }
    }

    /// Reads the value that stands at `k` among `parts`; where nothing
    /// stands there, the value is `Default`.
    pub fn parse_value(parts: &Vec<Pair>, k: usize) -> (r: Result<Value, MohoError>)
        ensures
            agrees(r, value_from(view_pairs(parts@), k as int)),
    {
        if k < parts.len() {
            Self::match_value(&parts[k])
        } else {
            Ok(Value::Default)
        }
    }

    /// Reads a property: an optional `meta` part, the name, and the value if
    /// one is written.
    pub fn parse_property(prop: &Pair) -> (r: Result<Property, MohoError>)
        ensures
            agrees(r, property_of(prop@)),
    {
        proof {
            lemma_pair_view_inner(*prop);
        }
        let meta = prop.inner.len() > 0 && prop.inner[0].rule == Rule::meta;
        let at: usize = if meta {
            1
        } else {
            0
        };
        if prop.inner.len() <= at {
            return Err(failed(Reason::PropertyNameMissing, prop));
        }
        let value = match Self::parse_value(&prop.inner, at + 1) {
            Ok(v) => v,
            Err(e) => {
                return Err(e);
            },
        };
        let value = match value {
            Value::Default => None,
            v => Some(v),
        };
        Ok(Property { meta, name: prop.inner[at].text.clone(), value })
    }

    /// Reads the properties of a list, in order.
    pub fn parse_properties(pairs: &Pair) -> (r: Result<Vec<Property>, MohoError>)
        ensures
            match properties_of(pairs@) {
                Ok(ps) => r matches Ok(found) && view_properties(found@) == ps,
                Err(f) => r matches Err(e) && e.reports(f),
            },
    {
        proof {
            lemma_pair_view_inner(*pairs);
        }
        let ghost parts = pairs@.inner;
        let mut found: Vec<Property> = Vec::new();
        assert(view_properties(found@) =~= Seq::empty());
        let mut i: usize = 0;
        while i < pairs.inner.len()
            invariant
                i <= pairs.inner.len(),
                parts == view_pairs(pairs.inner@),
                properties_of(pairs@) == properties_from(parts, i as int, view_properties(found@)),
            decreases pairs.inner.len() - i,
        {
            match Self::parse_property(&pairs.inner[i]) {
                Ok(p) => {
                    let ghost before = view_properties(found@);
                    found.push(p);
                    assert(view_properties(found@) =~= before.push(p@));
                },
                Err(e) => {
                    return Err(e);
                },
            }
            i += 1;
        }
        Ok(found)
    }

    /// Reads a type.
    pub fn parse_type(pair: &Pair) -> (r: Result<Type, MohoError>)
        ensures
            agrees(r, type_of(pair@)),
        decreases *pair,
    {
        proof {
            lemma_pair_view_inner(*pair);
        }
        if pair.rule == Rule::identifier {
            return Ok(type_named(&pair.text));
        }
        if pair.inner.len() == 0 {
            return Err(failed(Reason::EmptyType, pair));
        }
        let first = &pair.inner[0];
        proof {
            lemma_pair_view_inner(*first);
        }
        if wraps(first.rule) {
            if first.inner.len() == 0 {
                return Err(failed(Reason::EmptyType, pair));
            }
            match Self::parse_type(&first.inner[0]) {
                Ok(t) => Ok(wrapped_in(first.rule, t)),
                Err(e) => Err(e),
            }
        } else if first.rule == Rule::identifier {
            Ok(type_named(&first.text))
        } else {
            Err(failed(Reason::UnknownType, pair))
        }
    }
    /// Reads an argument: its properties, its type and name, and its value,
    /// each where it is written.
    pub fn parse_argument(pair: &Pair) -> (r: Result<Argument, MohoError>)
        ensures
            agrees(r, argument_of(pair@)),
    {
        proof {
            lemma_pair_view_inner(*pair);
        }
        let ghost parts = pair@.inner;
        let mut arg = Argument {
            properties: Vec::new(),
            name: String::new(),
            typ: String::new(),
            value: None,
        };
        assert(arg@ =~= blank_argument()) by {
            assert(view_properties(arg.properties@) =~= Seq::empty());
            assert(arg.name@ =~= Seq::<char>::empty());
            assert(arg.typ@ =~= Seq::<char>::empty());
        }
        let mut i: usize = 0;
        while i < pair.inner.len()
            invariant
                i <= pair.inner.len(),
                parts == view_pairs(pair.inner@),
                argument_of(pair@) == argument_from(parts, i as int, arg@),
            decreases pair.inner.len() - i,
        {
            let it = &pair.inner[i];
            proof {
                lemma_pair_view_inner(*it);
            }
            match it.rule {
                Rule::properties => match Self::parse_properties(it) {
                    Ok(ps) => {
                        arg.properties = ps;
                    },
                    Err(e) => {
                        return Err(e);
                    },
                },
                Rule::dont_care_type_decl => {
                    let (typ, name) = split_typed_name(&it.text);
                    arg.typ = typ;
                    arg.name = name;
                },
                Rule::value => match Self::parse_value(&it.inner, 0) {
                    Ok(v) => {
                        arg.value = Some(v);
                    },
                    Err(e) => {
                        return Err(e);
                    },
                },
                _ => {
                    return Err(failed(Reason::UnexpectedInArgument, it));
                },
            }
            i += 1;
        }
        Ok(arg)
    }

    /// Reads the arguments of a list, in order.
    pub fn parse_arguments(pairs: &Pair) -> (r: Result<Vec<Argument>, MohoError>)
        ensures
            match arguments_of(pairs@) {
                Ok(args) => r matches Ok(found) && view_arguments(found@) == args,
                Err(f) => r matches Err(e) && e.reports(f),
            },
    {
        proof {
            lemma_pair_view_inner(*pairs);
        }
        let ghost parts = pairs@.inner;
        let mut found: Vec<Argument> = Vec::new();
        assert(view_arguments(found@) =~= Seq::empty());
        let mut i: usize = 0;
        while i < pairs.inner.len()
            invariant
                i <= pairs.inner.len(),
                parts == view_pairs(pairs.inner@),
                arguments_of(pairs@) == arguments_from(parts, i as int, view_arguments(found@)),
            decreases pairs.inner.len() - i,
        {
            match Self::parse_argument(&pairs.inner[i]) {
                Ok(a) => {
                    let ghost before = view_arguments(found@);
                    found.push(a);
                    assert(view_arguments(found@) =~= before.push(a@));
                },
                Err(e) => {
                    return Err(e);
                },
            }
            i += 1;
        }
        Ok(found)
    }

    /// Reads a field: properties, the `static` marker, the type, the name
    /// and the value, each where it is written.
    pub fn parse_field(field: &Pair) -> (r: Result<Declaration, MohoError>)
        ensures
            match field_of(field@) {
                Ok(f) => r matches Ok(d) && d@ == crate::model::DeclarationView::Field(f),
                Err(f) => r matches Err(e) && e.reports(f),
            },
    {
        proof {
            lemma_pair_view_inner(*field);
        }
        let mut result = Field {
            is_static: false,
            properties: Vec::new(),
            name: String::new(),
            typ: Type::Void,
            value: None,
        };
        assert(result@ =~= blank_field()) by {
            assert(view_properties(result.properties@) =~= Seq::empty());
            assert(result.name@ =~= Seq::<char>::empty());
        }
        let mut i: usize = 0;
        while i < field.inner.len()
            invariant
                i <= field.inner.len(),
                field@.inner == view_pairs(field.inner@),
                field_of(field@) == field_from(field@, i as int, result@),
            decreases field.inner.len() - i,
        {
            let pair = &field.inner[i];
            proof {
                lemma_pair_view_inner(*pair);
            }
            match pair.rule {
                Rule::properties => match Self::parse_properties(pair) {
                    Ok(ps) => {
                        add_properties(&mut result.properties, ps);
                    },
                    Err(e) => {
                        return Err(e);
                    },
                },
                Rule::static_spec => {
                    result.is_static = true;
                },
                Rule::type_decl => match Self::parse_type(pair) {
                    Ok(t) => {
                        result.typ = t;
                    },
                    Err(e) => {
                        return Err(e);
                    },
                },
                Rule::identifier => {
                    result.name = trim(&pair.text);
                },
                Rule::value => match Self::parse_value(&pair.inner, 0) {
                    Ok(v) => {
                        result.value = Some(v);
                    },
                    Err(e) => {
                        return Err(e);
                    },
                },
                _ => {
                    return Err(failed(Reason::UnexpectedInField, field));
                },
            }
            i += 1;
        }
        Ok(Declaration::Field(result))
    }

    /// Reads a method: properties, the `static` marker, the return type and
    /// name, and the arguments, each where it is written.
    pub fn parse_method(method: &Pair) -> (r: Result<Declaration, MohoError>)
        ensures
            match method_of(method@) {
                Ok(m) => r matches Ok(d) && d@ == crate::model::DeclarationView::Method(m),
                Err(f) => r matches Err(e) && e.reports(f),
            },
    {
        proof {
            lemma_pair_view_inner(*method);
        }
        let mut result = Method {
            is_static: false,
            properties: Vec::new(),
            name: String::new(),
            returns: String::new(),
            arguments: Vec::new(),
        };
        assert(result@ =~= blank_method()) by {
            assert(view_properties(result.properties@) =~= Seq::empty());
            assert(view_arguments(result.arguments@) =~= Seq::empty());
            assert(result.name@ =~= Seq::<char>::empty());
            assert(result.returns@ =~= Seq::<char>::empty());
        }
        let mut i: usize = 0;
        while i < method.inner.len()
            invariant
                i <= method.inner.len(),
                method@.inner == view_pairs(method.inner@),
                method_of(method@) == method_from(method@, i as int, result@),
            decreases method.inner.len() - i,
        {
            let pair = &method.inner[i];
            match pair.rule {
                Rule::properties => match Self::parse_properties(pair) {
                    Ok(ps) => {
                        add_properties(&mut result.properties, ps);
                    },
                    Err(e) => {
                        return Err(e);
                    },
                },
                Rule::static_spec => {
                    result.is_static = true;
                },
                Rule::dont_care_type_decl => {
                    let (typ, name) = split_typed_name(&pair.text);
                    result.returns = typ;
                    result.name = name;
                },
                Rule::arguments => match Self::parse_arguments(pair) {
                    Ok(args) => {
                        result.arguments = args;
                    },
                    Err(e) => {
                        return Err(e);
                    },
                },
                _ => {
                    return Err(failed(Reason::UnexpectedInField, method));
                },
            }
            i += 1;
        }
        Ok(Declaration::Method(result))
    }

    /// Reads a declaration. The result is always a block: it holds the
    /// properties written in front and then the field or the method, or the
    /// declarations of the nested block.
    pub fn parse_declaration(decl: &Pair) -> (r: Result<Declaration, MohoError>)
        ensures
            agrees(r, declaration_of(decl@)),
        decreases *decl,
    {
        proof {
            lemma_pair_view_inner(*decl);
        }
        let mut result = empty_block();
        let mut i: usize = 0;
        while i < decl.inner.len()
            invariant
                i <= decl.inner.len(),
                decl@.inner == view_pairs(decl.inner@),
                block_from(decl@, 0, blank_block()) == block_from(decl@, i as int, result@),
            decreases decl.inner.len() - i,
        {
            let pair = &decl.inner[i];
            proof {
                lemma_pair_view_inner(*pair);
            }
            match pair.rule {
                Rule::properties => match Self::parse_properties(pair) {
                    Ok(ps) => {
                        proof {
                            lemma_block_view_inner(result);
                        }
                        add_properties(&mut result.properties, ps);
                        proof {
                            lemma_block_view_inner(result);
                        }
                    },
                    Err(e) => {
                        return Err(e);
                    },
                },
                Rule::field_decl => match Self::parse_field(pair) {
                    Ok(f) => {
                        add_entry(&mut result, f);
                    },
                    Err(e) => {
                        return Err(e);
                    },
                },
                Rule::method_decl => match Self::parse_method(pair) {
                    Ok(m) => {
                        add_entry(&mut result, m);
                    },
                    Err(e) => {
                        return Err(e);
                    },
                },
                Rule::block_decl => {
                    let ghost before = result@;
                    let mut k: usize = 0;
                    while k < pair.inner.len()
                        invariant
                            k <= pair.inner.len(),
                            0 <= i < decl.inner.len(),
                            *pair == decl.inner[i as int],
                            pair.rule == Rule::block_decl,
                            decl@.inner == view_pairs(decl.inner@),
                            pair@.inner == view_pairs(pair.inner@),
                            block_from(decl@, 0, blank_block()) == block_from(
                                decl@,
                                i as int,
                                before,
                            ),
                            entries_from(pair@, 0, before) == entries_from(
                                pair@,
                                k as int,
                                result@,
                            ),
                        decreases pair.inner.len() - k,
                    {
                        match Self::parse_declaration(&pair.inner[k]) {
                            Ok(d) => {
                                add_entry(&mut result, d);
                            },
                            Err(e) => {
                                return Err(e);
                            },
                        }
                        k += 1;
                    }
                },
                _ => {
                    return Err(failed(Reason::UnexpectedInBlock, decl));
                },
            }
            i += 1;
        }
        Ok(Declaration::Block(result))
    }

    /// Reads a class: its properties, its name, its bases and its
    /// declarations. A class without a name is a failure.
    pub fn parse_class(class: &Pair) -> (r: Result<Class, MohoError>)
        ensures
            agrees(r, class_of(class@)),
    {
        proof {
            lemma_pair_view_inner(*class);
        }
        let mut result = Class {
            properties: Vec::new(),
            name: String::new(),
            inherit: Vec::new(),
            inner: empty_block(),
        };
        assert(result@ =~= blank_class()) by {
            assert(view_properties(result.properties@) =~= Seq::empty());
            assert(view_names(result.inherit@) =~= Seq::empty());
            assert(result.name@ =~= Seq::<char>::empty());
        }
        let mut i: usize = 0;
        while i < class.inner.len()
            invariant
                i <= class.inner.len(),
                class@.inner == view_pairs(class.inner@),
                class_from(class@, 0, blank_class()) == class_from(class@, i as int, result@),
            decreases class.inner.len() - i,
        {
            let pair = &class.inner[i];
            proof {
                lemma_pair_view_inner(*pair);
            }
            match pair.rule {
                Rule::properties => match Self::parse_properties(pair) {
                    Ok(ps) => {
                        add_properties(&mut result.properties, ps);
                    },
                    Err(e) => {
                        return Err(e);
                    },
                },
                Rule::name => {
                    result.name = pair.text.clone();
                },
                Rule::inheritance => {
                    result.inherit = Self::names(pair);
                },
                Rule::declaration => match Self::parse_declaration(pair) {
                    Ok(d) => {
                        add_entry(&mut result.inner, d);
                    },
                    Err(e) => {
                        return Err(e);
                    },
                },
                _ => {
                    return Err(failed(Reason::UnexpectedInClass, class));
                },
            }
            i += 1;
        }
        if result.name.as_str().unicode_len() == 0 {
            return Err(failed(Reason::ClassNameMissing, class));
        }
        Ok(result)
    }

    /// The names that the parts of a list of bases write, in order.
    fn names(pair: &Pair) -> (found: Vec<String>)
        ensures
            view_names(found@) == names_from(pair@.inner, 0, Seq::empty()),
    {
        proof {
            lemma_pair_view_inner(*pair);
        }
        let ghost parts = pair@.inner;
        let mut found: Vec<String> = Vec::new();
        assert(view_names(found@) =~= Seq::empty());
        let mut i: usize = 0;
        while i < pair.inner.len()
            invariant
                i <= pair.inner.len(),
                parts == view_pairs(pair.inner@),
                names_from(parts, 0, Seq::empty()) == names_from(
                    parts,
                    i as int,
                    view_names(found@),
                ),
            decreases pair.inner.len() - i,
        {
            let ghost before = view_names(found@);
            let name = pair.inner[i].text.clone();
            found.push(name);
            assert(view_names(found@) =~= before.push(name@));
            i += 1;
        }
        found
    }

    /// Reads the classes of a whole text, in order.
    fn parse_classes(root: &Pair) -> (r: Result<Vec<Class>, MohoError>)
        ensures
            match classes_of(root@.inner, 0, Seq::empty()) {
                Ok(cs) => r matches Ok(found) && view_classes(found@) == cs,
                Err(f) => r matches Err(e) && e.reports(f),
            },
    {
        proof {
            lemma_pair_view_inner(*root);
        }
        let ghost parts = root@.inner;
        let mut result: Vec<Class> = Vec::new();
        assert(view_classes(result@) =~= Seq::empty());
        let mut i: usize = 0;
        while i < root.inner.len()
            invariant
                i <= root.inner.len(),
                parts == root@.inner,
                parts == view_pairs(root.inner@),
                classes_of(parts, 0, Seq::empty()) == classes_of(
                    parts,
                    i as int,
                    view_classes(result@),
                ),
            decreases root.inner.len() - i,
        {
            match Self::parse_class(&root.inner[i]) {
                Ok(c) => {
                    add_class(&mut result, c);
                },
                Err(e) => {
                    return Err(e);
                },
            }
            i += 1;
        }
        Ok(result)
    }

    /// Parses a whole source text. The result holds the classes of the text
    /// in order; it is an error if the text does not follow the grammar or a
    /// fragment of it cannot be read, and then the first failure is reported.
    pub fn apply(input: &str) -> (r: Result<TranslationUnit, MohoError>)
        ensures
            agrees(r, unit_of(input@)),
    {
        match MohoGrammar::parse_text(input) {
            Ok(root) => match Self::parse_classes(&root) {
                Ok(classes) => Ok(TranslationUnit(classes)),
                Err(e) => Err(e),
            },
            Err(err) => Err(MohoError::TokenizerError(err.message, err.location)),
        }
    }
}

} // verus!
