//! What a fragment of the tree means: the value, type, property, argument,
//! field, method, declaration or class that the parser builds from it, or the
//! failure that it reports. The parts of a fragment are read in order and the
//! first failure ends the reading.

use vstd::prelude::*;
use crate::error::{Failure, Reason};
use crate::literal::{bool_of, byte_of, integer_of, is_float_text};
use crate::model::{
    ArgumentView, BlockView, ClassView, DeclarationView, FieldView, MethodView, PropertyView,
    TypeView, ValueView,
};
use crate::syntax::{after_spaces, moho_at, stop_of, column_of, line_of, trimmed_len};
use crate::tree::{PairView, Rule};

verus! {

/// The failure for `reason` at the fragment `p`.
pub open spec fn failure_at(reason: Reason, p: PairView) -> Failure {
    Failure::Parse { reason, start: p.start, end: p.end }
}

/// The value that the literal `v` writes. A `value` stands for the literal
/// inside it.
pub open spec fn value_of(v: PairView) -> Result<ValueView, Failure>
    decreases v,
{
    match v.rule {
        Rule::bool => match bool_of(v.text) {
            Ok(b) => Ok(ValueView::Bool(b)),
            Err(reason) => Err(failure_at(reason, v)),
        },
        Rule::char => match byte_of(v.text) {
            Ok(c) => Ok(ValueView::Char(c)),
            Err(reason) => Err(failure_at(reason, v)),
        },
        Rule::string => Ok(ValueView::Str(v.text)),
        Rule::integer => match integer_of(v.text) {
            Ok(i) => Ok(ValueView::Integer(i)),
            Err(reason) => Err(failure_at(reason, v)),
        },
        Rule::float => if is_float_text(v.text) {
            Ok(ValueView::Float(v.text))
        } else {
            Err(failure_at(Reason::NotAFloat, v))
        },
        Rule::nullptr => Ok(ValueView::Nullptr),
        Rule::value => if v.inner.len() > 0 {
            value_of(v.inner[0])
        } else {
            Err(failure_at(Reason::ValueMissing, v))
        },
        _ => Err(failure_at(Reason::UnreadableValue, v)),
    }
}

/// The value of the part `k` of `parts`, and `Default` if there is no such
/// part.
pub open spec fn value_from(parts: Seq<PairView>, k: int) -> Result<ValueView, Failure> {
    if 0 <= k < parts.len() {
        value_of(parts[k])
    } else {
        Ok(ValueView::Default)
    }
}

/// A value that was written, and nothing for `Default`.
pub open spec fn written(v: ValueView) -> Option<ValueView> {
    if v is Default {
        None
    } else {
        Some(v)
    }
}

/// The property that `p` writes: an optional `meta` part first, then the name
/// and then, if there is one, the value.
pub open spec fn property_of(p: PairView) -> Result<PropertyView, Failure> {
    let meta = p.inner.len() > 0 && p.inner[0].rule == Rule::meta;
    let at: int = if meta {
        1
    } else {
        0
    };
    if p.inner.len() <= at {
        Err(failure_at(Reason::PropertyNameMissing, p))
    } else {
        match value_from(p.inner, at + 1) {
            Ok(v) => Ok(PropertyView { meta, name: p.inner[at].text, value: written(v) }),
            Err(e) => Err(e),
        }
    }
}

/// The properties that the parts of `parts` from `i` on write, behind those
/// in `done`.
pub open spec fn properties_from(parts: Seq<PairView>, i: int, done: Seq<PropertyView>) -> Result<
    Seq<PropertyView>,
    Failure,
>
    decreases parts.len() - i,
{
    if 0 <= i < parts.len() {
        match property_of(parts[i]) {
            Ok(p) => properties_from(parts, i + 1, done.push(p)),
            Err(e) => Err(e),
        }
    } else {
        Ok(done)
    }
}

/// The properties that the list `p` writes.
pub open spec fn properties_of(p: PairView) -> Result<Seq<PropertyView>, Failure> {
    properties_from(p.inner, 0, Seq::empty())
}

/// The type that a name stands for: a primitive for one of the seven
/// keywords, a class for every other name.
pub open spec fn named_type(name: Seq<char>) -> TypeView {
    if name == "bool"@ {
        TypeView::Bool
    } else if name == "char"@ {
        TypeView::Char
    } else if name == "float"@ || name == "double"@ {
        TypeView::Float
    } else if name == "int"@ || name == "long"@ {
        TypeView::Integer
    } else if name == "string"@ {
        TypeView::String
    } else {
        TypeView::Class(name)
    }
}

/// The type `inner` under the wrapper of `rule`.
pub open spec fn wrapper_of(rule: Rule, inner: TypeView) -> TypeView {
    match rule {
        Rule::dbpointer_type => TypeView::Pointer(Box::new(inner), 2),
        Rule::pointer_type => TypeView::Pointer(Box::new(inner), 1),
        Rule::reference_type => TypeView::Reference(Box::new(inner)),
        Rule::matrix_type => TypeView::Matrix(Box::new(inner)),
        _ => TypeView::Array(Box::new(inner)),
    }
}

/// One of the five rules for a wrapper of a type.
pub open spec fn is_wrapper(rule: Rule) -> bool {
    rule == Rule::dbpointer_type || rule == Rule::pointer_type || rule == Rule::reference_type
        || rule == Rule::array_type || rule == Rule::matrix_type
}

/// The type that `p` writes. An identifier is a named type. Of any other
/// fragment the first part decides: a wrapper wraps the type of its own first
/// part, an identifier is a named type. A fragment without parts, a wrapper
/// without parts and any other first part are failures, all three reported
/// at `p`.
pub open spec fn type_of(p: PairView) -> Result<TypeView, Failure>
    decreases p,
{
    if p.rule == Rule::identifier {
        Ok(named_type(p.text))
    } else if p.inner.len() == 0 {
        Err(failure_at(Reason::EmptyType, p))
    } else {
        let first = p.inner[0];
        if is_wrapper(first.rule) {
            if first.inner.len() == 0 {
                Err(failure_at(Reason::EmptyType, p))
            } else {
                match type_of(first.inner[0]) {
                    Ok(t) => Ok(wrapper_of(first.rule, t)),
                    Err(e) => Err(e),
                }
            }
        } else if first.rule == Rule::identifier {
            Ok(named_type(first.text))
        } else {
            Err(failure_at(Reason::UnknownType, p))
        }
    }
}

/// The position of the last blank in `s` before `end`, or -1 if there is
/// none.
pub open spec fn last_blank(s: Seq<char>, end: int) -> int
    decreases end,
{
    if end <= 0 || end > s.len() {
        -1
    } else if s[end - 1] == ' ' {
        end - 1
    } else {
        last_blank(s, end - 1)
    }
}

/// The type in a text that holds a type and a name: what stands before the
/// last blank, and nothing if there is no blank.
pub open spec fn type_part(text: Seq<char>) -> Seq<char> {
    let at = last_blank(text, text.len() as int);
    if at < 0 {
        Seq::empty()
    } else {
        text.subrange(0, at)
    }
}

/// The name in a text that holds a type and a name: what stands behind the
/// last blank, and the whole text if there is no blank.
pub open spec fn name_part(text: Seq<char>) -> Seq<char> {
    text.subrange(last_blank(text, text.len() as int) + 1, text.len() as int)
}

/// `text` without the white space at its start and at its end.
pub open spec fn trimmed(text: Seq<char>) -> Seq<char> {
    let from = after_spaces(text, 0);
    text.subrange(from, from + trimmed_len(text, from, (text.len() - from) as nat))
}

/// An argument of which nothing is known yet.
pub open spec fn blank_argument() -> ArgumentView {
    ArgumentView {
        properties: Seq::empty(),
        name: Seq::empty(),
        typ: Seq::empty(),
        value: None,
    }
}

/// The argument `a` after the part `part` has been read into it.
pub open spec fn argument_with(a: ArgumentView, part: PairView) -> Result<ArgumentView, Failure> {
    match part.rule {
        Rule::properties => match properties_of(part) {
            Ok(ps) => Ok(ArgumentView { properties: ps, ..a }),
            Err(e) => Err(e),
        },
        Rule::dont_care_type_decl => Ok(
            ArgumentView { typ: type_part(part.text), name: name_part(part.text), ..a },
        ),
        Rule::value => match value_from(part.inner, 0) {
            Ok(v) => Ok(ArgumentView { value: Some(v), ..a }),
            Err(e) => Err(e),
        },
        _ => Err(failure_at(Reason::UnexpectedInArgument, part)),
    }
}

/// The argument `a` after the parts of `parts` from `i` on have been read
/// into it.
pub open spec fn argument_from(parts: Seq<PairView>, i: int, a: ArgumentView) -> Result<
    ArgumentView,
    Failure,
>
    decreases parts.len() - i,
{
    if 0 <= i < parts.len() {
        match argument_with(a, parts[i]) {
            Ok(next) => argument_from(parts, i + 1, next),
            Err(e) => Err(e),
        }
    } else {
        Ok(a)
    }
}

/// The argument that `p` writes.
pub open spec fn argument_of(p: PairView) -> Result<ArgumentView, Failure> {
    argument_from(p.inner, 0, blank_argument())
}

/// The arguments that the parts of `parts` from `i` on write, behind those in
/// `done`.
pub open spec fn arguments_from(parts: Seq<PairView>, i: int, done: Seq<ArgumentView>) -> Result<
    Seq<ArgumentView>,
    Failure,
>
    decreases parts.len() - i,
{
    if 0 <= i < parts.len() {
        match argument_of(parts[i]) {
            Ok(a) => arguments_from(parts, i + 1, done.push(a)),
            Err(e) => Err(e),
        }
    } else {
        Ok(done)
    }
}

/// The arguments that the list `p` writes.
pub open spec fn arguments_of(p: PairView) -> Result<Seq<ArgumentView>, Failure> {
    arguments_from(p.inner, 0, Seq::empty())
}

/// A field of which nothing is known yet.
pub open spec fn blank_field() -> FieldView {
    FieldView {
        is_static: false,
        properties: Seq::empty(),
        name: Seq::empty(),
        typ: TypeView::Void,
        value: None,
    }
}

/// The field `f` after `part` has been read into it. A part that does not
/// belong in a field is reported at the field `whole`.
pub open spec fn field_with(f: FieldView, part: PairView, whole: PairView) -> Result<
    FieldView,
    Failure,
> {
    match part.rule {
        Rule::properties => match properties_of(part) {
            Ok(ps) => Ok(FieldView { properties: f.properties + ps, ..f }),
            Err(e) => Err(e),
        },
        Rule::static_spec => Ok(FieldView { is_static: true, ..f }),
        Rule::type_decl => match type_of(part) {
            Ok(t) => Ok(FieldView { typ: t, ..f }),
            Err(e) => Err(e),
        },
        Rule::identifier => Ok(FieldView { name: trimmed(part.text), ..f }),
        Rule::value => match value_from(part.inner, 0) {
            Ok(v) => Ok(FieldView { value: Some(v), ..f }),
            Err(e) => Err(e),
        },
        _ => Err(failure_at(Reason::UnexpectedInField, whole)),
    }
}

/// The field `f` after the parts of `whole` from `i` on have been read into
/// it.
pub open spec fn field_from(whole: PairView, i: int, f: FieldView) -> Result<FieldView, Failure>
    decreases whole.inner.len() - i,
{
    if 0 <= i < whole.inner.len() {
        match field_with(f, whole.inner[i], whole) {
            Ok(next) => field_from(whole, i + 1, next),
            Err(e) => Err(e),
        }
    } else {
        Ok(f)
    }
}

/// The field that `p` writes.
pub open spec fn field_of(p: PairView) -> Result<FieldView, Failure> {
    field_from(p, 0, blank_field())
}

/// A method of which nothing is known yet.
pub open spec fn blank_method() -> MethodView {
    MethodView {
        is_static: false,
        properties: Seq::empty(),
        name: Seq::empty(),
        returns: Seq::empty(),
        arguments: Seq::empty(),
    }
}

/// The method `m` after `part` has been read into it. A part that does not
/// belong in a method is reported at the method `whole`.
pub open spec fn method_with(m: MethodView, part: PairView, whole: PairView) -> Result<
    MethodView,
    Failure,
> {
    match part.rule {
        Rule::properties => match properties_of(part) {
            Ok(ps) => Ok(MethodView { properties: m.properties + ps, ..m }),
            Err(e) => Err(e),
        },
        Rule::static_spec => Ok(MethodView { is_static: true, ..m }),
        Rule::dont_care_type_decl => Ok(
            MethodView { returns: type_part(part.text), name: name_part(part.text), ..m },
        ),
        Rule::arguments => match arguments_of(part) {
            Ok(args) => Ok(MethodView { arguments: args, ..m }),
            Err(e) => Err(e),
        },
        _ => Err(failure_at(Reason::UnexpectedInField, whole)),
    }
}

/// The method `m` after the parts of `whole` from `i` on have been read into
/// it.
pub open spec fn method_from(whole: PairView, i: int, m: MethodView) -> Result<MethodView, Failure>
    decreases whole.inner.len() - i,
{
    if 0 <= i < whole.inner.len() {
        match method_with(m, whole.inner[i], whole) {
            Ok(next) => method_from(whole, i + 1, next),
            Err(e) => Err(e),
        }
    } else {
        Ok(m)
    }
}

/// The method that `p` writes.
pub open spec fn method_of(p: PairView) -> Result<MethodView, Failure> {
    method_from(p, 0, blank_method())
}

/// A block without properties and entries.
pub open spec fn blank_block() -> BlockView {
    BlockView { properties: Seq::empty(), inner: Seq::empty() }
}

/// The block `b` with `d` as its last entry.
pub open spec fn with_entry(b: BlockView, d: DeclarationView) -> BlockView {
    BlockView { inner: b.inner.push(d), ..b }
}

/// The declaration that `p` writes: always a block. It holds the properties
/// written in front, and then either the one field or method that stands in
/// `p`, or the declarations of the block that stands in `p`.
pub open spec fn declaration_of(p: PairView) -> Result<DeclarationView, Failure>
    decreases p, 3int, 0int,
{
    match block_from(p, 0, blank_block()) {
        Ok(b) => Ok(DeclarationView::Block(b)),
        Err(e) => Err(e),
    }
}

/// The block `b` after the parts of `whole` from `i` on have been read into
/// it. A part that is no property list, field, method or block is reported
/// at `whole`.
pub open spec fn block_from(whole: PairView, i: int, b: BlockView) -> Result<BlockView, Failure>
    decreases whole, 2int, whole.inner.len() - i,
{
    if 0 <= i < whole.inner.len() {
        let part = whole.inner[i];
        let next = match part.rule {
            Rule::properties => match properties_of(part) {
                Ok(ps) => Ok(BlockView { properties: b.properties + ps, ..b }),
                Err(e) => Err(e),
            },
            Rule::field_decl => match field_of(part) {
                Ok(f) => Ok(with_entry(b, DeclarationView::Field(f))),
                Err(e) => Err(e),
            },
            Rule::method_decl => match method_of(part) {
                Ok(m) => Ok(with_entry(b, DeclarationView::Method(m))),
                Err(e) => Err(e),
            },
            Rule::block_decl => entries_from(part, 0, b),
            _ => Err(failure_at(Reason::UnexpectedInBlock, whole)),
        };
        match next {
            Ok(n) => block_from(whole, i + 1, n),
            Err(e) => Err(e),
        }
    } else {
        Ok(b)
    }
}

/// The block `b` after the declarations in the block `braces` from `i` on
/// have been added to its entries.
pub open spec fn entries_from(braces: PairView, i: int, b: BlockView) -> Result<BlockView, Failure>
    decreases braces, 1int, braces.inner.len() - i,
{
    if 0 <= i < braces.inner.len() {
        match declaration_of(braces.inner[i]) {
            Ok(d) => entries_from(braces, i + 1, with_entry(b, d)),
            Err(e) => Err(e),
        }
    } else {
        Ok(b)
    }
}

/// The names that the identifiers in `parts` from `i` on write, behind those
/// in `done`.
pub open spec fn names_from(parts: Seq<PairView>, i: int, done: Seq<Seq<char>>) -> Seq<Seq<char>>
    decreases parts.len() - i,
{
    if 0 <= i < parts.len() {
        names_from(parts, i + 1, done.push(parts[i].text))
    } else {
        done
    }
}

/// A class of which nothing is known yet.
pub open spec fn blank_class() -> ClassView {
    ClassView {
        properties: Seq::empty(),
        name: Seq::empty(),
        inherit: Seq::empty(),
        inner: blank_block(),
    }
}

/// The class `c` after `part` has been read into it. A part that does not
/// belong in a class is reported at the class `whole`.
pub open spec fn class_with(c: ClassView, part: PairView, whole: PairView) -> Result<
    ClassView,
    Failure,
> {
    match part.rule {
        Rule::properties => match properties_of(part) {
            Ok(ps) => Ok(ClassView { properties: c.properties + ps, ..c }),
            Err(e) => Err(e),
        },
        Rule::name => Ok(ClassView { name: part.text, ..c }),
        Rule::inheritance => Ok(
            ClassView { inherit: names_from(part.inner, 0, Seq::empty()), ..c },
        ),
        Rule::declaration => match declaration_of(part) {
            Ok(d) => Ok(ClassView { inner: with_entry(c.inner, d), ..c }),
            Err(e) => Err(e),
        },
        _ => Err(failure_at(Reason::UnexpectedInClass, whole)),
    }
}

/// The class `c` after the parts of `whole` from `i` on have been read into
/// it.
pub open spec fn class_from(whole: PairView, i: int, c: ClassView) -> Result<ClassView, Failure>
    decreases whole.inner.len() - i,
{
    if 0 <= i < whole.inner.len() {
        match class_with(c, whole.inner[i], whole) {
            Ok(next) => class_from(whole, i + 1, next),
            Err(e) => Err(e),
        }
    } else {
        Ok(c)
    }
}

/// The class that `p` writes. A class without a name is a failure.
pub open spec fn class_of(p: PairView) -> Result<ClassView, Failure> {
    match class_from(p, 0, blank_class()) {
        Ok(c) => if c.name.len() == 0 {
            Err(failure_at(Reason::ClassNameMissing, p))
        } else {
            Ok(c)
        },
        Err(e) => Err(e),
    }
}

/// The classes that the parts of `parts` from `i` on write, behind those in
/// `done`.
pub open spec fn classes_of(parts: Seq<PairView>, i: int, done: Seq<ClassView>) -> Result<
    Seq<ClassView>,
    Failure,
>
    decreases parts.len() - i,
{
    if 0 <= i < parts.len() {
        match class_of(parts[i]) {
            Ok(c) => classes_of(parts, i + 1, done.push(c)),
            Err(e) => Err(e),
        }
    } else {
        Ok(done)
    }
}

/// What the text `s` means: its classes in order if it follows the grammar
/// and every fragment can be read, else the first failure.
pub open spec fn unit_of(s: Seq<char>) -> Result<Seq<ClassView>, Failure> {
    match moho_at(s) {
        Some(tree) => classes_of(tree.inner, 0, Seq::empty()),
        None => Err(
            Failure::Syntax { line: line_of(s, stop_of(s)), column: column_of(s, stop_of(s)) },
        ),
    }
}

} // verus!
