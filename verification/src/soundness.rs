//! The parser reads every tree that the grammar produces: on a text that
//! follows the grammar it fails only where a literal does not fit its type.

use vstd::prelude::*;
use crate::error::{Failure, Reason};
use crate::literal::{bool_of, is_float_text};
use crate::meaning::{
    argument_from, argument_of, arguments_from, arguments_of, blank_argument, blank_block,
    blank_class, blank_field, blank_method, block_from, class_from, class_of, classes_of,
    declaration_of, entries_from, field_from, field_of, method_from, method_of, properties_from,
    properties_of, property_of, type_of, unit_of, value_from, value_of,
};
use crate::model::{ArgumentView, BlockView, ClassView, FieldView, MethodView, PropertyView};
use crate::syntax::{
    advances, after_optional, after_spaces, argument_at, arguments_at, assigned_at, block_decl_at,
    bool_at, class_at, classes_from, column_of, declaration_at, declarations_from, dont_care_at,
    field_decl_at, float_at, has_char, has_text, identifier_at, inheritance_at, integer_at,
    items_of, lemma_properties_within, lemma_run_within, line_of, marker_at, matrix_at,
    method_decl_at, moho_at, more_arguments, more_properties, name_at, nullptr_at,
    plain_literal_at, properties_at, property_at, run_len, sign_len, stop_of, type_decl_at,
    value_at, with_suffixes, wrapped, CharClass,
};
use crate::tree::{node, PairView, Rule};

verus! {

/// The failure of a literal that does not fit its type: a character that is
/// no digit, or a number beyond what the type holds.
pub open spec fn is_literal_failure(f: Failure) -> bool {
    f matches Failure::Parse { reason, .. } && (reason == Reason::InvalidDigit || reason
        == Reason::NumberTooLarge || reason == Reason::NumberTooSmall)
}

/// A result that is a success or the failure of a literal.
pub open spec fn sound<T>(r: Result<T, Failure>) -> bool {
    match r {
        Ok(_) => true,
        Err(f) => is_literal_failure(f),
    }
}

/// A run inside a stretch of the text is the run in the text, cut off at the
/// end of the stretch.
pub proof fn lemma_run_in_stretch(s: Seq<char>, i: int, e: int, k: int, c: CharClass)
    requires
        0 <= i <= k <= e <= s.len(),
    ensures
        run_len(s.subrange(i, e), k - i, c) == if k + run_len(s, k, c) <= e {
            run_len(s, k, c) as int
        } else {
            e - k
        },
    decreases e - k,
{
    if k < e {
        assert(s.subrange(i, e)[k - i] == s[k]);
        lemma_run_in_stretch(s, i, e, k + 1, c);
    }
}

/// The text of a number with a fraction is one again when taken by itself.
pub proof fn lemma_float_text(s: Seq<char>, i: int)
    ensures
        float_at(s, i) matches Some(t) ==> is_float_text(t.text),
{
    if let Some(t) = float_at(s, i) {
        let first = i + sign_len(s, i);
        let point = first + run_len(s, first, CharClass::Digit);
        let e = t.end;
        lemma_run_within(s, point + 1, CharClass::Digit);
        let text = t.text;
        assert(text == s.subrange(i, e));
        assert(text[0] == s[i]);
        assert(sign_len(text, 0) == sign_len(s, i));
        lemma_run_in_stretch(s, i, e, first, CharClass::Digit);
        assert(text[point - i] == s[point]);
        lemma_run_in_stretch(s, i, e, point + 1, CharClass::Digit);
        assert(float_at(text, 0) is Some);
    }
}

/// A value of the grammar holds one literal, and reading it succeeds or
/// fails as a literal does.
pub proof fn lemma_value_sound(s: Seq<char>, i: int)
    ensures
        value_at(s, i) matches Some(v) ==> v.rule == Rule::value && v.inner.len() == 1 && sound(
            value_of(v),
        ) && value_from(v.inner, 0) == value_of(v),
{
    if let Some(v) = value_at(s, i) {
        let lit = v.inner[0];
        assert(value_of(v) == value_of(lit));
        if let Some(plain) = plain_literal_at(s, i) {
            assert(lit == plain);
            if bool_at(s, i) is Some {
                assert(bool_of(lit.text) is Ok);
            } else if nullptr_at(s, i) is Some {
            } else if float_at(s, i) is Some {
                lemma_float_text(s, i);
            } else if integer_at(s, i) is Some {
                let first = i + sign_len(s, i);
                lemma_run_within(s, first, CharClass::Digit);
                assert(lit.text.len() > 0);
            } else {
                assert(lit.rule == Rule::string);
            }
        } else {
            lemma_run_within(s, i + 1, CharClass::Quoted);
            assert(lit.rule == Rule::char);
            assert(lit.text.len() > 0);
        }
    }
}

/// A property of the grammar can be read but for its literal.
pub proof fn lemma_property_sound(s: Seq<char>, i: int)
    ensures
        property_at(s, i) matches Some(p) ==> p.rule == Rule::property && sound(property_of(p)),
{
    if let Some(p) = property_at(s, i) {
        let marker = marker_at(Rule::meta, s, i, "meta"@);
        let id = identifier_at(s, after_optional(s, marker, i))->0;
        let value = assigned_at(s, id.end);
        let sign = after_spaces(s, id.end);
        lemma_value_sound(s, after_spaces(s, sign + 1));
        assert(p.inner == items_of(marker) + seq![id] + items_of(value));
        assert(id.rule == Rule::identifier);
        if let Some(m) = marker {
            assert(p.inner[0] == m);
            assert(p.inner[1] == id);
            if let Some(v) = value {
                assert(p.inner[2] == v);
            }
        } else {
            assert(p.inner[0] == id);
            if let Some(v) = value {
                assert(p.inner[1] == v);
            }
        }
    }
}

/// Every part of `parts` is a property that can be read but for its
/// literal.
pub open spec fn every_property_sound(parts: Seq<PairView>) -> bool {
    forall|k: int| 0 <= k < parts.len() ==> sound(property_of(#[trigger] parts[k]))
}

/// Properties that can each be read can be read in a row.
pub proof fn lemma_properties_fold(parts: Seq<PairView>, i: int, done: Seq<PropertyView>)
    requires
        every_property_sound(parts),
    ensures
        sound(properties_from(parts, i, done)),
    decreases parts.len() - i,
{
    if 0 <= i < parts.len() {
        assert(sound(property_of(parts[i])));
        match property_of(parts[i]) {
            Ok(p) => {
                lemma_properties_fold(parts, i + 1, done.push(p));
            },
            Err(_) => {},
        }
    }
}

/// The properties behind the first one can each be read but for their
/// literals.
pub proof fn lemma_more_properties_sound(s: Seq<char>, i: int)
    ensures
        every_property_sound(more_properties(s, i).items),
    decreases s.len() - i,
{
    let comma = after_spaces(s, i);
    if has_char(s, comma, ',') {
        let from = after_spaces(s, comma + 1);
        if let Some(item) = property_at(s, from) {
            if advances(s, i, item) {
                lemma_property_sound(s, from);
                lemma_more_properties_sound(s, item.end);
                let rest = more_properties(s, item.end).items;
                let all = more_properties(s, i).items;
                assert(all == seq![item] + rest);
                assert forall|k: int| 0 <= k < all.len() implies sound(
                    property_of(#[trigger] all[k]),
                ) by {
                    if k > 0 {
                        assert(all[k] == rest[k - 1]);
                    }
                }
            }
        }
    }
}

/// A property list of the grammar can be read but for its literals.
pub proof fn lemma_properties_sound(s: Seq<char>, i: int)
    ensures
        properties_at(s, i) matches Some(p) ==> p.rule == Rule::properties && sound(
            properties_of(p),
        ),
{
    if let Some(p) = properties_at(s, i) {
        let from = after_spaces(s, i + 1);
        let first = property_at(s, from)->0;
        lemma_property_sound(s, from);
        lemma_more_properties_sound(s, first.end);
        let rest = more_properties(s, first.end).items;
        assert(p.inner == seq![first] + rest);
        assert forall|k: int| 0 <= k < p.inner.len() implies sound(
            property_of(#[trigger] p.inner[k]),
        ) by {
            if k > 0 {
                assert(p.inner[k] == rest[k - 1]);
            }
        }
        lemma_properties_fold(p.inner, 0, Seq::empty());
    }
}

/// A type that the parser reads: a `type_decl` with one part, for which
/// reading succeeds.
pub open spec fn is_read_type(t: PairView) -> bool {
    t.rule == Rule::type_decl && type_of(t) is Ok
}

/// Wrappers behind a type that can be read leave a type that can be read.
pub proof fn lemma_suffixes_sound(s: Seq<char>, t: PairView)
    requires
        is_read_type(t),
    ensures
        is_read_type(with_suffixes(s, t)),
    decreases s.len() - t.end,
{
    let k = after_spaces(s, t.end);
    if has_char(s, k, '*') && has_char(s, k + 1, '*') {
        lemma_suffixes_sound(s, wrapped(Rule::dbpointer_type, s, t, t.start, k + 2));
    } else if has_char(s, k, '*') {
        lemma_suffixes_sound(s, wrapped(Rule::pointer_type, s, t, t.start, k + 1));
    } else if has_char(s, k, '&') {
        lemma_suffixes_sound(s, wrapped(Rule::reference_type, s, t, t.start, k + 1));
    } else if has_char(s, k, '[') && has_char(s, k + 1, ']') {
        lemma_suffixes_sound(s, wrapped(Rule::array_type, s, t, t.start, k + 2));
    }
}

/// A matrix of the grammar is a type that can be read.
pub proof fn lemma_matrix_sound(s: Seq<char>, i: int)
    ensures
        matrix_at(s, i) matches Some(t) ==> is_read_type(t),
    decreases s.len() - i, 0int,
{
    let open = after_spaces(s, i + "Matrix"@.len());
    if has_text(s, i, "Matrix"@) && has_char(s, open, '<') {
        let from = after_spaces(s, open + 1);
        lemma_run_within(s, open + 1, CharClass::Space);
        lemma_type_sound(s, from);
    }
}

/// A type of the grammar can always be read.
pub proof fn lemma_type_sound(s: Seq<char>, i: int)
    ensures
        type_decl_at(s, i) matches Some(t) ==> is_read_type(t),
    decreases s.len() - i, 1int,
{
    lemma_matrix_sound(s, i);
    match matrix_at(s, i) {
        Some(m) => {
            lemma_suffixes_sound(s, m);
        },
        None => {
            if let Some(id) = identifier_at(s, i) {
                lemma_suffixes_sound(s, node(Rule::type_decl, s, i, id.end, seq![id]));
            }
        },
    }
}

/// A part that belongs in an argument and can be read but for its literal.
pub open spec fn fits_argument(part: PairView) -> bool {
    match part.rule {
        Rule::properties => sound(properties_of(part)),
        Rule::dont_care_type_decl => true,
        Rule::value => sound(value_from(part.inner, 0)),
        _ => false,
    }
}

/// Every part of `parts` belongs in an argument.
pub open spec fn every_fits_argument(parts: Seq<PairView>) -> bool {
    forall|k: int| 0 <= k < parts.len() ==> fits_argument(#[trigger] parts[k])
}

/// Parts that belong in an argument can be read in a row.
pub proof fn lemma_argument_fold(parts: Seq<PairView>, i: int, a: ArgumentView)
    requires
        every_fits_argument(parts),
    ensures
        sound(argument_from(parts, i, a)),
    decreases parts.len() - i,
{
    if 0 <= i < parts.len() {
        assert(fits_argument(parts[i]));
        match crate::meaning::argument_with(a, parts[i]) {
            Ok(next) => {
                lemma_argument_fold(parts, i + 1, next);
            },
            Err(_) => {},
        }
    }
}

/// An argument of the grammar can be read but for its literals.
pub proof fn lemma_argument_sound(s: Seq<char>, i: int)
    ensures
        argument_at(s, i) matches Some(a) ==> a.rule == Rule::argument && sound(argument_of(a)),
{
    if let Some(a) = argument_at(s, i) {
        let props = properties_at(s, i);
        let from = after_optional(s, props, i);
        let typed = dont_care_at(s, from)->0;
        let stop = from + run_len(s, from, CharClass::Raw);
        let value = assigned_at(s, stop);
        lemma_properties_sound(s, i);
        lemma_value_sound(s, after_spaces(s, after_spaces(s, stop) + 1));
        let parts = items_of(props) + seq![typed] + items_of(value);
        assert(a.inner == parts);
        assert forall|k: int| 0 <= k < parts.len() implies fits_argument(#[trigger] parts[k]) by {
            let front = items_of(props);
            if k < front.len() {
                assert(parts[k] == props->0);
            } else if k == front.len() {
                assert(parts[k] == typed);
            } else {
                assert(parts[k] == value->0);
            }
        }
        lemma_argument_fold(parts, 0, blank_argument());
    }
}

/// Every part of `parts` is an argument that can be read but for its
/// literals.
pub open spec fn every_argument_sound(parts: Seq<PairView>) -> bool {
    forall|k: int| 0 <= k < parts.len() ==> sound(argument_of(#[trigger] parts[k]))
}

/// Arguments that can each be read can be read in a row.
pub proof fn lemma_arguments_fold(parts: Seq<PairView>, i: int, done: Seq<ArgumentView>)
    requires
        every_argument_sound(parts),
    ensures
        sound(arguments_from(parts, i, done)),
    decreases parts.len() - i,
{
    if 0 <= i < parts.len() {
        assert(sound(argument_of(parts[i])));
        match argument_of(parts[i]) {
            Ok(a) => {
                lemma_arguments_fold(parts, i + 1, done.push(a));
            },
            Err(_) => {},
        }
    }
}

/// The arguments behind the first one can each be read but for their
/// literals.
pub proof fn lemma_more_arguments_sound(s: Seq<char>, i: int)
    ensures
        every_argument_sound(more_arguments(s, i).items),
    decreases s.len() - i,
{
    let comma = after_spaces(s, i);
    if has_char(s, comma, ',') {
        let from = after_spaces(s, comma + 1);
        if let Some(item) = argument_at(s, from) {
            if advances(s, i, item) {
                lemma_argument_sound(s, from);
                lemma_more_arguments_sound(s, item.end);
                let rest = more_arguments(s, item.end).items;
                let all = more_arguments(s, i).items;
                assert(all == seq![item] + rest);
                assert forall|k: int| 0 <= k < all.len() implies sound(
                    argument_of(#[trigger] all[k]),
                ) by {
                    if k > 0 {
                        assert(all[k] == rest[k - 1]);
                    }
                }
            }
        }
    }
}

/// An argument list of the grammar can be read but for its literals.
pub proof fn lemma_arguments_sound(s: Seq<char>, i: int)
    ensures
        arguments_at(s, i) matches Some(a) ==> a.rule == Rule::arguments && sound(arguments_of(a)),
{
    if let Some(a) = arguments_at(s, i) {
        let first = argument_at(s, i)->0;
        lemma_argument_sound(s, i);
        lemma_more_arguments_sound(s, first.end);
        let rest = more_arguments(s, first.end).items;
        assert(a.inner == seq![first] + rest);
        assert forall|k: int| 0 <= k < a.inner.len() implies sound(
            argument_of(#[trigger] a.inner[k]),
        ) by {
            if k > 0 {
                assert(a.inner[k] == rest[k - 1]);
            }
        }
        lemma_arguments_fold(a.inner, 0, Seq::empty());
    }
}

/// A part that belongs in a field and can be read but for its literal.
pub open spec fn fits_field(part: PairView) -> bool {
    match part.rule {
        Rule::properties => sound(properties_of(part)),
        Rule::static_spec => true,
        Rule::type_decl => type_of(part) is Ok,
        Rule::identifier => true,
        Rule::value => sound(value_from(part.inner, 0)),
        _ => false,
    }
}

/// Every part of `parts` belongs in a field.
pub open spec fn every_fits_field(parts: Seq<PairView>) -> bool {
    forall|k: int| 0 <= k < parts.len() ==> fits_field(#[trigger] parts[k])
}

/// Parts that belong in a field can be read in a row.
pub proof fn lemma_field_fold(whole: PairView, i: int, f: FieldView)
    requires
        every_fits_field(whole.inner),
    ensures
        sound(field_from(whole, i, f)),
    decreases whole.inner.len() - i,
{
    if 0 <= i < whole.inner.len() {
        assert(fits_field(whole.inner[i]));
        match crate::meaning::field_with(f, whole.inner[i], whole) {
            Ok(next) => {
                lemma_field_fold(whole, i + 1, next);
            },
            Err(_) => {},
        }
    }
}

/// A field of the grammar can be read but for its literal.
pub proof fn lemma_field_sound(s: Seq<char>, i: int)
    ensures
        field_decl_at(s, i) matches Some(f) ==> f.rule == Rule::field_decl && sound(field_of(f)),
{
    reveal(field_decl_at);
    if let Some(f) = field_decl_at(s, i) {
        let props = properties_at(s, i);
        let from = after_optional(s, props, i);
        let marker = marker_at(Rule::static_spec, s, from, "static"@);
        let start = after_optional(s, marker, from);
        let typ = type_decl_at(s, start)->0;
        let id = identifier_at(s, after_spaces(s, typ.end))->0;
        let value = assigned_at(s, id.end);
        lemma_properties_sound(s, i);
        lemma_type_sound(s, start);
        lemma_value_sound(s, after_spaces(s, after_spaces(s, id.end) + 1));
        let a = items_of(props);
        let b = items_of(marker);
        let parts = a + b + seq![typ, id] + items_of(value);
        assert(f.inner == parts);
        assert forall|k: int| 0 <= k < parts.len() implies fits_field(#[trigger] parts[k]) by {
            if k < a.len() {
                assert(parts[k] == props->0);
            } else if k < a.len() + b.len() {
                assert(parts[k] == marker->0);
            } else if k == a.len() + b.len() {
                assert(parts[k] == typ);
            } else if k == a.len() + b.len() + 1 {
                assert(parts[k] == id);
            } else {
                assert(parts[k] == value->0);
            }
        }
        lemma_field_fold(f, 0, blank_field());
    }
}

/// A part that belongs in a method and can be read but for its literals.
pub open spec fn fits_method(part: PairView) -> bool {
    match part.rule {
        Rule::properties => sound(properties_of(part)),
        Rule::static_spec => true,
        Rule::dont_care_type_decl => true,
        Rule::arguments => sound(arguments_of(part)),
        _ => false,
    }
}

/// Every part of `parts` belongs in a method.
pub open spec fn every_fits_method(parts: Seq<PairView>) -> bool {
    forall|k: int| 0 <= k < parts.len() ==> fits_method(#[trigger] parts[k])
}

/// Parts that belong in a method can be read in a row.
pub proof fn lemma_method_fold(whole: PairView, i: int, m: MethodView)
    requires
        every_fits_method(whole.inner),
    ensures
        sound(method_from(whole, i, m)),
    decreases whole.inner.len() - i,
{
    if 0 <= i < whole.inner.len() {
        assert(fits_method(whole.inner[i]));
        match crate::meaning::method_with(m, whole.inner[i], whole) {
            Ok(next) => {
                lemma_method_fold(whole, i + 1, next);
            },
            Err(_) => {},
        }
    }
}

/// A method of the grammar can be read but for its literals.
pub proof fn lemma_method_sound(s: Seq<char>, i: int)
    ensures
        method_decl_at(s, i) matches Some(m) ==> m.rule == Rule::method_decl && sound(
            method_of(m),
        ),
{
    reveal(method_decl_at);
    if let Some(m) = method_decl_at(s, i) {
        let props = properties_at(s, i);
        let from = after_optional(s, props, i);
        let marker = marker_at(Rule::static_spec, s, from, "static"@);
        let start = after_optional(s, marker, from);
        let typed = dont_care_at(s, start)->0;
        let open = start + run_len(s, start, CharClass::Raw);
        let first = after_spaces(s, open + 1);
        let args = arguments_at(s, first);
        lemma_properties_sound(s, i);
        lemma_arguments_sound(s, first);
        let a = items_of(props);
        let b = items_of(marker);
        let parts = a + b + seq![typed] + items_of(args);
        assert(m.inner == parts);
        assert forall|k: int| 0 <= k < parts.len() implies fits_method(#[trigger] parts[k]) by {
            if k < a.len() {
                assert(parts[k] == props->0);
            } else if k < a.len() + b.len() {
                assert(parts[k] == marker->0);
            } else if k == a.len() + b.len() {
                assert(parts[k] == typed);
            } else {
                assert(parts[k] == args->0);
            }
        }
        lemma_method_fold(m, 0, blank_method());
    }
}

/// Every part of `parts` is a declaration that can be read but for its
/// literals.
pub open spec fn every_declaration_sound(parts: Seq<PairView>) -> bool {
    forall|k: int| 0 <= k < parts.len() ==> sound(declaration_of(#[trigger] parts[k]))
}

/// A part that belongs in a declaration and can be read but for its
/// literals.
pub open spec fn fits_block(part: PairView) -> bool {
    match part.rule {
        Rule::properties => sound(properties_of(part)),
        Rule::field_decl => sound(field_of(part)),
        Rule::method_decl => sound(method_of(part)),
        Rule::block_decl => every_declaration_sound(part.inner),
        _ => false,
    }
}

/// Every part of `parts` belongs in a declaration.
pub open spec fn every_fits_block(parts: Seq<PairView>) -> bool {
    forall|k: int| 0 <= k < parts.len() ==> fits_block(#[trigger] parts[k])
}

/// Declarations that can each be read can be read in a row.
pub proof fn lemma_entries_fold(braces: PairView, i: int, b: BlockView)
    requires
        every_declaration_sound(braces.inner),
    ensures
        sound(entries_from(braces, i, b)),
    decreases braces.inner.len() - i,
{
    if 0 <= i < braces.inner.len() {
        assert(sound(declaration_of(braces.inner[i])));
        match declaration_of(braces.inner[i]) {
            Ok(d) => {
                lemma_entries_fold(braces, i + 1, crate::meaning::with_entry(b, d));
            },
            Err(_) => {},
        }
    }
}

/// Parts that belong in a declaration can be read in a row.
pub proof fn lemma_block_fold(whole: PairView, i: int, b: BlockView)
    requires
        every_fits_block(whole.inner),
    ensures
        sound(block_from(whole, i, b)),
    decreases whole.inner.len() - i,
{
    if 0 <= i < whole.inner.len() {
        let part = whole.inner[i];
        assert(fits_block(part));
        if part.rule == Rule::block_decl {
            lemma_entries_fold(part, 0, b);
        }
        let next = match part.rule {
            Rule::properties => match properties_of(part) {
                Ok(ps) => Ok(BlockView { properties: b.properties + ps, ..b }),
                Err(e) => Err(e),
            },
            Rule::field_decl => match field_of(part) {
                Ok(f) => Ok(crate::meaning::with_entry(b, crate::model::DeclarationView::Field(f))),
                Err(e) => Err(e),
            },
            Rule::method_decl => match method_of(part) {
                Ok(m) => Ok(
                    crate::meaning::with_entry(b, crate::model::DeclarationView::Method(m)),
                ),
                Err(e) => Err(e),
            },
            Rule::block_decl => entries_from(part, 0, b),
            _ => Err(crate::meaning::failure_at(Reason::UnexpectedInBlock, whole)),
        };
        match next {
            Ok(n) => {
                lemma_block_fold(whole, i + 1, n);
            },
            Err(_) => {},
        }
    }
}

/// A declaration of the grammar can be read but for its literals.
pub proof fn lemma_declaration_sound(s: Seq<char>, i: int)
    ensures
        declaration_at(s, i) matches Some(d) ==> d.rule == Rule::declaration && sound(
            declaration_of(d),
        ),
    decreases s.len() - i, 2int,
{
    if let Some(d) = declaration_at(s, i) {
        let props = properties_at(s, i);
        let from = after_optional(s, props, i);
        lemma_properties_within(s, i);
        if props is Some {
            lemma_run_within(s, props->0.end, CharClass::Space);
        }
        lemma_properties_sound(s, i);
        lemma_field_sound(s, from);
        lemma_method_sound(s, from);
        if field_decl_at(s, from) is None && method_decl_at(s, from) is None {
            lemma_block_decl_sound(s, from);
        }
        let x = d.inner.last();
        let a = items_of(props);
        assert(d.inner == a + seq![x]);
        assert(fits_block(x));
        assert forall|k: int| 0 <= k < d.inner.len() implies fits_block(#[trigger] d.inner[k]) by {
            if k < a.len() {
                assert(d.inner[k] == props->0);
            }
        }
        lemma_block_fold(d, 0, blank_block());
    }
}

/// The declarations in a block of the grammar can each be read but for
/// their literals.
pub proof fn lemma_block_decl_sound(s: Seq<char>, i: int)
    ensures
        block_decl_at(s, i) matches Some(b) ==> b.rule == Rule::block_decl
            && every_declaration_sound(b.inner),
    decreases s.len() - i, 1int,
{
    if has_char(s, i, '{') {
        lemma_declarations_sound(s, i + 1);
    }
}

/// The declarations that follow one another can each be read but for their
/// literals.
pub proof fn lemma_declarations_sound(s: Seq<char>, i: int)
    ensures
        every_declaration_sound(declarations_from(s, i).items),
        forall|k: int|
            0 <= k < declarations_from(s, i).items.len() ==> (
            #[trigger] declarations_from(s, i).items[k]).rule == Rule::declaration,
    decreases s.len() - i, 3int,
{
    let from = after_spaces(s, i);
    if 0 <= i <= s.len() {
        lemma_run_within(s, i, CharClass::Space);
        if let Some(d) = declaration_at(s, from) {
            if advances(s, from, d) {
                lemma_declaration_sound(s, from);
                lemma_declarations_sound(s, d.end);
                let rest = declarations_from(s, d.end).items;
                let all = declarations_from(s, i).items;
                assert(all == seq![d] + rest);
                assert forall|k: int| 0 <= k < all.len() implies sound(
                    declaration_of(#[trigger] all[k]),
                ) && all[k].rule == Rule::declaration by {
                    if k > 0 {
                        assert(all[k] == rest[k - 1]);
                    }
                }
            }
        }
    }
}

/// A part that belongs in a class and can be read but for its literals.
pub open spec fn fits_class(part: PairView) -> bool {
    match part.rule {
        Rule::properties => sound(properties_of(part)),
        Rule::name => part.text.len() > 0,
        Rule::inheritance => true,
        Rule::declaration => sound(declaration_of(part)),
        _ => false,
    }
}

/// Every part of `parts` belongs in a class.
pub open spec fn every_fits_class(parts: Seq<PairView>) -> bool {
    forall|k: int| 0 <= k < parts.len() ==> fits_class(#[trigger] parts[k])
}

/// A name stands among `parts` at `i` or behind it.
pub open spec fn has_name_from(parts: Seq<PairView>, i: int) -> bool {
    exists|k: int| i <= k < parts.len() && (#[trigger] parts[k]).rule == Rule::name
}

/// Parts that belong in a class can be read in a row, and the class has a
/// name if it had one before or a name is among the parts.
pub proof fn lemma_class_fold(whole: PairView, i: int, c: ClassView)
    requires
        0 <= i,
        every_fits_class(whole.inner),
    ensures
        match class_from(whole, i, c) {
            Ok(done) => c.name.len() > 0 || has_name_from(whole.inner, i) ==> done.name.len() > 0,
            Err(f) => is_literal_failure(f),
        },
    decreases whole.inner.len() - i,
{
    if i < whole.inner.len() {
        let part = whole.inner[i];
        assert(fits_class(part));
        match crate::meaning::class_with(c, part, whole) {
            Ok(next) => {
                lemma_class_fold(whole, i + 1, next);
                if has_name_from(whole.inner, i) && part.rule != Rule::name {
                    let k = choose|k: int|
                        i <= k < whole.inner.len() && (#[trigger] whole.inner[k]).rule
                            == Rule::name;
                    assert(i + 1 <= k);
                    assert(has_name_from(whole.inner, i + 1));
                }
            },
            Err(_) => {},
        }
    } else {
        assert(!has_name_from(whole.inner, i));
    }
}

/// A class of the grammar can be read but for its literals.
pub proof fn lemma_class_sound(s: Seq<char>, i: int)
    ensures
        class_at(s, i) matches Some(c) ==> sound(class_of(c)),
{
    if let Some(c) = class_at(s, i) {
        let props = properties_at(s, i);
        let word = marker_at(Rule::class, s, after_optional(s, props, i), "class"@)->0;
        let at = after_spaces(s, word.end);
        let name = name_at(Rule::name, s, at)->0;
        let colon = after_spaces(s, name.end);
        let bases = if has_char(s, colon, ':') {
            inheritance_at(s, after_spaces(s, colon + 1))
        } else {
            None
        };
        let open = after_optional(s, bases, colon);
        let body = declarations_from(s, open + 1);
        lemma_properties_sound(s, i);
        lemma_declarations_sound(s, open + 1);
        lemma_run_within(s, at + 1, CharClass::Name);
        assert(name.text.len() > 0);
        let a = items_of(props);
        let b = items_of(bases);
        let parts = a + seq![name] + b + body.items;
        assert(c.inner == parts);
        assert(parts[a.len() as int] == name);
        assert(has_name_from(parts, 0));
        assert forall|k: int| 0 <= k < parts.len() implies fits_class(#[trigger] parts[k]) by {
            if k < a.len() {
                assert(parts[k] == props->0);
            } else if k == a.len() {
            } else if k < a.len() + 1 + b.len() {
                assert(parts[k] == bases->0);
            } else {
                assert(parts[k] == body.items[k - a.len() - 1 - b.len()]);
            }
        }
        lemma_class_fold(c, 0, blank_class());
    }
}

/// Every part of `parts` is a class that can be read but for its literals.
pub open spec fn every_class_sound(parts: Seq<PairView>) -> bool {
    forall|k: int| 0 <= k < parts.len() ==> sound(class_of(#[trigger] parts[k]))
}

/// Classes that can each be read can be read in a row.
pub proof fn lemma_classes_fold(parts: Seq<PairView>, i: int, done: Seq<ClassView>)
    requires
        every_class_sound(parts),
    ensures
        sound(classes_of(parts, i, done)),
    decreases parts.len() - i,
{
    if 0 <= i < parts.len() {
        assert(sound(class_of(parts[i])));
        match class_of(parts[i]) {
            Ok(c) => {
                lemma_classes_fold(parts, i + 1, done.push(c));
            },
            Err(_) => {},
        }
    }
}

/// The classes that follow one another can each be read but for their
/// literals.
pub proof fn lemma_classes_sound(s: Seq<char>, i: int)
    ensures
        every_class_sound(classes_from(s, i).items),
    decreases s.len() - i,
{
    let from = after_spaces(s, i);
    if let Some(c) = class_at(s, from) {
        if advances(s, i, c) {
            lemma_class_sound(s, from);
            lemma_classes_sound(s, c.end);
            let rest = classes_from(s, c.end).items;
            let all = classes_from(s, i).items;
            assert(all == seq![c] + rest);
            assert forall|k: int| 0 <= k < all.len() implies sound(class_of(#[trigger] all[k])) by {
                if k > 0 {
                    assert(all[k] == rest[k - 1]);
                }
            }
        }
    }
}

/// Parsing fails in two ways only. A text that does not follow the grammar
/// is a syntax failure, reported where its classes stop. A text that follows
/// the grammar parses to its classes unless one of its literals does not fit
/// its type, and then that is the failure: no part of a tree of the grammar
/// is ever unexpected, missing or unreadable.
pub proof fn lemma_failures_are_syntax_or_literal(s: Seq<char>)
    ensures
        match unit_of(s) {
            Ok(_) => moho_at(s) is Some,
            Err(Failure::Syntax { line, column }) => moho_at(s) is None && line == line_of(
                s,
                stop_of(s),
            ) && column == column_of(s, stop_of(s)),
            Err(f) => moho_at(s) is Some && is_literal_failure(f),
        },
{
    if let Some(tree) = moho_at(s) {
        lemma_classes_sound(s, 0);
        lemma_classes_fold(tree.inner, 0, Seq::empty());
    }
}

} // verus!
