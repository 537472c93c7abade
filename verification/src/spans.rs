//! Every fragment that the grammar produces lies in the text: it holds the
//! text of its span, and its parts lie inside it, one behind the other.

use vstd::prelude::*;
use crate::syntax::{
    advances, after_optional, after_spaces, argument_at, arguments_at, assigned_at, block_decl_at,
    bool_at, class_at, classes_from, declaration_at, declarations_from, dont_care_at, end_or,
    field_decl_at, float_at, has_char, has_text, identifier_at, inheritance_at, integer_at,
    items_of, lemma_run_within, lemma_string_within, marker_at, matrix_at, method_decl_at, moho_at,
    more_arguments, more_identifiers, more_properties, name_at, nullptr_at, plain_literal_at,
    properties_at, property_at, run_len, sign_len, trimmed_len, type_decl_at, value_at,
    with_suffixes, word_at, wrapped, CharClass, Many,
};
use crate::tree::{node, PairView, Rule};

verus! {

/// The fragments `parts` lie in `s` between `from` and `to`, one behind the
/// other.
pub open spec fn in_a_row(parts: Seq<PairView>, s: Seq<char>, from: int, to: int) -> bool
    decreases parts, 0int,
{
    &&& forall|k: int|
        0 <= k < parts.len() ==> lies_in(#[trigger] parts[k], s) && from <= parts[k].start
            && parts[k].end <= to
    &&& forall|j: int, k: int|
        0 <= j < k < parts.len() ==> (#[trigger] parts[j]).end <= (#[trigger] parts[k]).start
}

/// The fragment `t` lies in `s`: its span is a stretch of `s`, it holds the
/// text of that stretch, and its parts lie inside it, one behind the other.
pub open spec fn lies_in(t: PairView, s: Seq<char>) -> bool
    decreases t, 1int,
{
    &&& 0 <= t.start <= t.end <= s.len()
    &&& t.text == s.subrange(t.start, t.end)
    &&& in_a_row(t.inner, s, t.start, t.end)
}

/// What is found at `i`: a fragment that lies in the text, starts at `i` and
/// ends behind it.
pub open spec fn found_in(t: Option<PairView>, s: Seq<char>, i: int) -> bool {
    t matches Some(x) ==> lies_in(x, s) && x.start == i && i < x.end
}

/// One fragment lies in a row where it lies.
pub proof fn lemma_one_in_a_row(t: PairView, s: Seq<char>, from: int, to: int)
    requires
        lies_in(t, s),
        from <= t.start,
        t.end <= to,
    ensures
        in_a_row(seq![t], s, from, to),
{
}

/// An optional fragment lies in a row where it lies.
pub proof fn lemma_optional_in_a_row(t: Option<PairView>, s: Seq<char>, from: int, to: int)
    requires
        t matches Some(x) ==> lies_in(x, s) && from <= x.start && x.end <= to,
    ensures
        in_a_row(items_of(t), s, from, to),
{
}

/// Two rows, one behind the other, are a row.
pub proof fn lemma_rows_join(
    a: Seq<PairView>,
    b: Seq<PairView>,
    s: Seq<char>,
    from: int,
    mid: int,
    to: int,
)
    requires
        in_a_row(a, s, from, mid),
        in_a_row(b, s, mid, to),
        from <= mid <= to,
    ensures
        in_a_row(a + b, s, from, to),
{
    let all = a + b;
    assert forall|k: int| 0 <= k < all.len() implies lies_in(#[trigger] all[k], s) && from
        <= all[k].start && all[k].end <= to by {
        if k < a.len() {
            assert(all[k] == a[k]);
        } else {
            assert(all[k] == b[k - a.len()]);
        }
    }
    assert forall|j: int, k: int| 0 <= j < k < all.len() implies (#[trigger] all[j]).end <= (
    #[trigger] all[k]).start by {
        if k < a.len() {
            assert(all[j] == a[j] && all[k] == a[k]);
        } else if j >= a.len() {
            assert(all[j] == b[j - a.len()] && all[k] == b[k - a.len()]);
        } else {
            assert(all[j] == a[j] && all[k] == b[k - a.len()]);
        }
    }
}

/// A row lies in every wider stretch.
pub proof fn lemma_row_widens(
    a: Seq<PairView>,
    s: Seq<char>,
    from: int,
    to: int,
    wider_from: int,
    wider_to: int,
)
    requires
        in_a_row(a, s, from, to),
        wider_from <= from,
        to <= wider_to,
    ensures
        in_a_row(a, s, wider_from, wider_to),
{
}

/// A fragment lies in the text if its span does and its parts lie in it.
pub proof fn lemma_branch_lies_in(rule: Rule, s: Seq<char>, i: int, e: int, inner: Seq<PairView>)
    requires
        0 <= i <= e <= s.len(),
        in_a_row(inner, s, i, e),
    ensures
        lies_in(node(rule, s, i, e, inner), s),
{
}

/// A name lies where it is found.
pub proof fn lemma_name_lies_in(rule: Rule, s: Seq<char>, i: int)
    ensures
        found_in(name_at(rule, s, i), s, i),
{
    if name_at(rule, s, i) is Some {
        lemma_run_within(s, i + 1, CharClass::Name);
    }
}

/// A fixed text lies where it is found.
pub proof fn lemma_word_lies_in(rule: Rule, s: Seq<char>, i: int, word: Seq<char>)
    requires
        word.len() > 0,
    ensures
        found_in(word_at(rule, s, i, word), s, i),
        found_in(marker_at(rule, s, i, word), s, i),
{
}

/// A value lies where it is found.
pub proof fn lemma_value_lies_in(s: Seq<char>, i: int)
    ensures
        found_in(value_at(s, i), s, i),
{
    if let Some(v) = value_at(s, i) {
        reveal_strlit("true");
        reveal_strlit("false");
        reveal_strlit("nullptr");
        let first = i + sign_len(s, i);
        if plain_literal_at(s, i) is Some {
            if bool_at(s, i) is Some {
            } else if nullptr_at(s, i) is Some {
            } else if float_at(s, i) is Some {
                let point = first + run_len(s, first, CharClass::Digit);
                lemma_run_within(s, point + 1, CharClass::Digit);
            } else if integer_at(s, i) is Some {
                lemma_run_within(s, first, CharClass::Digit);
            } else {
                lemma_string_within(s, i + 1);
            }
        } else {
            lemma_run_within(s, i + 1, CharClass::Quoted);
        }
        let lit = v.inner[0];
        assert(lies_in(lit, s));
        lemma_one_in_a_row(lit, s, v.start, v.end);
        assert(v.inner == seq![lit]);
    }
}

/// A value behind an equals sign lies behind the position it is looked for
/// from.
pub proof fn lemma_assigned_lies_in(s: Seq<char>, i: int)
    requires
        0 <= i <= s.len(),
    ensures
        assigned_at(s, i) matches Some(v) ==> lies_in(v, s) && i < v.start && v.start < v.end,
{
    let sign = after_spaces(s, i);
    if has_char(s, sign, '=') {
        lemma_value_lies_in(s, after_spaces(s, sign + 1));
    }
}

/// A property lies where it is found.
pub proof fn lemma_property_lies_in(s: Seq<char>, i: int)
    ensures
        found_in(property_at(s, i), s, i),
{
    if let Some(p) = property_at(s, i) {
        reveal_strlit("meta");
        let marker = marker_at(Rule::meta, s, i, "meta"@);
        lemma_word_lies_in(Rule::meta, s, i, "meta"@);
        let at = after_optional(s, marker, i);
        let id = identifier_at(s, at)->0;
        lemma_name_lies_in(Rule::identifier, s, at);
        let value = assigned_at(s, id.end);
        lemma_assigned_lies_in(s, id.end);
        let e = end_or(value, id.end);
        lemma_optional_in_a_row(marker, s, i, at);
        lemma_one_in_a_row(id, s, at, id.end);
        lemma_optional_in_a_row(value, s, id.end, e);
        lemma_rows_join(items_of(marker), seq![id], s, i, at, id.end);
        lemma_rows_join(items_of(marker) + seq![id], items_of(value), s, i, id.end, e);
    }
}

/// A run of fragments that lies in the text from `i` on, up to its end.
pub open spec fn run_lies_in(m: Many, s: Seq<char>, i: int) -> bool {
    i <= m.end <= s.len() && in_a_row(m.items, s, i, m.end)
}

/// The properties behind the first one lie in the text, one behind the
/// other.
pub proof fn lemma_more_properties_lie_in(s: Seq<char>, i: int)
    requires
        0 <= i <= s.len(),
    ensures
        run_lies_in(more_properties(s, i), s, i),
    decreases s.len() - i,
{
    let comma = after_spaces(s, i);
    if has_char(s, comma, ',') {
        let from = after_spaces(s, comma + 1);
        if let Some(item) = property_at(s, from) {
            if advances(s, i, item) {
                lemma_property_lies_in(s, from);
                lemma_more_properties_lie_in(s, item.end);
                let rest = more_properties(s, item.end);
                lemma_one_in_a_row(item, s, i, item.end);
                lemma_rows_join(seq![item], rest.items, s, i, item.end, rest.end);
            }
        }
    }
}

/// A property list lies where it is found.
pub proof fn lemma_properties_lie_in(s: Seq<char>, i: int)
    ensures
        found_in(properties_at(s, i), s, i),
{
    if let Some(p) = properties_at(s, i) {
        let from = after_spaces(s, i + 1);
        let first = property_at(s, from)->0;
        lemma_property_lies_in(s, from);
        lemma_more_properties_lie_in(s, first.end);
        let rest = more_properties(s, first.end);
        lemma_one_in_a_row(first, s, i, first.end);
        lemma_rows_join(seq![first], rest.items, s, i, first.end, rest.end);
        lemma_row_widens(seq![first] + rest.items, s, i, rest.end, i, p.end);
    }
}

/// A stretch without the white space at its end is no longer than the
/// stretch.
pub proof fn lemma_trimmed_within(s: Seq<char>, i: int, n: nat)
    ensures
        trimmed_len(s, i, n) <= n,
    decreases n,
{
    if n > 0 && 0 <= i + n - 1 < s.len() && crate::text::is_space(s[i + n - 1]) {
        lemma_trimmed_within(s, i, (n - 1) as nat);
    }
}

/// A type with a name, kept as written, lies where it is found, within the
/// raw text there.
pub proof fn lemma_dont_care_lies_in(s: Seq<char>, i: int)
    requires
        0 <= i <= s.len(),
    ensures
        found_in(dont_care_at(s, i), s, i),
        dont_care_at(s, i) matches Some(t) ==> t.end <= i + run_len(s, i, CharClass::Raw)
            <= s.len(),
{
    lemma_run_within(s, i, CharClass::Raw);
    lemma_trimmed_within(s, i, run_len(s, i, CharClass::Raw));
}

/// An optional property list and the white space behind it end in the text.
pub proof fn lemma_after_properties(s: Seq<char>, i: int)
    requires
        0 <= i <= s.len(),
    ensures
        found_in(properties_at(s, i), s, i),
        i <= after_optional(s, properties_at(s, i), i) <= s.len(),
        in_a_row(items_of(properties_at(s, i)), s, i, after_optional(s, properties_at(s, i), i)),
{
    lemma_properties_lie_in(s, i);
    if let Some(p) = properties_at(s, i) {
        lemma_run_within(s, p.end, CharClass::Space);
    }
}

/// An optional marker and the white space behind it end in the text.
pub proof fn lemma_after_marker(rule: Rule, s: Seq<char>, i: int, word: Seq<char>)
    requires
        0 <= i <= s.len(),
        word.len() > 0,
    ensures
        i <= after_optional(s, marker_at(rule, s, i, word), i) <= s.len(),
        in_a_row(
            items_of(marker_at(rule, s, i, word)),
            s,
            i,
            after_optional(s, marker_at(rule, s, i, word), i),
        ),
{
    let marker = marker_at(rule, s, i, word);
    if let Some(m) = marker {
        lemma_run_within(s, m.end, CharClass::Space);
        lemma_word_lies_in(rule, s, i, word);
        assert(lies_in(m, s));
    }
    lemma_optional_in_a_row(marker, s, i, after_optional(s, marker, i));
}

/// An argument lies where it is found.
pub proof fn lemma_argument_lies_in(s: Seq<char>, i: int)
    requires
        0 <= i <= s.len(),
    ensures
        found_in(argument_at(s, i), s, i),
{
    if let Some(a) = argument_at(s, i) {
        let props = properties_at(s, i);
        let from = after_optional(s, props, i);
        lemma_after_properties(s, i);
        let typed = dont_care_at(s, from)->0;
        lemma_dont_care_lies_in(s, from);
        let stop = from + run_len(s, from, CharClass::Raw);
        let value = assigned_at(s, stop);
        lemma_assigned_lies_in(s, stop);
        let e = end_or(value, typed.end);
        lemma_one_in_a_row(typed, s, from, typed.end);
        lemma_optional_in_a_row(value, s, typed.end, e);
        lemma_rows_join(items_of(props), seq![typed], s, i, from, typed.end);
        lemma_rows_join(items_of(props) + seq![typed], items_of(value), s, i, typed.end, e);
    }
}

/// The arguments behind the first one lie in the text, one behind the other.
pub proof fn lemma_more_arguments_lie_in(s: Seq<char>, i: int)
    requires
        0 <= i <= s.len(),
    ensures
        run_lies_in(more_arguments(s, i), s, i),
    decreases s.len() - i,
{
    let comma = after_spaces(s, i);
    if has_char(s, comma, ',') {
        let from = after_spaces(s, comma + 1);
        lemma_run_within(s, comma + 1, CharClass::Space);
        if let Some(item) = argument_at(s, from) {
            if advances(s, i, item) {
                lemma_argument_lies_in(s, from);
                lemma_more_arguments_lie_in(s, item.end);
                let rest = more_arguments(s, item.end);
                lemma_one_in_a_row(item, s, i, item.end);
                lemma_rows_join(seq![item], rest.items, s, i, item.end, rest.end);
            }
        }
    }
}

/// An argument list lies where it is found.
pub proof fn lemma_arguments_lie_in(s: Seq<char>, i: int)
    requires
        0 <= i <= s.len(),
    ensures
        found_in(arguments_at(s, i), s, i),
{
    if let Some(a) = arguments_at(s, i) {
        let first = argument_at(s, i)->0;
        lemma_argument_lies_in(s, i);
        lemma_more_arguments_lie_in(s, first.end);
        let rest = more_arguments(s, first.end);
        lemma_one_in_a_row(first, s, i, first.end);
        lemma_rows_join(seq![first], rest.items, s, i, first.end, rest.end);
    }
}

/// The identifiers behind the first one lie in the text, one behind the
/// other.
pub proof fn lemma_more_identifiers_lie_in(s: Seq<char>, i: int)
    requires
        0 <= i <= s.len(),
    ensures
        run_lies_in(more_identifiers(s, i), s, i),
    decreases s.len() - i,
{
    let comma = after_spaces(s, i);
    if has_char(s, comma, ',') {
        let from = after_spaces(s, comma + 1);
        if let Some(item) = identifier_at(s, from) {
            if advances(s, i, item) {
                lemma_name_lies_in(Rule::identifier, s, from);
                lemma_more_identifiers_lie_in(s, item.end);
                let rest = more_identifiers(s, item.end);
                lemma_one_in_a_row(item, s, i, item.end);
                lemma_rows_join(seq![item], rest.items, s, i, item.end, rest.end);
            }
        }
    }
}

/// A list of bases lies where it is found.
pub proof fn lemma_inheritance_lies_in(s: Seq<char>, i: int)
    ensures
        found_in(inheritance_at(s, i), s, i),
{
    if let Some(a) = inheritance_at(s, i) {
        let first = identifier_at(s, i)->0;
        lemma_name_lies_in(Rule::identifier, s, i);
        lemma_more_identifiers_lie_in(s, first.end);
        let rest = more_identifiers(s, first.end);
        lemma_one_in_a_row(first, s, i, first.end);
        lemma_rows_join(seq![first], rest.items, s, i, first.end, rest.end);
    }
}

/// A wrapper around a type that lies in the text lies in the text.
pub proof fn lemma_wrapped_lies_in(rule: Rule, s: Seq<char>, t: PairView, start: int, end: int)
    requires
        lies_in(t, s),
        0 <= start <= t.start,
        t.end <= end <= s.len(),
    ensures
        lies_in(wrapped(rule, s, t, start, end), s),
        wrapped(rule, s, t, start, end).start == start,
        wrapped(rule, s, t, start, end).end == end,
{
    lemma_one_in_a_row(t, s, start, end);
    let wrapper = node(rule, s, start, end, seq![t]);
    lemma_branch_lies_in(rule, s, start, end, seq![t]);
    lemma_one_in_a_row(wrapper, s, start, end);
    lemma_branch_lies_in(Rule::type_decl, s, start, end, seq![wrapper]);
}

/// Wrappers behind a type that lies in the text leave a type that lies in
/// the text and starts where the type starts.
pub proof fn lemma_suffixes_lie_in(s: Seq<char>, t: PairView)
    requires
        lies_in(t, s),
    ensures
        lies_in(with_suffixes(s, t), s),
        with_suffixes(s, t).start == t.start,
        t.end <= with_suffixes(s, t).end,
    decreases s.len() - t.end,
{
    let k = after_spaces(s, t.end);
    if has_char(s, k, '*') && has_char(s, k + 1, '*') {
        lemma_wrapped_lies_in(Rule::dbpointer_type, s, t, t.start, k + 2);
        lemma_suffixes_lie_in(s, wrapped(Rule::dbpointer_type, s, t, t.start, k + 2));
    } else if has_char(s, k, '*') {
        lemma_wrapped_lies_in(Rule::pointer_type, s, t, t.start, k + 1);
        lemma_suffixes_lie_in(s, wrapped(Rule::pointer_type, s, t, t.start, k + 1));
    } else if has_char(s, k, '&') {
        lemma_wrapped_lies_in(Rule::reference_type, s, t, t.start, k + 1);
        lemma_suffixes_lie_in(s, wrapped(Rule::reference_type, s, t, t.start, k + 1));
    } else if has_char(s, k, '[') && has_char(s, k + 1, ']') {
        lemma_wrapped_lies_in(Rule::array_type, s, t, t.start, k + 2);
        lemma_suffixes_lie_in(s, wrapped(Rule::array_type, s, t, t.start, k + 2));
    }
}

/// A matrix lies where it is found.
pub proof fn lemma_matrix_lies_in(s: Seq<char>, i: int)
    ensures
        found_in(matrix_at(s, i), s, i),
    decreases s.len() - i, 0int,
{
    reveal_strlit("Matrix");
    let open = after_spaces(s, i + "Matrix"@.len());
    if has_text(s, i, "Matrix"@) && has_char(s, open, '<') {
        let from = after_spaces(s, open + 1);
        lemma_run_within(s, open + 1, CharClass::Space);
        lemma_type_lies_in(s, from);
        if let Some(inner) = type_decl_at(s, from) {
            let close = after_spaces(s, inner.end);
            if has_char(s, close, '>') {
                lemma_wrapped_lies_in(Rule::matrix_type, s, inner, i, close + 1);
            }
        }
    }
}

/// A type lies where it is found.
pub proof fn lemma_type_lies_in(s: Seq<char>, i: int)
    ensures
        found_in(type_decl_at(s, i), s, i),
    decreases s.len() - i, 1int,
{
    lemma_matrix_lies_in(s, i);
    match matrix_at(s, i) {
        Some(m) => {
            lemma_suffixes_lie_in(s, m);
        },
        None => {
            if let Some(id) = identifier_at(s, i) {
                lemma_name_lies_in(Rule::identifier, s, i);
                lemma_one_in_a_row(id, s, i, id.end);
                lemma_branch_lies_in(Rule::type_decl, s, i, id.end, seq![id]);
                lemma_suffixes_lie_in(s, node(Rule::type_decl, s, i, id.end, seq![id]));
            }
        },
    }
}

/// A field lies where it is found.
pub proof fn lemma_field_lies_in(s: Seq<char>, i: int)
    requires
        0 <= i <= s.len(),
    ensures
        found_in(field_decl_at(s, i), s, i),
{
    reveal(field_decl_at);
    if let Some(f) = field_decl_at(s, i) {
        reveal_strlit("static");
        let props = properties_at(s, i);
        let from = after_optional(s, props, i);
        lemma_after_properties(s, i);
        let marker = marker_at(Rule::static_spec, s, from, "static"@);
        let start = after_optional(s, marker, from);
        lemma_after_marker(Rule::static_spec, s, from, "static"@);
        let typ = type_decl_at(s, start)->0;
        lemma_type_lies_in(s, start);
        let at = after_spaces(s, typ.end);
        let id = identifier_at(s, at)->0;
        lemma_name_lies_in(Rule::identifier, s, at);
        let value = assigned_at(s, id.end);
        lemma_assigned_lies_in(s, id.end);
        let e = end_or(value, id.end);
        lemma_one_in_a_row(typ, s, start, typ.end);
        lemma_one_in_a_row(id, s, typ.end, id.end);
        lemma_rows_join(seq![typ], seq![id], s, start, typ.end, id.end);
        assert(seq![typ] + seq![id] =~= seq![typ, id]);
        lemma_optional_in_a_row(value, s, id.end, e);
        lemma_rows_join(items_of(props), items_of(marker), s, i, from, start);
        lemma_rows_join(items_of(props) + items_of(marker), seq![typ, id], s, i, start, id.end);
        lemma_rows_join(
            items_of(props) + items_of(marker) + seq![typ, id],
            items_of(value),
            s,
            i,
            id.end,
            e,
        );
        lemma_run_within(s, e, CharClass::Space);
        lemma_row_widens(f.inner, s, i, e, i, f.end);
    }
}

/// A method lies where it is found.
pub proof fn lemma_method_lies_in(s: Seq<char>, i: int)
    requires
        0 <= i <= s.len(),
    ensures
        found_in(method_decl_at(s, i), s, i),
{
    reveal(method_decl_at);
    if let Some(m) = method_decl_at(s, i) {
        reveal_strlit("static");
        let props = properties_at(s, i);
        let from = after_optional(s, props, i);
        lemma_after_properties(s, i);
        let marker = marker_at(Rule::static_spec, s, from, "static"@);
        let start = after_optional(s, marker, from);
        lemma_after_marker(Rule::static_spec, s, from, "static"@);
        let typed = dont_care_at(s, start)->0;
        lemma_dont_care_lies_in(s, start);
        let open = start + run_len(s, start, CharClass::Raw);
        let first = after_spaces(s, open + 1);
        lemma_run_within(s, open + 1, CharClass::Space);
        let args = arguments_at(s, first);
        lemma_arguments_lie_in(s, first);
        let close = after_optional(s, args, first);
        if let Some(a) = args {
            lemma_run_within(s, a.end, CharClass::Space);
        }
        lemma_one_in_a_row(typed, s, start, open);
        lemma_optional_in_a_row(args, s, open, close);
        lemma_rows_join(items_of(props), items_of(marker), s, i, from, start);
        lemma_rows_join(items_of(props) + items_of(marker), seq![typed], s, i, start, open);
        lemma_rows_join(
            items_of(props) + items_of(marker) + seq![typed],
            items_of(args),
            s,
            i,
            open,
            close,
        );
        lemma_run_within(s, close + 1, CharClass::Space);
        lemma_row_widens(m.inner, s, i, close, i, m.end);
    }
}

/// A declaration lies where it is found.
pub proof fn lemma_declaration_lies_in(s: Seq<char>, i: int)
    ensures
        found_in(declaration_at(s, i), s, i),
    decreases s.len() - i, 2int,
{
    if let Some(d) = declaration_at(s, i) {
        let props = properties_at(s, i);
        let from = after_optional(s, props, i);
        lemma_after_properties(s, i);
        lemma_field_lies_in(s, from);
        lemma_method_lies_in(s, from);
        if field_decl_at(s, from) is None && method_decl_at(s, from) is None {
            lemma_block_decl_lies_in(s, from);
        }
        let x = d.inner.last();
        assert(d.inner == items_of(props) + seq![x]);
        assert(lies_in(x, s) && x.start == from && x.end == d.end);
        lemma_one_in_a_row(x, s, from, d.end);
        lemma_rows_join(items_of(props), seq![x], s, i, from, d.end);
    }
}

/// A block lies where it is found.
pub proof fn lemma_block_decl_lies_in(s: Seq<char>, i: int)
    ensures
        found_in(block_decl_at(s, i), s, i),
    decreases s.len() - i, 1int,
{
    if has_char(s, i, '{') {
        lemma_declarations_lie_in(s, i + 1);
        let body = declarations_from(s, i + 1);
        if has_char(s, body.end, '}') {
            lemma_row_widens(body.items, s, i + 1, body.end, i, body.end + 1);
        }
    }
}

/// The declarations that follow one another lie in the text, one behind the
/// other.
pub proof fn lemma_declarations_lie_in(s: Seq<char>, i: int)
    requires
        0 <= i <= s.len(),
    ensures
        run_lies_in(declarations_from(s, i), s, i),
    decreases s.len() - i, 3int,
{
    let from = after_spaces(s, i);
    lemma_run_within(s, i, CharClass::Space);
    if let Some(d) = declaration_at(s, from) {
        if advances(s, from, d) {
            lemma_declaration_lies_in(s, from);
            lemma_declarations_lie_in(s, d.end);
            let rest = declarations_from(s, d.end);
            lemma_one_in_a_row(d, s, i, d.end);
            lemma_rows_join(seq![d], rest.items, s, i, d.end, rest.end);
        }
    }
}

/// A class lies where it is found.
pub proof fn lemma_class_lies_in(s: Seq<char>, i: int)
    requires
        0 <= i <= s.len(),
    ensures
        found_in(class_at(s, i), s, i),
{
    if let Some(c) = class_at(s, i) {
        reveal_strlit("class");
        let props = properties_at(s, i);
        let from = after_optional(s, props, i);
        lemma_after_properties(s, i);
        let word = marker_at(Rule::class, s, from, "class"@)->0;
        let at = after_spaces(s, word.end);
        let name = name_at(Rule::name, s, at)->0;
        lemma_name_lies_in(Rule::name, s, at);
        let colon = after_spaces(s, name.end);
        lemma_run_within(s, name.end, CharClass::Space);
        let bases = if has_char(s, colon, ':') {
            inheritance_at(s, after_spaces(s, colon + 1))
        } else {
            None
        };
        if has_char(s, colon, ':') {
            lemma_inheritance_lies_in(s, after_spaces(s, colon + 1));
        }
        let open = after_optional(s, bases, colon);
        if let Some(b) = bases {
            lemma_run_within(s, b.end, CharClass::Space);
        }
        let body = declarations_from(s, open + 1);
        lemma_declarations_lie_in(s, open + 1);
        lemma_one_in_a_row(name, s, from, colon);
        lemma_optional_in_a_row(bases, s, colon, open);
        lemma_rows_join(items_of(props), seq![name], s, i, from, colon);
        lemma_rows_join(items_of(props) + seq![name], items_of(bases), s, i, colon, open);
        lemma_row_widens(body.items, s, open + 1, body.end, open, body.end);
        lemma_rows_join(
            items_of(props) + seq![name] + items_of(bases),
            body.items,
            s,
            i,
            open,
            body.end,
        );
        lemma_row_widens(c.inner, s, i, body.end, i, c.end);
    }
}

/// The classes that follow one another lie in the text, one behind the
/// other.
pub proof fn lemma_classes_lie_in(s: Seq<char>, i: int)
    requires
        0 <= i <= s.len(),
    ensures
        run_lies_in(classes_from(s, i), s, i),
    decreases s.len() - i,
{
    let from = after_spaces(s, i);
    lemma_run_within(s, i, CharClass::Space);
    if let Some(c) = class_at(s, from) {
        if advances(s, i, c) {
            lemma_class_lies_in(s, from);
            lemma_classes_lie_in(s, c.end);
            let rest = classes_from(s, c.end);
            lemma_one_in_a_row(c, s, i, c.end);
            lemma_rows_join(seq![c], rest.items, s, i, c.end, rest.end);
        }
    }
}

/// The tree of a whole text lies in the text and spans all of it: every
/// fragment in it holds the text of its span, and the parts of each lie
/// inside it, one behind the other.
pub proof fn lemma_tree_lies_in_text(s: Seq<char>)
    ensures
        moho_at(s) matches Some(t) ==> lies_in(t, s) && t.start == 0 && t.end == s.len(),
{
    lemma_classes_lie_in(s, 0);
}

} // verus!
