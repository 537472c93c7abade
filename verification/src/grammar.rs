//! The recognizers: for each rule of the grammar a function that finds the
//! fragment which the rule matches at a position of the text.

use vstd::prelude::*;
use vstd::string::*;
use crate::syntax::{
    after_optional, after_spaces, argument_at, arguments_at, assigned_at, block_decl_at, bool_at,
    char_at, class_at, classes_from, column_of, declaration_at, declarations_from, dont_care_at,
    end_or, failure_of, field_decl_at, float_at, has_char, has_text, identifier_at, in_class,
    inheritance_at, integer_at, is_raw_stop, items_of, lemma_string_within, line_of, marker_at,
    matrix_at, method_decl_at, moho_at, more_arguments, more_identifiers, more_properties, name_at,
    nothing_at, nullptr_at, parsed, plain_literal_at, properties_at, property_at, rule_at, run_len,
    stop_of, string_at, string_rest, trimmed_len, type_decl_at, value_at, with_suffixes, word_at,
    wrapped, wrapper_at, CharClass, Many,
};
use crate::text::{chars_of, digit, name_char, name_start, space};
use crate::tree::{
    append_pairs, lemma_pair_view_inner, make_pair, node, push_pair, view_opt_pair, view_pairs,
    Pair, PairView, Rule,
};

verus! {

/// `found` is the fragment `expected`, and a fragment that was found starts
/// at `i` and ends after it, within the text.
pub open spec fn found_at(
    found: Option<Pair>,
    expected: Option<PairView>,
    s: Seq<char>,
    i: int,
) -> bool {
    &&& view_opt_pair(found) == expected
    &&& found matches Some(p) ==> p.span.start == i && i < p.span.end <= s.len()
}

/// A run of fragments, as the recognizers hand it on.
pub struct Found {
    pub items: Vec<Pair>,
    pub end: usize,
}

/// `found` is the run `expected`, which ends at or after `i`, within the
/// text.
pub open spec fn found_run(found: Found, expected: Many, s: Seq<char>, i: int) -> bool {
    &&& view_pairs(found.items@) == expected.items
    &&& found.end == expected.end
    &&& i <= found.end <= s.len()
}

/// Tells whether `c` ends a stretch of raw text.
fn raw_stop(c: char) -> (yes: bool)
    ensures
        yes == is_raw_stop(c),
{
    c == '(' || c == ')' || c == '[' || c == ']' || c == '{' || c == '}' || c == ',' || c == ';'
        || c == '=' || c == '"' || c == '\''
}

/// Tells whether `c` belongs to the class `k`.
fn class_has(k: CharClass, c: char) -> (yes: bool)
    ensures
        yes == in_class(k, c),
{
    match k {
        CharClass::Space => space(c),
        CharClass::Digit => digit(c),
        CharClass::Name => name_char(c),
        CharClass::Raw => !raw_stop(c),
        CharClass::Quoted => c != '\'',
    }
}

/// The end of the run of characters of class `k` that starts at `i`.
pub(crate) fn run_end(chars: &Vec<char>, i: usize, k: CharClass) -> (end: usize)
    requires
        i <= chars.len(),
    ensures
        end == i + run_len(chars@, i as int, k),
        i <= end <= chars.len(),
{
    let mut end: usize = i;
    while end < chars.len() && class_has(k, chars[end])
        invariant
            i <= end <= chars.len(),
            i + run_len(chars@, i as int, k) == end + run_len(chars@, end as int, k),
        decreases chars.len() - end,
    {
        end += 1;
    }
    end
}

/// The first position from `i` on that holds no white space.
fn skip_spaces(chars: &Vec<char>, i: usize) -> (end: usize)
    requires
        i <= chars.len(),
    ensures
        end == after_spaces(chars@, i as int),
        i <= end <= chars.len(),
{
    run_end(chars, i, CharClass::Space)
}

/// Tells whether the character `c` stands at `i`.
fn char_is(chars: &Vec<char>, i: usize, c: char) -> (yes: bool)
    ensures
        yes == has_char(chars@, i as int, c),
{
    i < chars.len() && chars[i] == c
}

/// Tells whether the text `word` stands from `i` on.
fn text_is(chars: &Vec<char>, i: usize, word: &str) -> (yes: bool)
    requires
        i <= chars.len(),
    ensures
        yes == has_text(chars@, i as int, word@),
{
    let n = word.unicode_len();
    if n > chars.len() - i {
        return false;
    }
    let mut j: usize = 0;
    while j < n
        invariant
            j <= n == word@.len(),
            i + n <= chars.len(),
            chars@.subrange(i as int, i + j) == word@.subrange(0, j as int),
        decreases n - j,
    {
        if chars[i + j] != word.get_char(j) {
            assert(chars@.subrange(i as int, i + n)[j as int] != word@[j as int]);
            return false;
        }
        assert(chars@.subrange(i as int, i + j + 1) =~= chars@.subrange(i as int, i + j).push(
            chars@[i + j],
        ));
        assert(word@.subrange(0, j + 1) =~= word@.subrange(0, j as int).push(word@[j as int]));
        j += 1;
    }
    assert(word@.subrange(0, n as int) =~= word@);
    true
}

/// The fragment without parts from `i` up to `end`.
fn leaf(rule: Rule, chars: &Vec<char>, i: usize, end: usize) -> (p: Pair)
    requires
        i <= end <= chars.len(),
    ensures
        p@ == node(rule, chars@, i as int, end as int, Seq::empty()),
        p.span.start == i,
        p.span.end == end,
{
    let inner: Vec<Pair> = Vec::new();
    assert(view_pairs(inner@) =~= Seq::empty());
    make_pair(rule, chars, i, end, inner)
}

/// The fragment from `i` up to `end` with the parts `inner`.
fn branch(rule: Rule, chars: &Vec<char>, i: usize, end: usize, inner: Vec<Pair>) -> (p: Pair)
    requires
        i <= end <= chars.len(),
    ensures
        p@ == node(rule, chars@, i as int, end as int, view_pairs(inner@)),
        p.span.start == i,
        p.span.end == end,
{
    make_pair(rule, chars, i, end, inner)
}

/// A list of none or one fragment.
fn list_of(part: Option<Pair>) -> (list: Vec<Pair>)
    ensures
        view_pairs(list@) == items_of(view_opt_pair(part)),
{
    let mut list: Vec<Pair> = Vec::new();
    assert(view_pairs(list@) =~= Seq::empty());
    match part {
        Some(p) => {
            push_pair(&mut list, p);
            assert(view_pairs(list@) =~= seq![p@]);
        },
        None => {},
    }
    list
}

/// Adds an optional fragment at the end of a list.
fn push_optional(list: &mut Vec<Pair>, part: Option<Pair>)
    ensures
        view_pairs(final(list)@) == view_pairs(old(list)@) + items_of(view_opt_pair(part)),
{
    match part {
        Some(p) => {
            push_pair(list, p);
            assert(view_pairs(list@) =~= view_pairs(old(list)@) + seq![p@]);
        },
        None => {
            assert(view_pairs(list@) =~= view_pairs(old(list)@) + Seq::empty());
        },
    }
}

/// The fixed text `text` at `i`.
fn word(rule: Rule, chars: &Vec<char>, i: usize, text: &str) -> (found: Option<Pair>)
    requires
        i <= chars.len(),
        text@.len() > 0,
    ensures
        found_at(found, word_at(rule, chars@, i as int, text@), chars@, i as int),
{
    if text_is(chars, i, text) {
        Some(leaf(rule, chars, i, i + text.unicode_len()))
    } else {
        None
    }
}

/// The fixed text `text` at `i` with white space behind it.
fn marker(rule: Rule, chars: &Vec<char>, i: usize, text: &str) -> (found: Option<Pair>)
    requires
        i <= chars.len(),
        text@.len() > 0,
    ensures
        found_at(found, marker_at(rule, chars@, i as int, text@), chars@, i as int),
{
    if text_is(chars, i, text) {
        let end = i + text.unicode_len();
        if skip_spaces(chars, end) > end {
            return Some(leaf(rule, chars, i, end));
        }
    }
    None
}

/// The position after an optional fragment and the white space behind it.
fn skip_optional(chars: &Vec<char>, part: &Option<Pair>, i: usize) -> (end: usize)
    requires
        i <= chars.len(),
        part matches Some(p) ==> i <= p.span.end <= chars.len(),
    ensures
        end == after_optional(chars@, view_opt_pair(*part), i as int),
        i <= end <= chars.len(),
{
    match part {
        Some(p) => skip_spaces(chars, p.span.end),
        None => i,
    }
}

/// A name at `i`, tagged `rule`.
fn name(rule: Rule, chars: &Vec<char>, i: usize) -> (found: Option<Pair>)
    requires
        i <= chars.len(),
    ensures
        found_at(found, name_at(rule, chars@, i as int), chars@, i as int),
{
    if i < chars.len() && name_start(chars[i]) {
        let end = run_end(chars, i + 1, CharClass::Name);
        Some(leaf(rule, chars, i, end))
    } else {
        None
    }
}

/// Finds an identifier at `i`.
fn identifier(chars: &Vec<char>, i: usize) -> (found: Option<Pair>)
    requires
        i <= chars.len(),
    ensures
        found_at(found, identifier_at(chars@, i as int), chars@, i as int),
{
    name(Rule::identifier, chars, i)
}

/// The position behind an optional minus sign at `i`.
fn skip_sign(chars: &Vec<char>, i: usize) -> (end: usize)
    requires
        i <= chars.len(),
    ensures
        end == i + crate::syntax::sign_len(chars@, i as int),
        i <= end <= chars.len(),
{
    if char_is(chars, i, '-') {
        i + 1
    } else {
        i
    }
}

/// Finds an integer at `i`.
fn integer(chars: &Vec<char>, i: usize) -> (found: Option<Pair>)
    requires
        i <= chars.len(),
    ensures
        found_at(found, integer_at(chars@, i as int), chars@, i as int),
{
    let first = skip_sign(chars, i);
    let end = run_end(chars, first, CharClass::Digit);
    if end > first {
        Some(leaf(Rule::integer, chars, i, end))
    } else {
        None
    }
}

/// Finds a number with a fraction at `i`.
pub(crate) fn float(chars: &Vec<char>, i: usize) -> (found: Option<Pair>)
    requires
        i <= chars.len(),
    ensures
        found_at(found, float_at(chars@, i as int), chars@, i as int),
{
    let first = skip_sign(chars, i);
    let point = run_end(chars, first, CharClass::Digit);
    if point > first && char_is(chars, point, '.') {
        let end = run_end(chars, point + 1, CharClass::Digit);
        if end > point + 1 {
            return Some(leaf(Rule::float, chars, i, end));
        }
    }
    None
}

/// Finds `true` or `false` at `i`.
fn boolean(chars: &Vec<char>, i: usize) -> (found: Option<Pair>)
    requires
        i <= chars.len(),
    ensures
        found_at(found, bool_at(chars@, i as int), chars@, i as int),
{
    proof {
        reveal_strlit("true");
        reveal_strlit("false");
    }
    let yes = word(Rule::bool, chars, i, "true");
    if yes.is_some() {
        yes
    } else {
        word(Rule::bool, chars, i, "false")
    }
}

/// Finds `nullptr` at `i`.
fn nullptr(chars: &Vec<char>, i: usize) -> (found: Option<Pair>)
    requires
        i <= chars.len(),
    ensures
        found_at(found, nullptr_at(chars@, i as int), chars@, i as int),
{
    proof {
        reveal_strlit("nullptr");
    }
    word(Rule::nullptr, chars, i, "nullptr")
}

/// The position behind the double quote that closes the string whose text
/// starts at `i`, if the string is closed.
fn string_end(chars: &Vec<char>, i: usize) -> (end: Option<usize>)
    requires
        i <= chars.len(),
    ensures
        match string_rest(chars@, i as int) {
            Some(n) => end == Some((i + n) as usize) && i + n <= chars.len(),
            None => end is None,
        },
{
    let mut j: usize = i;
    proof {
        lemma_string_within(chars@, i as int);
    }
    loop
        invariant
            i <= j <= chars.len(),
            match string_rest(chars@, j as int) {
                Some(n) => string_rest(chars@, i as int) == Some((n + (j - i)) as nat),
                None => string_rest(chars@, i as int) is None,
            },
            string_rest(chars@, j as int) matches Some(n) ==> j + n <= chars.len(),
        decreases chars.len() - j,
    {
        if j >= chars.len() {
            return None;
        }
        let c = chars[j];
        if c == '"' {
            return Some(j + 1);
        }
        if c == '\\' {
            if j + 1 >= chars.len() {
                return None;
            }
            proof {
                lemma_string_within(chars@, j + 2);
            }
            j += 2;
        } else {
            proof {
                lemma_string_within(chars@, j + 1);
            }
            j += 1;
        }
    }
}

/// Finds a string at `i`.
fn string(chars: &Vec<char>, i: usize) -> (found: Option<Pair>)
    requires
        i <= chars.len(),
    ensures
        found_at(found, string_at(chars@, i as int), chars@, i as int),
{
    if char_is(chars, i, '"') {
        match string_end(chars, i + 1) {
            Some(end) => Some(leaf(Rule::string, chars, i, end)),
            None => None,
        }
    } else {
        None
    }
}

/// Finds what may stand between single quotes at `i`.
fn character(chars: &Vec<char>, i: usize) -> (found: Option<Pair>)
    requires
        i <= chars.len(),
    ensures
        found_at(found, char_at(chars@, i as int), chars@, i as int),
{
    let end = run_end(chars, i, CharClass::Quoted);
    if end > i {
        Some(leaf(Rule::char, chars, i, end))
    } else {
        None
    }
}

/// Finds a literal without single quotes at `i`.
fn plain_literal(chars: &Vec<char>, i: usize) -> (found: Option<Pair>)
    requires
        i <= chars.len(),
    ensures
        found_at(found, plain_literal_at(chars@, i as int), chars@, i as int),
{
    let found = boolean(chars, i);
    if found.is_some() {
        return found;
    }
    let found = nullptr(chars, i);
    if found.is_some() {
        return found;
    }
    let found = float(chars, i);
    if found.is_some() {
        return found;
    }
    let found = integer(chars, i);
    if found.is_some() {
        return found;
    }
    string(chars, i)
}

/// Finds a value at `i`.
fn value(chars: &Vec<char>, i: usize) -> (found: Option<Pair>)
    requires
        i <= chars.len(),
    ensures
        found_at(found, value_at(chars@, i as int), chars@, i as int),
{
    match plain_literal(chars, i) {
        Some(lit) => {
            let end = lit.span.end;
            let inner = list_of(Some(lit));
            Some(branch(Rule::value, chars, i, end, inner))
        },
        None => {
            if char_is(chars, i, '\'') {
                match character(chars, i + 1) {
                    Some(c) => {
                        let close = c.span.end;
                        if char_is(chars, close, '\'') {
                            let inner = list_of(Some(c));
                            Some(branch(Rule::value, chars, i, close + 1, inner))
                        } else {
                            None
                        }
                    },
                    None => None,
                }
            } else {
                None
            }
        },
    }
}

/// Finds the value behind an equals sign that follows `i`.
fn assigned(chars: &Vec<char>, i: usize) -> (found: Option<Pair>)
    requires
        i <= chars.len(),
    ensures
        view_opt_pair(found) == assigned_at(chars@, i as int),
        found matches Some(p) ==> i < p.span.end <= chars.len(),
{
    let sign = skip_spaces(chars, i);
    if char_is(chars, sign, '=') {
        let from = skip_spaces(chars, sign + 1);
        value(chars, from)
    } else {
        None
    }
}

/// Where an optional fragment ends, or `i` if it is absent.
fn end_of(part: &Option<Pair>, i: usize) -> (end: usize)
    ensures
        end == end_or(view_opt_pair(*part), i as int),
{
    match part {
        Some(p) => p.span.end,
        None => i,
    }
}

/// Finds a property at `i`.
fn property(chars: &Vec<char>, i: usize) -> (found: Option<Pair>)
    requires
        i <= chars.len(),
    ensures
        found_at(found, property_at(chars@, i as int), chars@, i as int),
{
    proof {
        reveal_strlit("meta");
    }
    let mark = marker(Rule::meta, chars, i, "meta");
    let from = skip_optional(chars, &mark, i);
    match identifier(chars, from) {
        Some(id) => {
            let value = assigned(chars, id.span.end);
            let end = end_of(&value, id.span.end);
            let ghost parts = items_of(view_opt_pair(mark)) + seq![id@] + items_of(
                view_opt_pair(value),
            );
            let mut inner = list_of(mark);
            push_pair(&mut inner, id);
            push_optional(&mut inner, value);
            assert(view_pairs(inner@) =~= parts);
            Some(branch(Rule::property, chars, i, end, inner))
        },
        None => None,
    }
}

/// Finds the properties of a list behind its first one.
fn more_properties_from(chars: &Vec<char>, i: usize) -> (found: Found)
    requires
        i <= chars.len(),
    ensures
        found_run(found, more_properties(chars@, i as int), chars@, i as int),
{
    let mut items: Vec<Pair> = Vec::new();
    let mut end: usize = i;
    assert(view_pairs(items@) =~= Seq::empty());
    loop
        invariant
            i <= end <= chars.len(),
            more_properties(chars@, i as int).items == view_pairs(items@) + more_properties(
                chars@,
                end as int,
            ).items,
            more_properties(chars@, i as int).end == more_properties(chars@, end as int).end,
        ensures
            more_properties(chars@, end as int) == nothing_at(end as int),
        decreases chars.len() - end,
    {
        let comma = skip_spaces(chars, end);
        if !char_is(chars, comma, ',') {
            break ;
        }
        let from = skip_spaces(chars, comma + 1);
        match property(chars, from) {
            Some(item) => {
                let ghost before = view_pairs(items@);
                let ghost rest = more_properties(chars@, item.span.end as int);
                end = item.span.end;
                assert(before + (seq![item@] + rest.items) =~= before.push(item@) + rest.items);
                push_pair(&mut items, item);
            },
            None => {
                break ;
            },
        }
    }
    assert(view_pairs(items@) + Seq::<PairView>::empty() =~= view_pairs(items@));
    Found { items, end }
}

/// Finds a property list at `i`.
fn properties(chars: &Vec<char>, i: usize) -> (found: Option<Pair>)
    requires
        i <= chars.len(),
    ensures
        found_at(found, properties_at(chars@, i as int), chars@, i as int),
{
    if !char_is(chars, i, '[') {
        return None;
    }
    let from = skip_spaces(chars, i + 1);
    match property(chars, from) {
        Some(first) => {
            let rest = more_properties_from(chars, first.span.end);
            let close = skip_spaces(chars, rest.end);
            if char_is(chars, close, ']') {
                let mut inner = list_of(Some(first));
                append_pairs(&mut inner, rest.items);
                Some(branch(Rule::properties, chars, i, close + 1, inner))
            } else {
                None
            }
        },
        None => None,
    }
}

/// The end of the stretch from `i` up to `end` without the white space at
/// its end.
pub(crate) fn trim_end(chars: &Vec<char>, i: usize, end: usize) -> (trimmed: usize)
    requires
        i <= end <= chars.len(),
    ensures
        trimmed == i + trimmed_len(chars@, i as int, (end - i) as nat),
        i <= trimmed <= end,
{
    let mut trimmed: usize = end;
    while trimmed > i && space(chars[trimmed - 1])
        invariant
            i <= trimmed <= end <= chars.len(),
            trimmed_len(chars@, i as int, (end - i) as nat) == trimmed_len(
                chars@,
                i as int,
                (trimmed - i) as nat,
            ),
        decreases trimmed - i,
    {
        trimmed -= 1;
    }
    trimmed
}

/// Finds a type with a name, kept as written, at `i`.
fn dont_care(chars: &Vec<char>, i: usize) -> (found: Option<Pair>)
    requires
        i <= chars.len(),
    ensures
        found_at(found, dont_care_at(chars@, i as int), chars@, i as int),
{
    let stop = run_end(chars, i, CharClass::Raw);
    let end = trim_end(chars, i, stop);
    if end > i {
        Some(leaf(Rule::dont_care_type_decl, chars, i, end))
    } else {
        None
    }
}

/// Finds an argument at `i`.
fn argument(chars: &Vec<char>, i: usize) -> (found: Option<Pair>)
    requires
        i <= chars.len(),
    ensures
        found_at(found, argument_at(chars@, i as int), chars@, i as int),
{
    let props = properties(chars, i);
    let from = skip_optional(chars, &props, i);
    match dont_care(chars, from) {
        Some(typed) => {
            let stop = run_end(chars, from, CharClass::Raw);
            let value = assigned(chars, stop);
            let end = end_of(&value, typed.span.end);
            let ghost parts = items_of(view_opt_pair(props)) + seq![typed@] + items_of(
                view_opt_pair(value),
            );
            let mut inner = list_of(props);
            push_pair(&mut inner, typed);
            push_optional(&mut inner, value);
            assert(view_pairs(inner@) =~= parts);
            Some(branch(Rule::argument, chars, i, end, inner))
        },
        None => None,
    }
}

/// Finds the arguments of a list behind its first one.
fn more_arguments_from(chars: &Vec<char>, i: usize) -> (found: Found)
    requires
        i <= chars.len(),
    ensures
        found_run(found, more_arguments(chars@, i as int), chars@, i as int),
{
    let mut items: Vec<Pair> = Vec::new();
    let mut end: usize = i;
    assert(view_pairs(items@) =~= Seq::empty());
    loop
        invariant
            i <= end <= chars.len(),
            more_arguments(chars@, i as int).items == view_pairs(items@) + more_arguments(
                chars@,
                end as int,
            ).items,
            more_arguments(chars@, i as int).end == more_arguments(chars@, end as int).end,
        ensures
            more_arguments(chars@, end as int) == nothing_at(end as int),
        decreases chars.len() - end,
    {
        let comma = skip_spaces(chars, end);
        if !char_is(chars, comma, ',') {
            break ;
        }
        let from = skip_spaces(chars, comma + 1);
        match argument(chars, from) {
            Some(item) => {
                let ghost before = view_pairs(items@);
                let ghost rest = more_arguments(chars@, item.span.end as int);
                end = item.span.end;
                assert(before + (seq![item@] + rest.items) =~= before.push(item@) + rest.items);
                push_pair(&mut items, item);
            },
            None => {
                break ;
            },
        }
    }
    assert(view_pairs(items@) + Seq::<PairView>::empty() =~= view_pairs(items@));
    Found { items, end }
}

/// Finds an argument list at `i`.
fn arguments(chars: &Vec<char>, i: usize) -> (found: Option<Pair>)
    requires
        i <= chars.len(),
    ensures
        found_at(found, arguments_at(chars@, i as int), chars@, i as int),
{
    match argument(chars, i) {
        Some(first) => {
            let rest = more_arguments_from(chars, first.span.end);
            let mut inner = list_of(Some(first));
            append_pairs(&mut inner, rest.items);
            Some(branch(Rule::arguments, chars, i, rest.end, inner))
        },
        None => None,
    }
}

/// Finds the identifiers of a list behind its first one.
fn more_identifiers_from(chars: &Vec<char>, i: usize) -> (found: Found)
    requires
        i <= chars.len(),
    ensures
        found_run(found, more_identifiers(chars@, i as int), chars@, i as int),
{
    let mut items: Vec<Pair> = Vec::new();
    let mut end: usize = i;
    assert(view_pairs(items@) =~= Seq::empty());
    loop
        invariant
            i <= end <= chars.len(),
            more_identifiers(chars@, i as int).items == view_pairs(items@) + more_identifiers(
                chars@,
                end as int,
            ).items,
            more_identifiers(chars@, i as int).end == more_identifiers(chars@, end as int).end,
        ensures
            more_identifiers(chars@, end as int) == nothing_at(end as int),
        decreases chars.len() - end,
    {
        let comma = skip_spaces(chars, end);
        if !char_is(chars, comma, ',') {
            break ;
        }
        let from = skip_spaces(chars, comma + 1);
        match identifier(chars, from) {
            Some(item) => {
                let ghost before = view_pairs(items@);
                let ghost rest = more_identifiers(chars@, item.span.end as int);
                end = item.span.end;
                assert(before + (seq![item@] + rest.items) =~= before.push(item@) + rest.items);
                push_pair(&mut items, item);
            },
            None => {
                break ;
            },
        }
    }
    assert(view_pairs(items@) + Seq::<PairView>::empty() =~= view_pairs(items@));
    Found { items, end }
}

/// Finds a list of bases at `i`.
fn inheritance(chars: &Vec<char>, i: usize) -> (found: Option<Pair>)
    requires
        i <= chars.len(),
    ensures
        found_at(found, inheritance_at(chars@, i as int), chars@, i as int),
{
    match identifier(chars, i) {
        Some(first) => {
            let rest = more_identifiers_from(chars, first.span.end);
            let mut inner = list_of(Some(first));
            append_pairs(&mut inner, rest.items);
            Some(branch(Rule::inheritance, chars, i, rest.end, inner))
        },
        None => None,
    }
}

/// The type `t` with one wrapper of `rule` around it.
fn wrap(rule: Rule, chars: &Vec<char>, t: Pair, start: usize, end: usize) -> (p: Pair)
    requires
        start <= end <= chars.len(),
    ensures
        p@ == wrapped(rule, chars@, t@, start as int, end as int),
        p.span.start == start,
        p.span.end == end,
{
    let inner = list_of(Some(t));
    let wrapper = branch(rule, chars, start, end, inner);
    let outer = list_of(Some(wrapper));
    branch(Rule::type_decl, chars, start, end, outer)
}

/// The type `t` with the wrappers that are written behind it.
fn suffixed(chars: &Vec<char>, t: Pair) -> (p: Pair)
    requires
        t.span.start < t.span.end <= chars.len(),
    ensures
        p@ == with_suffixes(chars@, t@),
        p.span.start == t.span.start,
        t.span.end <= p.span.end <= chars.len(),
{
    let ghost first = t@;
    let start = t.span.start;
    let mut t = t;
    loop
        invariant
            t.span.start == start,
            start < t.span.end <= chars.len(),
            with_suffixes(chars@, first) == with_suffixes(chars@, t@),
            first.end <= t.span.end,
        ensures
            t.span.start == start,
            first.end <= t.span.end <= chars.len(),
            with_suffixes(chars@, first) == t@,
        decreases chars.len() - t.span.end,
    {
        let k = skip_spaces(chars, t.span.end);
        if char_is(chars, k, '*') && char_is(chars, k + 1, '*') {
            t = wrap(Rule::dbpointer_type, chars, t, start, k + 2);
        } else if char_is(chars, k, '*') {
            t = wrap(Rule::pointer_type, chars, t, start, k + 1);
        } else if char_is(chars, k, '&') {
            t = wrap(Rule::reference_type, chars, t, start, k + 1);
        } else if char_is(chars, k, '[') && char_is(chars, k + 1, ']') {
            t = wrap(Rule::array_type, chars, t, start, k + 2);
        } else {
            break ;
        }
    }
    t
}

/// Finds a matrix type at `i`.
fn matrix(chars: &Vec<char>, i: usize) -> (found: Option<Pair>)
    requires
        i <= chars.len(),
    ensures
        found_at(found, matrix_at(chars@, i as int), chars@, i as int),
    decreases chars.len() - i, 0int,
{
    proof {
        reveal_strlit("Matrix");
    }
    if !text_is(chars, i, "Matrix") {
        return None;
    }
    let open = skip_spaces(chars, i + "Matrix".unicode_len());
    if !char_is(chars, open, '<') {
        return None;
    }
    let from = skip_spaces(chars, open + 1);
    match type_decl(chars, from) {
        Some(inner) => {
            let close = skip_spaces(chars, inner.span.end);
            if char_is(chars, close, '>') {
                Some(wrap(Rule::matrix_type, chars, inner, i, close + 1))
            } else {
                None
            }
        },
        None => None,
    }
}

/// Finds a type at `i`.
fn type_decl(chars: &Vec<char>, i: usize) -> (found: Option<Pair>)
    requires
        i <= chars.len(),
    ensures
        found_at(found, type_decl_at(chars@, i as int), chars@, i as int),
    decreases chars.len() - i, 1int,
{
    match matrix(chars, i) {
        Some(m) => Some(suffixed(chars, m)),
        None => match identifier(chars, i) {
            Some(id) => {
                let end = id.span.end;
                let inner = list_of(Some(id));
                Some(suffixed(chars, branch(Rule::type_decl, chars, i, end, inner)))
            },
            None => None,
        },
    }
}

/// The parts of a field, in the order in which they are written.
fn field_parts(
    props: Option<Pair>,
    mark: Option<Pair>,
    typ: Pair,
    id: Pair,
    value: Option<Pair>,
) -> (inner: Vec<Pair>)
    ensures
        view_pairs(inner@) == items_of(view_opt_pair(props)) + items_of(view_opt_pair(mark))
            + seq![typ@, id@] + items_of(view_opt_pair(value)),
{
    let ghost parts = items_of(view_opt_pair(props)) + items_of(view_opt_pair(mark)) + seq![
        typ@,
        id@,
    ] + items_of(view_opt_pair(value));
    let mut inner = list_of(props);
    push_optional(&mut inner, mark);
    push_pair(&mut inner, typ);
    push_pair(&mut inner, id);
    push_optional(&mut inner, value);
    assert(view_pairs(inner@) =~= parts);
    inner
}

/// Finds a field at `i`.
fn field_decl(chars: &Vec<char>, i: usize) -> (found: Option<Pair>)
    requires
        i <= chars.len(),
    ensures
        found_at(found, field_decl_at(chars@, i as int), chars@, i as int),
{
    proof {
        reveal(field_decl_at);
        reveal_strlit("static");
    }
    let props = properties(chars, i);
    let from = skip_optional(chars, &props, i);
    let mark = marker(Rule::static_spec, chars, from, "static");
    let start = skip_optional(chars, &mark, from);
    match type_decl(chars, start) {
        Some(typ) => {
            let at = skip_spaces(chars, typ.span.end);
            match identifier(chars, at) {
                Some(id) => {
                    let value = assigned(chars, id.span.end);
                    let semicolon = skip_spaces(chars, end_of(&value, id.span.end));
                    if char_is(chars, semicolon, ';') {
                        let inner = field_parts(props, mark, typ, id, value);
                        Some(branch(Rule::field_decl, chars, i, semicolon + 1, inner))
                    } else {
                        None
                    }
                },
                None => None,
            }
        },
        None => None,
    }
}

/// Finds a method at `i`.
fn method_decl(chars: &Vec<char>, i: usize) -> (found: Option<Pair>)
    requires
        i <= chars.len(),
    ensures
        found_at(found, method_decl_at(chars@, i as int), chars@, i as int),
{
    proof {
        reveal(method_decl_at);
        reveal_strlit("static");
    }
    let props = properties(chars, i);
    let from = skip_optional(chars, &props, i);
    let mark = marker(Rule::static_spec, chars, from, "static");
    let start = skip_optional(chars, &mark, from);
    match dont_care(chars, start) {
        Some(typed) => {
            let open = run_end(chars, start, CharClass::Raw);
            if !char_is(chars, open, '(') {
                return None;
            }
            let first = skip_spaces(chars, open + 1);
            let args = arguments(chars, first);
            let close = skip_optional(chars, &args, first);
            if !char_is(chars, close, ')') {
                return None;
            }
            let semicolon = skip_spaces(chars, close + 1);
            if !char_is(chars, semicolon, ';') {
                return None;
            }
            let ghost parts = items_of(view_opt_pair(props)) + items_of(view_opt_pair(mark))
                + seq![typed@] + items_of(view_opt_pair(args));
            let mut inner = list_of(props);
            push_optional(&mut inner, mark);
            push_pair(&mut inner, typed);
            push_optional(&mut inner, args);
            assert(view_pairs(inner@) =~= parts);
            Some(branch(Rule::method_decl, chars, i, semicolon + 1, inner))
        },
        None => None,
    }
}

/// Finds a declaration at `i`.
fn declaration(chars: &Vec<char>, i: usize) -> (found: Option<Pair>)
    requires
        i <= chars.len(),
    ensures
        found_at(found, declaration_at(chars@, i as int), chars@, i as int),
    decreases chars.len() - i, 2int,
{
    let props = properties(chars, i);
    let from = skip_optional(chars, &props, i);
    let mut found = field_decl(chars, from);
    if found.is_none() {
        found = method_decl(chars, from);
    }
    if found.is_none() {
        found = block_decl(chars, from);
    }
    match found {
        Some(d) => {
            let end = d.span.end;
            let ghost parts = items_of(view_opt_pair(props)) + seq![d@];
            let mut inner = list_of(props);
            push_pair(&mut inner, d);
            assert(view_pairs(inner@) =~= parts);
            Some(branch(Rule::declaration, chars, i, end, inner))
        },
        None => None,
    }
}

/// Finds a block at `i`.
fn block_decl(chars: &Vec<char>, i: usize) -> (found: Option<Pair>)
    requires
        i <= chars.len(),
    ensures
        found_at(found, block_decl_at(chars@, i as int), chars@, i as int),
    decreases chars.len() - i, 1int,
{
    if !char_is(chars, i, '{') {
        return None;
    }
    let body = declarations(chars, i + 1);
    if char_is(chars, body.end, '}') {
        Some(branch(Rule::block_decl, chars, i, body.end + 1, body.items))
    } else {
        None
    }
}

/// Finds the declarations that follow one another from `i` on.
fn declarations(chars: &Vec<char>, i: usize) -> (found: Found)
    requires
        i <= chars.len(),
    ensures
        found_run(found, declarations_from(chars@, i as int), chars@, i as int),
    decreases chars.len() - i, 3int,
{
    let mut items: Vec<Pair> = Vec::new();
    let mut end: usize = i;
    assert(view_pairs(items@) =~= Seq::empty());
    loop
        invariant_except_break
            declarations_from(chars@, i as int).items == view_pairs(items@) + declarations_from(
                chars@,
                end as int,
            ).items,
            declarations_from(chars@, i as int).end == declarations_from(chars@, end as int).end,
        invariant
            i <= end <= chars.len(),
        ensures
            i <= end <= chars.len(),
            declarations_from(chars@, i as int).items == view_pairs(items@),
            declarations_from(chars@, i as int).end == end,
        decreases chars.len() - end,
    {
        let from = skip_spaces(chars, end);
        match declaration(chars, from) {
            Some(item) => {
                let ghost before = view_pairs(items@);
                let ghost rest = declarations_from(chars@, item.span.end as int);
                end = item.span.end;
                assert(before + (seq![item@] + rest.items) =~= before.push(item@) + rest.items);
                push_pair(&mut items, item);
            },
            None => {
                end = from;
                assert(view_pairs(items@) + Seq::<PairView>::empty() =~= view_pairs(items@));
                break ;
            },
        }
    }
    Found { items, end }
}

/// Finds a class at `i`.
fn class(chars: &Vec<char>, i: usize) -> (found: Option<Pair>)
    requires
        i <= chars.len(),
    ensures
        found_at(found, class_at(chars@, i as int), chars@, i as int),
{
    proof {
        reveal_strlit("class");
    }
    let props = properties(chars, i);
    let from = skip_optional(chars, &props, i);
    let word = marker(Rule::class, chars, from, "class");
    match word {
        Some(w) => {
            let at = skip_spaces(chars, w.span.end);
            match name(Rule::name, chars, at) {
                Some(named) => {
                    let colon = skip_spaces(chars, named.span.end);
                    let bases = if char_is(chars, colon, ':') {
                        inheritance(chars, skip_spaces(chars, colon + 1))
                    } else {
                        None
                    };
                    let open = skip_optional(chars, &bases, colon);
                    if !char_is(chars, open, '{') {
                        return None;
                    }
                    let body = declarations(chars, open + 1);
                    if !char_is(chars, body.end, '}') {
                        return None;
                    }
                    let ghost parts = items_of(view_opt_pair(props)) + seq![named@] + items_of(
                        view_opt_pair(bases),
                    ) + view_pairs(body.items@);
                    let mut inner = list_of(props);
                    push_pair(&mut inner, named);
                    push_optional(&mut inner, bases);
                    append_pairs(&mut inner, body.items);
                    assert(view_pairs(inner@) =~= parts);
                    Some(branch(Rule::class, chars, i, body.end + 1, inner))
                },
                None => None,
            }
        },
        None => None,
    }
}

/// Finds the classes that follow one another from `i` on.
fn classes(chars: &Vec<char>, i: usize) -> (found: Found)
    requires
        i <= chars.len(),
    ensures
        found_run(found, classes_from(chars@, i as int), chars@, i as int),
{
    let mut items: Vec<Pair> = Vec::new();
    let mut end: usize = i;
    assert(view_pairs(items@) =~= Seq::empty());
    loop
        invariant_except_break
            classes_from(chars@, i as int).items == view_pairs(items@) + classes_from(
                chars@,
                end as int,
            ).items,
            classes_from(chars@, i as int).end == classes_from(chars@, end as int).end,
        invariant
            i <= end <= chars.len(),
        ensures
            i <= end <= chars.len(),
            classes_from(chars@, i as int).items == view_pairs(items@),
            classes_from(chars@, i as int).end == end,
        decreases chars.len() - end,
    {
        let from = skip_spaces(chars, end);
        match class(chars, from) {
            Some(item) => {
                let ghost before = view_pairs(items@);
                let ghost rest = classes_from(chars@, item.span.end as int);
                end = item.span.end;
                assert(before + (seq![item@] + rest.items) =~= before.push(item@) + rest.items);
                push_pair(&mut items, item);
            },
            None => {
                end = from;
                assert(view_pairs(items@) + Seq::<PairView>::empty() =~= view_pairs(items@));
                break ;
            },
        }
    }
    Found { items, end }
}

/// Finds the tree of a whole text, or the position where its classes stop.
fn moho(chars: &Vec<char>) -> (found: Result<Pair, usize>)
    ensures
        match moho_at(chars@) {
            Some(t) => found matches Ok(p) && p@ == t,
            None => found matches Err(at) && at == stop_of(chars@) && at < chars.len(),
        },
{
    let all = classes(chars, 0);
    if all.end == chars.len() {
        Ok(branch(Rule::moho, chars, 0, chars.len(), all.items))
    } else {
        Err(all.end)
    }
}

/// The outermost wrapper of the type at `i`, if it is one of `rule`.
fn wrapper(rule: Rule, chars: &Vec<char>, i: usize) -> (found: Option<Pair>)
    requires
        i <= chars.len(),
    ensures
        view_opt_pair(found) == wrapper_at(rule, chars@, i as int),
{
    match type_decl(chars, i) {
        Some(t) => {
            proof {
                lemma_pair_view_inner(t);
            }
            let mut inner = t.inner;
            if inner.len() > 0 && inner[0].rule == rule {
                Some(inner.swap_remove(0))
            } else {
                None
            }
        },
        None => None,
    }
}

/// The fragment that `rule` matches at the start of the text.
fn rule_fragment(rule: Rule, chars: &Vec<char>) -> (found: Option<Pair>)
    requires
        rule != Rule::moho,
    ensures
        view_opt_pair(found) == rule_at(rule, chars@, 0),
{
    proof {
        reveal_strlit("meta");
        reveal_strlit("static");
    }
    match rule {
        Rule::moho => None,
        Rule::class => class(chars, 0),
        Rule::name => name(Rule::name, chars, 0),
        Rule::inheritance => inheritance(chars, 0),
        Rule::properties => properties(chars, 0),
        Rule::property => property(chars, 0),
        Rule::meta => word(Rule::meta, chars, 0, "meta"),
        Rule::value => value(chars, 0),
        Rule::bool => boolean(chars, 0),
        Rule::char => character(chars, 0),
        Rule::float => float(chars, 0),
        Rule::integer => integer(chars, 0),
        Rule::string => string(chars, 0),
        Rule::nullptr => nullptr(chars, 0),
        Rule::body => None,
        Rule::declaration => declaration(chars, 0),
        Rule::block_decl => block_decl(chars, 0),
        Rule::field_decl => field_decl(chars, 0),
        Rule::method_decl => method_decl(chars, 0),
        Rule::static_spec => word(Rule::static_spec, chars, 0, "static"),
        Rule::type_decl => type_decl(chars, 0),
        Rule::dbpointer_type => wrapper(rule, chars, 0),
        Rule::pointer_type => wrapper(rule, chars, 0),
        Rule::reference_type => wrapper(rule, chars, 0),
        Rule::array_type => wrapper(rule, chars, 0),
        Rule::matrix_type => wrapper(rule, chars, 0),
        Rule::identifier => identifier(chars, 0),
        Rule::dont_care_type_decl => dont_care(chars, 0),
        Rule::arguments => arguments(chars, 0),
        Rule::argument => argument(chars, 0),
    }
}

/// A position of the text by line and column, both counted from 1.
#[derive(Clone, Copy, Debug, PartialEq, Eq, Structural)]
pub struct LineColLocation {
    pub line: usize,
    pub column: usize,
}

/// The line and column of the position `at`.
pub(crate) fn line_col(chars: &Vec<char>, at: usize) -> (location: LineColLocation)
    requires
        at <= chars.len(),
        at < usize::MAX,
    ensures
        location.line == line_of(chars@, at as int),
        location.column == column_of(chars@, at as int),
{
    let mut line: usize = 1;
    let mut column: usize = 1;
    let mut i: usize = 0;
    while i < at
        invariant
            i <= at <= chars.len(),
            at < usize::MAX,
            line == line_of(chars@, i as int),
            column == column_of(chars@, i as int),
            1 <= line <= i + 1,
            1 <= column <= i + 1,
        decreases at - i,
    {
        if chars[i] == '\n' {
            line += 1;
            column = 1;
        } else {
            column += 1;
        }
        i += 1;
    }
    LineColLocation { line, column }
}

/// Why a text does not match a rule, and where.
#[derive(Debug, PartialEq)]
pub struct SyntaxError {
    pub message: String,
    pub location: LineColLocation,
}

/// The message of a failure of `rule`.
pub open spec fn failure_message(rule: Rule) -> Seq<char> {
    if rule == Rule::moho {
        "expected a class or the end of the text"@
    } else {
        "the text does not start with what the rule asks for"@
    }
}

/// The failure of `rule` on `s`, as `e` reports it.
pub open spec fn reports_failure(e: SyntaxError, rule: Rule, s: Seq<char>) -> bool {
    &&& e.message@ == failure_message(rule)
    &&& e.location.line == line_of(s, failure_of(rule, s))
    &&& e.location.column == column_of(s, failure_of(rule, s))
}

/// The grammar of the language.
#[derive(Debug)]
pub struct MohoGrammar;

impl MohoGrammar {
    /// Matches a whole text: classes with white space around them and
    /// nothing else. A failure is reported where the classes stop.
    pub fn parse_text(input: &str) -> (result: Result<Pair, SyntaxError>)
        ensures
            match moho_at(input@) {
                Some(tree) => result matches Ok(found) && found@ == tree,
                None => result matches Err(e) && reports_failure(e, Rule::moho, input@),
            },
    {
        let chars = chars_of(input);
        match moho(&chars) {
            Ok(p) => Ok(p),
            Err(at) => Err(
                SyntaxError {
                    message: String::from_str("expected a class or the end of the text"),
                    location: line_col(&chars, at),
                },
            ),
        }
    }

    /// Matches `rule` at the start of `input`. The result holds the fragment
    /// that the rule matched, and for `body` its declarations. Only the rule
    /// for a whole text fails on text that is left over.
    pub fn parse(rule: Rule, input: &str) -> (result: Result<Vec<Pair>, SyntaxError>)
        ensures
            match parsed(rule, input@) {
                Some(pairs) => result matches Ok(found) && view_pairs(found@) == pairs,
                None => result matches Err(e) && reports_failure(e, rule, input@),
            },
    {
        let chars = chars_of(input);
        if rule == Rule::body {
            return Ok(declarations(&chars, 0).items);
        }
        if rule == Rule::moho {
            return match Self::parse_text(input) {
                Ok(p) => Ok(list_of(Some(p))),
                Err(e) => Err(e),
            };
        }
        match rule_fragment(rule, &chars) {
            Some(p) => Ok(list_of(Some(p))),
            None => Err(
                SyntaxError {
                    message: String::from_str(
                        "the text does not start with what the rule asks for",
                    ),
                    location: line_col(&chars, 0),
                },
            ),
        }
    }
}

} // verus!
