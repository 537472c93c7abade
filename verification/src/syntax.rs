//! The grammar, stated as functions from a text and a position to the
//! fragment that a rule matches at that position.
//!
//! A rule matches in one way or not at all: alternatives are tried in order
//! and the first that matches is taken, a repetition takes as many items as
//! match, and an optional part is present whenever it matches.

use vstd::prelude::*;
use crate::text::{is_digit, is_name_char, is_name_start, is_space};
use crate::tree::{node, PairView, Rule};

verus! {

/// The character classes that the grammar scans runs of.
#[derive(Clone, Copy, Debug, PartialEq, Eq, Structural)]
pub enum CharClass {
    /// White space.
    Space,
    /// Decimal digits.
    Digit,
    /// Letters, digits and the underscore.
    Name,
    /// What may stand in a type that is kept as written: anything but
    /// brackets of any kind, comma, semicolon, equals sign and quotes.
    Raw,
    /// What may stand between single quotes: anything but a single quote.
    Quoted,
}

/// A character that ends a stretch of raw text.
pub open spec fn is_raw_stop(c: char) -> bool {
    c == '(' || c == ')' || c == '[' || c == ']' || c == '{' || c == '}' || c == ',' || c == ';'
        || c == '=' || c == '"' || c == '\''
}

/// `c` belongs to the class `k`.
pub open spec fn in_class(k: CharClass, c: char) -> bool {
    match k {
        CharClass::Space => is_space(c),
        CharClass::Digit => is_digit(c),
        CharClass::Name => is_name_char(c),
        CharClass::Raw => !is_raw_stop(c),
        CharClass::Quoted => c != '\'',
    }
}

/// How many characters of class `k` stand in a row in `s` from `i` on.
pub open spec fn run_len(s: Seq<char>, i: int, k: CharClass) -> nat
    decreases s.len() - i,
{
    if 0 <= i < s.len() && in_class(k, s[i]) {
        1 + run_len(s, i + 1, k)
    } else {
        0
    }
}

/// The first position from `i` on that holds no white space.
pub open spec fn after_spaces(s: Seq<char>, i: int) -> int {
    i + run_len(s, i, CharClass::Space)
}

/// `s` holds the character `c` at `i`.
pub open spec fn has_char(s: Seq<char>, i: int, c: char) -> bool {
    0 <= i < s.len() && s[i] == c
}

/// `s` holds the text `word` from `i` on.
pub open spec fn has_text(s: Seq<char>, i: int, word: Seq<char>) -> bool {
    0 <= i && i + word.len() <= s.len() && s.subrange(i, i + word.len()) == word
}

/// A run of fragments and the position where it ends.
pub struct Many {
    pub items: Seq<PairView>,
    pub end: int,
}

/// An empty run at `i`.
pub open spec fn nothing_at(i: int) -> Many {
    Many { items: Seq::empty(), end: i }
}

/// `first` followed by the run `rest`.
pub open spec fn followed_by(first: PairView, rest: Many) -> Many {
    Many { items: seq![first] + rest.items, end: rest.end }
}

/// The fragment `t` ends after `i`, within the text. A list goes on only
/// behind an item that does; every item that the grammar finds does.
pub open spec fn advances(s: Seq<char>, i: int, t: PairView) -> bool {
    i < t.end <= s.len()
}

/// An optional fragment as a list of none or one.
pub open spec fn items_of(t: Option<PairView>) -> Seq<PairView> {
    match t {
        Some(x) => seq![x],
        None => Seq::empty(),
    }
}

/// Where an optional fragment ends, or `i` if it is absent.
pub open spec fn end_or(t: Option<PairView>, i: int) -> int {
    match t {
        Some(x) => x.end,
        None => i,
    }
}

/// The position after an optional fragment and the white space behind it, or
/// `i` if the fragment is absent.
pub open spec fn after_optional(s: Seq<char>, t: Option<PairView>, i: int) -> int {
    match t {
        Some(x) => after_spaces(s, x.end),
        None => i,
    }
}

/// `a` if it matched, else `b`.
pub open spec fn either(a: Option<PairView>, b: Option<PairView>) -> Option<PairView> {
    if a is Some {
        a
    } else {
        b
    }
}

/// The fixed text `word` at `i`, as a fragment of `rule`.
pub open spec fn word_at(rule: Rule, s: Seq<char>, i: int, word: Seq<char>) -> Option<PairView> {
    if has_text(s, i, word) {
        Some(node(rule, s, i, i + word.len(), Seq::empty()))
    } else {
        None
    }
}

/// A marker: the fixed text `word` at `i` with white space behind it.
pub open spec fn marker_at(rule: Rule, s: Seq<char>, i: int, word: Seq<char>) -> Option<PairView> {
    if has_text(s, i, word) && run_len(s, i + word.len(), CharClass::Space) > 0 {
        Some(node(rule, s, i, i + word.len(), Seq::empty()))
    } else {
        None
    }
}

/// A name: a letter or underscore, then letters, digits and underscores. It
/// is tagged `rule`.
pub open spec fn name_at(rule: Rule, s: Seq<char>, i: int) -> Option<PairView> {
    if 0 <= i < s.len() && is_name_start(s[i]) {
        Some(node(rule, s, i, i + 1 + run_len(s, i + 1, CharClass::Name), Seq::empty()))
    } else {
        None
    }
}

/// `identifier`.
pub open spec fn identifier_at(s: Seq<char>, i: int) -> Option<PairView> {
    name_at(Rule::identifier, s, i)
}

/// 1 if a minus sign stands at `i`, else 0.
pub open spec fn sign_len(s: Seq<char>, i: int) -> int {
    if has_char(s, i, '-') {
        1
    } else {
        0
    }
}

/// `integer`: an optional minus sign and digits.
pub open spec fn integer_at(s: Seq<char>, i: int) -> Option<PairView> {
    let first = i + sign_len(s, i);
    let digits = run_len(s, first, CharClass::Digit);
    if digits > 0 {
        Some(node(Rule::integer, s, i, first + digits, Seq::empty()))
    } else {
        None
    }
}

/// `float`: an optional minus sign, digits, a point and digits.
pub open spec fn float_at(s: Seq<char>, i: int) -> Option<PairView> {
    let first = i + sign_len(s, i);
    let whole = run_len(s, first, CharClass::Digit);
    let point = first + whole;
    let fraction = run_len(s, point + 1, CharClass::Digit);
    if whole > 0 && has_char(s, point, '.') && fraction > 0 {
        Some(node(Rule::float, s, i, point + 1 + fraction, Seq::empty()))
    } else {
        None
    }
}

/// `bool`: `true` or `false`.
pub open spec fn bool_at(s: Seq<char>, i: int) -> Option<PairView> {
    either(word_at(Rule::bool, s, i, "true"@), word_at(Rule::bool, s, i, "false"@))
}

/// `nullptr`.
pub open spec fn nullptr_at(s: Seq<char>, i: int) -> Option<PairView> {
    word_at(Rule::nullptr, s, i, "nullptr"@)
}

/// The number of characters from `i` up to the double quote that closes a
/// string, that quote included. A backslash takes the character behind it
/// along, whatever it is.
pub open spec fn string_rest(s: Seq<char>, i: int) -> Option<nat>
    decreases s.len() - i,
{
    if !(0 <= i < s.len()) {
        None
    } else if s[i] == '"' {
        Some(1)
    } else if s[i] == '\\' {
        if i + 1 < s.len() {
            match string_rest(s, i + 2) {
                Some(n) => Some(n + 2),
                None => None,
            }
        } else {
            None
        }
    } else {
        match string_rest(s, i + 1) {
            Some(n) => Some(n + 1),
            None => None,
        }
    }
}

/// A closed string is closed in the text.
pub proof fn lemma_string_within(s: Seq<char>, i: int)
    requires
        0 <= i <= s.len(),
    ensures
        string_rest(s, i) matches Some(n) ==> i + n <= s.len(),
    decreases s.len() - i,
{
    if i < s.len() && s[i] != '"' {
        if s[i] == '\\' {
            if i + 1 < s.len() {
                lemma_string_within(s, i + 2);
            }
        } else {
            lemma_string_within(s, i + 1);
        }
    }
}

/// `string`: text between double quotes, the quotes included.
pub open spec fn string_at(s: Seq<char>, i: int) -> Option<PairView> {
    if has_char(s, i, '"') {
        match string_rest(s, i + 1) {
            Some(n) => Some(node(Rule::string, s, i, i + 1 + n, Seq::empty())),
            None => None,
        }
    } else {
        None
    }
}

/// `char`: what stands between single quotes, at least one character.
pub open spec fn char_at(s: Seq<char>, i: int) -> Option<PairView> {
    let n = run_len(s, i, CharClass::Quoted);
    if n > 0 {
        Some(node(Rule::char, s, i, i + n, Seq::empty()))
    } else {
        None
    }
}

/// A literal that is written without quotes around it, or a string.
pub open spec fn plain_literal_at(s: Seq<char>, i: int) -> Option<PairView> {
    either(
        bool_at(s, i),
        either(nullptr_at(s, i), either(float_at(s, i), either(integer_at(s, i), string_at(s, i)))),
    )
}

/// `value`: a literal. A `char` stands between single quotes, which belong to
/// the value and not to the `char`.
pub open spec fn value_at(s: Seq<char>, i: int) -> Option<PairView> {
    match plain_literal_at(s, i) {
        Some(lit) => Some(node(Rule::value, s, i, lit.end, seq![lit])),
        None => {
            if has_char(s, i, '\'') {
                match char_at(s, i + 1) {
                    Some(c) => {
                        if has_char(s, c.end, '\'') {
                            Some(node(Rule::value, s, i, c.end + 1, seq![c]))
                        } else {
                            None
                        }
                    },
                    None => None,
                }
            } else {
                None
            }
        },
    }
}

/// The value behind an equals sign that follows `i`, white space allowed
/// around the sign.
pub open spec fn assigned_at(s: Seq<char>, i: int) -> Option<PairView> {
    let sign = after_spaces(s, i);
    if has_char(s, sign, '=') {
        value_at(s, after_spaces(s, sign + 1))
    } else {
        None
    }
}

/// `property`: an optional `meta` marker, a name and an optional value.
pub open spec fn property_at(s: Seq<char>, i: int) -> Option<PairView> {
    let marker = marker_at(Rule::meta, s, i, "meta"@);
    match identifier_at(s, after_optional(s, marker, i)) {
        Some(id) => {
            let value = assigned_at(s, id.end);
            Some(
                node(
                    Rule::property,
                    s,
                    i,
                    end_or(value, id.end),
                    items_of(marker) + seq![id] + items_of(value),
                ),
            )
        },
        None => None,
    }
}

/// The length of the stretch of `n` characters from `i` without the white
/// space at its end.
pub open spec fn trimmed_len(s: Seq<char>, i: int, n: nat) -> nat
    decreases n,
{
    if n > 0 && 0 <= i + n - 1 < s.len() && is_space(s[i + n - 1]) {
        trimmed_len(s, i, (n - 1) as nat)
    } else {
        n
    }
}

/// `dont_care_type_decl`: a type and a name kept as written, that is raw text
/// up to the next character that ends it, without the white space at its end.
pub open spec fn dont_care_at(s: Seq<char>, i: int) -> Option<PairView> {
    let n = trimmed_len(s, i, run_len(s, i, CharClass::Raw));
    if n > 0 {
        Some(node(Rule::dont_care_type_decl, s, i, i + n, Seq::empty()))
    } else {
        None
    }
}

/// The properties of a list behind its first one: as long as a comma and a
/// property follow, the property is taken.
pub open spec fn more_properties(s: Seq<char>, i: int) -> Many
    decreases s.len() - i,
{
    let comma = after_spaces(s, i);
    if has_char(s, comma, ',') {
        match property_at(s, after_spaces(s, comma + 1)) {
            Some(item) => {
                if advances(s, i, item) {
                    followed_by(item, more_properties(s, item.end))
                } else {
                    nothing_at(i)
                }
            },
            None => nothing_at(i),
        }
    } else {
        nothing_at(i)
    }
}

/// `properties`: one or more properties between square brackets, separated
/// by commas.
pub open spec fn properties_at(s: Seq<char>, i: int) -> Option<PairView> {
    if has_char(s, i, '[') {
        match property_at(s, after_spaces(s, i + 1)) {
            Some(first) => {
                let rest = more_properties(s, first.end);
                let close = after_spaces(s, rest.end);
                if has_char(s, close, ']') {
                    Some(node(Rule::properties, s, i, close + 1, seq![first] + rest.items))
                } else {
                    None
                }
            },
            None => None,
        }
    } else {
        None
    }
}

/// `argument`: optional properties, a type with a name kept as written, and
/// an optional value.
pub open spec fn argument_at(s: Seq<char>, i: int) -> Option<PairView> {
    let props = properties_at(s, i);
    let from = after_optional(s, props, i);
    match dont_care_at(s, from) {
        Some(typed) => {
            let value = assigned_at(s, from + run_len(s, from, CharClass::Raw));
            Some(
                node(
                    Rule::argument,
                    s,
                    i,
                    end_or(value, typed.end),
                    items_of(props) + seq![typed] + items_of(value),
                ),
            )
        },
        None => None,
    }
}

/// The arguments of a list behind its first one: as long as a comma and an
/// argument follow, the argument is taken.
pub open spec fn more_arguments(s: Seq<char>, i: int) -> Many
    decreases s.len() - i,
{
    let comma = after_spaces(s, i);
    if has_char(s, comma, ',') {
        match argument_at(s, after_spaces(s, comma + 1)) {
            Some(item) => {
                if advances(s, i, item) {
                    followed_by(item, more_arguments(s, item.end))
                } else {
                    nothing_at(i)
                }
            },
            None => nothing_at(i),
        }
    } else {
        nothing_at(i)
    }
}

/// The identifiers of a list behind its first one: as long as a comma and an
/// identifier follow, the identifier is taken.
pub open spec fn more_identifiers(s: Seq<char>, i: int) -> Many
    decreases s.len() - i,
{
    let comma = after_spaces(s, i);
    if has_char(s, comma, ',') {
        match identifier_at(s, after_spaces(s, comma + 1)) {
            Some(item) => {
                if advances(s, i, item) {
                    followed_by(item, more_identifiers(s, item.end))
                } else {
                    nothing_at(i)
                }
            },
            None => nothing_at(i),
        }
    } else {
        nothing_at(i)
    }
}

/// `arguments`: one or more arguments, separated by commas.
pub open spec fn arguments_at(s: Seq<char>, i: int) -> Option<PairView> {
    match argument_at(s, i) {
        Some(first) => {
            let rest = more_arguments(s, first.end);
            Some(node(Rule::arguments, s, i, rest.end, seq![first] + rest.items))
        },
        None => None,
    }
}

/// `inheritance`: one or more identifiers, separated by commas.
pub open spec fn inheritance_at(s: Seq<char>, i: int) -> Option<PairView> {
    match identifier_at(s, i) {
        Some(first) => {
            let rest = more_identifiers(s, first.end);
            Some(node(Rule::inheritance, s, i, rest.end, seq![first] + rest.items))
        },
        None => None,
    }
}

/// The type `t` with one wrapper of `rule` around it, from `start` up to
/// `end`.
pub open spec fn wrapped(rule: Rule, s: Seq<char>, t: PairView, start: int, end: int) -> PairView {
    node(Rule::type_decl, s, start, end, seq![node(rule, s, start, end, seq![t])])
}

/// The type `t` with all the wrappers that are written behind it: `**`, `*`,
/// `&` and `[]`, each around what stands before it.
pub open spec fn with_suffixes(s: Seq<char>, t: PairView) -> PairView
    decreases s.len() - t.end,
{
    let k = after_spaces(s, t.end);
    if has_char(s, k, '*') && has_char(s, k + 1, '*') {
        with_suffixes(s, wrapped(Rule::dbpointer_type, s, t, t.start, k + 2))
    } else if has_char(s, k, '*') {
        with_suffixes(s, wrapped(Rule::pointer_type, s, t, t.start, k + 1))
    } else if has_char(s, k, '&') {
        with_suffixes(s, wrapped(Rule::reference_type, s, t, t.start, k + 1))
    } else if has_char(s, k, '[') && has_char(s, k + 1, ']') {
        with_suffixes(s, wrapped(Rule::array_type, s, t, t.start, k + 2))
    } else {
        t
    }
}

/// A run of characters ends in the text.
pub proof fn lemma_run_within(s: Seq<char>, i: int, k: CharClass)
    requires
        0 <= i <= s.len(),
    ensures
        i + run_len(s, i, k) <= s.len(),
    decreases s.len() - i,
{
    if i < s.len() && in_class(k, s[i]) {
        lemma_run_within(s, i + 1, k);
    }
}

/// The type that a `Matrix<` opens at `i`, if one is written there in full.
pub open spec fn matrix_at(s: Seq<char>, i: int) -> Option<PairView>
    decreases s.len() - i, 0int,
{
    let open = after_spaces(s, i + "Matrix"@.len());
    if has_text(s, i, "Matrix"@) && has_char(s, open, '<') {
        let from = after_spaces(s, open + 1);
        proof {
            lemma_run_within(s, open + 1, CharClass::Space);
        }
        match type_decl_at(s, from) {
            Some(inner) => {
                let close = after_spaces(s, inner.end);
                if has_char(s, close, '>') {
                    Some(wrapped(Rule::matrix_type, s, inner, i, close + 1))
                } else {
                    None
                }
            },
            None => None,
        }
    } else {
        None
    }
}

/// `type_decl`: a matrix or a name, with the wrappers written behind it.
pub open spec fn type_decl_at(s: Seq<char>, i: int) -> Option<PairView>
    decreases s.len() - i, 1int,
{
    match matrix_at(s, i) {
        Some(m) => Some(with_suffixes(s, m)),
        None => match identifier_at(s, i) {
            Some(id) => Some(
                with_suffixes(s, node(Rule::type_decl, s, i, id.end, seq![id])),
            ),
            None => None,
        },
    }
}

/// The properties behind the first end at or after `i`.
pub proof fn lemma_more_properties_end(s: Seq<char>, i: int)
    ensures
        i <= more_properties(s, i).end,
    decreases s.len() - i,
{
    let comma = after_spaces(s, i);
    if has_char(s, comma, ',') {
        match property_at(s, after_spaces(s, comma + 1)) {
            Some(item) => {
                if advances(s, i, item) {
                    lemma_more_properties_end(s, item.end);
                }
            },
            None => {},
        }
    }
}

/// A property list ends in the text, after the position where it starts.
pub proof fn lemma_properties_within(s: Seq<char>, i: int)
    ensures
        properties_at(s, i) matches Some(p) ==> i < p.end <= s.len(),
{
    if has_char(s, i, '[') {
        match property_at(s, after_spaces(s, i + 1)) {
            Some(first) => {
                lemma_more_properties_end(s, first.end);
            },
            None => {},
        }
    }
}

/// `field_decl`: optional properties, an optional `static` marker, a type, a
/// name, an optional value and a semicolon.
#[verifier::opaque]
pub open spec fn field_decl_at(s: Seq<char>, i: int) -> Option<PairView> {
    let props = properties_at(s, i);
    let from = after_optional(s, props, i);
    let marker = marker_at(Rule::static_spec, s, from, "static"@);
    match type_decl_at(s, after_optional(s, marker, from)) {
        Some(typ) => match identifier_at(s, after_spaces(s, typ.end)) {
            Some(id) => {
                let value = assigned_at(s, id.end);
                let semicolon = after_spaces(s, end_or(value, id.end));
                if has_char(s, semicolon, ';') {
                    Some(
                        node(
                            Rule::field_decl,
                            s,
                            i,
                            semicolon + 1,
                            items_of(props) + items_of(marker) + seq![typ, id] + items_of(value),
                        ),
                    )
                } else {
                    None
                }
            },
            None => None,
        },
        None => None,
    }
}

/// `method_decl`: optional properties, an optional `static` marker, a return
/// type with a name kept as written, the arguments in round brackets, if any,
/// and a semicolon.
#[verifier::opaque]
pub open spec fn method_decl_at(s: Seq<char>, i: int) -> Option<PairView> {
    let props = properties_at(s, i);
    let from = after_optional(s, props, i);
    let marker = marker_at(Rule::static_spec, s, from, "static"@);
    let start = after_optional(s, marker, from);
    match dont_care_at(s, start) {
        Some(typed) => {
            let open = start + run_len(s, start, CharClass::Raw);
            let first = after_spaces(s, open + 1);
            let args = arguments_at(s, first);
            let close = after_optional(s, args, first);
            let semicolon = after_spaces(s, close + 1);
            if has_char(s, open, '(') && has_char(s, close, ')') && has_char(s, semicolon, ';') {
                Some(
                    node(
                        Rule::method_decl,
                        s,
                        i,
                        semicolon + 1,
                        items_of(props) + items_of(marker) + seq![typed] + items_of(args),
                    ),
                )
            } else {
                None
            }
        },
        None => None,
    }
}

/// `declaration`: optional properties and then a field, a method or a block,
/// tried in this order.
pub open spec fn declaration_at(s: Seq<char>, i: int) -> Option<PairView>
    decreases s.len() - i, 2int,
{
    let props = properties_at(s, i);
    let from = after_optional(s, props, i);
    proof {
        lemma_properties_within(s, i);
        if props is Some {
            lemma_run_within(s, props->0.end, CharClass::Space);
        }
    }
    let found = if 0 <= i <= s.len() {
        either(field_decl_at(s, from), either(method_decl_at(s, from), block_decl_at(s, from)))
    } else {
        None
    };
    match found {
        Some(d) => Some(node(Rule::declaration, s, i, d.end, items_of(props) + seq![d])),
        None => None,
    }
}

/// `block_decl`: declarations between curly brackets.
pub open spec fn block_decl_at(s: Seq<char>, i: int) -> Option<PairView>
    decreases s.len() - i, 1int,
{
    if has_char(s, i, '{') {
        let body = declarations_from(s, i + 1);
        if has_char(s, body.end, '}') {
            Some(node(Rule::block_decl, s, i, body.end + 1, body.items))
        } else {
            None
        }
    } else {
        None
    }
}

/// `body`: the declarations that follow one another from `i` on, with white
/// space between them, up to the first position that starts none.
pub open spec fn declarations_from(s: Seq<char>, i: int) -> Many
    decreases s.len() - i, 3int,
{
    let from = after_spaces(s, i);
    if 0 <= i <= s.len() {
        proof {
            lemma_run_within(s, i, CharClass::Space);
        }
        match declaration_at(s, from) {
            Some(d) => {
                if advances(s, from, d) {
                    followed_by(d, declarations_from(s, d.end))
                } else {
                    nothing_at(from)
                }
            },
            None => nothing_at(from),
        }
    } else {
        nothing_at(from)
    }
}

/// `class`: optional properties, the word `class`, a name, an optional list
/// of base classes behind a colon, and declarations in curly brackets.
pub open spec fn class_at(s: Seq<char>, i: int) -> Option<PairView> {
    let props = properties_at(s, i);
    let word = marker_at(Rule::class, s, after_optional(s, props, i), "class"@);
    match word {
        Some(w) => match name_at(Rule::name, s, after_spaces(s, w.end)) {
            Some(name) => {
                let colon = after_spaces(s, name.end);
                let bases = if has_char(s, colon, ':') {
                    inheritance_at(s, after_spaces(s, colon + 1))
                } else {
                    None
                };
                let open = after_optional(s, bases, colon);
                let body = declarations_from(s, open + 1);
                if has_char(s, open, '{') && has_char(s, body.end, '}') {
                    Some(
                        node(
                            Rule::class,
                            s,
                            i,
                            body.end + 1,
                            items_of(props) + seq![name] + items_of(bases) + body.items,
                        ),
                    )
                } else {
                    None
                }
            },
            None => None,
        },
        None => None,
    }
}

/// The classes that follow one another from `i` on, with white space between
/// them, up to the first position that starts none.
pub open spec fn classes_from(s: Seq<char>, i: int) -> Many
    decreases s.len() - i,
{
    let from = after_spaces(s, i);
    match class_at(s, from) {
        Some(c) => {
            if advances(s, i, c) {
                followed_by(c, classes_from(s, c.end))
            } else {
                nothing_at(from)
            }
        },
        None => nothing_at(from),
    }
}

/// `moho`: a whole text of classes. It matches if the classes, with white
/// space around them, leave nothing of the text over.
pub open spec fn moho_at(s: Seq<char>) -> Option<PairView> {
    let classes = classes_from(s, 0);
    if classes.end == s.len() {
        Some(node(Rule::moho, s, 0, s.len() as int, classes.items))
    } else {
        None
    }
}

/// Where the classes of a text stop: its length if the text is well formed,
/// else the position of the first character that starts no class.
pub open spec fn stop_of(s: Seq<char>) -> int {
    classes_from(s, 0).end
}

/// The outermost wrapper of the type at `i`, if it is one of `rule`.
pub open spec fn wrapper_at(rule: Rule, s: Seq<char>, i: int) -> Option<PairView> {
    match type_decl_at(s, i) {
        Some(t) => {
            if t.inner.len() > 0 && t.inner[0].rule == rule {
                Some(t.inner[0])
            } else {
                None
            }
        },
        None => None,
    }
}

/// The fragment that `rule` matches at `i`, for each rule that matches one
/// fragment. The rule for a whole text matches at the start only.
pub open spec fn rule_at(rule: Rule, s: Seq<char>, i: int) -> Option<PairView> {
    match rule {
        Rule::moho => if i == 0 {
            moho_at(s)
        } else {
            None
        },
        Rule::class => class_at(s, i),
        Rule::name => name_at(Rule::name, s, i),
        Rule::inheritance => inheritance_at(s, i),
        Rule::properties => properties_at(s, i),
        Rule::property => property_at(s, i),
        Rule::meta => word_at(Rule::meta, s, i, "meta"@),
        Rule::value => value_at(s, i),
        Rule::bool => bool_at(s, i),
        Rule::char => char_at(s, i),
        Rule::float => float_at(s, i),
        Rule::integer => integer_at(s, i),
        Rule::string => string_at(s, i),
        Rule::nullptr => nullptr_at(s, i),
        Rule::body => None,
        Rule::declaration => declaration_at(s, i),
        Rule::block_decl => block_decl_at(s, i),
        Rule::field_decl => field_decl_at(s, i),
        Rule::method_decl => method_decl_at(s, i),
        Rule::static_spec => word_at(Rule::static_spec, s, i, "static"@),
        Rule::type_decl => type_decl_at(s, i),
        Rule::dbpointer_type => wrapper_at(rule, s, i),
        Rule::pointer_type => wrapper_at(rule, s, i),
        Rule::reference_type => wrapper_at(rule, s, i),
        Rule::array_type => wrapper_at(rule, s, i),
        Rule::matrix_type => wrapper_at(rule, s, i),
        Rule::identifier => identifier_at(s, i),
        Rule::dont_care_type_decl => dont_care_at(s, i),
        Rule::arguments => arguments_at(s, i),
        Rule::argument => argument_at(s, i),
    }
}

/// What `rule` yields on the text `s`, matched at its start: the
/// declarations for `body`, which leaves no fragment of its own, and else the
/// one fragment of the rule. Only the rule for a whole text asks that nothing
/// of the text be left over.
pub open spec fn parsed(rule: Rule, s: Seq<char>) -> Option<Seq<PairView>> {
    if rule == Rule::body {
        Some(declarations_from(s, 0).items)
    } else {
        match rule_at(rule, s, 0) {
            Some(t) => Some(seq![t]),
            None => None,
        }
    }
}

/// The position that a failure of `rule` on `s` is reported at: where the
/// classes stop for a whole text, and the start for every other rule.
pub open spec fn failure_of(rule: Rule, s: Seq<char>) -> int {
    if rule == Rule::moho {
        stop_of(s)
    } else {
        0
    }
}

/// The line of position `at`: 1 and the number of line feeds before it.
pub open spec fn line_of(s: Seq<char>, at: int) -> int
    decreases at,
{
    if at <= 0 || at > s.len() {
        1
    } else if s[at - 1] == '\n' {
        line_of(s, at - 1) + 1
    } else {
        line_of(s, at - 1)
    }
}

/// The column of position `at`: 1 and the number of characters between the
/// last line feed before it and itself.
pub open spec fn column_of(s: Seq<char>, at: int) -> int
    decreases at,
{
    if at <= 0 || at > s.len() || s[at - 1] == '\n' {
        1
    } else {
        column_of(s, at - 1) + 1
    }
}

} // verus!
