//! The shortcode mini-language embedded in markdown source.
//!
//! Input text is an alternating sequence of literal text and shortcode
//! invocations of the form `{{! name(arg=value, ...) !}} body {{! end !}}`.
//! The grammar is non-recursive by design: a shortcode's body is raw text
//! and is never re-parsed for nested shortcodes.
//!
//! The grammar is stated as spec functions over `Seq<char>`, and the
//! executable parser is proved to return exactly what the grammar says:
//! `parse` returns `Ok` precisely on the inputs the grammar accepts, and
//! then returns exactly the items the grammar derives.

use vstd::prelude::*;

use crate::strutil::{str_to_chars, sub_string};

verus! {

// ---------------------------------------------------------------------------
// Executable data model
// ---------------------------------------------------------------------------

/// A literal value in a shortcode argument list.
#[derive(Debug, PartialEq, Eq)]
pub enum Value {
    Bool(bool),
    Number(i32),
    String(String),
    List(Vec<Value>),
}

/// One shortcode invocation: its name, its arguments in source order, and
/// its raw body text.
#[derive(Debug, PartialEq, Eq)]
pub struct Shortcode {
    pub name: String,
    pub arguments: Vec<(String, Value)>,
    pub body: String,
}

/// One parsed item: literal text, or a shortcode invocation.
#[derive(Debug, PartialEq, Eq)]
pub enum Item {
    Text(String),
    Shortcode(Shortcode),
}

// ---------------------------------------------------------------------------
// Ghost model
// ---------------------------------------------------------------------------

/// The mathematical model of a `Value`.
pub enum ValueV {
    Bool(bool),
    Number(int),
    String(Seq<char>),
    List(Seq<ValueV>),
}

/// The mathematical model of a `Shortcode`.
pub struct ShortcodeV {
    pub name: Seq<char>,
    pub arguments: Seq<(Seq<char>, ValueV)>,
    pub body: Seq<char>,
}

/// The mathematical model of an `Item`.
pub enum ItemV {
    Text(Seq<char>),
    Shortcode(ShortcodeV),
}

/// The model of a `Value`, defined by structural recursion.
pub open spec fn value_model(v: Value) -> ValueV
    decreases v,
{
    match v {
        Value::Bool(b) => ValueV::Bool(b),
        Value::Number(n) => ValueV::Number(n as int),
        Value::String(s) => ValueV::String(s@),
        Value::List(l) => ValueV::List(value_models(l@)),
    }
}

/// The models of a sequence of `Value`s, in order.
pub open spec fn value_models(s: Seq<Value>) -> Seq<ValueV>
    decreases s,
{
    if s.len() == 0 {
        Seq::empty()
    } else {
        value_models(s.drop_last()).push(value_model(s.last()))
    }
}

impl DeepView for Value {
    type V = ValueV;

    open spec fn deep_view(&self) -> ValueV {
        value_model(*self)
    }
}

impl DeepView for Shortcode {
    type V = ShortcodeV;

    open spec fn deep_view(&self) -> ShortcodeV {
        ShortcodeV {
            name: self.name@,
            arguments: Seq::new(
                self.arguments@.len(),
                |i: int| (self.arguments@[i].0@, self.arguments@[i].1.deep_view()),
            ),
            body: self.body@,
        }
    }
}

impl DeepView for Item {
    type V = ItemV;

    open spec fn deep_view(&self) -> ItemV {
        match self {
            Item::Text(t) => ItemV::Text(t@),
            Item::Shortcode(sc) => ItemV::Shortcode(sc.deep_view()),
        }
    }
}

// ---------------------------------------------------------------------------
// Character classes and basic scanning
// ---------------------------------------------------------------------------

/// Whitespace as the grammar skips it: space, tab, carriage return, newline.
pub open spec fn is_space(c: char) -> bool {
    c == ' ' || c == '\t' || c == '\r' || c == '\n'
}

/// First character of an identifier: an ASCII letter or underscore.
pub open spec fn is_ident_start(c: char) -> bool {
    ('a' <= c && c <= 'z') || ('A' <= c && c <= 'Z') || c == '_'
}

/// Later character of an identifier: an ASCII letter, digit or underscore.
pub open spec fn is_ident_char(c: char) -> bool {
    is_ident_start(c) || ('0' <= c && c <= '9')
}

/// An ASCII decimal digit.
pub open spec fn is_digit(c: char) -> bool {
    '0' <= c && c <= '9'
}

/// The numeric value of a digit character.
pub open spec fn digit_val(c: char) -> int {
    c as int - '0' as int
}

/// Length of the run of whitespace characters starting at `i`.
pub open spec fn ws_len(s: Seq<char>, i: int) -> nat
    decreases s.len() - i when 0 <= i <= s.len()
{
    if i < s.len() && is_space(s[i]) {
        1 + ws_len(s, i + 1)
    } else {
        0
    }
}

/// The position just past the whitespace run starting at `i`.
pub open spec fn ws_end(s: Seq<char>, i: int) -> int {
    if i + ws_len(s, i) <= s.len() {
        i + ws_len(s, i)
    } else {
        i
    }
}

/// Length of the run of identifier characters starting at `i`.
pub open spec fn ident_len(s: Seq<char>, i: int) -> nat
    decreases s.len() - i when 0 <= i <= s.len()
{
    if i < s.len() && is_ident_char(s[i]) {
        1 + ident_len(s, i + 1)
    } else {
        0
    }
}

/// Length of the run of digit characters starting at `i`.
pub open spec fn digits_len(s: Seq<char>, i: int) -> nat
    decreases s.len() - i when 0 <= i <= s.len()
{
    if i < s.len() && is_digit(s[i]) {
        1 + digits_len(s, i + 1)
    } else {
        0
    }
}

/// The value of the digit run `s[i..e]`, read as a decimal number.
pub open spec fn digits_value(s: Seq<char>, i: int, e: int) -> int
    decreases e - i when i <= e
{
    if i >= e {
        0
    } else {
        digits_value(s, i, e - 1) * 10 + digit_val(s[e - 1])
    }
}

/// Whether the opening marker `{{!` occurs at position `i`.
pub open spec fn marker_at(s: Seq<char>, i: int) -> bool {
    &&& i + 3 <= s.len()
    &&& 0 <= i
    &&& s[i] == '{'
    &&& s[i + 1] == '{'
    &&& s[i + 2] == '!'
}

/// Distance from `i` to the first opening marker at or after `i`, if any.
pub open spec fn marker_dist(s: Seq<char>, i: int) -> Option<nat>
    decreases s.len() - i when 0 <= i <= s.len()
{
    if marker_at(s, i) {
        Some(0nat)
    } else if i + 3 > s.len() {
        None
    } else {
        match marker_dist(s, i + 1) {
            Some(d) => Some((d + 1) as nat),
            None => None,
        }
    }
}

/// Whether the literal `t` occurs at position `i` of `s`.
pub open spec fn lit_at(s: Seq<char>, i: int, t: Seq<char>) -> bool {
    0 <= i && i + t.len() <= s.len() && s.subrange(i, i + t.len() as int) == t
}

// ---------------------------------------------------------------------------
// The grammar, as positional spec parsers.
//
// Each parser takes the input and a start position and yields the position
// just past what it consumed, plus the parsed result. `None` means the
// grammar rejects the input at that position. A successful sub-parse always
// consumes at least one character; `step` records that fact in a form the
// termination checker can use directly.
// ---------------------------------------------------------------------------

/// The position after a successful sub-parse that started at `i`: a
/// sub-parse consumes at least one character and never runs past the end,
/// so this is just `p`, written so that both bounds are plain to the
/// termination checker.
pub open spec fn step(s: Seq<char>, i: int, p: int) -> int {
    if i + 1 <= p && p <= s.len() {
        p
    } else if i + 1 <= s.len() {
        i + 1
    } else {
        s.len() as int
    }
}

/// Remaining length from position `i`, floored at zero.
pub open spec fn rem(s: Seq<char>, i: int) -> int {
    if i <= s.len() {
        s.len() - i
    } else {
        0
    }
}

/// A value literal at position `i`: `true` or `false`, a decimal number
/// with optional leading minus whose magnitude fits in 32 signed bits, a
/// double-quoted string with no escape handling, or a bracketed
/// comma-separated list. The alternatives are tried in that order.
pub open spec fn spec_value(s: Seq<char>, i: int) -> Option<(int, ValueV)>
    decreases rem(s, i), 0int when 0 <= i <= s.len()
{
    if lit_at(s, i, seq!['t', 'r', 'u', 'e']) {
        Some((i + 4, ValueV::Bool(true)))
    } else if lit_at(s, i, seq!['f', 'a', 'l', 's', 'e']) {
        Some((i + 5, ValueV::Bool(false)))
    } else if i < s.len() && is_digit(s[i]) {
        let e = i + digits_len(s, i);
        let n = digits_value(s, i, e);
        if n <= 2147483647 {
            Some((e, ValueV::Number(n)))
        } else {
            None
        }
    } else if i + 1 < s.len() && s[i] == '-' && is_digit(s[i + 1]) {
        let e = i + 1 + digits_len(s, i + 1);
        let n = digits_value(s, i + 1, e);
        if n <= 2147483647 {
            Some((e, ValueV::Number(-n)))
        } else {
            None
        }
    } else if i < s.len() && s[i] == '"' {
        match quote_dist(s, i + 1) {
            Some(d) => Some(
                (i + 1 + d + 1, ValueV::String(s.subrange(i + 1, i + 1 + d))),
            ),
            None => None,
        }
    } else if i < s.len() && s[i] == '[' {
        match spec_list_elems(s, i + 1) {
            Some((p, elems)) => if 0 <= p < s.len() && s[p] == ']' {
                Some((p + 1, ValueV::List(elems)))
            } else {
                None
            },
            None => None,
        }
    } else {
        None
    }
}

/// The elements of a bracketed list, starting just after the `[`.
/// Elements are values with whitespace around them, separated by commas.
/// When no first element parses, the list is empty and nothing is
/// consumed, not even whitespace.
pub open spec fn spec_list_elems(s: Seq<char>, i: int) -> Option<(int, Seq<ValueV>)>
    decreases rem(s, i), 2int when 0 <= i <= s.len()
{
    if i >= s.len() {
        Some((i, Seq::empty()))
    } else {
        match spec_value(s, ws_end(s, i)) {
            None => Some((i, Seq::empty())),
            Some((p, v)) => spec_list_rest(s, ws_end(s, step(s, i, p)), seq![v]),
        }
    }
}

/// Further `, value` groups of a bracketed list. Stops, consuming nothing
/// further, as soon as no comma follows or the value after a comma fails.
pub open spec fn spec_list_rest(s: Seq<char>, i: int, acc: Seq<ValueV>) -> Option<
    (int, Seq<ValueV>),
>
    decreases rem(s, i), 2int when 0 <= i <= s.len()
{
    if 0 <= i < s.len() && s[i] == ',' {
        match spec_value(s, ws_end(s, i + 1)) {
            None => Some((i, acc)),
            Some((p, v)) => spec_list_rest(s, ws_end(s, step(s, i + 1, p)), acc.push(v)),
        }
    } else {
        Some((i, acc))
    }
}

/// Distance from `i` to the first double quote at or after `i`, if any.
pub open spec fn quote_dist(s: Seq<char>, i: int) -> Option<nat>
    decreases s.len() - i when 0 <= i <= s.len()
{
    if i < s.len() && s[i] == '"' {
        Some(0nat)
    } else if i >= s.len() {
        None
    } else {
        match quote_dist(s, i + 1) {
            Some(d) => Some((d + 1) as nat),
            None => None,
        }
    }
}

/// One `name = value` argument at position `i`: an identifier, `=` with
/// whitespace around it, then a value with whitespace around it.
pub open spec fn spec_argument(s: Seq<char>, i: int) -> Option<(int, (Seq<char>, ValueV))>
    decreases rem(s, i), 1int when 0 <= i <= s.len()
{
    if i < s.len() && is_ident_start(s[i]) {
        let e = i + 1 + ident_len(s, i + 1);
        let q = ws_end(s, e);
        if q < s.len() && s[q] == '=' {
            match spec_value(s, ws_end(s, q + 1)) {
                Some((p, v)) => Some(
                    (ws_end(s, step(s, i, p)), (s.subrange(i, e), v)),
                ),
                None => None,
            }
        } else {
            None
        }
    } else {
        None
    }
}

/// The arguments of a parenthesized list, starting just after the `(`.
/// Arguments have whitespace around them and are separated by commas.
/// When no first argument parses, the list is empty and nothing is
/// consumed, not even whitespace.
pub open spec fn spec_args_elems(s: Seq<char>, i: int) -> Option<
    (int, Seq<(Seq<char>, ValueV)>),
>
    decreases rem(s, i), 3int when 0 <= i <= s.len()
{
    match spec_argument(s, ws_end(s, i)) {
        None => Some((i, Seq::empty())),
        Some((p, a)) => spec_args_rest(s, ws_end(s, step(s, i, p)), seq![a]),
    }
}

/// Further `, name = value` groups of an argument list.
pub open spec fn spec_args_rest(s: Seq<char>, i: int, acc: Seq<(Seq<char>, ValueV)>) -> Option<
    (int, Seq<(Seq<char>, ValueV)>),
>
    decreases rem(s, i), 3int when 0 <= i <= s.len()
{
    if 0 <= i < s.len() && s[i] == ',' {
        match spec_argument(s, ws_end(s, i + 1)) {
            None => Some((i, acc)),
            Some((p, a)) => spec_args_rest(s, ws_end(s, step(s, i + 1, p)), acc.push(a)),
        }
    } else {
        Some((i, acc))
    }
}

/// A whole shortcode at position `i`, leading whitespace included:
///
/// ```text
/// {{! name(arg=value, ...) !}} body {{! end !}}
/// ```
///
/// Whitespace is skipped before the opening marker, around the name and
/// argument list, and after the closing `!}}` of the header, so the body
/// starts at the first non-whitespace character after the header and runs
/// to the next opening marker, which must introduce the end marker.
pub open spec fn spec_shortcode(s: Seq<char>, i: int) -> Option<(int, ShortcodeV)> {
    let j = ws_end(s, i);
    if !marker_at(s, j) {
        None
    } else {
        let k = ws_end(s, j + 3);
        if !(k < s.len() && is_ident_start(s[k])) {
            None
        } else {
            let e = k + 1 + ident_len(s, k + 1);
            let name = s.subrange(k, e);
            let g = ws_end(s, e);
            if g < s.len() && s[g] == '(' {
                match spec_args_elems(s, g + 1) {
                    None => None,
                    Some((p, args)) => if 0 <= p < s.len() && s[p] == ')' {
                        spec_shortcode_tail(s, ws_end(s, p + 1), name, args)
                    } else {
                        None
                    },
                }
            } else {
                spec_shortcode_tail(s, g, name, Seq::empty())
            }
        }
    }
}

/// The rest of a shortcode after its name and optional argument list:
/// the header's closing `!}}`, the raw body up to the next opening
/// marker, then `{{! end !}}`.
pub open spec fn spec_shortcode_tail(
    s: Seq<char>,
    i: int,
    name: Seq<char>,
    args: Seq<(Seq<char>, ValueV)>,
) -> Option<(int, ShortcodeV)> {
    if !lit_at(s, i, seq!['!', '}', '}']) {
        None
    } else {
        let b = ws_end(s, i + 3);
        match marker_dist(s, b) {
            None => None,
            Some(d) => {
                let m = b + d;
                let body = s.subrange(b, m);
                let t = ws_end(s, m + 3);
                if lit_at(s, t, seq!['e', 'n', 'd']) {
                    let u = ws_end(s, t + 3);
                    if lit_at(s, u, seq!['!', '}', '}']) {
                        Some((u + 3, ShortcodeV { name, arguments: args, body }))
                    } else {
                        None
                    }
                } else {
                    None
                }
            },
        }
    }
}

/// The item sequence derived from position `i` on. Shortcodes are tried
/// first; otherwise literal text runs to the next opening marker. An
/// opening marker that does not begin a well-formed shortcode rejects the
/// whole input. The text after the last marker always contributes a final
/// `Text` item, even when it is empty.
pub open spec fn spec_items(s: Seq<char>, i: int) -> Option<Seq<ItemV>>
    decreases rem(s, i), 5int when 0 <= i <= s.len()
{
    if i >= s.len() {
        Some(seq![ItemV::Text(Seq::empty())])
    } else {
        match spec_shortcode(s, i) {
        Some((p, sc)) => match spec_items(s, step(s, i, p)) {
            Some(rest) => Some(seq![ItemV::Shortcode(sc)] + rest),
            None => None,
        },
        None => match marker_dist(s, i) {
            None => Some(seq![ItemV::Text(s.subrange(i, s.len() as int))]),
            Some(d) => if d == 0 {
                None
            } else {
                match spec_items(s, step(s, i, i + d)) {
                    Some(rest) => Some(seq![ItemV::Text(s.subrange(i, i + d))] + rest),
                    None => None,
                }
            },
        },
        }
    }
}

/// What parsing a whole input yields: the item sequence derived from the
/// start of the input, or rejection.
pub open spec fn spec_parse(s: Seq<char>) -> Option<Seq<ItemV>> {
    spec_items(s, 0)
}

/// When no opening marker occurs at or after `i`, none occurs at any
/// later position either.
proof fn lemma_no_marker_at(s: Seq<char>, i: int)
    requires
        0 <= i <= s.len(),
        marker_dist(s, i) is None,
    ensures
        forall|j: int| i <= j ==> !marker_at(s, j),
    decreases s.len() - i,
{
    assert(!marker_at(s, i));
    if i + 3 > s.len() {
        assert forall|j: int| i <= j implies !marker_at(s, j) by {
            if marker_at(s, j) {
                assert(j + 3 <= s.len());
            }
        }
    } else {
        assert(marker_dist(s, i + 1) is None);
        lemma_no_marker_at(s, i + 1);
    }
}

/// An input with no opening marker parses to a single text item holding
/// the whole input; in particular, the empty input parses to a single
/// empty text item.
pub proof fn lemma_parse_plain_text(s: Seq<char>)
    requires
        marker_dist(s, 0) is None,
    ensures
        spec_parse(s) == Some(seq![ItemV::Text(s)]),
{
    if s.len() == 0 {
        assert(spec_items(s, 0) == Some(seq![ItemV::Text(Seq::<char>::empty())]));
        assert(s =~= Seq::<char>::empty());
    } else {
        lemma_no_marker_at(s, 0);
        let j = ws_end(s, 0);
        assert(0 <= j);
        assert(!marker_at(s, j));
        assert(spec_shortcode(s, 0) is None);
        assert(s.subrange(0, s.len() as int) =~= s);
    }
}

// ---------------------------------------------------------------------------
// The executable parser, proved equal to the grammar.
// ---------------------------------------------------------------------------

/// A whitespace run stays within the input.
proof fn lemma_ws_len_bound(s: Seq<char>, i: int)
    requires
        0 <= i <= s.len(),
    ensures
        i + ws_len(s, i) <= s.len(),
    decreases s.len() - i,
{
    if i < s.len() && is_space(s[i]) {
        lemma_ws_len_bound(s, i + 1);
    }
}

/// Position just past the whitespace run starting at `i`.
fn ws_to(v: &Vec<char>, i: usize) -> (r: usize)
    requires
        i <= v@.len(),
    ensures
        r == ws_end(v@, i as int),
        i <= r <= v@.len(),
{
    let mut k = i;
    while k < v.len() && (v[k] == ' ' || v[k] == '\t' || v[k] == '\r' || v[k] == '\n')
        invariant
            i <= k <= v@.len(),
            ws_end(v@, i as int) == ws_end(v@, k as int),
        decreases v@.len() - k,
    {
        proof {
            lemma_ws_len_bound(v@, k + 1);
            assert(ws_len(v@, k as int) == 1 + ws_len(v@, k + 1));
        }
        k = k + 1;
    }
    proof {
        assert(ws_len(v@, k as int) == 0);
    }
    k
}

/// Position just past the identifier-character run starting at `i`.
fn ident_to(v: &Vec<char>, i: usize) -> (r: usize)
    requires
        i <= v@.len(),
    ensures
        r == i + ident_len(v@, i as int),
        i <= r <= v@.len(),
{
    let mut k = i;
    while k < v.len() && (('a' <= v[k] && v[k] <= 'z') || ('A' <= v[k] && v[k] <= 'Z') || v[k]
        == '_' || ('0' <= v[k] && v[k] <= '9'))
        invariant
            i <= k <= v@.len(),
            ident_len(v@, i as int) == (k - i) + ident_len(v@, k as int),
        decreases v@.len() - k,
    {
        proof {
            assert(ident_len(v@, k as int) == 1 + ident_len(v@, k + 1));
        }
        k = k + 1;
    }
    proof {
        assert(ident_len(v@, k as int) == 0);
    }
    k
}

/// Position just past the digit run starting at `i`.
fn digits_to(v: &Vec<char>, i: usize) -> (r: usize)
    requires
        i <= v@.len(),
    ensures
        r == i + digits_len(v@, i as int),
        i <= r <= v@.len(),
{
    let mut k = i;
    while k < v.len() && '0' <= v[k] && v[k] <= '9'
        invariant
            i <= k <= v@.len(),
            digits_len(v@, i as int) == (k - i) + digits_len(v@, k as int),
        decreases v@.len() - k,
    {
        proof {
            assert(digits_len(v@, k as int) == 1 + digits_len(v@, k + 1));
        }
        k = k + 1;
    }
    proof {
        assert(digits_len(v@, k as int) == 0);
    }
    k
}

/// Whether the opening marker `{{!` occurs at position `i`.
fn marker_here(v: &Vec<char>, i: usize) -> (r: bool)
    requires
        i <= v@.len(),
    ensures
        r == marker_at(v@, i as int),
{
    v.len() - i >= 3 && v[i] == '{' && v[i + 1] == '{' && v[i + 2] == '!'
}

/// Absolute position of the first opening marker at or after `i`, if any.
fn find_marker(v: &Vec<char>, i: usize) -> (r: Option<usize>)
    requires
        i <= v@.len(),
    ensures
        match (r, marker_dist(v@, i as int)) {
            (Some(m), Some(d)) => m == i + d && i <= m && m + 3 <= v@.len(),
            (None, None) => true,
            _ => false,
        },
{
    let mut k = i;
    loop
        invariant
            i <= k <= v@.len(),
            forall|j: int| i <= j < k ==> !marker_at(v@, j),
            marker_dist(v@, i as int) matches Some(d) ==> k <= i + d,
            (marker_dist(v@, k as int) matches Some(d) ==> marker_dist(v@, i as int) == Some(
                ((k - i) + d) as nat,
            )),
            marker_dist(v@, k as int) is None ==> marker_dist(v@, i as int) is None,
        decreases v@.len() - k,
    {
        if v.len() - k < 3 {
            proof {
                if k < v@.len() {
                    assert(marker_dist(v@, k as int) is None);
                }
            }
            return None;
        }
        if v[k] == '{' && v[k + 1] == '{' && v[k + 2] == '!' {
            assert(marker_at(v@, k as int));
            assert(marker_dist(v@, k as int) == Some(0nat));
            return Some(k);
        }
        proof {
            assert(!marker_at(v@, k as int));
            assert(marker_dist(v@, k as int) == match marker_dist(v@, k + 1) {
                Some(d) => Some((d + 1) as nat),
                None => None::<nat>,
            });
        }
        k = k + 1;
    }
}

/// Absolute position of the first double quote at or after `i`, if any.
fn find_quote(v: &Vec<char>, i: usize) -> (r: Option<usize>)
    requires
        i <= v@.len(),
    ensures
        match (r, quote_dist(v@, i as int)) {
            (Some(m), Some(d)) => m == i + d && i <= m && m < v@.len(),
            (None, None) => true,
            _ => false,
        },
{
    let mut k = i;
    loop
        invariant
            i <= k <= v@.len(),
            (quote_dist(v@, k as int) matches Some(d) ==> quote_dist(v@, i as int) == Some(
                ((k - i) + d) as nat,
            )),
            quote_dist(v@, k as int) is None ==> quote_dist(v@, i as int) is None,
        decreases v@.len() - k,
    {
        if k >= v.len() {
            return None;
        }
        if v[k] == '"' {
            assert(quote_dist(v@, k as int) == Some(0nat));
            return Some(k);
        }
        k = k + 1;
    }
}

/// Whether the literal `w` occurs at position `i`.
fn has_lit(v: &Vec<char>, i: usize, w: &[char]) -> (r: bool)
    requires
        i <= v@.len(),
    ensures
        r == lit_at(v@, i as int, w@),
{
    if w.len() > v.len() - i {
        return false;
    }
    let mut k: usize = 0;
    while k < w.len()
        invariant
            0 <= k <= w@.len(),
            i + w@.len() <= v@.len(),
            forall|j: int| 0 <= j < k ==> v@[i + j] == w@[j],
        decreases w@.len() - k,
    {
        assert(i + k < v.len());
        if v[i + k] != w[k] {
            assert(v@.subrange(i as int, i + w@.len()) != w@) by {
                assert(v@.subrange(i as int, i + w@.len())[k as int] != w@[k as int]);
            }
            return false;
        }
        k = k + 1;
    }
    assert(v@.subrange(i as int, i + w@.len()) =~= w@);
    true
}

/// Reads the digit run `v[i..e]` as a decimal number when its value fits
/// in 32 signed bits; reports overflow otherwise.
fn digits_to_i32(v: &Vec<char>, i: usize, e: usize) -> (r: Option<i32>)
    requires
        i <= e <= v@.len(),
        forall|j: int| i <= j < e ==> is_digit(v@[j]),
    ensures
        match r {
            Some(n) => n as int == digits_value(v@, i as int, e as int) && n >= 0,
            None => digits_value(v@, i as int, e as int) > 2147483647,
        },
{
    let mut acc: u64 = 0;
    let mut k = i;
    while k < e
        invariant
            i <= k <= e <= v@.len(),
            forall|j: int| i <= j < e ==> is_digit(v@[j]),
            digits_value(v@, i as int, k as int) <= 0xffff_ffff ==> acc == digits_value(
                v@,
                i as int,
                k as int,
            ),
            digits_value(v@, i as int, k as int) > 0xffff_ffff ==> acc > 0xffff_ffff,
            acc <= 0xffff_ffff * 10 + 9,
            digits_value(v@, i as int, k as int) >= 0,
        decreases e - k,
    {
        let c = v[k];
        let d: u64 = (c as u32 as u64) - ('0' as u32 as u64);
        proof {
            assert(is_digit(v@[k as int]));
            assert(d == digit_val(v@[k as int]));
            assert(digits_value(v@, i as int, k + 1) == digits_value(v@, i as int, k as int) * 10
                + digit_val(v@[k as int]));
        }
        if acc <= 0xffff_ffff {
            acc = acc * 10 + d;
        }
        k = k + 1;
    }
    if acc <= 2147483647 {
        Some(acc as i32)
    } else {
        None
    }
}

/// Every character of a digit run is a digit.
proof fn lemma_digits_run(s: Seq<char>, i: int)
    requires
        0 <= i <= s.len(),
    ensures
        i + digits_len(s, i) <= s.len(),
        forall|j: int| i <= j < i + digits_len(s, i) ==> is_digit(s[j]),
    decreases s.len() - i,
{
    if i < s.len() && is_digit(s[i]) {
        lemma_digits_run(s, i + 1);
    }
}

/// Whether the three characters `c0 c1 c2` occur at position `i`.
fn lit3(v: &Vec<char>, i: usize, c0: char, c1: char, c2: char) -> (r: bool)
    requires
        i <= v@.len(),
    ensures
        r == lit_at(v@, i as int, seq![c0, c1, c2]),
{
    let ok = v.len() - i >= 3 && v[i] == c0 && v[i + 1] == c1 && v[i + 2] == c2;
    proof {
        if ok {
            assert(v@.subrange(i as int, i + 3) =~= seq![c0, c1, c2]);
        } else if i + 3 <= v@.len() {
            assert(v@.subrange(i as int, i + 3)[0] == v@[i as int]);
            assert(v@.subrange(i as int, i + 3)[1] == v@[i + 1]);
            assert(v@.subrange(i as int, i + 3)[2] == v@[i + 2]);
        }
    }
    ok
}

/// Whether the four characters `c0 c1 c2 c3` occur at position `i`.
fn lit4(v: &Vec<char>, i: usize, c0: char, c1: char, c2: char, c3: char) -> (r: bool)
    requires
        i <= v@.len(),
    ensures
        r == lit_at(v@, i as int, seq![c0, c1, c2, c3]),
{
    let ok = v.len() - i >= 4 && v[i] == c0 && v[i + 1] == c1 && v[i + 2] == c2 && v[i + 3] == c3;
    proof {
        if ok {
            assert(v@.subrange(i as int, i + 4) =~= seq![c0, c1, c2, c3]);
        } else if i + 4 <= v@.len() {
            assert(v@.subrange(i as int, i + 4)[0] == v@[i as int]);
            assert(v@.subrange(i as int, i + 4)[1] == v@[i + 1]);
            assert(v@.subrange(i as int, i + 4)[2] == v@[i + 2]);
            assert(v@.subrange(i as int, i + 4)[3] == v@[i + 3]);
        }
    }
    ok
}

/// Whether the five characters `c0 c1 c2 c3 c4` occur at position `i`.
fn lit5(v: &Vec<char>, i: usize, c0: char, c1: char, c2: char, c3: char, c4: char) -> (r: bool)
    requires
        i <= v@.len(),
    ensures
        r == lit_at(v@, i as int, seq![c0, c1, c2, c3, c4]),
{
    let ok = v.len() - i >= 5 && v[i] == c0 && v[i + 1] == c1 && v[i + 2] == c2 && v[i + 3] == c3
        && v[i + 4] == c4;
    proof {
        if ok {
            assert(v@.subrange(i as int, i + 5) =~= seq![c0, c1, c2, c3, c4]);
        } else if i + 5 <= v@.len() {
            assert(v@.subrange(i as int, i + 5)[0] == v@[i as int]);
            assert(v@.subrange(i as int, i + 5)[1] == v@[i + 1]);
            assert(v@.subrange(i as int, i + 5)[2] == v@[i + 2]);
            assert(v@.subrange(i as int, i + 5)[3] == v@[i + 3]);
            assert(v@.subrange(i as int, i + 5)[4] == v@[i + 4]);
        }
    }
    ok
}

/// The models of a sequence of parsed arguments, in order.
pub open spec fn arg_models(s: Seq<(String, Value)>) -> Seq<(Seq<char>, ValueV)> {
    Seq::new(s.len(), |i: int| (s[i].0@, value_model(s[i].1)))
}

/// A value literal at position `i`, as the grammar reads one.
fn parse_value(v: &Vec<char>, i: usize) -> (r: Option<(usize, Value)>)
    requires
        i <= v@.len(),
    ensures
        match (r, spec_value(v@, i as int)) {
            (Some((p, val)), Some((sp, sv))) => p as int == sp && value_model(val) == sv && i < p
                <= v@.len(),
            (None, None) => true,
            _ => false,
        },
    decreases v@.len() - i, 0int,
{
    if lit4(v, i, 't', 'r', 'u', 'e') {
        assert(i + 4 <= v.len());
        Some((i + 4, Value::Bool(true)))
    } else if lit5(v, i, 'f', 'a', 'l', 's', 'e') {
        assert(i + 5 <= v.len());
        Some((i + 5, Value::Bool(false)))
    } else if i < v.len() && '0' <= v[i] && v[i] <= '9' {
        let e = digits_to(v, i);
        proof {
            lemma_digits_run(v@, i as int);
        }
        match digits_to_i32(v, i, e) {
            Some(n) => Some((e, Value::Number(n))),
            None => None,
        }
    } else if i < v.len() && v[i] == '-' && i + 1 < v.len() && '0' <= v[i + 1] && v[i + 1] <= '9' {
        let e = digits_to(v, i + 1);
        proof {
            lemma_digits_run(v@, i + 1);
        }
        match digits_to_i32(v, i + 1, e) {
            Some(n) => Some((e, Value::Number(-n))),
            None => None,
        }
    } else if i < v.len() && v[i] == '"' {
        match find_quote(v, i + 1) {
            Some(q) => {
                let s = sub_string(v, i + 1, q);
                Some((q + 1, Value::String(s)))
            },
            None => None,
        }
    } else if i < v.len() && v[i] == '[' {
        match parse_list(v, i + 1) {
            Some((p, elems)) => if p < v.len() && v[p] == ']' {
                Some((p + 1, Value::List(elems)))
            } else {
                None
            },
            None => None,
        }
    } else {
        None
    }
}

/// The elements of a bracketed list, starting just after the `[`.
fn parse_list(v: &Vec<char>, i: usize) -> (r: Option<(usize, Vec<Value>)>)
    requires
        i <= v@.len(),
    ensures
        match (r, spec_list_elems(v@, i as int)) {
            (Some((p, es)), Some((sp, ses))) => p as int == sp && value_models(es@) == ses && i
                <= p <= v@.len(),
            (None, None) => true,
            _ => false,
        },
    decreases v@.len() - i, 2int,
{
    if i >= v.len() {
        let es: Vec<Value> = Vec::new();
        assert(value_models(es@) =~= Seq::<ValueV>::empty());
        return Some((i, es));
    }
    let j = ws_to(v, i);
    match parse_value(v, j) {
        None => {
            let es: Vec<Value> = Vec::new();
            assert(value_models(es@) =~= Seq::<ValueV>::empty());
            Some((i, es))
        },
        Some((p, val)) => {
            let q = ws_to(v, p);
            let ghost gval = val;
            let mut acc: Vec<Value> = Vec::new();
            acc.push(val);
            proof {
                assert(step(v@, i as int, p as int) == p as int);
                assert(acc@ =~= seq![gval]);
                assert(acc@.drop_last() =~= Seq::<Value>::empty());
                assert(acc@.last() == gval);
                assert(value_models(Seq::<Value>::empty()) == Seq::<ValueV>::empty());
                assert(value_models(acc@) == value_models(acc@.drop_last()).push(
                    value_model(acc@.last()),
                ));
                assert(value_models(acc@) =~= seq![value_model(gval)]);
            }
            parse_list_rest(v, q, acc)
        },
    }
}

/// Further `, value` groups of a bracketed list.
fn parse_list_rest(v: &Vec<char>, i: usize, acc: Vec<Value>) -> (r: Option<(usize, Vec<Value>)>)
    requires
        i <= v@.len(),
    ensures
        match (r, spec_list_rest(v@, i as int, value_models(acc@))) {
            (Some((p, es)), Some((sp, ses))) => p as int == sp && value_models(es@) == ses && i
                <= p <= v@.len(),
            (None, None) => true,
            _ => false,
        },
    decreases v@.len() - i, 2int,
{
    if i < v.len() && v[i] == ',' {
        let j = ws_to(v, i + 1);
        match parse_value(v, j) {
            None => Some((i, acc)),
            Some((p, val)) => {
                let q = ws_to(v, p);
                let ghost gacc = acc@;
                let ghost gval = val;
                let mut acc2 = acc;
                acc2.push(val);
                proof {
                    assert(step(v@, i + 1, p as int) == p as int);
                    assert(acc2@.drop_last() =~= gacc);
                    assert(acc2@.last() == gval);
                    assert(value_models(acc2@) =~= value_models(gacc).push(value_model(gval)));
                }
                parse_list_rest(v, q, acc2)
            },
        }
    } else {
        Some((i, acc))
    }
}

/// One `name = value` argument at position `i`.
fn parse_argument(v: &Vec<char>, i: usize) -> (r: Option<(usize, (String, Value))>)
    requires
        i <= v@.len(),
    ensures
        match (r, spec_argument(v@, i as int)) {
            (Some((p, a)), Some((sp, sa))) => p as int == sp && a.0@ == sa.0 && value_model(a.1)
                == sa.1 && i < p <= v@.len(),
            (None, None) => true,
            _ => false,
        },
{
    if i < v.len() && (('a' <= v[i] && v[i] <= 'z') || ('A' <= v[i] && v[i] <= 'Z') || v[i]
        == '_') {
        let e = ident_to(v, i + 1);
        let q = ws_to(v, e);
        if q < v.len() && v[q] == '=' {
            let j = ws_to(v, q + 1);
            match parse_value(v, j) {
                Some((p, val)) => {
                    let w = ws_to(v, p);
                    let name = sub_string(v, i, e);
                    proof {
                        assert(step(v@, i as int, p as int) == p as int);
                    }
                    Some((w, (name, val)))
                },
                None => None,
            }
        } else {
            None
        }
    } else {
        None
    }
}

/// The arguments of a parenthesized list, starting just after the `(`.
fn parse_args(v: &Vec<char>, i: usize) -> (r: Option<(usize, Vec<(String, Value)>)>)
    requires
        i <= v@.len(),
    ensures
        match (r, spec_args_elems(v@, i as int)) {
            (Some((p, args)), Some((sp, sargs))) => p as int == sp && arg_models(args@) == sargs
                && i <= p <= v@.len(),
            (None, None) => true,
            _ => false,
        },
{
    let j = ws_to(v, i);
    match parse_argument(v, j) {
        None => {
            let args: Vec<(String, Value)> = Vec::new();
            assert(arg_models(args@) =~= Seq::<(Seq<char>, ValueV)>::empty());
            Some((i, args))
        },
        Some((p, a)) => {
            let q = ws_to(v, p);
            let ghost ga = a;
            let mut acc: Vec<(String, Value)> = Vec::new();
            acc.push(a);
            proof {
                assert(step(v@, i as int, p as int) == p as int);
                assert(arg_models(acc@) =~= seq![(ga.0@, value_model(ga.1))]);
            }
            parse_args_rest(v, q, acc)
        },
    }
}

/// Further `, name = value` groups of an argument list.
fn parse_args_rest(v: &Vec<char>, i: usize, acc: Vec<(String, Value)>) -> (r: Option<
    (usize, Vec<(String, Value)>),
>)
    requires
        i <= v@.len(),
    ensures
        match (r, spec_args_rest(v@, i as int, arg_models(acc@))) {
            (Some((p, args)), Some((sp, sargs))) => p as int == sp && arg_models(args@) == sargs
                && i <= p <= v@.len(),
            (None, None) => true,
            _ => false,
        },
    decreases v@.len() - i,
{
    if i < v.len() && v[i] == ',' {
        let j = ws_to(v, i + 1);
        match parse_argument(v, j) {
            None => Some((i, acc)),
            Some((p, a)) => {
                let q = ws_to(v, p);
                let ghost gacc = acc@;
                let ghost ga = a;
                let mut acc2 = acc;
                acc2.push(a);
                proof {
                    assert(step(v@, i + 1, p as int) == p as int);
                    assert(arg_models(acc2@) =~= arg_models(gacc).push((ga.0@, value_model(ga.1))));
                }
                parse_args_rest(v, q, acc2)
            },
        }
    } else {
        Some((i, acc))
    }
}

/// The rest of a shortcode after its name and optional argument list.
fn parse_shortcode_tail(v: &Vec<char>, i: usize, name: String, args: Vec<(String, Value)>) -> (r:
    Option<(usize, Shortcode)>)
    requires
        i <= v@.len(),
    ensures
        match (r, spec_shortcode_tail(v@, i as int, name@, arg_models(args@))) {
            (Some((p, sc)), Some((sp, ssc))) => p as int == sp && sc.deep_view() == ssc && i < p
                <= v@.len(),
            (None, None) => true,
            _ => false,
        },
{
    if lit3(v, i, '!', '}', '}') {
        assert(i + 3 <= v.len());
        let b = ws_to(v, i + 3);
        match find_marker(v, b) {
            None => None,
            Some(m) => {
                let body = sub_string(v, b, m);
                assert(m + 3 <= v.len());
                let t = ws_to(v, m + 3);
                if lit3(v, t, 'e', 'n', 'd') {
                    assert(t + 3 <= v.len());
                    let u = ws_to(v, t + 3);
                    if lit3(v, u, '!', '}', '}') {
                        let ghost gname = name@;
                        let ghost gargs = args@;
                        let sc = Shortcode { name, arguments: args, body };
                        proof {
                            assert(sc.deep_view().arguments =~= arg_models(gargs));
                        }
                        Some((u + 3, sc))
                    } else {
                        None
                    }
                } else {
                    None
                }
            },
        }
    } else {
        None
    }
}

/// A whole shortcode at position `i`, leading whitespace included.
fn parse_shortcode(v: &Vec<char>, i: usize) -> (r: Option<(usize, Shortcode)>)
    requires
        i <= v@.len(),
    ensures
        match (r, spec_shortcode(v@, i as int)) {
            (Some((p, sc)), Some((sp, ssc))) => p as int == sp && sc.deep_view() == ssc && i < p
                <= v@.len(),
            (None, None) => true,
            _ => false,
        },
{
    let j = ws_to(v, i);
    if !marker_here(v, j) {
        return None;
    }
    assert(j + 3 <= v.len());
    let k = ws_to(v, j + 3);
    if !(k < v.len() && (('a' <= v[k] && v[k] <= 'z') || ('A' <= v[k] && v[k] <= 'Z') || v[k]
        == '_')) {
        return None;
    }
    let e = ident_to(v, k + 1);
    let name = sub_string(v, k, e);
    let g = ws_to(v, e);
    if g < v.len() && v[g] == '(' {
        match parse_args(v, g + 1) {
            None => None,
            Some((p, args)) => if p < v.len() && v[p] == ')' {
                let h = ws_to(v, p + 1);
                parse_shortcode_tail(v, h, name, args)
            } else {
                None
            },
        }
    } else {
        let args: Vec<(String, Value)> = Vec::new();
        assert(arg_models(args@) =~= Seq::<(Seq<char>, ValueV)>::empty());
        parse_shortcode_tail(v, g, name, args)
    }
}

/// Composition of an already-parsed prefix with the outcome for the rest
/// of the input.
pub open spec fn compose_items(prefix: Seq<ItemV>, rest: Option<Seq<ItemV>>) -> Option<
    Seq<ItemV>,
> {
    match rest {
        Some(r) => Some(prefix + r),
        None => None,
    }
}

/// Parses a whole character vector into items, exactly as the grammar
/// derives them.
#[verifier::rlimit(60)]
fn parse_items_vec(v: &Vec<char>) -> (r: Option<Vec<Item>>)
    ensures
        match (r, spec_items(v@, 0)) {
            (Some(items), Some(sits)) => items.deep_view() == sits,
            (None, None) => true,
            _ => false,
        },
{
    let mut items: Vec<Item> = Vec::new();
    let mut cur: usize = 0;
    proof {
        assert(items.deep_view() =~= Seq::<ItemV>::empty());
        assert(compose_items(items.deep_view(), spec_items(v@, 0)) == spec_items(v@, 0));
    }
    loop
        invariant
            cur <= v@.len(),
            spec_items(v@, 0) == compose_items(items.deep_view(), spec_items(v@, cur as int)),
        decreases v@.len() - cur,
    {
        let ghost prefix = items.deep_view();
        match parse_shortcode(v, cur) {
            Some((p, sc)) => {
                let ghost gsc = sc.deep_view();
                items.push(Item::Shortcode(sc));
                proof {
                    assert(items.deep_view() =~= prefix.push(ItemV::Shortcode(gsc)));
                    assert(step(v@, cur as int, p as int) == p as int);
                    match spec_items(v@, p as int) {
                        Some(rest) => {
                            assert(spec_items(v@, cur as int) == Some(
                                seq![ItemV::Shortcode(gsc)] + rest,
                            ));
                            assert(prefix + (seq![ItemV::Shortcode(gsc)] + rest) =~= (
                            prefix.push(ItemV::Shortcode(gsc)) + rest));
                        },
                        None => {
                            assert(spec_items(v@, cur as int) is None);
                        },
                    }
                }
                cur = p;
            },
            None => {
                match find_marker(v, cur) {
                    None => {
                        let t = sub_string(v, cur, v.len());
                        let ghost gt = t@;
                        items.push(Item::Text(t));
                        proof {
                            assert(items.deep_view() =~= prefix.push(ItemV::Text(gt)));
                            if cur == v@.len() {
                                assert(gt =~= Seq::<char>::empty());
                            }
                            assert(spec_items(v@, cur as int) == Some(seq![ItemV::Text(gt)]));
                            assert(prefix + seq![ItemV::Text(gt)] =~= prefix.push(
                                ItemV::Text(gt),
                            ));
                        }
                        return Some(items);
                    },
                    Some(m) => {
                        if m == cur {
                            proof {
                                assert(marker_dist(v@, cur as int) == Some(0nat));
                                assert(spec_items(v@, cur as int) is None);
                            }
                            return None;
                        }
                        let t = sub_string(v, cur, m);
                        let ghost gt = t@;
                        items.push(Item::Text(t));
                        proof {
                            let d = marker_dist(v@, cur as int)->Some_0;
                            assert(items.deep_view() =~= prefix.push(ItemV::Text(gt)));
                            assert(step(v@, cur as int, cur + d) == m as int);
                            match spec_items(v@, m as int) {
                                Some(rest) => {
                                    assert(spec_items(v@, cur as int) == Some(
                                        seq![ItemV::Text(gt)] + rest,
                                    ));
                                    assert(prefix + (seq![ItemV::Text(gt)] + rest) =~= (
                                    prefix.push(ItemV::Text(gt)) + rest));
                                },
                                None => {
                                    assert(spec_items(v@, cur as int) is None);
                                },
                            }
                        }
                        cur = m;
                    },
                }
            },
        }
    }
}

/// An input the shortcode grammar rejects.
#[derive(Debug, PartialEq, Eq)]
pub struct ParseError;

/// Parses markdown source into its alternating sequence of literal text
/// and shortcode invocations. Returns `Ok` exactly on the inputs the
/// grammar accepts, and then exactly the items the grammar derives; an
/// opening marker that does not begin a well-formed shortcode rejects the
/// whole input.
pub fn parse(input: &str) -> (r: Result<Vec<Item>, ParseError>)
    ensures
        match r {
            Ok(items) => spec_parse(input@) == Some(items.deep_view()),
            Err(_) => spec_parse(input@) is None,
        },
{
    let v = str_to_chars(input);
    match parse_items_vec(&v) {
        Some(items) => Ok(items),
        None => Err(ParseError),
    }
}

/// Parses a single shortcode at the start of the input, leading
/// whitespace included, and returns it alone.
pub fn shortcode(input: &str) -> (r: Result<Shortcode, ParseError>)
    ensures
        match r {
            Ok(sc) => spec_shortcode(input@, 0) matches Some((p, ssc)) && sc.deep_view() == ssc,
            Err(_) => spec_shortcode(input@, 0) is None,
        },
{
    let v = str_to_chars(input);
    match parse_shortcode(&v, 0) {
        Some((_, sc)) => Ok(sc),
        None => Err(ParseError),
    }
}

} // verus!
