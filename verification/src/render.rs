//! Rendering through the external template engine: shortcode evaluation
//! and the JSON contexts handed to named templates. The engine is
//! consumed as a named-template-to-string renderer; every context it
//! sees is JSON text this library builds and proves exact.

use vstd::prelude::*;

use crate::json::{push_json_string, spec_json_string};
use crate::shortcode::{
    parse, spec_parse, Item, ItemV, ParseError, Shortcode, Value, ValueV,
};
use crate::strutil::push_char;

verus! {

#[verifier::external_type_specification]
#[verifier::external_body]
pub struct ExTera(tera::Tera);

#[verifier::external_type_specification]
#[verifier::external_body]
pub struct ExTeraContext(tera::Context);

/// Relies on `serde_json::from_str` and `tera::Context::from_serialize`:
/// decodes a JSON object into a template context.
#[verifier::external_body]
pub fn context_from_json(json: &str) -> Result<tera::Context, String> {
    let value: serde_json::Value = match serde_json::from_str(json) {
        Ok(v) => v,
        Err(e) => return Err(e.to_string()),
    };
    match tera::Context::from_serialize(&value) {
        Ok(c) => Ok(c),
        Err(e) => Err(e.to_string()),
    }
}

/// Relies on `tera::Tera::render`: renders the named template over the
/// context; the result depends on the engine's loaded templates.
#[verifier::external_body]
pub fn tera_render(t: &tera::Tera, name: &str, context: &tera::Context) -> Result<String, String> {
    match t.render(name, context) {
        Ok(s) => Ok(s),
        Err(e) => Err(e.to_string()),
    }
}

// ---------------------------------------------------------------------------
// JSON encodings of shortcode values and template contexts
// ---------------------------------------------------------------------------

/// The decimal rendering of a non-negative number.
pub open spec fn spec_uint_str(n: int) -> Seq<char>
    decreases n when n >= 0
{
    if n < 10 {
        seq![crate::datetime::digit_char(n)]
    } else {
        spec_uint_str(n / 10).push(crate::datetime::digit_char(n % 10))
    }
}

/// The decimal rendering of a number, minus sign included.
pub open spec fn spec_int_str(n: int) -> Seq<char> {
    if n < 0 {
        seq!['-'] + spec_uint_str(-n)
    } else {
        spec_uint_str(n)
    }
}

/// The JSON rendering of a shortcode value.
pub open spec fn spec_json_value(v: ValueV) -> Seq<char>
    decreases v,
{
    match v {
        ValueV::Bool(b) => if b {
            seq!['t', 'r', 'u', 'e']
        } else {
            seq!['f', 'a', 'l', 's', 'e']
        },
        ValueV::Number(n) => spec_int_str(n),
        ValueV::String(s) => spec_json_string(s),
        ValueV::List(items) => seq!['['] + spec_json_values(items) + seq![']'],
    }
}

/// The comma-separated JSON renderings of a list of values.
pub open spec fn spec_json_values(items: Seq<ValueV>) -> Seq<char>
    decreases items,
{
    if items.len() == 0 {
        Seq::empty()
    } else if items.len() == 1 {
        spec_json_value(items[0])
    } else {
        spec_json_values(items.drop_last()) + seq![','] + spec_json_value(items.last())
    }
}

/// Appends the decimal rendering of `n`.
fn push_u32_dec(out: &mut String, n: u32)
    ensures
        final(out)@ == old(out)@ + spec_uint_str(n as int),
    decreases n,
{
    if n < 10 {
        push_char(out, crate::datetime::digit_of(n));
    } else {
        push_u32_dec(out, n / 10);
        push_char(out, crate::datetime::digit_of(n % 10));
    }
}

/// Appends the JSON rendering of a shortcode value.
fn push_json_value(out: &mut String, v: &Value)
    ensures
        final(out)@ == old(out)@ + spec_json_value(v.deep_view()),
    decreases v,
{
    broadcast use vstd::std_specs::vec::group_vec_axioms;

    match v {
        Value::Bool(b) => {
            if *b {
                out.append("true");
                proof {
                    reveal_strlit("true");
                    assert(final(out)@ =~= old(out)@ + spec_json_value(v.deep_view()));
                }
            } else {
                out.append("false");
                proof {
                    reveal_strlit("false");
                    assert(final(out)@ =~= old(out)@ + spec_json_value(v.deep_view()));
                }
            }
        },
        Value::Number(n) => {
            let m = *n;
            if m < 0 {
                push_char(out, '-');
                let mag: u32 = if m == i32::MIN {
                    2147483648u32
                } else {
                    (-m) as u32
                };
                push_u32_dec(out, mag);
                proof {
                    assert(final(out)@ =~= old(out)@ + spec_json_value(v.deep_view()));
                }
            } else {
                push_u32_dec(out, m as u32);
                proof {
                    assert(final(out)@ =~= old(out)@ + spec_json_value(v.deep_view()));
                }
            }
        },
        Value::String(s) => {
            push_json_string(out, s.as_str());
            proof {
                assert(final(out)@ =~= old(out)@ + spec_json_value(v.deep_view()));
            }
        },
        Value::List(items) => {
            push_char(out, '[');
            let ghost base = out@;
            let mut k: usize = 0;
            proof {
                assert(crate::shortcode::value_models(items@.take(0)) =~= Seq::<ValueV>::empty());
            }
            while k < items.len()
                invariant
                    *v == Value::List(*items),
                    k <= items@.len(),
                    out@ == base + spec_json_values(
                        crate::shortcode::value_models(items@.take(k as int)),
                    ),
                decreases items@.len() - k,
            {
                let ghost pre = out@;
                let ghost models = crate::shortcode::value_models(items@.take(k as int));
                if k > 0 {
                    push_char(out, ',');
                }
                proof {
                    let l = v->List_0;
                    assert(decreases_to!(*v => l));
                    assert(decreases_to!(l => l@));
                    assert(decreases_to!(l@ => l@[k as int]));
                    assert(decreases_to!(*v => l@[k as int]));
                    assert(l == *items);
                }
                push_json_value(out, &items[k]);
                proof {
                    let m2 = crate::shortcode::value_models(items@.take(k + 1));
                    assert(items@.take(k + 1).drop_last() =~= items@.take(k as int));
                    assert(items@.take(k + 1).last() == items@[k as int]);
                    assert(m2 == models.push(crate::shortcode::value_model(items@[k as int])));
                    lemma_json_values_push(
                        models,
                        crate::shortcode::value_model(items@[k as int]),
                    );
                    assert(out@ =~= base + spec_json_values(m2));
                }
                k = k + 1;
            }
            proof {
                assert(items@.take(items@.len() as int) =~= items@);
            }
            push_char(out, ']');
            proof {
                assert(final(out)@ =~= old(out)@ + spec_json_value(v.deep_view()));
            }
        },
    }
}

/// Appending one more value to the comma-separated renderings.
proof fn lemma_json_values_push(items: Seq<ValueV>, x: ValueV)
    ensures
        items.len() == 0 ==> spec_json_values(items.push(x)) == spec_json_value(x),
        items.len() > 0 ==> spec_json_values(items.push(x)) == spec_json_values(items)
            + seq![','] + spec_json_value(x),
{
    if items.len() == 0 {
        assert(items.push(x).len() == 1);
        assert(items.push(x)[0] == x);
    } else {
        assert(items.push(x).drop_last() =~= items);
        assert(items.push(x).last() == x);
    }
}

/// The JSON rendering of a number.
pub fn int_json(n: i32) -> (r: String)
    ensures
        r@ == spec_int_str(n as int),
{
    let mut out = String::new();
    if n < 0 {
        push_char(&mut out, '-');
        let mag: u32 = if n == i32::MIN {
            2147483648u32
        } else {
            (-n) as u32
        };
        push_u32_dec(&mut out, mag);
        proof {
            assert(out@ =~= spec_int_str(n as int));
        }
    } else {
        push_u32_dec(&mut out, n as u32);
    }
    out
}

/// The JSON context a shortcode's template receives: its arguments in
/// order, then the raw body under `body`.
pub open spec fn spec_shortcode_context(
    args: Seq<(Seq<char>, ValueV)>,
    body: Seq<char>,
) -> Seq<char>
    decreases args.len(),
{
    if args.len() == 0 {
        seq!['{'] + spec_json_string(seq!['b', 'o', 'd', 'y']) + seq![':'] + spec_json_string(
            body,
        ) + seq!['}']
    } else {
        spec_members_then_body(args, body)
    }
}

/// The member list of a shortcode context with at least one argument.
pub open spec fn spec_members_then_body(
    args: Seq<(Seq<char>, ValueV)>,
    body: Seq<char>,
) -> Seq<char> {
    seq!['{'] + spec_arg_members(args) + seq![','] + spec_json_string(
        seq!['b', 'o', 'd', 'y'],
    ) + seq![':'] + spec_json_string(body) + seq!['}']
}

/// The comma-separated `"name": value` members for the arguments.
pub open spec fn spec_arg_members(args: Seq<(Seq<char>, ValueV)>) -> Seq<char>
    decreases args.len(),
{
    if args.len() == 0 {
        Seq::empty()
    } else if args.len() == 1 {
        spec_json_string(args[0].0) + seq![':'] + spec_json_value(args[0].1)
    } else {
        spec_arg_members(args.drop_last()) + seq![','] + spec_json_string(args.last().0) + seq![
            ':',
        ] + spec_json_value(args.last().1)
    }
}

/// Appending one more argument member.
proof fn lemma_arg_members_push(args: Seq<(Seq<char>, ValueV)>, x: (Seq<char>, ValueV))
    ensures
        args.len() == 0 ==> spec_arg_members(args.push(x)) == spec_json_string(x.0) + seq![':']
            + spec_json_value(x.1),
        args.len() > 0 ==> spec_arg_members(args.push(x)) == spec_arg_members(args) + seq![',']
            + spec_json_string(x.0) + seq![':'] + spec_json_value(x.1),
{
    if args.len() == 0 {
        assert(args.push(x).len() == 1);
        assert(args.push(x)[0] == x);
    } else {
        assert(args.push(x).drop_last() =~= args);
        assert(args.push(x).last() == x);
    }
}

/// Builds the JSON context for one shortcode invocation: its arguments as
/// members, in source order, then the raw body under `body`.
pub fn shortcode_context_json(sc: &Shortcode) -> (r: String)
    ensures
        r@ == spec_shortcode_context(sc.deep_view().arguments, sc.body@),
{
    let mut out = String::new();
    push_char(&mut out, '{');
    let ghost gargs = sc.deep_view().arguments;
    let mut k: usize = 0;
    while k < sc.arguments.len()
        invariant
            k <= sc.arguments@.len(),
            gargs == sc.deep_view().arguments,
            gargs.len() == sc.arguments@.len(),
            out@ == seq!['{'] + spec_arg_members(gargs.take(k as int)),
        decreases sc.arguments@.len() - k,
    {
        let ghost pre = gargs.take(k as int);
        if k > 0 {
            push_char(&mut out, ',');
        }
        push_json_string(&mut out, sc.arguments[k].0.as_str());
        push_char(&mut out, ':');
        push_json_value(&mut out, &sc.arguments[k].1);
        proof {
            lemma_arg_members_push(pre, gargs[k as int]);
            assert(gargs.take(k + 1) =~= pre.push(gargs[k as int]));
            assert(gargs[k as int].0 == sc.arguments@[k as int].0@);
            assert(gargs[k as int].1 == crate::shortcode::value_model(sc.arguments@[k as int].1));
            assert(out@ =~= seq!['{'] + spec_arg_members(gargs.take(k + 1)));
        }
        k = k + 1;
    }
    proof {
        assert(gargs.take(gargs.len() as int) =~= gargs);
    }
    if sc.arguments.len() > 0 {
        push_char(&mut out, ',');
    }
    push_json_string(&mut out, "body");
    push_char(&mut out, ':');
    push_json_string(&mut out, sc.body.as_str());
    push_char(&mut out, '}');
    proof {
        reveal_strlit("body");
        assert("body"@ =~= seq!['b', 'o', 'd', 'y']);
        assert(out@ =~= spec_shortcode_context(gargs, sc.body@));
    }
    out
}

/// The template a shortcode renders through: its own name with the
/// engine's template suffix.
pub fn shortcode_template_name(name: &str) -> (r: String)
    ensures
        r@ == name@ + ".html.tera"@,
{
    let mut r = String::from_str(name);
    r.append(".html.tera");
    r
}

/// Renders one shortcode invocation: looks up the template named after
/// the shortcode and passes its arguments and body as the context.
pub fn evaluate_shortcode(t: &tera::Tera, sc: &Shortcode) -> (r: Result<String, String>) {
    let json = shortcode_context_json(sc);
    let context = match context_from_json(json.as_str()) {
        Ok(c) => c,
        Err(e) => {
            return Err(e);
        },
    };
    let name = shortcode_template_name(sc.name.as_str());
    tera_render(t, name.as_str(), &context)
}

/// The concatenation of rendered parts, in order.
pub open spec fn spec_concat(parts: Seq<Seq<char>>) -> Seq<char>
    decreases parts.len(),
{
    if parts.len() == 0 {
        Seq::empty()
    } else {
        spec_concat(parts.drop_last()) + parts.last()
    }
}

/// How a part list corresponds to parsed items: one part per item, text
/// items contributing their text unchanged.
pub open spec fn parts_match(items: Seq<ItemV>, parts: Seq<Seq<char>>) -> bool {
    &&& parts.len() == items.len()
    &&& forall|i: int|
        0 <= i < items.len() ==> ((#[trigger] items[i]) matches ItemV::Text(t) ==> parts[i] == t)
}

/// Evaluates every shortcode in the input and splices the results back
/// between the literal text runs, in parse order. Returns `Err` exactly
/// when the grammar rejects the input or the engine fails on some
/// shortcode; on success the result is the concatenation, in order, of
/// each text item and each shortcode's rendering.
pub fn evaluate_shortcodes(t: &tera::Tera, input: &str) -> (r: Result<String, String>)
    ensures
        spec_parse(input@) is None ==> r is Err,
        r is Ok ==> spec_parse(input@) is Some,
        r matches Ok(out) ==> exists|parts: Seq<Seq<char>>|
            #[trigger] parts_match(spec_parse(input@)->Some_0, parts) && out@ == spec_concat(
                parts,
            ),
{
    let items = match parse(input) {
        Ok(items) => items,
        Err(_) => {
            return Err(String::from_str("shortcode syntax error"));
        },
    };
    let ghost gitems = items.deep_view();
    let mut out = String::new();
    let ghost mut parts_done: Seq<Seq<char>> = Seq::empty();
    let mut k: usize = 0;
    while k < items.len()
        invariant
            k <= items@.len(),
            gitems == items.deep_view(),
            gitems.len() == items@.len(),
            parts_done.len() == k,
            parts_match(gitems.take(k as int), parts_done),
            out@ == spec_concat(parts_done),
        decreases items@.len() - k,
    {
        let ghost pre_parts = parts_done;
        match &items[k] {
            Item::Text(txt) => {
                out.append(txt.as_str());
                proof {
                    parts_done = pre_parts.push(txt@);
                    assert(pre_parts.push(txt@).drop_last() =~= pre_parts);
                    assert(gitems.take(k + 1).drop_last() =~= gitems.take(k as int));
                    assert(gitems[k as int] == items@[k as int].deep_view());
                    assert forall|i: int|
                        0 <= i < k + 1 implies ((#[trigger] gitems.take(k + 1)[i]) matches
                        ItemV::Text(tx) ==> pre_parts.push(txt@)[i] == tx) by {
                        if i < k {
                            assert(gitems.take(k + 1)[i] == gitems.take(k as int)[i]);
                        }
                    }
                }
            },
            Item::Shortcode(sc) => {
                let rendered = match evaluate_shortcode(t, sc) {
                    Ok(s) => s,
                    Err(e) => {
                        return Err(e);
                    },
                };
                out.append(rendered.as_str());
                proof {
                    parts_done = pre_parts.push(rendered@);
                    assert(pre_parts.push(rendered@).drop_last() =~= pre_parts);
                    assert(gitems.take(k + 1).drop_last() =~= gitems.take(k as int));
                    assert(gitems[k as int] == items@[k as int].deep_view());
                    assert forall|i: int|
                        0 <= i < k + 1 implies ((#[trigger] gitems.take(k + 1)[i]) matches
                        ItemV::Text(tx) ==> pre_parts.push(rendered@)[i] == tx) by {
                        if i < k {
                            assert(gitems.take(k + 1)[i] == gitems.take(k as int)[i]);
                        }
                    }
                }
            },
        }
        k = k + 1;
    }
    proof {
        assert(gitems.take(gitems.len() as int) =~= gitems);
        assert(spec_parse(input@) == Some(gitems));
        assert(parts_match(spec_parse(input@)->Some_0, parts_done) && out@ == spec_concat(
            parts_done,
        ));
    }
    Ok(out)
}

} // verus!
