//! The parser: a token sequence to a nested-list AST.
//!
//! Tokens are consumed from the end of the input backward, building each list
//! by prepending, which yields left-to-right element order with O(1) list
//! operations.  A `)` token opens a nested parse that runs until the `(` that
//! matches it; a `(` with no matching `)`, or a `)` with no matching `(`, is
//! a parse error.  The program's top-level forms are collected under a
//! `progn` head, so that evaluating the parse of a multi-form program yields
//! the value of its last form.

use crate::host::{parse_fn, parse_ok};
use crate::list::List;
use crate::numbers::int_of_text;
use crate::program::{builtin_for, get_builtin, get_operator, item_val, list_vals, op_for, Builtin,
    Item, Val};
use crate::program::{lemma_list_vals_prepend};
use crate::strings::str_eq;
use vstd::prelude::*;
use vstd::string::{StrSliceExecFns, StringExecFns};

verus! {

/// A parenthesis mismatch.
#[derive(Clone, Copy, PartialEq, Eq, Structural, Debug)]
pub enum ParseError {
    /// A `)` with no `(` to match it.
    UnmatchedClose,
    /// A `(` with no `)` to match it.
    UnmatchedOpen,
}

pub open spec fn has_dot(t: Seq<char>) -> bool {
    exists|i: int| 0 <= i < t.len() && t[i] == '.'
}

/// How a single non-parenthesis token reads as a value: a float if it has a
/// dot and the host's float parser accepts it; else an integer if it reads as
/// one; then the boolean, operator, keyword, quoted-string and `nil` forms;
/// anything else is an identifier.
pub open spec fn atom_of(t: Seq<char>, hp: spec_fn(Seq<char>) -> Option<u32>) -> Val {
    if has_dot(t) && hp(t) is Some {
        Val::FloatV(hp(t)->0)
    } else if int_of_text(t) is Some {
        Val::NumV(int_of_text(t)->0)
    } else if t == "true"@ {
        Val::BoolV(true)
    } else if t == "false"@ {
        Val::BoolV(false)
    } else if op_for(t) is Some {
        Val::OpV(op_for(t)->0)
    } else if builtin_for(t) is Some {
        Val::BuiltinV(builtin_for(t)->0)
    } else if t.len() >= 2 && t[0] == '"' && t[t.len() - 1] == '"' {
        Val::StrV(t.subrange(1, t.len() - 1))
    } else if t == "nil"@ {
        Val::NilV
    } else {
        Val::IdentV(t)
    }
}

/// The backward walk: parses `toks[..end]` from the right.  Returns the
/// element values collected up to the terminator, in textual order, and the
/// position of the terminator.  Inside a nested list (`nested`) the
/// terminator is a `(`; at top level it is the beginning of the input.
/// `None` is a parenthesis mismatch.  The `fuel` only serves termination;
/// any `fuel > end` gives the same result.
pub open spec fn parse_rev_s(
    toks: Seq<Seq<char>>,
    end: int,
    nested: bool,
    hp: spec_fn(Seq<char>) -> Option<u32>,
    fuel: nat,
) -> Option<(Seq<Val>, int)>
    decreases fuel,
{
    if fuel == 0 {
        None
    } else if end <= 0 {
        if nested {
            None
        } else {
            Some((Seq::empty(), 0))
        }
    } else {
        let t = toks[end - 1];
        if t == ")"@ {
            match parse_rev_s(toks, end - 1, true, hp, (fuel - 1) as nat) {
                None => None,
                Some((inner, mid)) => match parse_rev_s(toks, mid, nested, hp, (fuel - 1) as nat) {
                    None => None,
                    Some((left, fin)) => Some((left.push(Val::ListV(inner)), fin)),
                },
            }
        } else if t == "("@ {
            if nested {
                Some((Seq::empty(), end - 1))
            } else {
                None
            }
        } else {
            match parse_rev_s(toks, end - 1, nested, hp, (fuel - 1) as nat) {
                None => None,
                Some((left, fin)) => Some((left.push(atom_of(t, hp)), fin)),
            }
        }
    }
}

/// A successful backward parse stops strictly before its starting point.
pub proof fn lemma_parse_rev_pos(
    toks: Seq<Seq<char>>,
    end: int,
    nested: bool,
    hp: spec_fn(Seq<char>) -> Option<u32>,
    fuel: nat,
)
    requires
        0 <= end,
    ensures
        match parse_rev_s(toks, end, nested, hp, fuel) {
            Some((vs, fin)) => 0 <= fin <= end && (end > 0 ==> fin < end),
            None => true,
        },
    decreases fuel,
{
    if fuel > 0 && end > 0 {
        let t = toks[end - 1];
        if t == ")"@ {
            lemma_parse_rev_pos(toks, end - 1, true, hp, (fuel - 1) as nat);
            match parse_rev_s(toks, end - 1, true, hp, (fuel - 1) as nat) {
                None => {},
                Some((inner, mid)) => {
                    lemma_parse_rev_pos(toks, mid, nested, hp, (fuel - 1) as nat);
                },
            }
        } else if t == "("@ {
        } else {
            lemma_parse_rev_pos(toks, end - 1, nested, hp, (fuel - 1) as nat);
        }
    }
}

/// The result does not depend on the fuel, as long as the fuel exceeds the
/// number of tokens in reach.
pub proof fn lemma_parse_rev_fuel(
    toks: Seq<Seq<char>>,
    end: int,
    nested: bool,
    hp: spec_fn(Seq<char>) -> Option<u32>,
    f1: nat,
    f2: nat,
)
    requires
        0 <= end,
        f1 > end,
        f2 > end,
    ensures
        parse_rev_s(toks, end, nested, hp, f1) == parse_rev_s(toks, end, nested, hp, f2),
    decreases end,
{
    if end > 0 {
        let t = toks[end - 1];
        if t == ")"@ {
            lemma_parse_rev_fuel(toks, end - 1, true, hp, (f1 - 1) as nat, (f2 - 1) as nat);
            lemma_parse_rev_fuel(toks, end - 1, true, hp, (f1 - 1) as nat, end as nat);
            match parse_rev_s(toks, end - 1, true, hp, (f1 - 1) as nat) {
                None => {},
                Some((inner, mid)) => {
                    lemma_parse_rev_pos(toks, end - 1, true, hp, (f1 - 1) as nat);
                    lemma_parse_rev_fuel(toks, mid, nested, hp, (f1 - 1) as nat, (f2 - 1) as nat);
                },
            }
        } else if t == "("@ {
        } else {
            lemma_parse_rev_fuel(toks, end - 1, nested, hp, (f1 - 1) as nat, (f2 - 1) as nat);
        }
    }
}

/// The whole program's parse: the top-level forms under a `progn` head.
pub open spec fn parse_spec(toks: Seq<Seq<char>>, hp: spec_fn(Seq<char>) -> Option<u32>) -> Option<
    Val,
> {
    match parse_rev_s(toks, toks.len() as int, false, hp, (toks.len() + 1) as nat) {
        None => None,
        Some((forms, fin)) => Some(
            Val::ListV(seq![Val::BuiltinV(Builtin::Progn)] + forms),
        ),
    }
}

fn contains_dot(s: &str) -> (r: bool)
    ensures
        r == has_dot(s@),
{
    let n = s.unicode_len();
    let mut i: usize = 0;
    while i < n
        invariant
            0 <= i <= n,
            n == s@.len(),
            forall|j: int| 0 <= j < i ==> s@[j] != '.',
        decreases n - i,
    {
        if s.get_char(i) == '.' {
            return true;
        }
        i = i + 1;
    }
    false
}

/// Reads one non-parenthesis token as a value, as `atom_of` describes.
fn parse_token<FP: Fn(&str) -> Option<u32>>(token: &String, fp: &FP) -> (r: Item)
    requires
        parse_ok(*fp),
    ensures
        r@ == atom_of(token@, parse_fn(*fp)),
{
    if contains_dot(token.as_str()) {
        match crate::host::apply_parse(fp, token.as_str()) {
            Some(bits) => {
                return Item::Float(bits);
            },
            None => {},
        }
    }
    match crate::numbers::parse_int(token.as_str()) {
        Some(n) => {
            return Item::Number(n);
        },
        None => {},
    }
    if str_eq(token.as_str(), "true") {
        Item::Boolean(true)
    } else if str_eq(token.as_str(), "false") {
        Item::Boolean(false)
    } else if let Some(op) = get_operator(token) {
        Item::Operator(op)
    } else if let Some(b) = get_builtin(token) {
        Item::Builtin(b)
    } else {
        let n = token.as_str().unicode_len();
        if n >= 2 && token.as_str().get_char(0) == '"' && token.as_str().get_char(n - 1) == '"' {
            Item::String(token.as_str().substring_char(1, n - 1).to_owned())
        } else if str_eq(token.as_str(), "nil") {
            Item::Nil
        } else {
            Item::Identifier(token.clone())
        }
    }
}

/// The backward walk over the tokens, building each list by prepending; see
/// `parse_rev_s` for the meaning of `nested` and of the result.
#[verifier::loop_isolation(false)]
pub fn parse_helper<FP: Fn(&str) -> Option<u32>>(
    tokens: &Vec<String>,
    pos: &mut usize,
    nested: bool,
    fp: &FP,
) -> (r: Result<Item, ParseError>)
    requires
        *old(pos) <= tokens@.len(),
        parse_ok(*fp),
    ensures
        *final(pos) <= *old(pos),
        match r {
            Ok(item) => item matches Item::List(l) && parse_rev_s(
                tokens.deep_view(),
                *old(pos) as int,
                nested,
                parse_fn(*fp),
                (*old(pos) + 1) as nat,
            ) == Some((list_vals(l), *final(pos) as int)),
            Err(e) => parse_rev_s(
                tokens.deep_view(),
                *old(pos) as int,
                nested,
                parse_fn(*fp),
                (*old(pos) + 1) as nat,
            ) is None,
        },
    decreases *old(pos),
{
    let ghost tv = tokens.deep_view();
    let ghost hp = parse_fn(*fp);
    let ghost end0 = *pos as int;
    let mut list: List<Item> = List::new();
    loop
        invariant
            end0 == *old(pos) as int,
            *pos <= end0 <= tokens@.len(),
            tv == tokens.deep_view(),
            hp == parse_fn(*fp),
            parse_ok(*fp),
            parse_rev_s(tv, end0, nested, hp, (end0 + 1) as nat) == (match parse_rev_s(
                tv,
                *pos as int,
                nested,
                hp,
                (*pos + 1) as nat,
            ) {
                None => None::<(Seq<Val>, int)>,
                Some((left, fin)) => Some((left + list_vals(list), fin)),
            }),
        decreases *pos,
    {
        if *pos == 0 {
            if nested {
                return Err(ParseError::UnmatchedClose);
            } else {
                proof {
                    assert(Seq::<Val>::empty() + list_vals(list) =~= list_vals(list));
                }
                return Ok(Item::List(list));
            }
        }
        let p = *pos;
        let t = &tokens[p - 1];
        proof {
            assert(tv[p - 1] == tokens@[p - 1]@);
        }
        *pos = p - 1;
        if str_eq(t.as_str(), ")") {
            match parse_helper(tokens, pos, true, fp) {
                Err(e) => {
                    return Err(e);
                },
                Ok(item) => {
                    let ghost mid = *pos as int;
                    match item {
                        Item::List(inner) => {
                            let ghost oldl = list;
                            let it2 = Item::List(inner);
                            let ghost git = it2;
                            let ghost iv = list_vals(inner);
                            let ghost lv = list_vals(list);
                            list = list.prepend(it2);
                            proof {
                                lemma_list_vals_prepend(list, oldl, git);
                                lemma_parse_rev_pos(tv, p - 1, true, hp, p as nat);
                                lemma_parse_rev_fuel(tv, mid, nested, hp, p as nat, (mid + 1) as nat);
                                match parse_rev_s(tv, mid, nested, hp, (mid + 1) as nat) {
                                    None => {},
                                    Some((left, fin)) => {
                                        assert(left.push(Val::ListV(iv)) + lv =~= left + (seq![
                                            Val::ListV(iv),
                                        ] + lv));
                                    },
                                }
                            }
                        },
                        _ => {
                            proof {
                                assert(false);
                            }
                            return Err(ParseError::UnmatchedClose);
                        },
                    }
                },
            }
        } else if str_eq(t.as_str(), "(") {
            if nested {
                proof {
                    assert(Seq::<Val>::empty() + list_vals(list) =~= list_vals(list));
                }
                return Ok(Item::List(list));
            } else {
                return Err(ParseError::UnmatchedOpen);
            }
        } else {
            let atom = parse_token(t, fp);
            let ghost oldl = list;
            let ghost ga = atom;
            let ghost lv = list_vals(list);
            let ghost av = atom@;
            list = list.prepend(atom);
            proof {
                lemma_list_vals_prepend(list, oldl, ga);
                match parse_rev_s(tv, p - 1, nested, hp, p as nat) {
                    None => {},
                    Some((left, fin)) => {
                        assert(left.push(av) + lv =~= left + (seq![av] + lv));
                    },
                }
            }
        }
    }
}

/// Parses a token sequence into the program's AST, as `parse_spec`
/// describes: the top-level forms are collected under a `progn` head, and a
/// parenthesis mismatch is an error.
pub fn parse<FP: Fn(&str) -> Option<u32>>(tokens: Vec<String>, fp: &FP) -> (r: Result<
    Item,
    ParseError,
>)
    requires
        parse_ok(*fp),
    ensures
        match r {
            Ok(item) => parse_spec(tokens.deep_view(), parse_fn(*fp)) == Some(item@),
            Err(e) => parse_spec(tokens.deep_view(), parse_fn(*fp)) is None,
        },
{
    let mut pos: usize = tokens.len();
    match parse_helper(&tokens, &mut pos, false, fp) {
        Err(e) => Err(e),
        Ok(item) => match item {
            Item::List(l) => {
                let l2 = l.prepend(Item::Builtin(Builtin::Progn));
                proof {
                    lemma_list_vals_prepend(l2, l, Item::Builtin(Builtin::Progn));
                }
                Ok(Item::List(l2))
            },
            _ => {
                proof {
                    assert(false);
                }
                Err(ParseError::UnmatchedClose)
            },
        },
    }
}

} // verus!

verus! {

/// The token sequence that serializes one form: an atom is its rendering as
/// a single token; a list is its elements' tokens between parentheses.
pub open spec fn form_tokens(v: Val, ht: spec_fn(u32) -> Seq<char>) -> Seq<Seq<char>>
    decreases v, 0int,
{
    match v {
        Val::ListV(items) => seq![seq!['(']] + forms_tokens(items, items.len() as int, ht) + seq![
            seq![')'],
        ],
        _ => seq![crate::render::render_val(v, ht)],
    }
}

/// The concatenated tokens of the first `count` forms.
pub open spec fn forms_tokens(items: Seq<Val>, count: int, ht: spec_fn(u32) -> Seq<char>) -> Seq<
    Seq<char>,
>
    decreases items, count, 1int,
{
    if count <= 0 || count > items.len() {
        Seq::empty()
    } else {
        forms_tokens(items, count - 1, ht) + form_tokens(items[count - 1], ht)
    }
}

/// A serializable form: each atom's rendering is a single lexable token
/// that reads back as the very atom, and a list's elements are serializable
/// in turn.  For floats this asks exactly that the host's renderer and
/// float parser invert each other on the value's bits.
pub open spec fn wf_form(
    v: Val,
    hp: spec_fn(Seq<char>) -> Option<u32>,
    ht: spec_fn(u32) -> Seq<char>,
) -> bool
    decreases v, 0int,
{
    match v {
        Val::ListV(items) => wf_forms(items, items.len() as int, hp, ht),
        _ => {
            let t = crate::render::render_val(v, ht);
            &&& atom_of(t, hp) == v
            &&& crate::lexer::emitted_token(t)
            &&& t != seq!['(']
            &&& t != seq![')']
        },
    }
}

pub open spec fn wf_forms(
    items: Seq<Val>,
    count: int,
    hp: spec_fn(Seq<char>) -> Option<u32>,
    ht: spec_fn(u32) -> Seq<char>,
) -> bool
    decreases items, count, 1int,
{
    if count <= 0 || count > items.len() {
        true
    } else {
        wf_forms(items, count - 1, hp, ht) && wf_form(items[count - 1], hp, ht)
    }
}

/// The backward walk reads only leftward of its starting point: tokens
/// beyond it do not matter.
pub proof fn lemma_parse_prefix_only(
    a: Seq<Seq<char>>,
    b: Seq<Seq<char>>,
    end: int,
    nested: bool,
    hp: spec_fn(Seq<char>) -> Option<u32>,
    fuel: nat,
)
    requires
        0 <= end <= a.len(),
    ensures
        parse_rev_s(a + b, end, nested, hp, fuel) == parse_rev_s(a, end, nested, hp, fuel),
    decreases fuel,
{
    if fuel > 0 && end > 0 {
        assert((a + b)[end - 1] == a[end - 1]);
        let t = a[end - 1];
        if t == ")"@ {
            lemma_parse_prefix_only(a, b, end - 1, true, hp, (fuel - 1) as nat);
            match parse_rev_s(a, end - 1, true, hp, (fuel - 1) as nat) {
                None => {},
                Some((inner, mid)) => {
                    lemma_parse_rev_pos(a, end - 1, true, hp, (fuel - 1) as nat);
                    lemma_parse_prefix_only(a, b, mid, nested, hp, (fuel - 1) as nat);
                },
            }
        } else if t == "("@ {
        } else {
            lemma_parse_prefix_only(a, b, end - 1, nested, hp, (fuel - 1) as nat);
        }
    }
}

/// Parsing absorbs a serialized form from the right: the tokens of a
/// serializable form, appended to any token sequence, parse to the form's
/// value pushed onto whatever the remaining tokens parse to.
pub proof fn lemma_parse_form(
    prefix: Seq<Seq<char>>,
    v: Val,
    nested: bool,
    hp: spec_fn(Seq<char>) -> Option<u32>,
    ht: spec_fn(u32) -> Seq<char>,
)
    requires
        wf_form(v, hp, ht),
    ensures
        ({
            let toks = prefix + form_tokens(v, ht);
            parse_rev_s(toks, toks.len() as int, nested, hp, (toks.len() + 1) as nat) == (
            match parse_rev_s(prefix, prefix.len() as int, nested, hp, (prefix.len() + 1) as nat) {
                None => None::<(Seq<Val>, int)>,
                Some((left, fin)) => Some((left.push(v), fin)),
            })
        }),
    decreases v, 1int,
{
    let toks = prefix + form_tokens(v, ht);
    let end = toks.len() as int;
    reveal_strlit("(");
    reveal_strlit(")");
    assert("("@ =~= seq!['(']);
    assert(")"@ =~= seq![')']);
    match v {
        Val::ListV(items) => {
            let n = items.len() as int;
            let inner = forms_tokens(items, n, ht);
            assert(toks =~= (prefix + seq![seq!['(']] + inner) + seq![seq![')']]);
            assert(toks[end - 1] == seq![')']);
            assert(toks[end - 1] == ")"@);
            // The nested walk below the `)` parses the elements and stops on
            // the `(`.
            lemma_parse_forms(prefix, items, n, hp, ht);
            let a = prefix + seq![seq!['(']] + inner;
            assert(toks =~= a + seq![seq![')']]);
            assert(a.len() + 1 == end);
            lemma_parse_prefix_only(a, seq![seq![')']], end - 1, true, hp, end as nat);
            assert(parse_rev_s(toks, end - 1, true, hp, end as nat) == Some(
                (items.subrange(0, n), prefix.len() as int),
            ));
            assert(items.subrange(0, n) =~= items);
            // Continue to the left of the whole form.
            let mid = prefix.len() as int;
            assert(mid < end - 1);
            lemma_parse_prefix_only(
                prefix,
                seq![seq!['(']] + inner + seq![seq![')']],
                mid,
                nested,
                hp,
                end as nat,
            );
            assert(toks =~= prefix + (seq![seq!['(']] + inner + seq![seq![')']]));
            lemma_parse_rev_fuel(prefix, mid, nested, hp, end as nat, (mid + 1) as nat);
        },
        _ => {
            let t = crate::render::render_val(v, ht);
            assert(form_tokens(v, ht) =~= seq![t]);
            assert(toks[end - 1] == t);
            assert(t != ")"@ && t != "("@);
            lemma_parse_prefix_only(prefix, seq![t], end - 1, nested, hp, end as nat);
            assert(toks =~= prefix + seq![t]);
            assert(end - 1 == prefix.len());
        },
    }
}

/// The nested walk over serialized forms: below a `)`, the serialized
/// elements parse back to themselves, and the walk stops on the matching
/// `(`.
pub proof fn lemma_parse_forms(
    prefix: Seq<Seq<char>>,
    items: Seq<Val>,
    count: int,
    hp: spec_fn(Seq<char>) -> Option<u32>,
    ht: spec_fn(u32) -> Seq<char>,
)
    requires
        0 <= count <= items.len(),
        wf_forms(items, count, hp, ht),
    ensures
        ({
            let toks = prefix + seq![seq!['(']] + forms_tokens(items, count, ht);
            parse_rev_s(toks, toks.len() as int, true, hp, (toks.len() + 1) as nat) == Some(
                (items.subrange(0, count), prefix.len() as int),
            )
        }),
    decreases items, count, 0int,
{
    reveal_strlit("(");
    reveal_strlit(")");
    assert("("@ =~= seq!['(']);
    assert(")"@ =~= seq![')']);
    let toks = prefix + seq![seq!['(']] + forms_tokens(items, count, ht);
    let end = toks.len() as int;
    if count == 0 {
        assert(forms_tokens(items, 0, ht) =~= Seq::<Seq<char>>::empty());
        assert(toks =~= prefix + seq![seq!['(']]);
        assert(toks[end - 1] == seq!['(']);
        assert(toks[end - 1] == "("@);
        assert(toks[end - 1] != ")"@) by {
            assert(("("@)[0] == '(' && (")"@)[0] == ')');
        }
        assert(items.subrange(0, 0) =~= Seq::<Val>::empty());
    } else {
        let shorter = prefix + seq![seq!['(']] + forms_tokens(items, count - 1, ht);
        assert(toks =~= shorter + form_tokens(items[count - 1], ht));
        lemma_parse_forms(prefix, items, count - 1, hp, ht);
        lemma_parse_form(shorter, items[count - 1], true, hp, ht);
        assert(items.subrange(0, count - 1).push(items[count - 1]) =~= items.subrange(0, count));
    }
}

/// The serialization of a whole program: its top-level forms' tokens, in
/// order.
pub open spec fn program_tokens(forms: Seq<Val>, ht: spec_fn(u32) -> Seq<char>) -> Seq<Seq<char>> {
    forms_tokens(forms, forms.len() as int, ht)
}

/// The top-level walk over serialized forms.
pub proof fn lemma_parse_top(
    forms: Seq<Val>,
    count: int,
    hp: spec_fn(Seq<char>) -> Option<u32>,
    ht: spec_fn(u32) -> Seq<char>,
)
    requires
        0 <= count <= forms.len(),
        wf_forms(forms, count, hp, ht),
    ensures
        ({
            let toks = forms_tokens(forms, count, ht);
            parse_rev_s(toks, toks.len() as int, false, hp, (toks.len() + 1) as nat) == Some(
                (forms.subrange(0, count), 0int),
            )
        }),
    decreases forms, count, 0int,
{
    let toks = forms_tokens(forms, count, ht);
    if count == 0 {
        assert(toks =~= Seq::<Seq<char>>::empty());
        assert(forms.subrange(0, 0) =~= Seq::<Val>::empty());
    } else {
        let shorter = forms_tokens(forms, count - 1, ht);
        assert(toks =~= shorter + form_tokens(forms[count - 1], ht));
        lemma_parse_top(forms, count - 1, hp, ht);
        assert(shorter =~= Seq::<Seq<char>>::empty() + shorter);
        lemma_parse_form(shorter, forms[count - 1], false, hp, ht);
        assert(forms.subrange(0, count - 1).push(forms[count - 1]) =~= forms.subrange(0, count));
    }
}

/// Re-parsing a serialized program yields the same AST: for serializable
/// top-level forms, the parse of their tokens is the forms under the
/// `progn` head again.
pub proof fn lemma_parse_round_trip(
    forms: Seq<Val>,
    hp: spec_fn(Seq<char>) -> Option<u32>,
    ht: spec_fn(u32) -> Seq<char>,
)
    requires
        wf_forms(forms, forms.len() as int, hp, ht),
    ensures
        parse_spec(program_tokens(forms, ht), hp) == Some(
            Val::ListV(seq![Val::BuiltinV(Builtin::Progn)] + forms),
        ),
{
    lemma_parse_top(forms, forms.len() as int, hp, ht);
    assert(forms.subrange(0, forms.len() as int) =~= forms);
}

} // verus!

verus! {

/// Every token of a serialized form is a token the lexer can emit.
pub proof fn lemma_form_tokens_emitted(
    v: Val,
    hp: spec_fn(Seq<char>) -> Option<u32>,
    ht: spec_fn(u32) -> Seq<char>,
)
    requires
        wf_form(v, hp, ht),
    ensures
        forall|k: int|
            0 <= k < form_tokens(v, ht).len() ==> crate::lexer::emitted_token(
                #[trigger] form_tokens(v, ht)[k],
            ),
    decreases v, 1int,
{
    match v {
        Val::ListV(items) => {
            let n = items.len() as int;
            lemma_forms_tokens_emitted(items, n, hp, ht);
            assert(crate::lexer::emitted_token(seq!['(']));
            assert(crate::lexer::emitted_token(seq![')']));
            assert forall|k: int| 0 <= k < form_tokens(v, ht).len() implies
                crate::lexer::emitted_token(#[trigger] form_tokens(v, ht)[k]) by {
                let toks = form_tokens(v, ht);
                let inner = forms_tokens(items, n, ht);
                if k == 0 {
                    assert(toks[0] =~= seq!['(']);
                } else if k < toks.len() - 1 {
                    assert(toks[k] == inner[k - 1]);
                } else {
                    assert(toks[k] =~= seq![')']);
                }
            }
        },
        _ => {
            assert(form_tokens(v, ht)[0] == crate::render::render_val(v, ht));
        },
    }
}

pub proof fn lemma_forms_tokens_emitted(
    items: Seq<Val>,
    count: int,
    hp: spec_fn(Seq<char>) -> Option<u32>,
    ht: spec_fn(u32) -> Seq<char>,
)
    requires
        0 <= count <= items.len(),
        wf_forms(items, count, hp, ht),
    ensures
        forall|k: int|
            0 <= k < forms_tokens(items, count, ht).len() ==> crate::lexer::emitted_token(
                #[trigger] forms_tokens(items, count, ht)[k],
            ),
    decreases items, count, 0int,
{
    if count > 0 {
        lemma_forms_tokens_emitted(items, count - 1, hp, ht);
        lemma_form_tokens_emitted(items[count - 1], hp, ht);
        assert forall|k: int| 0 <= k < forms_tokens(items, count, ht).len() implies
            crate::lexer::emitted_token(#[trigger] forms_tokens(items, count, ht)[k]) by {
            let shorter = forms_tokens(items, count - 1, ht);
            let last = form_tokens(items[count - 1], ht);
            if k < shorter.len() {
                assert(forms_tokens(items, count, ht)[k] == shorter[k]);
            } else {
                assert(forms_tokens(items, count, ht)[k] == last[k - shorter.len()]);
            }
        }
    }
}

/// Serialization inverts parsing at the text level too: the serialized
/// program text tokenizes back to the serialized tokens, and those parse
/// back to the same AST.
pub proof fn lemma_serialize_round_trip(
    forms: Seq<Val>,
    hp: spec_fn(Seq<char>) -> Option<u32>,
    ht: spec_fn(u32) -> Seq<char>,
)
    requires
        wf_forms(forms, forms.len() as int, hp, ht),
    ensures
        ({
            let toks = program_tokens(forms, ht);
            let text = crate::lexer::join_tokens(toks);
            &&& crate::lexer::lex_spec(text) == Some(toks)
            &&& parse_spec(toks, hp) == Some(
                Val::ListV(seq![Val::BuiltinV(Builtin::Progn)] + forms),
            )
        }),
{
    lemma_forms_tokens_emitted(forms, forms.len() as int, hp, ht);
    crate::lexer::lemma_relex_tokens(program_tokens(forms, ht));
    lemma_parse_round_trip(forms, hp, ht);
}

/// The round trip of a whole well-formed program: parsing its text,
/// serializing the parsed forms, and parsing the serialization again yields
/// a structurally equal AST.
pub proof fn lemma_program_round_trip(
    text: Seq<char>,
    forms: Seq<Val>,
    hp: spec_fn(Seq<char>) -> Option<u32>,
    ht: spec_fn(u32) -> Seq<char>,
)
    requires
        crate::lexer::lex_spec(text) is Some,
        parse_spec(crate::lexer::lex_spec(text)->0, hp) == Some(
            Val::ListV(seq![Val::BuiltinV(Builtin::Progn)] + forms),
        ),
        wf_forms(forms, forms.len() as int, hp, ht),
    ensures
        ({
            let text2 = crate::lexer::join_tokens(program_tokens(forms, ht));
            &&& crate::lexer::lex_spec(text2) is Some
            &&& parse_spec(crate::lexer::lex_spec(text2)->0, hp) == parse_spec(
                crate::lexer::lex_spec(text)->0,
                hp,
            )
        }),
{
    lemma_serialize_round_trip(forms, hp, ht);
}

} // verus!

verus! {

/// A non-negative integer value is always serializable: its decimal
/// rendering reads back as the same value under any host.
pub proof fn lemma_wf_num(
    n: i32,
    hp: spec_fn(Seq<char>) -> Option<u32>,
    ht: spec_fn(u32) -> Seq<char>,
)
    requires
        n >= 0,
    ensures
        wf_form(Val::NumV(n), hp, ht),
{
    let t = crate::numbers::dec_str(n as int);
    crate::numbers::lemma_dec_str_digits(n as int);
    crate::numbers::lemma_int_round_trip(n);
    assert(!has_dot(t)) by {
        assert(forall|i: int|
            0 <= i < t.len() ==> crate::numbers::is_digit(#[trigger] t[i]) && t[i] != '.');
    }
    assert(crate::lexer::emitted_token(t)) by {
        assert(crate::lexer::num_token(t));
    }
    reveal_strlit("(");
    reveal_strlit(")");
    assert(t != seq!['(']) by {
        assert(crate::numbers::is_digit(t[0]) && t[0] != '(');
    }
    assert(t != seq![')']) by {
        assert(t[0] != ')');
    }
    assert(atom_of(t, hp) == Val::NumV(n));
}

/// The boolean and nil values are always serializable.
pub proof fn lemma_wf_simple_atoms(
    hp: spec_fn(Seq<char>) -> Option<u32>,
    ht: spec_fn(u32) -> Seq<char>,
)
    ensures
        wf_form(Val::BoolV(true), hp, ht),
        wf_form(Val::BoolV(false), hp, ht),
        wf_form(Val::NilV, hp, ht),
{
    reveal_strlit("true");
    reveal_strlit("false");
    reveal_strlit("nil");
    reveal_strlit("(");
    reveal_strlit(")");
    lemma_wf_keyword_like("true"@, hp);
    lemma_wf_keyword_like("false"@, hp);
    lemma_wf_keyword_like("nil"@, hp);
    assert(atom_of("true"@, hp) == Val::BoolV(true));
    assert(atom_of("false"@, hp) == Val::BoolV(false));
    assert("nil"@ != "true"@ && "nil"@ != "false"@) by {
        assert(("nil"@).len() == 3 && ("true"@).len() == 4 && ("false"@).len() == 5);
    }
    assert(crate::program::op_for("nil"@) is None) by {
        reveal_strlit("*");
        reveal_strlit("+");
        reveal_strlit("/");
        reveal_strlit("-");
        reveal_strlit("^");
        reveal_strlit("exp");
        reveal_strlit("log");
        reveal_strlit("ln");
        reveal_strlit("sin");
        reveal_strlit("rec");
        reveal_strlit("eq");
        reveal_strlit("==");
        reveal_strlit("neq");
        reveal_strlit("!=");
        reveal_strlit("lt");
        reveal_strlit("<");
        reveal_strlit("gt");
        reveal_strlit(">");
        reveal_strlit("lte");
        reveal_strlit("<=");
        reveal_strlit("gte");
        reveal_strlit(">=");
        reveal_strlit("or");
        reveal_strlit("and");
        reveal_strlit("not");
        assert(("nil"@).len() == 3 && ("nil"@)[0] == 'n' && ("nil"@)[1] == 'i');
    }
    assert(crate::program::builtin_for("nil"@) is None) by {
        assert(("nil"@)[0] == 'n');
        assert(("nil"@).len() == 3);
        reveal_strlit("func");
        reveal_strlit("progn");
        reveal_strlit("print");
        reveal_strlit("let");
        reveal_strlit("if");
        reveal_strlit("input");
        reveal_strlit("cat");
        assert(("let"@)[0] == 'l' && ("if"@)[0] == 'i' && ("cat"@)[0] == 'c');
        assert(("func"@)[0] == 'f' && ("progn"@)[0] == 'p' && ("print"@)[0] == 'p');
        assert(("input"@)[1] == 'n' && ("nil"@)[1] == 'i');
    }
    assert(atom_of("nil"@, hp) == Val::NilV);
}

/// A word of lowercase letters with no dot and no digits: not a float, not
/// an integer, not quoted, not a parenthesis, and a lexable identifier-like
/// token.
proof fn lemma_wf_keyword_like(t: Seq<char>, hp: spec_fn(Seq<char>) -> Option<u32>)
    requires
        t.len() >= 1,
        forall|i: int| 0 <= i < t.len() ==> crate::lexer::is_lower(#[trigger] t[i]),
    ensures
        !has_dot(t),
        crate::numbers::int_of_text(t) is None,
        crate::lexer::emitted_token(t),
        t != seq!['('],
        t != seq![')'],
        !(t.len() >= 2 && t[0] == '"' && t[t.len() - 1] == '"'),
{
    assert(!has_dot(t)) by {
        assert(forall|i: int|
            0 <= i < t.len() ==> crate::lexer::is_lower(#[trigger] t[i]) && t[i] != '.');
    }
    assert(crate::numbers::int_of_text(t) is None) by {
        assert(crate::lexer::is_lower(t[0]));
        assert(t[0] != '-' && t[0] != '+');
        assert(!crate::numbers::is_digit(t[0]));
        assert(!crate::numbers::all_digits(t));
    }
    assert(crate::lexer::emitted_token(t)) by {
        assert(crate::lexer::ident_token(t)) by {
            assert(forall|i: int|
                1 <= i < t.len() ==> crate::lexer::is_ident_char(#[trigger] t[i]));
        }
    }
    assert(t[0] != '(' && t[0] != ')' && t[0] != '"');
}

} // verus!

verus! {

/// A sequence of forms is serializable when each form is.
pub proof fn lemma_wf_forms_of_all(
    items: Seq<Val>,
    count: int,
    hp: spec_fn(Seq<char>) -> Option<u32>,
    ht: spec_fn(u32) -> Seq<char>,
)
    requires
        0 <= count <= items.len(),
        forall|k: int| 0 <= k < count ==> wf_form(#[trigger] items[k], hp, ht),
    ensures
        wf_forms(items, count, hp, ht),
    decreases count,
{
    if count > 0 {
        lemma_wf_forms_of_all(items, count - 1, hp, ht);
    }
}

/// An operator value is always serializable: its canonical symbol reads
/// back as the same operator.
#[verifier::rlimit(60)]
pub proof fn lemma_wf_op(
    op: crate::program::Operator,
    hp: spec_fn(Seq<char>) -> Option<u32>,
    ht: spec_fn(u32) -> Seq<char>,
)
    ensures
        wf_form(Val::OpV(op), hp, ht),
{
    reveal_strlit("(");
    reveal_strlit(")");
    reveal_strlit("true");
    reveal_strlit("false");
    reveal_strlit("*");
    reveal_strlit("+");
    reveal_strlit("/");
    reveal_strlit("-");
    reveal_strlit("^");
    reveal_strlit("exp");
    reveal_strlit("log");
    reveal_strlit("ln");
    reveal_strlit("sin");
    reveal_strlit("rec");
    reveal_strlit("eq");
    reveal_strlit("==");
    reveal_strlit("neq");
    reveal_strlit("!=");
    reveal_strlit("lt");
    reveal_strlit("<");
    reveal_strlit("gt");
    reveal_strlit(">");
    reveal_strlit("lte");
    reveal_strlit("<=");
    reveal_strlit("gte");
    reveal_strlit(">=");
    reveal_strlit("or");
    reveal_strlit("and");
    reveal_strlit("not");
    let t = crate::render::op_text(op);
    assert(!has_dot(t)) by {
        assert(forall|i: int| 0 <= i < t.len() ==> #[trigger] t[i] != '.');
    }
    assert(crate::numbers::int_of_text(t) is None) by {
        if t[0] == '-' || t[0] == '+' {
            assert(t.len() == 1);
            assert(t.drop_first().len() == 0);
        } else {
            assert(!crate::numbers::is_digit(t[0]));
            assert(!crate::numbers::all_digits(t));
        }
    }
    assert(t != "true"@ && t != "false"@);
    match op {
        crate::program::Operator::BinaryOperator(b) => {
            match b {
                crate::program::BinaryOperator::Mul => {
                    assert(t == "*"@);
                    assert(crate::program::op_for(t) == Some(op));
                },
                crate::program::BinaryOperator::Div => {
                    assert(t == "/"@);
                    assert(crate::program::op_for(t) == Some(op));
                },
                crate::program::BinaryOperator::Add => {
                    assert(t == "+"@);
                    assert(crate::program::op_for(t) == Some(op));
                },
                crate::program::BinaryOperator::Sub => {
                    assert(t == "-"@);
                    assert(crate::program::op_for(t) == Some(op));
                },
            }
        },
        crate::program::Operator::BinaryComparator(c) => {
            match c {
                crate::program::BinaryComparator::Eq => {
                    assert(t == "=="@);
                    assert(crate::program::op_for(t) == Some(op));
                },
                crate::program::BinaryComparator::Neq => {
                    assert(t == "!="@);
                    assert(crate::program::op_for(t) == Some(op));
                },
                crate::program::BinaryComparator::Lt => {
                    assert(t == "<"@);
                    assert(crate::program::op_for(t) == Some(op));
                },
                crate::program::BinaryComparator::Gt => {
                    assert(t == ">"@);
                    assert(crate::program::op_for(t) == Some(op));
                },
                crate::program::BinaryComparator::Lte => {
                    assert(t == "<="@);
                    assert(crate::program::op_for(t) == Some(op));
                },
                crate::program::BinaryComparator::Gte => {
                    assert(t == ">="@);
                    assert(crate::program::op_for(t) == Some(op));
                },
            }
        },
        crate::program::Operator::UnaryOperator(u) => {
            match u {
                crate::program::UnaryOperator::Exp => {
                    assert(t == "exp"@);
                    assert(crate::program::op_for(t) == Some(op));
                },
                crate::program::UnaryOperator::Log => {
                    assert(t == "log"@);
                    assert(crate::program::op_for(t) == Some(op));
                },
                crate::program::UnaryOperator::Sin => {
                    assert(t == "sin"@);
                    assert(crate::program::op_for(t) == Some(op));
                },
                crate::program::UnaryOperator::Rec => {
                    assert(t == "rec"@);
                    assert(crate::program::op_for(t) == Some(op));
                },
            }
        },
        crate::program::Operator::BooleanOperator(o) => {
            match o {
                crate::program::BooleanOperator::Or => {
                    assert(t == "or"@);
                    assert(crate::program::op_for(t) == Some(op));
                },
                crate::program::BooleanOperator::And => {
                    assert(t == "and"@);
                    assert(crate::program::op_for(t) == Some(op));
                },
                crate::program::BooleanOperator::Not => {
                    assert(t == "not"@);
                    assert(t != "*"@ && t != "+"@ && t != "/"@ && t != "-"@);
                    assert(t != "^"@ && t != "exp"@);
                    assert(t != "log"@ && t != "ln"@);
                    assert(t != "sin"@);
                    assert(t != "rec"@);
                    assert(t != "eq"@ && t != "=="@);
                    assert(("not"@)[1] == 'o' && ("neq"@)[1] == 'e');
                    assert(t != "neq"@ && t != "!="@);
                    assert(t != "lt"@ && t != "<"@);
                    assert(t != "gt"@ && t != ">"@);
                    assert(t != "lte"@ && t != "<="@);
                    assert(t != "gte"@ && t != ">="@);
                    assert(t != "or"@);
                    assert(t != "and"@);
                    assert(crate::program::op_for(t) == Some(op));
                },
            }
        },
    }
    assert(crate::program::op_for(t) == Some(op));
    assert(crate::lexer::emitted_token(t)) by {
        match op {
            crate::program::Operator::UnaryOperator(_) => {
                assert(crate::lexer::ident_token(t)) by {
                    assert(forall|i: int|
                        0 <= i < t.len() ==> crate::lexer::is_ident_char(#[trigger] t[i]));
                }
            },
            crate::program::Operator::BooleanOperator(_) => {
                assert(crate::lexer::ident_token(t)) by {
                    assert(forall|i: int|
                        0 <= i < t.len() ==> crate::lexer::is_ident_char(#[trigger] t[i]));
                }
            },
            crate::program::Operator::BinaryComparator(c) => {
                if c == crate::program::BinaryComparator::Eq || c
                    == crate::program::BinaryComparator::Neq || c
                    == crate::program::BinaryComparator::Lt || c
                    == crate::program::BinaryComparator::Gt || c
                    == crate::program::BinaryComparator::Lte || c
                    == crate::program::BinaryComparator::Gte {
                    assert(crate::lexer::op_token(t)) by {
                        assert(forall|i: int|
                            0 <= i < t.len() ==> crate::lexer::is_op_char(#[trigger] t[i]));
                    }
                }
            },
            crate::program::Operator::BinaryOperator(_) => {
                assert(crate::lexer::op_token(t)) by {
                    assert(forall|i: int|
                        0 <= i < t.len() ==> crate::lexer::is_op_char(#[trigger] t[i]));
                }
            },
        }
    }
    assert(t != seq!['('] && t != seq![')']) by {
        assert(t[0] != '(' && t[0] != ')');
    }
}

/// A special-form keyword value is always serializable.
pub proof fn lemma_wf_builtin(
    b: crate::program::Builtin,
    hp: spec_fn(Seq<char>) -> Option<u32>,
    ht: spec_fn(u32) -> Seq<char>,
)
    ensures
        wf_form(Val::BuiltinV(b), hp, ht),
{
    reveal_strlit("(");
    reveal_strlit(")");
    reveal_strlit("true");
    reveal_strlit("false");
    reveal_strlit("func");
    reveal_strlit("progn");
    reveal_strlit("print");
    reveal_strlit("let");
    reveal_strlit("if");
    reveal_strlit("input");
    reveal_strlit("cat");
    reveal_strlit("*");
    reveal_strlit("+");
    reveal_strlit("/");
    reveal_strlit("-");
    reveal_strlit("^");
    reveal_strlit("exp");
    reveal_strlit("log");
    reveal_strlit("ln");
    reveal_strlit("sin");
    reveal_strlit("rec");
    reveal_strlit("eq");
    reveal_strlit("==");
    reveal_strlit("neq");
    reveal_strlit("!=");
    reveal_strlit("lt");
    reveal_strlit("<");
    reveal_strlit("gt");
    reveal_strlit(">");
    reveal_strlit("lte");
    reveal_strlit("<=");
    reveal_strlit("gte");
    reveal_strlit(">=");
    reveal_strlit("or");
    reveal_strlit("and");
    reveal_strlit("not");
    let t = crate::render::builtin_text(b);
    lemma_wf_keyword_like(t, hp);
    assert(t != "true"@ && t != "false"@) by {
        assert(("true"@)[0] == 't' && ("false"@)[0] == 'f');
        assert(("true"@).len() == 4 && ("false"@).len() == 5);
        match b {
            crate::program::Builtin::Func => {
                assert(t == "func"@ && t.len() == 4 && t[1] == 'u' && ("true"@)[1] == 'r');
            },
            _ => {},
        }
    }
    assert(crate::program::op_for(t) is None) by {
        assert(("exp"@)[0] == 'e' && ("log"@)[0] == 'l' && ("ln"@)[0] == 'l' && ("sin"@)[0]
            == 's' && ("rec"@)[0] == 'r' && ("eq"@)[0] == 'e' && ("neq"@)[0] == 'n' && ("lt"@)[0]
            == 'l' && ("gt"@)[0] == 'g' && ("lte"@)[0] == 'l' && ("gte"@)[0] == 'g' && ("or"@)[0]
            == 'o' && ("and"@)[0] == 'a' && ("not"@)[0] == 'n');
        assert(("log"@).len() == 3 && ("ln"@).len() == 2 && ("lt"@).len() == 2 && ("lte"@).len()
            == 3);
        match b {
            crate::program::Builtin::Func => {
                assert(t == "func"@ && t[0] == 'f');
            },
            crate::program::Builtin::Progn => {
                assert(t == "progn"@ && t[0] == 'p');
            },
            crate::program::Builtin::Print => {
                assert(t == "print"@ && t[0] == 'p');
            },
            crate::program::Builtin::Let => {
                assert(t == "let"@ && t[0] == 'l' && t[1] == 'e');
                assert(("log"@)[1] == 'o' && ("lte"@)[1] == 't');
            },
            crate::program::Builtin::If => {
                assert(t == "if"@ && t[0] == 'i');
            },
            crate::program::Builtin::Input => {
                assert(t == "input"@ && t[0] == 'i');
            },
            crate::program::Builtin::Cat => {
                assert(t == "cat"@ && t[0] == 'c');
            },
        }
    }
    assert(crate::program::builtin_for(t) == Some(b)) by {
        assert(("func"@)[0] == 'f' && ("progn"@)[0] == 'p' && ("print"@)[0] == 'p' && ("let"@)[0]
            == 'l' && ("if"@)[0] == 'i' && ("input"@)[0] == 'i' && ("cat"@)[0] == 'c');
        assert(("progn"@)[2] == 'o' && ("print"@)[2] == 'i');
        assert(("if"@).len() == 2 && ("input"@).len() == 5);
        match b {
            crate::program::Builtin::Func => {
                assert(t == "func"@);
            },
            crate::program::Builtin::Progn => {
                assert(t == "progn"@);
            },
            crate::program::Builtin::Print => {
                assert(t == "print"@ && t[2] == 'i');
            },
            crate::program::Builtin::Let => {
                assert(t == "let"@);
            },
            crate::program::Builtin::If => {
                assert(t == "if"@);
            },
            crate::program::Builtin::Input => {
                assert(t == "input"@);
            },
            crate::program::Builtin::Cat => {
                assert(t == "cat"@);
            },
        }
    }
}

/// A string value whose text holds no quote, and whose quoted token the
/// host's float parser does not accept, is serializable.
pub proof fn lemma_wf_str(
    s: Seq<char>,
    hp: spec_fn(Seq<char>) -> Option<u32>,
    ht: spec_fn(u32) -> Seq<char>,
)
    requires
        forall|i: int| 0 <= i < s.len() ==> #[trigger] s[i] != '"',
        hp(seq!['"'] + s + seq!['"']) is None,
    ensures
        wf_form(Val::StrV(s), hp, ht),
{
    reveal_strlit("(");
    reveal_strlit(")");
    reveal_strlit("true");
    reveal_strlit("false");
    let t = seq!['"'] + s + seq!['"'];
    assert(crate::render::render_val(Val::StrV(s), ht) =~= t);
    assert(t[0] == '"');
    assert(t[t.len() - 1] == '"');
    assert(crate::numbers::int_of_text(t) is None) by {
        assert(!crate::numbers::is_digit(t[0]));
        assert(t[0] != '-' && t[0] != '+');
        assert(!crate::numbers::all_digits(t));
    }
    assert(t != "true"@ && t != "false"@) by {
        assert(("true"@)[0] == 't' && ("false"@)[0] == 'f');
    }
    assert(crate::program::op_for(t) is None) by {
        lemma_quote_start_is_no_op(t);
    }
    assert(crate::program::builtin_for(t) is None) by {
        lemma_quote_start_is_no_builtin(t);
    }
    assert(t.subrange(1, t.len() - 1) =~= s);
    assert(atom_of(t, hp) == Val::StrV(s));
    assert(crate::lexer::emitted_token(t)) by {
        assert(crate::lexer::string_token(t)) by {
            assert(forall|i: int| 1 <= i < t.len() - 1 ==> #[trigger] t[i] != '"');
        }
    }
    assert(t != seq!['('] && t != seq![')']) by {
        assert(t[0] != '(' && t[0] != ')');
    }
}

/// No operator symbol starts with a double quote.
proof fn lemma_quote_start_is_no_op(t: Seq<char>)
    requires
        t.len() >= 1,
        t[0] == '"',
    ensures
        crate::program::op_for(t) is None,
{
    reveal_strlit("*");
    reveal_strlit("+");
    reveal_strlit("/");
    reveal_strlit("-");
    reveal_strlit("^");
    reveal_strlit("exp");
    reveal_strlit("log");
    reveal_strlit("ln");
    reveal_strlit("sin");
    reveal_strlit("rec");
    reveal_strlit("eq");
    reveal_strlit("==");
    reveal_strlit("neq");
    reveal_strlit("!=");
    reveal_strlit("lt");
    reveal_strlit("<");
    reveal_strlit("gt");
    reveal_strlit(">");
    reveal_strlit("lte");
    reveal_strlit("<=");
    reveal_strlit("gte");
    reveal_strlit(">=");
    reveal_strlit("or");
    reveal_strlit("and");
    reveal_strlit("not");
}

/// No special-form keyword starts with a double quote.
proof fn lemma_quote_start_is_no_builtin(t: Seq<char>)
    requires
        t.len() >= 1,
        t[0] == '"',
    ensures
        crate::program::builtin_for(t) is None,
{
    reveal_strlit("func");
    reveal_strlit("progn");
    reveal_strlit("print");
    reveal_strlit("let");
    reveal_strlit("if");
    reveal_strlit("input");
    reveal_strlit("cat");
}

} // verus!
