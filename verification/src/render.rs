//! Rendering values back to program text.
//!
//! `item_text` produces the textual representation that `print` emits for
//! non-string values, and that serves as the serialization of an AST: lists
//! come out as parenthesized, space-separated forms, operators and keywords
//! as their canonical tokens, and floats as whatever the host's float
//! renderer produces for their bits.

use crate::host::{text_fn, text_ok};
use crate::list::Node;
use crate::numbers::{dec_str, int_text};
use crate::program::{item_val, link_vals, link_vals_at, BinaryComparator, BinaryOperator, BooleanOperator,
    Builtin, Item, Operator, UnaryOperator, Val};
use std::rc::Rc;
use vstd::prelude::*;
use vstd::string::{StrSliceExecFns, StringExecFns};

verus! {

/// The canonical token of an operator; reading it back yields the same
/// operator.
pub open spec fn op_text(op: Operator) -> Seq<char> {
    match op {
        Operator::BinaryOperator(b) => match b {
            BinaryOperator::Mul => "*"@,
            BinaryOperator::Div => "/"@,
            BinaryOperator::Add => "+"@,
            BinaryOperator::Sub => "-"@,
        },
        Operator::BinaryComparator(c) => match c {
            BinaryComparator::Eq => "=="@,
            BinaryComparator::Neq => "!="@,
            BinaryComparator::Lt => "<"@,
            BinaryComparator::Gt => ">"@,
            BinaryComparator::Lte => "<="@,
            BinaryComparator::Gte => ">="@,
        },
        Operator::UnaryOperator(u) => match u {
            UnaryOperator::Exp => "exp"@,
            UnaryOperator::Log => "log"@,
            UnaryOperator::Sin => "sin"@,
            UnaryOperator::Rec => "rec"@,
        },
        Operator::BooleanOperator(b) => match b {
            BooleanOperator::Or => "or"@,
            BooleanOperator::And => "and"@,
            BooleanOperator::Not => "not"@,
        },
    }
}

/// The keyword of a special form.
pub open spec fn builtin_text(b: Builtin) -> Seq<char> {
    match b {
        Builtin::Func => "func"@,
        Builtin::Progn => "progn"@,
        Builtin::Print => "print"@,
        Builtin::Let => "let"@,
        Builtin::If => "if"@,
        Builtin::Input => "input"@,
        Builtin::Cat => "cat"@,
    }
}

/// The rendering of a value, with `ht` rendering float bits.
pub open spec fn render_val(v: Val, ht: spec_fn(u32) -> Seq<char>) -> Seq<char>
    decreases v, 1int,
{
    match v {
        Val::ListV(items) => seq!['('] + render_items(items, 0, ht) + seq![')'],
        Val::ListLitV(items) => seq!['('] + render_items(items, 0, ht) + seq![')'],
        Val::IdentV(s) => s,
        Val::BuiltinV(b) => builtin_text(b),
        Val::FuncV(params, body) => seq!['('] + "func "@ + seq!['('] + render_items(params, 0, ht)
            + seq![')'] + seq![' '] + render_val(*body, ht) + seq![')'],
        Val::OpV(op) => op_text(op),
        Val::NumV(n) => dec_str(n as int),
        Val::FloatV(bits) => ht(bits),
        Val::StrV(s) => seq!['"'] + s + seq!['"'],
        Val::BoolV(b) => if b {
            "true"@
        } else {
            "false"@
        },
        Val::NilV => "nil"@,
    }
}

/// The space-separated renderings of `items[i..]`.
pub open spec fn render_items(items: Seq<Val>, i: int, ht: spec_fn(u32) -> Seq<char>) -> Seq<char>
    decreases items, (items.len() - i), 2int,
{
    if i < 0 || i >= items.len() {
        Seq::empty()
    } else if i == items.len() - 1 {
        render_val(items[i], ht)
    } else {
        render_val(items[i], ht) + seq![' '] + render_items(items, i + 1, ht)
    }
}

fn push_str_lit(s: &mut String, lit: &str)
    ensures
        final(s)@ == old(s)@ + lit@,
{
    s.append(lit);
}

/// Appends the renderings of the items hanging off `link`, space-separated.
fn push_link_items<FT: Fn(u32) -> String>(s: &mut String, link: &Option<Rc<Node<Item>>>, ft: &FT)
    requires
        text_ok(*ft),
    ensures
        final(s)@ == old(s)@ + render_items(link_vals(*link), 0, text_fn(*ft)),
    decreases *link, 2int,
{
    match link {
        None => {
            proof {
                assert(s@ =~= old(s)@ + render_items(link_vals_at(link), 0, text_fn(*ft)));
            }
        },
        Some(node) => {
            push_item_text(s, &node.car, ft);
            match &node.next {
                None => {
                    proof {
                        assert(link_vals_at(&node.next) =~= Seq::<Val>::empty());
                        assert(link_vals_at(link).len() == 1);
                        assert(s@ =~= old(s)@ + render_items(link_vals_at(link), 0, text_fn(*ft)));
                    }
                },
                Some(_) => {
                    proof {
                        reveal_strlit(" ");
                    }
                    push_str_lit(s, " ");
                    push_link_items(s, &node.next, ft);
                    proof {
                        let vs = link_vals_at(link);
                        let rest = link_vals_at(&node.next);
                        crate::program::lemma_link_vals_parts(link);
                        crate::program::lemma_link_vals_parts(&node.next);
                        assert(rest.len() >= 1);
                        assert(forall|i: int| 0 <= i < rest.len() ==> #[trigger] rest[i] == vs[i
                            + 1]);
                        lemma_render_items_shift(vs, rest, text_fn(*ft));
                        assert(" "@ =~= seq![' ']);
                        assert(s@ =~= old(s)@ + render_items(vs, 0, text_fn(*ft)));
                    }
                },
            }
        },
    }
}

/// Rendering a list whose head value is the head item and whose tail is the
/// rest shifts the index by one.
proof fn lemma_render_items_shift(vs: Seq<Val>, rest: Seq<Val>, ht: spec_fn(u32) -> Seq<char>)
    requires
        vs.len() == rest.len() + 1,
        rest.len() >= 1,
        forall|i: int| 0 <= i < rest.len() ==> #[trigger] rest[i] == vs[i + 1],
    ensures
        render_items(vs, 0, ht) == render_val(vs[0], ht) + seq![' '] + render_items(rest, 0, ht),
    decreases rest.len(),
{
    lemma_render_items_tail(vs, rest, 0, ht);
}

/// `render_items` of a shifted view agrees position by position.
proof fn lemma_render_items_tail(
    vs: Seq<Val>,
    rest: Seq<Val>,
    i: int,
    ht: spec_fn(u32) -> Seq<char>,
)
    requires
        vs.len() == rest.len() + 1,
        0 <= i <= rest.len(),
        forall|j: int| 0 <= j < rest.len() ==> #[trigger] rest[j] == vs[j + 1],
    ensures
        render_items(rest, i, ht) == render_items(vs, i + 1, ht),
    decreases rest.len() - i,
{
    if i < rest.len() {
        lemma_render_items_tail(vs, rest, i + 1, ht);
    }
}

/// Appends the rendering of one item, exactly as `render_val` describes.
fn push_item_text<FT: Fn(u32) -> String>(s: &mut String, it: &Item, ft: &FT)
    requires
        text_ok(*ft),
    ensures
        final(s)@ == old(s)@ + render_val(item_val(*it), text_fn(*ft)),
    decreases *it, 3int,
{
    match it {
        Item::List(l) => {
            proof {
                reveal_strlit("(");
                reveal_strlit(")");
            }
            push_str_lit(s, "(");
            push_link_items(s, &l.head, ft);
            push_str_lit(s, ")");
            proof {
                assert("("@ =~= seq!['(']);
                assert(")"@ =~= seq![')']);
                assert(s@ =~= old(s)@ + render_val(item_val(*it), text_fn(*ft)));
            }
        },
        Item::ListLiteral(l) => {
            proof {
                reveal_strlit("(");
                reveal_strlit(")");
            }
            push_str_lit(s, "(");
            push_link_items(s, &l.head, ft);
            push_str_lit(s, ")");
            proof {
                assert("("@ =~= seq!['(']);
                assert(")"@ =~= seq![')']);
                assert(s@ =~= old(s)@ + render_val(item_val(*it), text_fn(*ft)));
            }
        },
        Item::Identifier(name) => {
            s.append(name.as_str());
        },
        Item::Builtin(b) => {
            match b {
                Builtin::Func => push_str_lit(s, "func"),
                Builtin::Progn => push_str_lit(s, "progn"),
                Builtin::Print => push_str_lit(s, "print"),
                Builtin::Let => push_str_lit(s, "let"),
                Builtin::If => push_str_lit(s, "if"),
                Builtin::Input => push_str_lit(s, "input"),
                Builtin::Cat => push_str_lit(s, "cat"),
            }
        },
        Item::Function(params, body) => {
            proof {
                reveal_strlit("(");
                reveal_strlit(")");
                reveal_strlit("func ");
                reveal_strlit(" ");
            }
            push_str_lit(s, "(");
            push_str_lit(s, "func ");
            push_str_lit(s, "(");
            push_link_items(s, &params.head, ft);
            push_str_lit(s, ")");
            push_str_lit(s, " ");
            push_item_text(s, body, ft);
            push_str_lit(s, ")");
            proof {
                assert("("@ =~= seq!['(']);
                assert(")"@ =~= seq![')']);
                assert(" "@ =~= seq![' ']);
                assert(s@ =~= old(s)@ + render_val(item_val(*it), text_fn(*ft)));
            }
        },
        Item::Operator(op) => {
            match op {
                Operator::BinaryOperator(b) => match b {
                    BinaryOperator::Mul => push_str_lit(s, "*"),
                    BinaryOperator::Div => push_str_lit(s, "/"),
                    BinaryOperator::Add => push_str_lit(s, "+"),
                    BinaryOperator::Sub => push_str_lit(s, "-"),
                },
                Operator::BinaryComparator(c) => match c {
                    BinaryComparator::Eq => push_str_lit(s, "=="),
                    BinaryComparator::Neq => push_str_lit(s, "!="),
                    BinaryComparator::Lt => push_str_lit(s, "<"),
                    BinaryComparator::Gt => push_str_lit(s, ">"),
                    BinaryComparator::Lte => push_str_lit(s, "<="),
                    BinaryComparator::Gte => push_str_lit(s, ">="),
                },
                Operator::UnaryOperator(u) => match u {
                    UnaryOperator::Exp => push_str_lit(s, "exp"),
                    UnaryOperator::Log => push_str_lit(s, "log"),
                    UnaryOperator::Sin => push_str_lit(s, "sin"),
                    UnaryOperator::Rec => push_str_lit(s, "rec"),
                },
                Operator::BooleanOperator(b) => match b {
                    BooleanOperator::Or => push_str_lit(s, "or"),
                    BooleanOperator::And => push_str_lit(s, "and"),
                    BooleanOperator::Not => push_str_lit(s, "not"),
                },
            }
        },
        Item::Number(n) => {
            let t = int_text(*n);
            s.append(t.as_str());
        },
        Item::Float(bits) => {
            let t = crate::host::apply_text(ft, *bits);
            s.append(t.as_str());
        },
        Item::String(text) => {
            proof {
                reveal_strlit("\"");
            }
            push_str_lit(s, "\"");
            s.append(text.as_str());
            push_str_lit(s, "\"");
            proof {
                assert("\""@ =~= seq!['"']);
                assert(s@ =~= old(s)@ + render_val(item_val(*it), text_fn(*ft)));
            }
        },
        Item::Boolean(b) => {
            if *b {
                push_str_lit(s, "true");
            } else {
                push_str_lit(s, "false");
            }
        },
        Item::Nil => {
            push_str_lit(s, "nil");
        },
    }
}

/// The textual rendering of a value, as `render_val` describes; this is what
/// `print` emits for non-string values, and the serialization of an AST.
pub fn item_text<FT: Fn(u32) -> String>(it: &Item, ft: &FT) -> (r: String)
    requires
        text_ok(*ft),
    ensures
        r@ == render_val(item_val(*it), text_fn(*ft)),
{
    let mut s = String::new();
    push_item_text(&mut s, it, ft);
    s
}

} // verus!
