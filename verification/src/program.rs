//! The language's value and AST model.
//!
//! An `Item` is both an AST node and a runtime value: the parser produces
//! nested `Item::List` structure, and the evaluator maps items to items.
//! Floating-point values are carried as IEEE 754 binary32 bit patterns in a
//! `u32`; the verified core never computes with machine floats itself (the
//! host supplies the numeric kernel, see the `host` module), so a float is
//! just its bits here.  The abstract value of an item is a `Val`, in which
//! lists become sequences and strings become character sequences.

use crate::list::{link_seq, List, Node};
use std::rc::Rc;
use vstd::prelude::*;

verus! {

#[derive(Clone, Copy, PartialEq, Eq, Structural, Debug)]
pub enum BinaryOperator {
    Mul,
    Div,
    Add,
    Sub,
}

#[derive(Clone, Copy, PartialEq, Eq, Structural, Debug)]
pub enum BinaryComparator {
    Eq,
    Neq,
    Lt,
    Gt,
    Lte,
    Gte,
}

#[derive(Clone, Copy, PartialEq, Eq, Structural, Debug)]
pub enum UnaryOperator {
    Exp,
    Log,
    Sin,
    Rec,
}

#[derive(Clone, Copy, PartialEq, Eq, Structural, Debug)]
pub enum BooleanOperator {
    Or,
    And,
    Not,
}

#[derive(Clone, Copy, PartialEq, Eq, Structural, Debug)]
pub enum Operator {
    BinaryOperator(BinaryOperator),
    BinaryComparator(BinaryComparator),
    UnaryOperator(UnaryOperator),
    BooleanOperator(BooleanOperator),
}

/// The special-form keywords.  Each keyword here is handled by the builtin
/// dispatcher, and conversely: the two sets are kept in 1:1 correspondence.
#[derive(Clone, Copy, PartialEq, Eq, Structural, Debug)]
pub enum Builtin {
    Func,
    Progn,
    Print,
    Let,
    If,
    Input,
    Cat,
}

/// A language value / AST node.
pub enum Item {
    /// An unevaluated structural list: a call form or nested program text.
    List(List<Item>),
    /// The result of evaluating a non-callable list: a first-class list value.
    ListLiteral(List<Item>),
    /// A variable reference.
    Identifier(String),
    /// A special-form keyword.
    Builtin(Builtin),
    /// Formal parameter list plus unevaluated body.
    Function(List<Item>, Box<Item>),
    /// An operator value.
    Operator(Operator),
    /// A 32-bit signed integer.
    Number(i32),
    /// An IEEE 754 binary32 value, carried as its bit pattern.
    Float(u32),
    /// A text value.
    String(String),
    /// A truth value.
    Boolean(bool),
    /// The nil value.
    Nil,
}

/// The abstract value of an `Item`: lists become sequences, strings become
/// character sequences, and all sharing disappears.
pub ghost enum Val {
    ListV(Seq<Val>),
    ListLitV(Seq<Val>),
    IdentV(Seq<char>),
    BuiltinV(Builtin),
    FuncV(Seq<Val>, Box<Val>),
    OpV(Operator),
    NumV(i32),
    FloatV(u32),
    StrV(Seq<char>),
    BoolV(bool),
    NilV,
}

pub open spec fn item_val(it: Item) -> Val
    decreases it,
{
    match it {
        Item::List(l) => Val::ListV(link_vals(l.head)),
        Item::ListLiteral(l) => Val::ListLitV(link_vals(l.head)),
        Item::Identifier(s) => Val::IdentV(s@),
        Item::Builtin(b) => Val::BuiltinV(b),
        Item::Function(params, body) => Val::FuncV(link_vals(params.head), Box::new(item_val(*body))),
        Item::Operator(op) => Val::OpV(op),
        Item::Number(n) => Val::NumV(n),
        Item::Float(bits) => Val::FloatV(bits),
        Item::String(s) => Val::StrV(s@),
        Item::Boolean(b) => Val::BoolV(b),
        Item::Nil => Val::NilV,
    }
}

pub open spec fn link_vals(link: Option<Rc<Node<Item>>>) -> Seq<Val>
    decreases link,
{
    match link {
        Option::None => Seq::empty(),
        Option::Some(node) => seq![item_val(node.car)] + link_vals(node.next),
    }
}

/// The abstract values of a list of items, in list order.
pub open spec fn list_vals(l: List<Item>) -> Seq<Val> {
    link_vals(l.head)
}

/// `link_vals` through a reference, for use in proof code.
pub open spec fn link_vals_at(link: &Option<Rc<Node<Item>>>) -> Seq<Val> {
    link_vals(*link)
}

/// `list_vals` through a reference, for use in proof code.
pub open spec fn list_vals_at(l: &List<Item>) -> Seq<Val> {
    link_vals(l.head)
}

/// `item_val` through a reference, for use in proof code.
pub open spec fn item_val_at(it: &Item) -> Val {
    item_val(*it)
}

/// The tail of a list has the tail of its abstract values.
pub proof fn lemma_list_vals_cdr_at(r: &List<Item>, l: &List<Item>)
    requires
        l@.len() > 0,
        r@ == l@.drop_first(),
    ensures
        list_vals_at(r) == list_vals_at(l).drop_first(),
{
    lemma_link_vals_parts(&r.head);
    lemma_link_vals_parts(&l.head);
    assert forall|i: int| 0 <= i < list_vals_at(r).len() implies list_vals_at(r)[i] == list_vals_at(
        l,
    ).drop_first()[i] by {
        assert(r@[i] == l@[i + 1]);
    }
    assert(list_vals_at(r) =~= list_vals_at(l).drop_first());
}

impl Item {
    pub open spec fn view(&self) -> Val {
        item_val(*self)
    }

    /// A structural copy; cheap for lists (shared tails), deep for a
    /// function's boxed body.
    pub fn duplicate(&self) -> (r: Item)
        ensures
            r@ == self@,
        decreases *self,
    {
        match self {
            Item::List(l) => Item::List(l.clone()),
            Item::ListLiteral(l) => Item::ListLiteral(l.clone()),
            Item::Identifier(s) => Item::Identifier(s.clone()),
            Item::Builtin(b) => Item::Builtin(*b),
            Item::Function(params, body) => Item::Function(
                params.clone(),
                Box::new(body.duplicate()),
            ),
            Item::Operator(op) => Item::Operator(*op),
            Item::Number(n) => Item::Number(*n),
            Item::Float(bits) => Item::Float(*bits),
            Item::String(s) => Item::String(s.clone()),
            Item::Boolean(b) => Item::Boolean(*b),
            Item::Nil => Item::Nil,
        }
    }
}

impl Clone for Item {
    fn clone(&self) -> (r: Self)
        ensures
            r@ == self@,
    {
        self.duplicate()
    }
}

/// The relation between lists and their abstract element values is
/// compositional in the head and tail.
pub proof fn lemma_list_vals_parts(l: List<Item>)
    ensures
        list_vals(l).len() == l@.len(),
        forall|i: int| 0 <= i < l@.len() ==> list_vals(l)[i] == item_val(#[trigger] l@[i]),
    decreases l@.len(),
{
    lemma_link_vals_parts(&l.head);
}

pub proof fn lemma_link_vals_parts(link: &Option<Rc<Node<Item>>>)
    ensures
        link_vals(*link).len() == link_seq(*link).len(),
        forall|i: int|
            0 <= i < link_seq(*link).len() ==> link_vals(*link)[i] == item_val(
                #[trigger] link_seq(*link)[i],
            ),
    decreases *link,
{
    match link {
        Option::None => {},
        Option::Some(node) => {
            lemma_link_vals_parts(&node.next);
        },
    }
}

pub open spec fn op_for(s: Seq<char>) -> Option<Operator> {
    if s == "*"@ {
        Some(Operator::BinaryOperator(BinaryOperator::Mul))
    } else if s == "+"@ {
        Some(Operator::BinaryOperator(BinaryOperator::Add))
    } else if s == "/"@ {
        Some(Operator::BinaryOperator(BinaryOperator::Div))
    } else if s == "-"@ {
        Some(Operator::BinaryOperator(BinaryOperator::Sub))
    } else if s == "^"@ || s == "exp"@ {
        Some(Operator::UnaryOperator(UnaryOperator::Exp))
    } else if s == "log"@ || s == "ln"@ {
        Some(Operator::UnaryOperator(UnaryOperator::Log))
    } else if s == "sin"@ {
        Some(Operator::UnaryOperator(UnaryOperator::Sin))
    } else if s == "rec"@ {
        Some(Operator::UnaryOperator(UnaryOperator::Rec))
    } else if s == "eq"@ || s == "=="@ {
        Some(Operator::BinaryComparator(BinaryComparator::Eq))
    } else if s == "neq"@ || s == "!="@ {
        Some(Operator::BinaryComparator(BinaryComparator::Neq))
    } else if s == "lt"@ || s == "<"@ {
        Some(Operator::BinaryComparator(BinaryComparator::Lt))
    } else if s == "gt"@ || s == ">"@ {
        Some(Operator::BinaryComparator(BinaryComparator::Gt))
    } else if s == "lte"@ || s == "<="@ {
        Some(Operator::BinaryComparator(BinaryComparator::Lte))
    } else if s == "gte"@ || s == ">="@ {
        Some(Operator::BinaryComparator(BinaryComparator::Gte))
    } else if s == "or"@ {
        Some(Operator::BooleanOperator(BooleanOperator::Or))
    } else if s == "and"@ {
        Some(Operator::BooleanOperator(BooleanOperator::And))
    } else if s == "not"@ {
        Some(Operator::BooleanOperator(BooleanOperator::Not))
    } else {
        None
    }
}

/// Looks a token up in the operator symbol table.
pub fn get_operator(s: &String) -> (r: Option<Operator>)
    ensures
        r == op_for(s@),
{
    if crate::strings::str_eq(s.as_str(), "*") {
        Some(Operator::BinaryOperator(BinaryOperator::Mul))
    } else if crate::strings::str_eq(s.as_str(), "+") {
        Some(Operator::BinaryOperator(BinaryOperator::Add))
    } else if crate::strings::str_eq(s.as_str(), "/") {
        Some(Operator::BinaryOperator(BinaryOperator::Div))
    } else if crate::strings::str_eq(s.as_str(), "-") {
        Some(Operator::BinaryOperator(BinaryOperator::Sub))
    } else if crate::strings::str_eq(s.as_str(), "^") || crate::strings::str_eq(s.as_str(), "exp") {
        Some(Operator::UnaryOperator(UnaryOperator::Exp))
    } else if crate::strings::str_eq(s.as_str(), "log") || crate::strings::str_eq(
        s.as_str(),
        "ln",
    ) {
        Some(Operator::UnaryOperator(UnaryOperator::Log))
    } else if crate::strings::str_eq(s.as_str(), "sin") {
        Some(Operator::UnaryOperator(UnaryOperator::Sin))
    } else if crate::strings::str_eq(s.as_str(), "rec") {
        Some(Operator::UnaryOperator(UnaryOperator::Rec))
    } else if crate::strings::str_eq(s.as_str(), "eq") || crate::strings::str_eq(
        s.as_str(),
        "==",
    ) {
        Some(Operator::BinaryComparator(BinaryComparator::Eq))
    } else if crate::strings::str_eq(s.as_str(), "neq") || crate::strings::str_eq(
        s.as_str(),
        "!=",
    ) {
        Some(Operator::BinaryComparator(BinaryComparator::Neq))
    } else if crate::strings::str_eq(s.as_str(), "lt") || crate::strings::str_eq(
        s.as_str(),
        "<",
    ) {
        Some(Operator::BinaryComparator(BinaryComparator::Lt))
    } else if crate::strings::str_eq(s.as_str(), "gt") || crate::strings::str_eq(
        s.as_str(),
        ">",
    ) {
        Some(Operator::BinaryComparator(BinaryComparator::Gt))
    } else if crate::strings::str_eq(s.as_str(), "lte") || crate::strings::str_eq(
        s.as_str(),
        "<=",
    ) {
        Some(Operator::BinaryComparator(BinaryComparator::Lte))
    } else if crate::strings::str_eq(s.as_str(), "gte") || crate::strings::str_eq(
        s.as_str(),
        ">=",
    ) {
        Some(Operator::BinaryComparator(BinaryComparator::Gte))
    } else if crate::strings::str_eq(s.as_str(), "or") {
        Some(Operator::BooleanOperator(BooleanOperator::Or))
    } else if crate::strings::str_eq(s.as_str(), "and") {
        Some(Operator::BooleanOperator(BooleanOperator::And))
    } else if crate::strings::str_eq(s.as_str(), "not") {
        Some(Operator::BooleanOperator(BooleanOperator::Not))
    } else {
        None
    }
}

pub open spec fn builtin_for(s: Seq<char>) -> Option<Builtin> {
    if s == "func"@ {
        Some(Builtin::Func)
    } else if s == "progn"@ {
        Some(Builtin::Progn)
    } else if s == "print"@ {
        Some(Builtin::Print)
    } else if s == "let"@ {
        Some(Builtin::Let)
    } else if s == "if"@ {
        Some(Builtin::If)
    } else if s == "input"@ {
        Some(Builtin::Input)
    } else if s == "cat"@ {
        Some(Builtin::Cat)
    } else {
        None
    }
}

/// Looks a token up in the special-form keyword table.
pub fn get_builtin(s: &String) -> (r: Option<Builtin>)
    ensures
        r == builtin_for(s@),
{
    if crate::strings::str_eq(s.as_str(), "func") {
        Some(Builtin::Func)
    } else if crate::strings::str_eq(s.as_str(), "progn") {
        Some(Builtin::Progn)
    } else if crate::strings::str_eq(s.as_str(), "print") {
        Some(Builtin::Print)
    } else if crate::strings::str_eq(s.as_str(), "let") {
        Some(Builtin::Let)
    } else if crate::strings::str_eq(s.as_str(), "if") {
        Some(Builtin::If)
    } else if crate::strings::str_eq(s.as_str(), "input") {
        Some(Builtin::Input)
    } else if crate::strings::str_eq(s.as_str(), "cat") {
        Some(Builtin::Cat)
    } else {
        None
    }
}

} // verus!

verus! {

/// `list_vals` of a prepend is the prepended abstract value.
pub proof fn lemma_list_vals_prepend(r: List<Item>, l: List<Item>, x: Item)
    requires
        r@ == seq![x] + l@,
    ensures
        list_vals(r) == seq![item_val(x)] + list_vals(l),
{
    lemma_list_vals_parts(r);
    lemma_list_vals_parts(l);
    assert forall|i: int| 0 <= i < list_vals(r).len() implies list_vals(r)[i] == (seq![
        item_val(x),
    ] + list_vals(l))[i] by {
        if i == 0 {
            assert(r@[0] == x);
        } else {
            assert(r@[i] == l@[i - 1]);
        }
    }
    assert(list_vals(r) =~= seq![item_val(x)] + list_vals(l));
}

/// `list_vals` of a tail is the tail of the abstract values.
pub proof fn lemma_list_vals_cdr(r: List<Item>, l: List<Item>)
    requires
        l@.len() > 0,
        r@ == l@.drop_first(),
    ensures
        list_vals(r) == list_vals(l).drop_first(),
{
    lemma_list_vals_parts(r);
    lemma_list_vals_parts(l);
    assert forall|i: int| 0 <= i < list_vals(r).len() implies list_vals(r)[i] == list_vals(
        l,
    ).drop_first()[i] by {
        assert(r@[i] == l@[i + 1]);
    }
    assert(list_vals(r) =~= list_vals(l).drop_first());
}

} // verus!
