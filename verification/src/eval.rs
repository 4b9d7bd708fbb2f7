//! The evaluator: a tree-walking interpreter over `Item`.
//!
//! `eval` maps an AST item and an environment to a value.  Atoms evaluate to
//! themselves; identifiers are looked up; a non-empty list is dispatched on
//! its head — a literal special-form keyword first, then an evaluated head
//! that comes out as an operator or a function, and otherwise the list is a
//! data literal whose elements are all evaluated in order.  The `print` and
//! `input` forms act on an explicit `IoState` of output and input lines, so
//! the whole evaluation is a function of its arguments.  A fuel bound on the
//! recursion depth turns runaway recursion into an error instead of stack
//! exhaustion; every other outcome is pinned exactly by `eval_s`.

use crate::host::{Host, HostFns};
use crate::lexer::LexError;
use crate::list::{List, Node};
use crate::parser::ParseError;
use crate::program::{item_val, item_val_at, lemma_list_vals_cdr_at, link_vals, link_vals_at, list_vals, list_vals_at, BinaryComparator,
    BinaryOperator, BooleanOperator, Builtin, Item, Operator, UnaryOperator, Val};
use std::rc::Rc;
use vstd::prelude::*;
use vstd::string::{StrSliceExecFns, StringExecFns};

verus! {

/// The bit pattern of 1.0 as a binary32, used to compose the reciprocal.
pub const ONE_BITS: u32 = 0x3F80_0000;

/// The bit pattern of 1e-6 as a binary32: the tolerance of the float
/// equality comparator.
pub const EPS_BITS: u32 = 0x3586_37BD;

/// The bit pattern of Euler's number as a binary32.
pub const E_BITS: u32 = 0x402D_F854;

/// The bit pattern of pi as a binary32.
pub const PI_BITS: u32 = 0x4049_0FDB;

/// The recursion-depth bound of `eval`.
pub const DEFAULT_FUEL: u64 = 4096;

/// Everything an evaluation can fail with.
#[derive(Debug)]
pub enum EvalErr {
    /// No token class matched the program text.
    Lex(LexError),
    /// Mismatched parentheses.
    Parse(ParseError),
    /// An identifier with no binding in the environment.
    Unbound(String),
    /// An operator applied to too few operands.
    MissingOperand,
    /// An operator applied to operands of the wrong or unequal types.
    OperandType,
    /// Integer division by zero.
    DivByZero,
    /// Integer arithmetic left 32-bit range.
    Overflow,
    /// A function applied to the wrong number of arguments.
    WrongArity,
    /// A `func` form without a parameter list and a body.
    BadFuncShape,
    /// A `let` binding that is not a two-element list naming an identifier.
    BadLetBinding,
    /// A `let` with no forms at all.
    EmptyLet,
    /// A `progn` with no forms.
    EmptyProgn,
    /// A `print` with no argument.
    MissingPrintArg,
    /// An `if` missing its condition or the selected branch.
    MissingIfPart,
    /// An `if` condition that is not a boolean.
    CondNotBool,
    /// A `cat` with fewer than two arguments.
    MissingCatArg,
    /// A `cat` argument that is not a string.
    CatType,
    /// An `input` with no input line left.
    InputExhausted,
    /// The recursion-depth bound was exhausted.
    RecursionLimit,
}

/// The abstract value of an `EvalErr`.
pub ghost enum ErrV {
    LexE(LexError),
    ParseE(ParseError),
    Unbound(Seq<char>),
    MissingOperand,
    OperandType,
    DivByZero,
    Overflow,
    WrongArity,
    BadFuncShape,
    BadLetBinding,
    EmptyLet,
    EmptyProgn,
    MissingPrintArg,
    MissingIfPart,
    CondNotBool,
    MissingCatArg,
    CatType,
    InputExhausted,
    RecursionLimit,
}

pub open spec fn err_val(e: EvalErr) -> ErrV {
    match e {
        EvalErr::Lex(l) => ErrV::LexE(l),
        EvalErr::Parse(p) => ErrV::ParseE(p),
        EvalErr::Unbound(s) => ErrV::Unbound(s@),
        EvalErr::MissingOperand => ErrV::MissingOperand,
        EvalErr::OperandType => ErrV::OperandType,
        EvalErr::DivByZero => ErrV::DivByZero,
        EvalErr::Overflow => ErrV::Overflow,
        EvalErr::WrongArity => ErrV::WrongArity,
        EvalErr::BadFuncShape => ErrV::BadFuncShape,
        EvalErr::BadLetBinding => ErrV::BadLetBinding,
        EvalErr::EmptyLet => ErrV::EmptyLet,
        EvalErr::EmptyProgn => ErrV::EmptyProgn,
        EvalErr::MissingPrintArg => ErrV::MissingPrintArg,
        EvalErr::MissingIfPart => ErrV::MissingIfPart,
        EvalErr::CondNotBool => ErrV::CondNotBool,
        EvalErr::MissingCatArg => ErrV::MissingCatArg,
        EvalErr::CatType => ErrV::CatType,
        EvalErr::InputExhausted => ErrV::InputExhausted,
        EvalErr::RecursionLimit => ErrV::RecursionLimit,
    }
}

/// The abstract value of an evaluation result.
pub open spec fn res_val(r: Result<Item, EvalErr>) -> Result<Val, ErrV> {
    match r {
        Ok(it) => Ok(item_val(it)),
        Err(e) => Err(err_val(e)),
    }
}

/// The input lines still to be read and the output lines written so far.
pub struct IoState {
    pub inputs: Vec<String>,
    pub outputs: Vec<String>,
}

/// The abstract value of an `IoState`.
pub ghost struct IoV {
    pub ins: Seq<Seq<char>>,
    pub outs: Seq<Seq<char>>,
}

impl IoState {
    pub open spec fn view(&self) -> IoV {
        IoV { ins: self.inputs.deep_view(), outs: self.outputs.deep_view() }
    }

    /// A state with the given input lines and no output yet.
    pub fn with_inputs(inputs: Vec<String>) -> (r: IoState)
        ensures
            r@.ins == inputs.deep_view(),
            r@.outs == Seq::<Seq<char>>::empty(),
    {
        let r = IoState { inputs, outputs: Vec::new() };
        proof {
            assert(r@.outs =~= Seq::<Seq<char>>::empty());
        }
        r
    }
}

/// An evaluation outcome: the result and the input/output state after it.
pub ghost struct Outcome {
    pub res: Result<Val, ErrV>,
    pub io: IoV,
}

/// An environment: bindings from names to values, most recent first.
pub type Env = List<(String, Item)>;

pub open spec fn link_binds(link: Option<Rc<Node<(String, Item)>>>) -> Seq<(Seq<char>, Val)>
    decreases link,
{
    match link {
        Option::None => Seq::empty(),
        Option::Some(node) => seq![(node.car.0@, item_val(node.car.1))] + link_binds(node.next),
    }
}

/// The abstract value of an environment: name/value pairs, head first.
pub open spec fn env_vals(l: Env) -> Seq<(Seq<char>, Val)> {
    link_binds(l.head)
}

pub proof fn lemma_link_binds_parts(link: &Option<Rc<Node<(String, Item)>>>)
    ensures
        link_binds(*link).len() == crate::list::link_seq(*link).len(),
        forall|i: int|
            0 <= i < crate::list::link_seq(*link).len() ==> link_binds(*link)[i] == ((
            #[trigger] crate::list::link_seq(*link)[i]).0@,
            item_val(crate::list::link_seq(*link)[i].1),
            ),
    decreases *link,
{
    match link {
        Option::None => {},
        Option::Some(node) => {
            lemma_link_binds_parts(&node.next);
        },
    }
}

pub proof fn lemma_env_vals_parts(l: Env)
    ensures
        env_vals(l).len() == l@.len(),
        forall|i: int|
            0 <= i < l@.len() ==> env_vals(l)[i] == ((#[trigger] l@[i]).0@, item_val(l@[i].1)),
{
    lemma_link_binds_parts(&l.head);
}

/// Linear lookup from the head: the most recent binding of a name wins.
pub open spec fn lookup_s(env: Seq<(Seq<char>, Val)>, name: Seq<char>) -> Option<Val>
    decreases env.len(),
{
    if env.len() == 0 {
        None
    } else if env[0].0 == name {
        Some(env[0].1)
    } else {
        lookup_s(env.drop_first(), name)
    }
}

/// What an integer comparator returns: exact native comparison.
pub open spec fn int_cmp_s(op: BinaryComparator, a: i32, b: i32) -> bool {
    match op {
        BinaryComparator::Eq => a == b,
        BinaryComparator::Neq => a != b,
        BinaryComparator::Gt => a > b,
        BinaryComparator::Gte => a >= b,
        BinaryComparator::Lt => a < b,
        BinaryComparator::Lte => a <= b,
    }
}

/// Compares two integers with the given comparator.
pub fn i32_comparate(op: &BinaryComparator, a: i32, b: i32) -> (r: bool)
    ensures
        r == int_cmp_s(*op, a, b),
{
    match op {
        BinaryComparator::Eq => a == b,
        BinaryComparator::Neq => a != b,
        BinaryComparator::Gt => a > b,
        BinaryComparator::Gte => a >= b,
        BinaryComparator::Lt => a < b,
        BinaryComparator::Lte => a <= b,
    }
}

/// What integer arithmetic returns: native 32-bit signed semantics with
/// truncating division; leaving 32-bit range or dividing by zero is an
/// error, never a wrap-around or a panic.
pub open spec fn int_bin_s(op: BinaryOperator, a: i32, b: i32) -> Result<i32, ErrV> {
    match op {
        BinaryOperator::Mul => if a * b > i32::MAX || a * b < i32::MIN {
            Err(ErrV::Overflow)
        } else {
            Ok((a * b) as i32)
        },
        BinaryOperator::Add => if a + b > i32::MAX || a + b < i32::MIN {
            Err(ErrV::Overflow)
        } else {
            Ok((a + b) as i32)
        },
        BinaryOperator::Sub => if a - b > i32::MAX || a - b < i32::MIN {
            Err(ErrV::Overflow)
        } else {
            Ok((a - b) as i32)
        },
        BinaryOperator::Div => if b == 0 {
            Err(ErrV::DivByZero)
        } else {
            match a.checked_div(b) {
                Some(q) => Ok(q),
                None => Err(ErrV::Overflow),
            }
        },
    }
}

/// Applies a binary arithmetic operator to two integers.
pub fn i32_matherate(op: &BinaryOperator, a: i32, b: i32) -> (r: Result<i32, EvalErr>)
    ensures
        res_i32_val(r) == int_bin_s(*op, a, b),
{
    match op {
        BinaryOperator::Mul => match a.checked_mul(b) {
            Some(v) => Ok(v),
            None => Err(EvalErr::Overflow),
        },
        BinaryOperator::Add => match a.checked_add(b) {
            Some(v) => Ok(v),
            None => Err(EvalErr::Overflow),
        },
        BinaryOperator::Sub => match a.checked_sub(b) {
            Some(v) => Ok(v),
            None => Err(EvalErr::Overflow),
        },
        BinaryOperator::Div => {
            if b == 0 {
                Err(EvalErr::DivByZero)
            } else {
                match a.checked_div(b) {
                    Some(v) => Ok(v),
                    None => Err(EvalErr::Overflow),
                }
            }
        },
    }
}

pub open spec fn res_i32_val(r: Result<i32, EvalErr>) -> Result<i32, ErrV> {
    match r {
        Ok(v) => Ok(v),
        Err(e) => Err(err_val(e)),
    }
}

/// The environment every program starts from: `pi` and `e` as floats.
pub fn default_env() -> (r: Env)
    ensures
        env_vals(r) == seq![
            ("pi"@, Val::FloatV(PI_BITS)),
            ("e"@, Val::FloatV(E_BITS)),
        ],
{
    let l: Env = List::new();
    let l = l.prepend(("e".to_owned(), Item::Float(E_BITS)));
    let l = l.prepend(("pi".to_owned(), Item::Float(PI_BITS)));
    proof {
        lemma_env_vals_parts(l);
        assert(l@.len() == 2);
        assert(l@[0].1 == Item::Float(PI_BITS));
        assert(l@[0].0@ == "pi"@);
        assert(l@[1].1 == Item::Float(E_BITS));
        assert(l@[1].0@ == "e"@);
        assert(env_vals(l)[0] == ("pi"@, Val::FloatV(PI_BITS)));
        assert(env_vals(l)[1] == ("e"@, Val::FloatV(E_BITS)));
        assert(env_vals(l) =~~= seq![
            ("pi"@, Val::FloatV(PI_BITS)),
            ("e"@, Val::FloatV(E_BITS)),
        ]);
    }
    l
}

} // verus!

verus! {

/// The bit pattern of the absolute value: the sign bit cleared.
pub open spec fn float_abs_bits(bits: u32) -> u32 {
    bits & 0x7FFF_FFFF
}

/// What a float comparator returns: the equality comparator holds when the
/// absolute difference is below the tolerance `EPS_BITS`; every other
/// comparator is the native one.
pub open spec fn float_cmp_s(cmp: BinaryComparator, a: u32, b: u32, h: HostFns) -> bool {
    match cmp {
        BinaryComparator::Eq => (h.cmp)(
            BinaryComparator::Lt,
            float_abs_bits((h.arith)(BinaryOperator::Sub, a, b)),
            EPS_BITS,
        ),
        _ => (h.cmp)(cmp, a, b),
    }
}

/// What a unary operator returns on float bits: the reciprocal is one
/// divided by the operand; the transcendentals are the host's.
pub open spec fn un_bits_s(un: UnaryOperator, bits: u32, h: HostFns) -> u32 {
    match un {
        UnaryOperator::Rec => (h.arith)(BinaryOperator::Div, ONE_BITS, bits),
        _ => (h.unary)(un, bits),
    }
}

/// A binary arithmetic operator applied to two evaluated operands: both must
/// be numbers of the same kind.
pub open spec fn apply_bin_s(op: BinaryOperator, v1: Val, v2: Val, h: HostFns) -> Result<
    Val,
    ErrV,
> {
    match (v1, v2) {
        (Val::NumV(a), Val::NumV(b)) => match int_bin_s(op, a, b) {
            Ok(n) => Ok(Val::NumV(n)),
            Err(e) => Err(e),
        },
        (Val::FloatV(a), Val::FloatV(b)) => Ok(Val::FloatV((h.arith)(op, a, b))),
        _ => Err(ErrV::OperandType),
    }
}

/// A comparator applied to two evaluated operands.
pub open spec fn apply_cmp_s(op: BinaryComparator, v1: Val, v2: Val, h: HostFns) -> Result<
    Val,
    ErrV,
> {
    match (v1, v2) {
        (Val::NumV(a), Val::NumV(b)) => Ok(Val::BoolV(int_cmp_s(op, a, b))),
        (Val::FloatV(a), Val::FloatV(b)) => Ok(Val::BoolV(float_cmp_s(op, a, b, h))),
        _ => Err(ErrV::OperandType),
    }
}

/// A unary operator applied to one evaluated operand: integers are promoted
/// to float, and the result is always a float.
pub open spec fn apply_un_s(op: UnaryOperator, v: Val, h: HostFns) -> Result<Val, ErrV> {
    match v {
        Val::NumV(a) => Ok(Val::FloatV(un_bits_s(op, (h.of_int)(a), h))),
        Val::FloatV(a) => Ok(Val::FloatV(un_bits_s(op, a, h))),
        _ => Err(ErrV::OperandType),
    }
}

/// `and` and `or` applied to two evaluated operands: booleans only.
pub open spec fn apply_bool2_s(op: BooleanOperator, v1: Val, v2: Val) -> Result<Val, ErrV> {
    match (v1, v2) {
        (Val::BoolV(a), Val::BoolV(b)) => match op {
            BooleanOperator::And => Ok(Val::BoolV(a && b)),
            BooleanOperator::Or => Ok(Val::BoolV(a || b)),
            BooleanOperator::Not => Err(ErrV::OperandType),
        },
        _ => Err(ErrV::OperandType),
    }
}

/// Evaluates the first two forms of `args` eagerly, left to right; a missing
/// operand is reported before any further work.
pub open spec fn binargs_s(
    args: Seq<Val>,
    env: Seq<(Seq<char>, Val)>,
    io: IoV,
    h: HostFns,
    fuel: nat,
) -> (Result<(Val, Val), ErrV>, IoV)
    decreases fuel, 2int, 0int,
{
    if fuel == 0 {
        (Err(ErrV::RecursionLimit), io)
    } else if args.len() == 0 {
        (Err(ErrV::MissingOperand), io)
    } else {
        let o1 = eval_s(args[0], env, io, h, (fuel - 1) as nat);
        match o1.res {
            Err(e) => (Err(e), o1.io),
            Ok(v1) => if args.len() < 2 {
                (Err(ErrV::MissingOperand), o1.io)
            } else {
                let o2 = eval_s(args[1], env, o1.io, h, (fuel - 1) as nat);
                match o2.res {
                    Err(e) => (Err(e), o2.io),
                    Ok(v2) => (Ok((v1, v2)), o2.io),
                }
            },
        }
    }
}

/// Operator dispatch over the unevaluated operand forms.
pub open spec fn op_dispatch_s(
    op: Operator,
    args: Seq<Val>,
    env: Seq<(Seq<char>, Val)>,
    io: IoV,
    h: HostFns,
    fuel: nat,
) -> Outcome
    decreases fuel, 3int, 0int,
{
    if fuel == 0 {
        Outcome { res: Err(ErrV::RecursionLimit), io }
    } else {
        match op {
            Operator::BinaryOperator(bop) => {
                let p = binargs_s(args, env, io, h, fuel);
                match p.0 {
                    Err(e) => Outcome { res: Err(e), io: p.1 },
                    Ok((v1, v2)) => Outcome { res: apply_bin_s(bop, v1, v2, h), io: p.1 },
                }
            },
            Operator::BinaryComparator(cmp) => {
                let p = binargs_s(args, env, io, h, fuel);
                match p.0 {
                    Err(e) => Outcome { res: Err(e), io: p.1 },
                    Ok((v1, v2)) => Outcome { res: apply_cmp_s(cmp, v1, v2, h), io: p.1 },
                }
            },
            Operator::UnaryOperator(un) => {
                if args.len() == 0 {
                    Outcome { res: Err(ErrV::MissingOperand), io }
                } else {
                    let o1 = eval_s(args[0], env, io, h, (fuel - 1) as nat);
                    match o1.res {
                        Err(e) => o1,
                        Ok(v1) => Outcome { res: apply_un_s(un, v1, h), io: o1.io },
                    }
                }
            },
            Operator::BooleanOperator(bop) => match bop {
                BooleanOperator::Not => {
                    if args.len() == 0 {
                        Outcome { res: Err(ErrV::MissingOperand), io }
                    } else {
                        let o1 = eval_s(args[0], env, io, h, (fuel - 1) as nat);
                        match o1.res {
                            Err(e) => o1,
                            Ok(Val::BoolV(b)) => Outcome { res: Ok(Val::BoolV(!b)), io: o1.io },
                            Ok(_) => Outcome { res: Err(ErrV::OperandType), io: o1.io },
                        }
                    }
                },
                _ => {
                    let p = binargs_s(args, env, io, h, fuel);
                    match p.0 {
                        Err(e) => Outcome { res: Err(e), io: p.1 },
                        Ok((v1, v2)) => Outcome { res: apply_bool2_s(bop, v1, v2), io: p.1 },
                    }
                },
            },
        }
    }
}

/// Evaluates every element in order, collecting the values; the first error
/// aborts with the effects so far.
pub open spec fn eval_list_s(
    items: Seq<Val>,
    env: Seq<(Seq<char>, Val)>,
    io: IoV,
    h: HostFns,
    fuel: nat,
) -> (Result<Seq<Val>, ErrV>, IoV)
    decreases fuel, 2int, items.len(),
{
    if fuel == 0 {
        (Err(ErrV::RecursionLimit), io)
    } else if items.len() == 0 {
        (Ok(Seq::empty()), io)
    } else {
        let o = eval_s(items[0], env, io, h, (fuel - 1) as nat);
        match o.res {
            Err(e) => (Err(e), o.io),
            Ok(v) => {
                let rest = eval_list_s(items.drop_first(), env, o.io, h, fuel);
                match rest.0 {
                    Err(e) => (Err(e), rest.1),
                    Ok(vs) => (Ok(seq![v] + vs), rest.1),
                }
            },
        }
    }
}

/// Evaluates the forms of a `progn` in order; the value is the last form's.
pub open spec fn progn_s(
    items: Seq<Val>,
    env: Seq<(Seq<char>, Val)>,
    io: IoV,
    h: HostFns,
    fuel: nat,
) -> Outcome
    decreases fuel, 2int, items.len(),
{
    if fuel == 0 {
        Outcome { res: Err(ErrV::RecursionLimit), io }
    } else if items.len() == 0 {
        Outcome { res: Err(ErrV::EmptyProgn), io }
    } else if items.len() == 1 {
        eval_s(items[0], env, io, h, (fuel - 1) as nat)
    } else {
        let o = eval_s(items[0], env, io, h, (fuel - 1) as nat);
        match o.res {
            Err(e) => o,
            Ok(_) => progn_s(items.drop_first(), env, o.io, h, fuel),
        }
    }
}

/// Walks the forms of a `let`: every form but the last is a binding
/// `(name value)` whose value is evaluated against the let's original
/// environment `base`; the last form is evaluated against the accumulated
/// environment.  Bindings are parallel: no binding sees its siblings.
pub open spec fn let_s(
    items: Seq<Val>,
    base: Seq<(Seq<char>, Val)>,
    cur: Seq<(Seq<char>, Val)>,
    io: IoV,
    h: HostFns,
    fuel: nat,
) -> Outcome
    decreases fuel, 2int, items.len(),
{
    if fuel == 0 {
        Outcome { res: Err(ErrV::RecursionLimit), io }
    } else if items.len() == 0 {
        Outcome { res: Err(ErrV::EmptyLet), io }
    } else if items.len() == 1 {
        eval_s(items[0], cur, io, h, (fuel - 1) as nat)
    } else {
        match items[0] {
            Val::ListV(binding) => {
                if binding.len() < 2 {
                    Outcome { res: Err(ErrV::BadLetBinding), io }
                } else {
                    match binding[0] {
                        Val::IdentV(name) => {
                            let o = eval_s(binding[1], base, io, h, (fuel - 1) as nat);
                            match o.res {
                                Err(e) => o,
                                Ok(v) => let_s(
                                    items.drop_first(),
                                    base,
                                    seq![(name, v)] + cur,
                                    o.io,
                                    h,
                                    fuel,
                                ),
                            }
                        },
                        _ => Outcome { res: Err(ErrV::BadLetBinding), io },
                    }
                }
            },
            _ => Outcome { res: Err(ErrV::BadLetBinding), io },
        }
    }
}

/// The binding pairs of a function application: `(param_i arg_i)` forms.
pub open spec fn pairs_of(ps: Seq<Val>, qs: Seq<Val>) -> Seq<Val> {
    Seq::new(ps.len(), |i: int| Val::ListV(seq![ps[i], qs[i]]))
}

/// Function application: with matching arity, the call rewrites to the
/// synthetic form `(let (param1 arg1) ... (paramN argN) body)` evaluated
/// against the caller's environment; argument expressions are therefore
/// evaluated in the caller's environment, and the function sees nothing
/// else (no lexical capture).
pub open spec fn apply_s(
    params: Seq<Val>,
    body: Val,
    args: Seq<Val>,
    env: Seq<(Seq<char>, Val)>,
    io: IoV,
    h: HostFns,
    fuel: nat,
) -> Outcome
    decreases fuel, 3int, 0int,
{
    if fuel == 0 {
        Outcome { res: Err(ErrV::RecursionLimit), io }
    } else if params.len() != args.len() {
        Outcome { res: Err(ErrV::WrongArity), io }
    } else {
        let synthetic = Val::ListV(
            seq![Val::BuiltinV(Builtin::Let)] + pairs_of(params, args) + seq![body],
        );
        eval_s(synthetic, env, io, h, (fuel - 1) as nat)
    }
}

/// Special-form dispatch over the unevaluated argument forms.
pub open spec fn builtin_s(
    b: Builtin,
    args: Seq<Val>,
    env: Seq<(Seq<char>, Val)>,
    io: IoV,
    h: HostFns,
    fuel: nat,
) -> Outcome
    decreases fuel, 3int, 0int,
{
    if fuel == 0 {
        Outcome { res: Err(ErrV::RecursionLimit), io }
    } else {
        match b {
            Builtin::Func => {
                if args.len() < 2 {
                    Outcome { res: Err(ErrV::BadFuncShape), io }
                } else {
                    match args[0] {
                        Val::ListV(ps) => Outcome {
                            res: Ok(Val::FuncV(ps, Box::new(args[1]))),
                            io,
                        },
                        _ => Outcome { res: Err(ErrV::BadFuncShape), io },
                    }
                }
            },
            Builtin::Progn => {
                if args.len() == 0 {
                    Outcome { res: Err(ErrV::EmptyProgn), io }
                } else {
                    progn_s(args, env, io, h, fuel)
                }
            },
            Builtin::Print => {
                if args.len() == 0 {
                    Outcome { res: Err(ErrV::MissingPrintArg), io }
                } else {
                    let o = eval_s(args[0], env, io, h, (fuel - 1) as nat);
                    match o.res {
                        Err(e) => o,
                        Ok(v) => {
                            let line = match v {
                                Val::StrV(s) => s,
                                _ => crate::render::render_val(v, h.text),
                            };
                            Outcome {
                                res: Ok(Val::NilV),
                                io: IoV { ins: o.io.ins, outs: o.io.outs.push(line) },
                            }
                        },
                    }
                }
            },
            Builtin::Let => {
                if args.len() == 0 {
                    Outcome { res: Err(ErrV::EmptyLet), io }
                } else {
                    let_s(args, env, env, io, h, fuel)
                }
            },
            Builtin::If => {
                if args.len() == 0 {
                    Outcome { res: Err(ErrV::MissingIfPart), io }
                } else {
                    let c = eval_s(args[0], env, io, h, (fuel - 1) as nat);
                    match c.res {
                        Err(e) => c,
                        Ok(Val::BoolV(true)) => {
                            if args.len() < 2 {
                                Outcome { res: Err(ErrV::MissingIfPart), io: c.io }
                            } else {
                                eval_s(args[1], env, c.io, h, (fuel - 1) as nat)
                            }
                        },
                        Ok(Val::BoolV(false)) => {
                            if args.len() < 3 {
                                Outcome { res: Err(ErrV::MissingIfPart), io: c.io }
                            } else {
                                eval_s(args[2], env, c.io, h, (fuel - 1) as nat)
                            }
                        },
                        Ok(_) => Outcome { res: Err(ErrV::CondNotBool), io: c.io },
                    }
                }
            },
            Builtin::Input => {
                if io.ins.len() == 0 {
                    Outcome { res: Err(ErrV::InputExhausted), io }
                } else {
                    Outcome {
                        res: Ok(Val::StrV(io.ins[0])),
                        io: IoV { ins: io.ins.drop_first(), outs: io.outs },
                    }
                }
            },
            Builtin::Cat => {
                if args.len() == 0 {
                    Outcome { res: Err(ErrV::MissingCatArg), io }
                } else {
                    let o1 = eval_s(args[0], env, io, h, (fuel - 1) as nat);
                    match o1.res {
                        Err(e) => o1,
                        Ok(Val::StrV(s1)) => {
                            if args.len() < 2 {
                                Outcome { res: Err(ErrV::MissingCatArg), io: o1.io }
                            } else {
                                let o2 = eval_s(args[1], env, o1.io, h, (fuel - 1) as nat);
                                match o2.res {
                                    Err(e) => o2,
                                    Ok(Val::StrV(s2)) => Outcome {
                                        res: Ok(Val::StrV(s1 + s2)),
                                        io: o2.io,
                                    },
                                    Ok(_) => Outcome { res: Err(ErrV::CatType), io: o2.io },
                                }
                            }
                        },
                        Ok(_) => Outcome { res: Err(ErrV::CatType), io: o1.io },
                    }
                }
            },
        }
    }
}

/// One step of evaluation: what `eval` returns and what it does to the
/// input/output state, for every item, environment, state and fuel.
pub open spec fn eval_s(
    v: Val,
    env: Seq<(Seq<char>, Val)>,
    io: IoV,
    h: HostFns,
    fuel: nat,
) -> Outcome
    decreases fuel, 4int, 0int,
{
    if fuel == 0 {
        Outcome { res: Err(ErrV::RecursionLimit), io }
    } else {
        match v {
            Val::IdentV(n) => match lookup_s(env, n) {
                Some(x) => Outcome { res: Ok(x), io },
                None => Outcome { res: Err(ErrV::Unbound(n)), io },
            },
            Val::ListV(elems) => {
                if elems.len() == 0 {
                    Outcome { res: Ok(Val::NilV), io }
                } else {
                    match elems[0] {
                        Val::BuiltinV(b) => builtin_s(b, elems.drop_first(), env, io, h, fuel),
                        _ => {
                            let o = eval_s(elems[0], env, io, h, (fuel - 1) as nat);
                            match o.res {
                                Err(e) => o,
                                Ok(hv) => match hv {
                                    Val::OpV(op) => op_dispatch_s(
                                        op,
                                        elems.drop_first(),
                                        env,
                                        o.io,
                                        h,
                                        fuel,
                                    ),
                                    Val::FuncV(params, body) => apply_s(
                                        params,
                                        *body,
                                        elems.drop_first(),
                                        env,
                                        o.io,
                                        h,
                                        fuel,
                                    ),
                                    _ => {
                                        let lr = eval_list_s(elems, env, o.io, h, fuel);
                                        match lr.0 {
                                            Err(e) => Outcome { res: Err(e), io: lr.1 },
                                            Ok(vs) => Outcome {
                                                res: Ok(Val::ListLitV(vs)),
                                                io: lr.1,
                                            },
                                        }
                                    },
                                },
                            }
                        },
                    }
                }
            },
            _ => Outcome { res: Ok(v), io },
        }
    }
}

} // verus!

verus! {

/// `env_vals` through a reference, for use in proof code.
pub open spec fn env_vals_at(l: &Env) -> Seq<(Seq<char>, Val)> {
    link_binds(l.head)
}

/// `link_binds` through a reference, for use in proof code.
pub open spec fn link_binds_at(link: &Option<Rc<Node<(String, Item)>>>) -> Seq<(Seq<char>, Val)> {
    link_binds(*link)
}

/// Extending an environment prepends the abstract binding.
pub proof fn lemma_env_vals_prepend(r: Env, l: Env, b: (String, Item))
    requires
        r@ == seq![b] + l@,
    ensures
        env_vals(r) == seq![(b.0@, item_val(b.1))] + env_vals(l),
{
    lemma_env_vals_parts(r);
    lemma_env_vals_parts(l);
    assert forall|i: int| 0 <= i < env_vals(r).len() implies env_vals(r)[i] == (seq![
        (b.0@, item_val(b.1)),
    ] + env_vals(l))[i] by {
        if i == 0 {
            assert(r@[0] == b);
        } else {
            assert(r@[i] == l@[i - 1]);
        }
    }
    assert(env_vals(r) =~= seq![(b.0@, item_val(b.1))] + env_vals(l));
}

/// Looks a name up along the binding chain, exactly as `lookup_s` describes.
fn lookup_link(link: &Option<Rc<Node<(String, Item)>>>, name: &String) -> (r: Option<Item>)
    ensures
        match r {
            Some(it) => lookup_s(link_binds_at(link), name@) == Some(item_val(it)),
            None => lookup_s(link_binds_at(link), name@) is None,
        },
    decreases *link,
{
    match link {
        None => None,
        Some(node) => {
            if node.car.0 == *name {
                let r = node.car.1.clone();
                proof {
                    assert(link_binds_at(link)[0].0 == name@);
                }
                Some(r)
            } else {
                let r = lookup_link(&node.next, name);
                proof {
                    assert(link_binds_at(link).drop_first() =~= link_binds_at(&node.next));
                }
                r
            }
        },
    }
}

} // verus!

verus! {

/// Evaluates the first two operand forms, left to right.
fn eval_operands<FA, FC, FU, FI, FP, FT>(
    args: &List<Item>,
    env: &Env,
    io: &mut IoState,
    host: &Host<FA, FC, FU, FI, FP, FT>,
    fuel: u64,
) -> (r: Result<(Item, Item), EvalErr>) where
    FA: Fn(BinaryOperator, u32, u32) -> u32,
    FC: Fn(BinaryComparator, u32, u32) -> bool,
    FU: Fn(UnaryOperator, u32) -> u32,
    FI: Fn(i32) -> u32,
    FP: Fn(&str) -> Option<u32>,
    FT: Fn(u32) -> String,

    requires
        host.wf(),
    ensures
        ({
            let p = binargs_s(
                list_vals(*args),
                env_vals(*env),
                old(io)@,
                host.fns(),
                fuel as nat,
            );
            final(io)@ == p.1 && (match r {
                Ok(vs) => p.0 == Ok::<(Val, Val), ErrV>((item_val(vs.0), item_val(vs.1))),
                Err(e) => p.0 == Err::<(Val, Val), ErrV>(err_val(e)),
            })
        }),
    decreases fuel, 2int, 0int,
{
    proof {
        crate::program::lemma_link_vals_parts(&args.head);
    }
    if fuel == 0 {
        return Err(EvalErr::RecursionLimit);
    }
    let first = match args.car() {
        None => {
            return Err(EvalErr::MissingOperand);
        },
        Some(x) => x,
    };
    let v1 = match eval_fueled(first, env, io, host, fuel - 1) {
        Err(e) => {
            return Err(e);
        },
        Ok(v) => v,
    };
    let tail = args.cdr();
    proof {
        crate::program::lemma_link_vals_parts(&tail.head);
    }
    let second = match tail.car() {
        None => {
            return Err(EvalErr::MissingOperand);
        },
        Some(y) => y,
    };
    let v2 = match eval_fueled(second, env, io, host, fuel - 1) {
        Err(e) => {
            return Err(e);
        },
        Ok(v) => v,
    };
    Ok((v1, v2))
}

/// Applies a binary arithmetic operator form: evaluate two operands, then
/// combine numbers of the same kind.
fn operate<FA, FC, FU, FI, FP, FT>(
    op: &BinaryOperator,
    args: &List<Item>,
    env: &Env,
    io: &mut IoState,
    host: &Host<FA, FC, FU, FI, FP, FT>,
    fuel: u64,
) -> (r: Result<Item, EvalErr>) where
    FA: Fn(BinaryOperator, u32, u32) -> u32,
    FC: Fn(BinaryComparator, u32, u32) -> bool,
    FU: Fn(UnaryOperator, u32) -> u32,
    FI: Fn(i32) -> u32,
    FP: Fn(&str) -> Option<u32>,
    FT: Fn(u32) -> String,

    requires
        host.wf(),
    ensures
        ({
            let o = op_dispatch_s(
                Operator::BinaryOperator(*op),
                list_vals(*args),
                env_vals(*env),
                old(io)@,
                host.fns(),
                fuel as nat,
            );
            final(io)@ == o.io && res_val(r) == o.res
        }),
    decreases fuel, 3int, 0int,
{
    if fuel == 0 {
        return Err(EvalErr::RecursionLimit);
    }
    let (v1, v2) = match eval_operands(args, env, io, host, fuel) {
        Err(e) => {
            return Err(e);
        },
        Ok(p) => p,
    };
    match (v1, v2) {
        (Item::Number(a), Item::Number(b)) => match i32_matherate(op, a, b) {
            Ok(n) => Ok(Item::Number(n)),
            Err(e) => Err(e),
        },
        (Item::Float(a), Item::Float(b)) => Ok(Item::Float(host.k_arith(*op, a, b))),
        _ => Err(EvalErr::OperandType),
    }
}

/// Applies a comparator form: evaluate two operands, then compare numbers of
/// the same kind; float equality uses the tolerance rule.
fn comparate<FA, FC, FU, FI, FP, FT>(
    op: &BinaryComparator,
    args: &List<Item>,
    env: &Env,
    io: &mut IoState,
    host: &Host<FA, FC, FU, FI, FP, FT>,
    fuel: u64,
) -> (r: Result<Item, EvalErr>) where
    FA: Fn(BinaryOperator, u32, u32) -> u32,
    FC: Fn(BinaryComparator, u32, u32) -> bool,
    FU: Fn(UnaryOperator, u32) -> u32,
    FI: Fn(i32) -> u32,
    FP: Fn(&str) -> Option<u32>,
    FT: Fn(u32) -> String,

    requires
        host.wf(),
    ensures
        ({
            let o = op_dispatch_s(
                Operator::BinaryComparator(*op),
                list_vals(*args),
                env_vals(*env),
                old(io)@,
                host.fns(),
                fuel as nat,
            );
            final(io)@ == o.io && res_val(r) == o.res
        }),
    decreases fuel, 3int, 0int,
{
    if fuel == 0 {
        return Err(EvalErr::RecursionLimit);
    }
    let (v1, v2) = match eval_operands(args, env, io, host, fuel) {
        Err(e) => {
            return Err(e);
        },
        Ok(p) => p,
    };
    match (v1, v2) {
        (Item::Number(a), Item::Number(b)) => Ok(Item::Boolean(i32_comparate(op, a, b))),
        (Item::Float(a), Item::Float(b)) => {
            let c = match op {
                BinaryComparator::Eq => {
                    let d = host.k_arith(BinaryOperator::Sub, a, b);
                    host.k_cmp(BinaryComparator::Lt, d & 0x7FFF_FFFF, EPS_BITS)
                },
                _ => host.k_cmp(*op, a, b),
            };
            Ok(Item::Boolean(c))
        },
        _ => Err(EvalErr::OperandType),
    }
}

/// Applies a unary operator form: evaluate one operand, promote an integer
/// to float, and produce a float.
fn unarate<FA, FC, FU, FI, FP, FT>(
    op: &UnaryOperator,
    args: &List<Item>,
    env: &Env,
    io: &mut IoState,
    host: &Host<FA, FC, FU, FI, FP, FT>,
    fuel: u64,
) -> (r: Result<Item, EvalErr>) where
    FA: Fn(BinaryOperator, u32, u32) -> u32,
    FC: Fn(BinaryComparator, u32, u32) -> bool,
    FU: Fn(UnaryOperator, u32) -> u32,
    FI: Fn(i32) -> u32,
    FP: Fn(&str) -> Option<u32>,
    FT: Fn(u32) -> String,

    requires
        host.wf(),
    ensures
        ({
            let o = op_dispatch_s(
                Operator::UnaryOperator(*op),
                list_vals(*args),
                env_vals(*env),
                old(io)@,
                host.fns(),
                fuel as nat,
            );
            final(io)@ == o.io && res_val(r) == o.res
        }),
    decreases fuel, 3int, 0int,
{
    proof {
        crate::program::lemma_link_vals_parts(&args.head);
    }
    if fuel == 0 {
        return Err(EvalErr::RecursionLimit);
    }
    let first = match args.car() {
        None => {
            return Err(EvalErr::MissingOperand);
        },
        Some(x) => x,
    };
    let v1 = match eval_fueled(first, env, io, host, fuel - 1) {
        Err(e) => {
            return Err(e);
        },
        Ok(v) => v,
    };
    let bits: u32 = match &v1 {
        Item::Number(a) => host.k_of_int(*a),
        Item::Float(a) => *a,
        _ => {
            return Err(EvalErr::OperandType);
        },
    };
    let rbits: u32 = match op {
        UnaryOperator::Rec => host.k_arith(BinaryOperator::Div, ONE_BITS, bits),
        _ => host.k_unary(*op, bits),
    };
    Ok(Item::Float(rbits))
}

/// Applies a boolean operator form: `not` takes one boolean, `and` and `or`
/// take two, evaluated eagerly.
fn boolerate<FA, FC, FU, FI, FP, FT>(
    op: &BooleanOperator,
    args: &List<Item>,
    env: &Env,
    io: &mut IoState,
    host: &Host<FA, FC, FU, FI, FP, FT>,
    fuel: u64,
) -> (r: Result<Item, EvalErr>) where
    FA: Fn(BinaryOperator, u32, u32) -> u32,
    FC: Fn(BinaryComparator, u32, u32) -> bool,
    FU: Fn(UnaryOperator, u32) -> u32,
    FI: Fn(i32) -> u32,
    FP: Fn(&str) -> Option<u32>,
    FT: Fn(u32) -> String,

    requires
        host.wf(),
    ensures
        ({
            let o = op_dispatch_s(
                Operator::BooleanOperator(*op),
                list_vals(*args),
                env_vals(*env),
                old(io)@,
                host.fns(),
                fuel as nat,
            );
            final(io)@ == o.io && res_val(r) == o.res
        }),
    decreases fuel, 3int, 0int,
{
    if fuel == 0 {
        return Err(EvalErr::RecursionLimit);
    }
    match op {
        BooleanOperator::Not => {
            proof {
                crate::program::lemma_link_vals_parts(&args.head);
            }
            let first = match args.car() {
                None => {
                    return Err(EvalErr::MissingOperand);
                },
                Some(x) => x,
            };
            let v1 = match eval_fueled(first, env, io, host, fuel - 1) {
                Err(e) => {
                    return Err(e);
                },
                Ok(v) => v,
            };
            match v1 {
                Item::Boolean(b) => Ok(Item::Boolean(!b)),
                _ => Err(EvalErr::OperandType),
            }
        },
        _ => {
            let (v1, v2) = match eval_operands(args, env, io, host, fuel) {
                Err(e) => {
                    return Err(e);
                },
                Ok(p) => p,
            };
            match (v1, v2) {
                (Item::Boolean(a), Item::Boolean(b)) => match op {
                    BooleanOperator::And => Ok(Item::Boolean(a && b)),
                    BooleanOperator::Or => Ok(Item::Boolean(a || b)),
                    BooleanOperator::Not => Err(EvalErr::OperandType),
                },
                _ => Err(EvalErr::OperandType),
            }
        },
    }
}

} // verus!

verus! {

/// Evaluates every element of a list in order, collecting the values.
fn eval_items<FA, FC, FU, FI, FP, FT>(
    cursor: &Option<Rc<Node<Item>>>,
    env: &Env,
    io: &mut IoState,
    host: &Host<FA, FC, FU, FI, FP, FT>,
    fuel: u64,
) -> (r: Result<List<Item>, EvalErr>) where
    FA: Fn(BinaryOperator, u32, u32) -> u32,
    FC: Fn(BinaryComparator, u32, u32) -> bool,
    FU: Fn(UnaryOperator, u32) -> u32,
    FI: Fn(i32) -> u32,
    FP: Fn(&str) -> Option<u32>,
    FT: Fn(u32) -> String,

    requires
        host.wf(),
    ensures
        ({
            let lr = eval_list_s(
                link_vals(*cursor),
                env_vals(*env),
                old(io)@,
                host.fns(),
                fuel as nat,
            );
            final(io)@ == lr.1 && (match r {
                Ok(l) => lr.0 == Ok::<Seq<Val>, ErrV>(list_vals(l)),
                Err(e) => lr.0 == Err::<Seq<Val>, ErrV>(err_val(e)),
            })
        }),
    decreases fuel, 2int, crate::list::link_seq(*cursor).len(),
{
    if fuel == 0 {
        return Err(EvalErr::RecursionLimit);
    }
    match cursor {
        None => {
            let out: List<Item> = List::new();
            proof {
                assert(link_vals_at(cursor) =~= Seq::<Val>::empty());
                assert(list_vals(out) =~= Seq::<Val>::empty());
            }
            Ok(out)
        },
        Some(node) => {
            let v = match eval_fueled(&node.car, env, io, host, fuel - 1) {
                Err(e) => {
                    return Err(e);
                },
                Ok(v) => v,
            };
            let rest = match eval_items(&node.next, env, io, host, fuel) {
                Err(e) => {
                    proof {
                        assert(link_vals_at(cursor).drop_first() =~= link_vals_at(&node.next));
                    }
                    return Err(e);
                },
                Ok(l) => l,
            };
            let ghost grest = rest;
            let ghost gv = v;
            let out = rest.prepend(v);
            proof {
                crate::program::lemma_list_vals_prepend(out, grest, gv);
                assert(link_vals_at(cursor).drop_first() =~= link_vals_at(&node.next));
            }
            Ok(out)
        },
    }
}

/// Builds the binding forms of a function application, `(param_i arg_i)`
/// each, followed by the body; `None` when the arity does not match.
fn build_let_form(params: &List<Item>, args: &List<Item>, body: &Item) -> (r: Option<List<Item>>)
    ensures
        match r {
            Some(out) => params@.len() == args@.len() && list_vals(out) == pairs_of(
                list_vals(*params),
                list_vals(*args),
            ) + seq![item_val(*body)],
            None => params@.len() != args@.len(),
        },
    decreases params@.len() + args@.len(),
{
    proof {
        crate::program::lemma_link_vals_parts(&params.head);
        crate::program::lemma_link_vals_parts(&args.head);
    }
    match (params.car(), args.car()) {
        (None, None) => {
            let e0: List<Item> = List::new();
            let bc = body.clone();
            let ghost ge0 = e0;
            let ghost gbc = bc;
            let out = e0.prepend(bc);
            proof {
                crate::program::lemma_list_vals_prepend(out, ge0, gbc);
                crate::program::lemma_link_vals_parts(&ge0.head);
                assert(list_vals_at(params).len() == 0);
                assert(list_vals_at(args).len() == 0);
                assert(pairs_of(list_vals_at(params), list_vals_at(args)).len() == 0);
                assert(list_vals(out) =~= pairs_of(list_vals_at(params), list_vals_at(args))
                    + seq![item_val(*body)]);
            }
            Some(out)
        },
        (Some(p), Some(a)) => {
            let pc = params.cdr();
            let ac = args.cdr();
            let rest = match build_let_form(&pc, &ac, body) {
                None => {
                    return None;
                },
                Some(l) => l,
            };
            let e0: List<Item> = List::new();
            let ac2 = a.clone();
            let ghost ge0 = e0;
            let ghost gac = ac2;
            let inner = e0.prepend(ac2);
            let pc2 = p.clone();
            let ghost ginner = inner;
            let ghost gpc = pc2;
            let pair = inner.prepend(pc2);
            let wrapped = Item::List(pair);
            let ghost grest = rest;
            let ghost gpair = wrapped;
            let out = rest.prepend(wrapped);
            proof {
                crate::program::lemma_list_vals_prepend(inner, ge0, gac);
                crate::program::lemma_list_vals_prepend(pair, ginner, gpc);
                crate::program::lemma_link_vals_parts(&ge0.head);
                crate::program::lemma_list_vals_prepend(out, grest, gpair);
                lemma_list_vals_cdr_at(&pc, params);
                lemma_list_vals_cdr_at(&ac, args);
                let ps = list_vals_at(params);
                let qs = list_vals_at(args);
                assert(list_vals(pair) =~= seq![item_val(*p), item_val(*a)]);
                assert(ps[0] == item_val(*p) && qs[0] == item_val(*a));
                assert(item_val(gpair) == Val::ListV(seq![ps[0], qs[0]]));
                assert(list_vals_at(&pc) == ps.drop_first());
                assert(list_vals_at(&ac) == qs.drop_first());
                assert(pairs_of(ps, qs) =~= seq![Val::ListV(seq![ps[0], qs[0]])] + pairs_of(
                    ps.drop_first(),
                    qs.drop_first(),
                ));
                assert(list_vals(out) =~= pairs_of(ps, qs) + seq![item_val(*body)]);
            }
            Some(out)
        },
        _ => None,
    }
}

/// One evaluation step at a given recursion budget, exactly as `eval_s`
/// describes.
pub fn eval_fueled<FA, FC, FU, FI, FP, FT>(
    program: &Item,
    env: &Env,
    io: &mut IoState,
    host: &Host<FA, FC, FU, FI, FP, FT>,
    fuel: u64,
) -> (r: Result<Item, EvalErr>) where
    FA: Fn(BinaryOperator, u32, u32) -> u32,
    FC: Fn(BinaryComparator, u32, u32) -> bool,
    FU: Fn(UnaryOperator, u32) -> u32,
    FI: Fn(i32) -> u32,
    FP: Fn(&str) -> Option<u32>,
    FT: Fn(u32) -> String,

    requires
        host.wf(),
    ensures
        ({
            let o = eval_s(item_val(*program), env_vals(*env), old(io)@, host.fns(), fuel as nat);
            final(io)@ == o.io && res_val(r) == o.res
        }),
    decreases fuel, 4int, 0int,
{
    if fuel == 0 {
        return Err(EvalErr::RecursionLimit);
    }
    match program {
        Item::List(l) => {
            proof {
                crate::program::lemma_link_vals_parts(&l.head);
            }
            let first = match l.car() {
                None => {
                    return Ok(Item::Nil);
                },
                Some(x) => x,
            };
            match first {
                Item::Builtin(b) => {
                    let tail = l.cdr();
                    proof {
                        lemma_list_vals_cdr_at(&tail, l);
                        crate::program::lemma_link_vals_parts(&tail.head);
                        assert(list_vals_at(l)[0] == item_val_at(first));
                        assert(item_val_at(first) == Val::BuiltinV(*b));
                    }
                    return crate::builtins::builtinerate(b, &tail, env, io, host, fuel);
                },
                _ => {
                    proof {
                        assert(list_vals_at(l)[0] == item_val(*first));
                        assert(!(item_val(*first) is BuiltinV));
                    }
                    let hv = match eval_fueled(first, env, io, host, fuel - 1) {
                        Err(e) => {
                            return Err(e);
                        },
                        Ok(v) => v,
                    };
                    match hv {
                        Item::Operator(op) => {
                            let tail = l.cdr();
                            proof {
                                lemma_list_vals_cdr_at(&tail, l);
                                crate::program::lemma_link_vals_parts(&tail.head);
                            }
                            match op {
                                Operator::BinaryOperator(bop) => {
                                    return operate(&bop, &tail, env, io, host, fuel);
                                },
                                Operator::BinaryComparator(cmp) => {
                                    return comparate(&cmp, &tail, env, io, host, fuel);
                                },
                                Operator::UnaryOperator(un) => {
                                    return unarate(&un, &tail, env, io, host, fuel);
                                },
                                Operator::BooleanOperator(bop) => {
                                    return boolerate(&bop, &tail, env, io, host, fuel);
                                },
                            }
                        },
                        Item::Function(params, body) => {
                            let tail = l.cdr();
                            proof {
                                lemma_list_vals_cdr_at(&tail, l);
                                crate::program::lemma_link_vals_parts(&tail.head);
                                crate::program::lemma_link_vals_parts(&params.head);
                            }
                            match build_let_form(&params, &tail, &*body) {
                                None => {
                                    proof {
                                        let gv = item_val_at(program);
                                        let genv = env_vals_at(env);
                                        let h = host.fns();
                                        let o0 = eval_s(gv, genv, old(io)@, h, fuel as nat);
                                        let elems = list_vals_at(l);
                                        assert(gv == Val::ListV(elems));
                                        assert(!(elems[0] is BuiltinV));
                                        let oh = eval_s(elems[0], genv, old(io)@, h, (fuel as nat
                                            - 1) as nat);
                                        assert(oh.res == Ok::<Val, ErrV>(item_val_at(&hv)));
                                        assert(item_val_at(&hv) == Val::FuncV(
                                            list_vals_at(&params),
                                            Box::new(item_val(*body)),
                                        ));
                                        assert(o0 == apply_s(
                                            list_vals_at(&params),
                                            item_val(*body),
                                            elems.drop_first(),
                                            genv,
                                            oh.io,
                                            h,
                                            fuel as nat,
                                        ));
                                        assert(o0.res == Err::<Val, ErrV>(ErrV::WrongArity));
                                        assert(io@ == oh.io);
                                    }
                                    return Err(EvalErr::WrongArity);
                                },
                                Some(forms) => {
                                    let ghost gforms = forms;
                                    let synlist = forms.prepend(Item::Builtin(Builtin::Let));
                                    let ghost gsyn = synlist;
                                    let synthetic = Item::List(synlist);
                                    proof {
                                        crate::program::lemma_list_vals_prepend(
                                            gsyn,
                                            gforms,
                                            Item::Builtin(Builtin::Let),
                                        );
                                        assert(item_val(synthetic) == Val::ListV(
                                            seq![Val::BuiltinV(Builtin::Let)] + pairs_of(
                                                list_vals_at(&params),
                                                list_vals_at(&tail),
                                            ) + seq![item_val(*body)],
                                        )) by {
                                            assert(seq![Val::BuiltinV(Builtin::Let)] + (pairs_of(
                                                list_vals_at(&params),
                                                list_vals_at(&tail),
                                            ) + seq![item_val(*body)]) =~= seq![
                                                Val::BuiltinV(Builtin::Let),
                                            ] + pairs_of(
                                                list_vals_at(&params),
                                                list_vals_at(&tail),
                                            ) + seq![item_val(*body)]);
                                        }
                                    }
                                    return eval_fueled(&synthetic, env, io, host, fuel - 1);
                                },
                            }
                        },
                        _ => {
                            match eval_items(&l.head, env, io, host, fuel) {
                                Err(e) => {
                                    return Err(e);
                                },
                                Ok(vl) => {
                                    return Ok(Item::ListLiteral(vl));
                                },
                            }
                        },
                    }
                },
            }
        },
        Item::Identifier(name) => {
            match lookup_link(&env.head, name) {
                Some(it) => {
                    return Ok(it);
                },
                None => {
                    return Err(EvalErr::Unbound(name.clone()));
                },
            }
        },
        _ => {
            proof {
                assert(!(item_val_at(program) is IdentV));
                assert(!(item_val_at(program) is ListV));
            }
            Ok(program.clone())
        },
    }
}

/// What `print` emits for a value: a string's text itself, any other
/// value's rendering.
pub fn item_text_line<FA, FC, FU, FI, FP, FT>(v: &Item, host: &Host<FA, FC, FU, FI, FP, FT>) -> (r:
    String) where
    FA: Fn(BinaryOperator, u32, u32) -> u32,
    FC: Fn(BinaryComparator, u32, u32) -> bool,
    FU: Fn(UnaryOperator, u32) -> u32,
    FI: Fn(i32) -> u32,
    FP: Fn(&str) -> Option<u32>,
    FT: Fn(u32) -> String,

    requires
        host.wf(),
    ensures
        r@ == (match item_val(*v) {
            Val::StrV(s) => s,
            _ => crate::render::render_val(item_val(*v), host.fns().text),
        }),
{
    match v {
        Item::String(s) => s.clone(),
        _ => crate::render::item_text(v, &host.text),
    }
}

/// Evaluates an item against an environment and an input/output state, with
/// the default recursion budget; the result and the state change are exactly
/// `eval_s` of the item's and environment's abstract values.
pub fn eval<FA, FC, FU, FI, FP, FT>(
    program: &Item,
    env: &Env,
    io: &mut IoState,
    host: &Host<FA, FC, FU, FI, FP, FT>,
) -> (r: Result<Item, EvalErr>) where
    FA: Fn(BinaryOperator, u32, u32) -> u32,
    FC: Fn(BinaryComparator, u32, u32) -> bool,
    FU: Fn(UnaryOperator, u32) -> u32,
    FI: Fn(i32) -> u32,
    FP: Fn(&str) -> Option<u32>,
    FT: Fn(u32) -> String,

    requires
        host.wf(),
    ensures
        ({
            let o = eval_s(
                item_val(*program),
                env_vals(*env),
                old(io)@,
                host.fns(),
                DEFAULT_FUEL as nat,
            );
            final(io)@ == o.io && res_val(r) == o.res
        }),
{
    eval_fueled(program, env, io, host, DEFAULT_FUEL)
}

/// What evaluating program text means: tokenize, parse, evaluate.
pub open spec fn eval_string_ok_s(
    text: Seq<char>,
    env: Seq<(Seq<char>, Val)>,
    io: IoV,
    h: HostFns,
) -> Option<Outcome> {
    match crate::lexer::lex_spec(text) {
        None => None,
        Some(toks) => match crate::parser::parse_spec(toks, h.parse) {
            None => None,
            Some(ast) => Some(eval_s(ast, env, io, h, DEFAULT_FUEL as nat)),
        },
    }
}

/// Tokenizes, parses and evaluates program text.  A lexical or parse error
/// comes back as such with the state untouched; otherwise the result and
/// state change are exactly those of evaluating the parsed program.
pub fn eval_string<FA, FC, FU, FI, FP, FT>(
    program_string: &String,
    env: Env,
    io: &mut IoState,
    host: &Host<FA, FC, FU, FI, FP, FT>,
) -> (r: Result<Item, EvalErr>) where
    FA: Fn(BinaryOperator, u32, u32) -> u32,
    FC: Fn(BinaryComparator, u32, u32) -> bool,
    FU: Fn(UnaryOperator, u32) -> u32,
    FI: Fn(i32) -> u32,
    FP: Fn(&str) -> Option<u32>,
    FT: Fn(u32) -> String,

    requires
        host.wf(),
    ensures
        match crate::lexer::lex_spec(program_string@) {
            None => r matches Err(EvalErr::Lex(_)) && final(io)@ == old(io)@,
            Some(toks) => match crate::parser::parse_spec(toks, host.fns().parse) {
                None => r matches Err(EvalErr::Parse(_)) && final(io)@ == old(io)@,
                Some(ast) => ({
                    let o = eval_s(ast, env_vals(env), old(io)@, host.fns(), DEFAULT_FUEL as nat);
                    final(io)@ == o.io && res_val(r) == o.res
                }),
            },
        },
{
    let tokens = match crate::lexer::lex(program_string.as_str()) {
        Err(e) => {
            return Err(EvalErr::Lex(e));
        },
        Ok(toks) => toks,
    };
    let ast = match crate::parser::parse(tokens, &host.parse) {
        Err(e) => {
            return Err(EvalErr::Parse(e));
        },
        Ok(item) => item,
    };
    eval_fueled(&ast, &env, io, host, DEFAULT_FUEL)
}

} // verus!
