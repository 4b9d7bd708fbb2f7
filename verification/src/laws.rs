//! The laws the runtime obeys, stated and proved over the specification
//! functions that the executable contracts are written against.

use crate::eval::{apply_s, binargs_s, eval_s, let_s, lookup_s, op_dispatch_s, ErrV, IoV};
use crate::host::HostFns;
use crate::program::{Operator, Val};
use vstd::prelude::*;

verus! {

/// Extending an environment with one binding changes lookups of that name
/// only: every other name resolves exactly as before.
pub proof fn lemma_extension_invisible_to_other_names(
    env: Seq<(Seq<char>, Val)>,
    name: Seq<char>,
    value: Val,
    other: Seq<char>,
)
    requires
        other != name,
    ensures
        lookup_s(seq![(name, value)] + env, other) == lookup_s(env, other),
{
    let extended = seq![(name, value)] + env;
    assert(extended[0].0 == name);
    assert(extended.drop_first() =~= env);
}

/// A `let` evaluates every binding's value expression against the `let`'s
/// original environment, whatever the bindings before it have added: sibling
/// bindings cannot observe one another, and extending the environment for
/// one binding leaks into no sibling.
pub proof fn lemma_let_binding_sees_base(
    items: Seq<Val>,
    base: Seq<(Seq<char>, Val)>,
    cur: Seq<(Seq<char>, Val)>,
    io: IoV,
    h: HostFns,
    fuel: nat,
    name: Seq<char>,
    vexpr: Val,
)
    requires
        fuel >= 1,
        items.len() >= 2,
        items[0] == Val::ListV(seq![Val::IdentV(name), vexpr]),
    ensures
        let_s(items, base, cur, io, h, fuel) == ({
            let o = eval_s(vexpr, base, io, h, (fuel - 1) as nat);
            match o.res {
                Err(e) => o,
                Ok(v) => let_s(items.drop_first(), base, seq![(name, v)] + cur, o.io, h, fuel),
            }
        }),
{
    let binding = seq![Val::IdentV(name), vexpr];
    assert(binding.len() == 2);
    assert(binding[0] == Val::IdentV(name));
    assert(binding[1] == vexpr);
}

/// A function applied to the wrong number of arguments is an arity error,
/// never a wrong-typed success: when the head of a call form evaluates to a
/// function whose parameter count differs from the argument count, the form
/// evaluates to the arity error, with only the head evaluation's effects.
pub proof fn lemma_wrong_arity_is_an_error(
    elems: Seq<Val>,
    env: Seq<(Seq<char>, Val)>,
    io: IoV,
    h: HostFns,
    fuel: nat,
    params: Seq<Val>,
    body: Val,
)
    requires
        fuel >= 2,
        elems.len() >= 1,
        !(elems[0] is BuiltinV),
        eval_s(elems[0], env, io, h, (fuel - 1) as nat).res == Ok::<Val, ErrV>(
            Val::FuncV(params, Box::new(body)),
        ),
        params.len() != elems.len() - 1,
    ensures
        eval_s(Val::ListV(elems), env, io, h, fuel).res == Err::<Val, ErrV>(ErrV::WrongArity),
        eval_s(Val::ListV(elems), env, io, h, fuel).io == eval_s(
            elems[0],
            env,
            io,
            h,
            (fuel - 1) as nat,
        ).io,
{
    let o = eval_s(elems[0], env, io, h, (fuel - 1) as nat);
    assert(eval_s(Val::ListV(elems), env, io, h, fuel) == apply_s(
        params,
        body,
        elems.drop_first(),
        env,
        o.io,
        h,
        fuel,
    ));
    assert(elems.drop_first().len() == elems.len() - 1);
}

/// A comparator applied to operands of unequal numeric kinds is a type
/// error, never a wrong-typed success: when the two operand forms evaluate
/// to values that are not both integers and not both floats, the comparison
/// form evaluates to the operand-type error, with only the operands'
/// evaluation effects.
pub proof fn lemma_comparator_mismatch_is_an_error(
    cmp: crate::program::BinaryComparator,
    elems: Seq<Val>,
    env: Seq<(Seq<char>, Val)>,
    io: IoV,
    h: HostFns,
    fuel: nat,
    v1: Val,
    v2: Val,
)
    requires
        fuel >= 2,
        elems.len() >= 3,
        !(elems[0] is BuiltinV),
        eval_s(elems[0], env, io, h, (fuel - 1) as nat).res == Ok::<Val, ErrV>(
            Val::OpV(Operator::BinaryComparator(cmp)),
        ),
        ({
            let io1 = eval_s(elems[0], env, io, h, (fuel - 1) as nat).io;
            &&& eval_s(elems[1], env, io1, h, (fuel - 1) as nat).res == Ok::<Val, ErrV>(v1)
            &&& eval_s(
                elems[2],
                env,
                eval_s(elems[1], env, io1, h, (fuel - 1) as nat).io,
                h,
                (fuel - 1) as nat,
            ).res == Ok::<Val, ErrV>(v2)
        }),
        !(v1 is NumV && v2 is NumV),
        !(v1 is FloatV && v2 is FloatV),
    ensures
        eval_s(Val::ListV(elems), env, io, h, fuel).res == Err::<Val, ErrV>(ErrV::OperandType),
{
    let o0 = eval_s(elems[0], env, io, h, (fuel - 1) as nat);
    let args = elems.drop_first();
    assert(args[0] == elems[1]);
    assert(args[1] == elems[2]);
    assert(args.len() >= 2);
    assert(eval_s(Val::ListV(elems), env, io, h, fuel) == op_dispatch_s(
        Operator::BinaryComparator(cmp),
        args,
        env,
        o0.io,
        h,
        fuel,
    ));
    let p = binargs_s(args, env, o0.io, h, fuel);
    assert(p.0 == Ok::<(Val, Val), ErrV>((v1, v2)));
}

} // verus!
