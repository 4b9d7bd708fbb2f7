//! The special-form (builtin) dispatcher.
//!
//! Each special form receives the unevaluated tail of its call form and the
//! current environment, and decides itself which parts to evaluate and when:
//! `func` evaluates nothing, `let` evaluates binding values against the
//! original environment, `if` evaluates only the selected branch, `progn`
//! evaluates everything in order, `print` and `input` touch the I/O state,
//! and `cat` concatenates two evaluated strings.

use crate::eval::{builtin_s, env_vals, eval_fueled, item_text_line, lemma_env_vals_prepend, let_s,
    progn_s, res_val, Env, EvalErr, IoState};
use crate::host::Host;
use crate::list::{List, Node};
use crate::program::{item_val_at, lemma_list_vals_cdr_at, link_vals, link_vals_at, list_vals,
    list_vals_at, BinaryComparator, BinaryOperator, Builtin, Item, UnaryOperator, Val};
use std::rc::Rc;
use vstd::prelude::*;
use vstd::string::StringExecFns;

verus! {

/// Runs the forms of a `progn` in order; the value is the last form's.
fn progn_run<FA, FC, FU, FI, FP, FT>(
    cursor: &Option<Rc<Node<Item>>>,
    env: &Env,
    io: &mut IoState,
    host: &Host<FA, FC, FU, FI, FP, FT>,
    fuel: u64,
) -> (r: Result<Item, EvalErr>) where
    FA: Fn(BinaryOperator, u32, u32) -> u32,
    FC: Fn(BinaryComparator, u32, u32) -> bool,
    FU: Fn(UnaryOperator, u32) -> u32,
    FI: Fn(i32) -> u32,
    FP: Fn(&str) -> Option<u32>,
    FT: Fn(u32) -> String,

    requires
        host.wf(),
    ensures
        ({
            let o = progn_s(link_vals(*cursor), env_vals(*env), old(io)@, host.fns(), fuel as nat);
            final(io)@ == o.io && res_val(r) == o.res
        }),
    decreases fuel, 2int, crate::list::link_seq(*cursor).len(),
{
    if fuel == 0 {
        return Err(EvalErr::RecursionLimit);
    }
    match cursor {
        None => Err(EvalErr::EmptyProgn),
        Some(node) => {
            match &node.next {
                None => {
                    proof {
                        assert(link_vals_at(&node.next) =~= Seq::<Val>::empty());
                        assert(link_vals_at(cursor) =~= seq![item_val_at(&node.car)]
                            + link_vals_at(&node.next));
                        assert(link_vals_at(cursor).len() == 1);
                    }
                    eval_fueled(&node.car, env, io, host, fuel - 1)
                },
                Some(_) => {
                    proof {
                        assert(link_vals_at(cursor) =~= seq![item_val_at(&node.car)]
                            + link_vals_at(&node.next));
                        assert(link_vals_at(cursor).drop_first() =~= link_vals_at(&node.next));
                        assert(link_vals_at(&node.next).len() >= 1);
                        assert(link_vals_at(cursor).len() >= 2);
                        assert(link_vals_at(cursor)[0] == item_val_at(&node.car));
                    }
                    match eval_fueled(&node.car, env, io, host, fuel - 1) {
                        Err(e) => Err(e),
                        Ok(_) => progn_run(&node.next, env, io, host, fuel),
                    }
                },
            }
        },
    }
}

/// Walks the binding forms of a `let`, evaluating each value against the
/// original environment `base`, and the final form against the accumulated
/// environment.
fn let_run<FA, FC, FU, FI, FP, FT>(
    cursor: &Option<Rc<Node<Item>>>,
    base: &Env,
    cur: Env,
    io: &mut IoState,
    host: &Host<FA, FC, FU, FI, FP, FT>,
    fuel: u64,
) -> (r: Result<Item, EvalErr>) where
    FA: Fn(BinaryOperator, u32, u32) -> u32,
    FC: Fn(BinaryComparator, u32, u32) -> bool,
    FU: Fn(UnaryOperator, u32) -> u32,
    FI: Fn(i32) -> u32,
    FP: Fn(&str) -> Option<u32>,
    FT: Fn(u32) -> String,

    requires
        host.wf(),
    ensures
        ({
            let o = let_s(
                link_vals(*cursor),
                env_vals(*base),
                env_vals(cur),
                old(io)@,
                host.fns(),
                fuel as nat,
            );
            final(io)@ == o.io && res_val(r) == o.res
        }),
    decreases fuel, 2int, crate::list::link_seq(*cursor).len(),
{
    if fuel == 0 {
        return Err(EvalErr::RecursionLimit);
    }
    match cursor {
        None => Err(EvalErr::EmptyLet),
        Some(node) => {
            match &node.next {
                None => {
                    proof {
                        assert(link_vals_at(&node.next) =~= Seq::<Val>::empty());
                        assert(link_vals_at(cursor) =~= seq![item_val_at(&node.car)]
                            + link_vals_at(&node.next));
                        assert(link_vals_at(cursor).len() == 1);
                    }
                    eval_fueled(&node.car, &cur, io, host, fuel - 1)
                },
                Some(_) => {
                    proof {
                        assert(link_vals_at(cursor) =~= seq![item_val_at(&node.car)]
                            + link_vals_at(&node.next));
                        assert(link_vals_at(cursor).drop_first() =~= link_vals_at(&node.next));
                        assert(link_vals_at(&node.next).len() >= 1);
                        assert(link_vals_at(cursor).len() >= 2);
                        assert(link_vals_at(cursor)[0] == item_val_at(&node.car));
                    }
                    match &node.car {
                        Item::List(binding) => {
                            proof {
                                crate::program::lemma_link_vals_parts(&binding.head);
                            }
                            let bname = match binding.car() {
                                None => {
                                    return Err(EvalErr::BadLetBinding);
                                },
                                Some(Item::Identifier(name)) => name,
                                Some(_) => {
                                    return Err(EvalErr::BadLetBinding);
                                },
                            };
                            let btail = binding.cdr();
                            proof {
                                lemma_list_vals_cdr_at(&btail, binding);
                                crate::program::lemma_link_vals_parts(&btail.head);
                            }
                            let vexpr = match btail.car() {
                                None => {
                                    return Err(EvalErr::BadLetBinding);
                                },
                                Some(x) => x,
                            };
                            let v = match eval_fueled(vexpr, base, io, host, fuel - 1) {
                                Err(e) => {
                                    return Err(e);
                                },
                                Ok(v) => v,
                            };
                            let bind = (bname.clone(), v);
                            let ghost gcur = cur;
                            let ghost gbind = bind;
                            let cur2 = cur.prepend(bind);
                            proof {
                                lemma_env_vals_prepend(cur2, gcur, gbind);
                            }
                            let_run(&node.next, base, cur2, io, host, fuel)
                        },
                        _ => Err(EvalErr::BadLetBinding),
                    }
                },
            }
        },
    }
}

/// Dispatches a special form over the unevaluated tail of its call form,
/// exactly as `builtin_s` describes.
pub fn builtinerate<FA, FC, FU, FI, FP, FT>(
    builtin: &Builtin,
    list: &List<Item>,
    env: &Env,
    io: &mut IoState,
    host: &Host<FA, FC, FU, FI, FP, FT>,
    fuel: u64,
) -> (r: Result<Item, EvalErr>) where
    FA: Fn(BinaryOperator, u32, u32) -> u32,
    FC: Fn(BinaryComparator, u32, u32) -> bool,
    FU: Fn(UnaryOperator, u32) -> u32,
    FI: Fn(i32) -> u32,
    FP: Fn(&str) -> Option<u32>,
    FT: Fn(u32) -> String,

    requires
        host.wf(),
    ensures
        ({
            let o = builtin_s(
                *builtin,
                list_vals(*list),
                env_vals(*env),
                old(io)@,
                host.fns(),
                fuel as nat,
            );
            final(io)@ == o.io && res_val(r) == o.res
        }),
    decreases fuel, 3int, 0int,
{
    proof {
        crate::program::lemma_link_vals_parts(&list.head);
    }
    if fuel == 0 {
        return Err(EvalErr::RecursionLimit);
    }
    match builtin {
        Builtin::Func => {
            let first = match list.car() {
                None => {
                    return Err(EvalErr::BadFuncShape);
                },
                Some(x) => x,
            };
            match first {
                Item::List(ps) => {
                    let tail = list.cdr();
                    proof {
                        lemma_list_vals_cdr_at(&tail, list);
                        crate::program::lemma_link_vals_parts(&tail.head);
                    }
                    match tail.car() {
                        None => Err(EvalErr::BadFuncShape),
                        Some(body) => Ok(Item::Function(ps.clone(), Box::new(body.clone()))),
                    }
                },
                _ => Err(EvalErr::BadFuncShape),
            }
        },
        Builtin::Progn => {
            match list.car() {
                None => Err(EvalErr::EmptyProgn),
                Some(_) => progn_run(&list.head, env, io, host, fuel),
            }
        },
        Builtin::Print => {
            let first = match list.car() {
                None => {
                    return Err(EvalErr::MissingPrintArg);
                },
                Some(x) => x,
            };
            let v = match eval_fueled(first, env, io, host, fuel - 1) {
                Err(e) => {
                    return Err(e);
                },
                Ok(v) => v,
            };
            let ghost outs_before = io@.outs;
            let line = item_text_line(&v, host);
            let ghost gl = line@;
            io.outputs.push(line);
            proof {
                assert(io@.outs =~= outs_before.push(gl));
            }
            Ok(Item::Nil)
        },
        Builtin::Let => {
            match list.car() {
                None => Err(EvalErr::EmptyLet),
                Some(_) => let_run(&list.head, env, env.clone(), io, host, fuel),
            }
        },
        Builtin::If => {
            let first = match list.car() {
                None => {
                    return Err(EvalErr::MissingIfPart);
                },
                Some(x) => x,
            };
            let c = match eval_fueled(first, env, io, host, fuel - 1) {
                Err(e) => {
                    return Err(e);
                },
                Ok(v) => v,
            };
            match c {
                Item::Boolean(true) => {
                    let tail = list.cdr();
                    proof {
                        lemma_list_vals_cdr_at(&tail, list);
                        crate::program::lemma_link_vals_parts(&tail.head);
                    }
                    match tail.car() {
                        None => Err(EvalErr::MissingIfPart),
                        Some(branch) => eval_fueled(branch, env, io, host, fuel - 1),
                    }
                },
                Item::Boolean(false) => {
                    let tail = list.cdr();
                    let tail2 = tail.cdr();
                    proof {
                        lemma_list_vals_cdr_at(&tail, list);
                        crate::program::lemma_link_vals_parts(&tail.head);
                        crate::program::lemma_link_vals_parts(&tail2.head);
                        if list@.len() >= 2 {
                            lemma_list_vals_cdr_at(&tail2, &tail);
                        } else {
                            assert(tail@.len() == 0);
                            assert(list_vals_at(&tail2) =~= Seq::<Val>::empty());
                        }
                    }
                    match tail2.car() {
                        None => Err(EvalErr::MissingIfPart),
                        Some(branch) => eval_fueled(branch, env, io, host, fuel - 1),
                    }
                },
                _ => Err(EvalErr::CondNotBool),
            }
        },
        Builtin::Input => {
            if io.inputs.len() == 0 {
                Err(EvalErr::InputExhausted)
            } else {
                let ghost ins_before = io@.ins;
                let line = io.inputs.remove(0);
                proof {
                    assert forall|i: int| 0 <= i < io@.ins.len() implies io@.ins[i]
                        == ins_before.drop_first()[i] by {
                        assert(io.inputs@[i] == old(io).inputs@[i + 1]);
                    }
                    assert(io@.ins =~= ins_before.drop_first());
                    assert(line@ == ins_before[0]);
                }
                Ok(Item::String(line))
            }
        },
        Builtin::Cat => {
            let first = match list.car() {
                None => {
                    return Err(EvalErr::MissingCatArg);
                },
                Some(x) => x,
            };
            let v1 = match eval_fueled(first, env, io, host, fuel - 1) {
                Err(e) => {
                    return Err(e);
                },
                Ok(v) => v,
            };
            let s1 = match v1 {
                Item::String(s) => s,
                _ => {
                    return Err(EvalErr::CatType);
                },
            };
            let tail = list.cdr();
            proof {
                lemma_list_vals_cdr_at(&tail, list);
                crate::program::lemma_link_vals_parts(&tail.head);
            }
            let second = match tail.car() {
                None => {
                    return Err(EvalErr::MissingCatArg);
                },
                Some(y) => y,
            };
            let v2 = match eval_fueled(second, env, io, host, fuel - 1) {
                Err(e) => {
                    return Err(e);
                },
                Ok(v) => v,
            };
            let s2 = match v2 {
                Item::String(s) => s,
                _ => {
                    return Err(EvalErr::CatType);
                },
            };
            Ok(Item::String(s1.concat(s2.as_str())))
        },
    }
}

} // verus!
