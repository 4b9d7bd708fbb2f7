//! The host's numeric kernel.
//!
//! The verified core never touches machine floating point: a float value is
//! carried as its IEEE 754 binary32 bit pattern (`u32`), and every operation
//! on such bit patterns is delegated to a small kernel of closures supplied
//! by the embedding host.  The kernel consists of the four arithmetic
//! operators, the native comparators, the transcendental unary functions,
//! integer-to-float conversion, float-literal parsing, and float rendering.
//! Everything else — the tolerance rule for float equality, absolute value,
//! the reciprocal — is composed from these in verified code.
//!
//! Contracts are stated against `HostFns`, the mathematical content of a
//! kernel: for a kernel whose closures are total and deterministic (which the
//! intended IEEE implementations are), each closure determines a unique
//! mathematical function, obtained here by definite choice over
//! `call_ensures`.  The evaluator's results are then pinned exactly, as a
//! function of the program, the environment, and these kernel functions.

use crate::program::{BinaryComparator, BinaryOperator, UnaryOperator};
use vstd::prelude::*;

verus! {

/// The host-supplied numeric kernel.
pub struct Host<FA, FC, FU, FI, FP, FT> where
    FA: Fn(BinaryOperator, u32, u32) -> u32,
    FC: Fn(BinaryComparator, u32, u32) -> bool,
    FU: Fn(UnaryOperator, u32) -> u32,
    FI: Fn(i32) -> u32,
    FP: Fn(&str) -> Option<u32>,
    FT: Fn(u32) -> String,
 {
    /// IEEE binary32 `*`, `/`, `+`, `-` on bit patterns.
    pub arith: FA,
    /// The native binary32 comparisons on bit patterns.
    pub cmp: FC,
    /// `exp`, natural `log` and `sin` on bit patterns (the `Rec` case is
    /// never consulted: the reciprocal is composed from `arith` division).
    pub unary: FU,
    /// IEEE conversion of an `i32` to the nearest binary32 bit pattern.
    pub of_int: FI,
    /// Parsing of a float literal to the nearest binary32 bit pattern.
    pub parse: FP,
    /// Shortest decimal rendering of a binary32 bit pattern.
    pub text: FT,
}

/// The mathematical content of a numeric kernel: one function per closure.
pub ghost struct HostFns {
    pub arith: spec_fn(BinaryOperator, u32, u32) -> u32,
    pub cmp: spec_fn(BinaryComparator, u32, u32) -> bool,
    pub unary: spec_fn(UnaryOperator, u32) -> u32,
    pub of_int: spec_fn(i32) -> u32,
    pub parse: spec_fn(Seq<char>) -> Option<u32>,
    pub text: spec_fn(u32) -> Seq<char>,
}

pub open spec fn arith_ok<FA: Fn(BinaryOperator, u32, u32) -> u32>(f: FA) -> bool {
    &&& forall|op: BinaryOperator, a: u32, b: u32| #[trigger] call_requires(f, (op, a, b))
    &&& forall|op: BinaryOperator, a: u32, b: u32, r1: u32, r2: u32|
        #[trigger] call_ensures(f, (op, a, b), r1) && #[trigger] call_ensures(f, (op, a, b), r2)
            ==> r1 == r2
}

pub open spec fn cmp_ok<FC: Fn(BinaryComparator, u32, u32) -> bool>(f: FC) -> bool {
    &&& forall|op: BinaryComparator, a: u32, b: u32| #[trigger] call_requires(f, (op, a, b))
    &&& forall|op: BinaryComparator, a: u32, b: u32, r1: bool, r2: bool|
        #[trigger] call_ensures(f, (op, a, b), r1) && #[trigger] call_ensures(f, (op, a, b), r2)
            ==> r1 == r2
}

pub open spec fn unary_ok<FU: Fn(UnaryOperator, u32) -> u32>(f: FU) -> bool {
    &&& forall|op: UnaryOperator, a: u32| #[trigger] call_requires(f, (op, a))
    &&& forall|op: UnaryOperator, a: u32, r1: u32, r2: u32|
        #[trigger] call_ensures(f, (op, a), r1) && #[trigger] call_ensures(f, (op, a), r2) ==> r1
            == r2
}

pub open spec fn of_int_ok<FI: Fn(i32) -> u32>(f: FI) -> bool {
    &&& forall|a: i32| #[trigger] call_requires(f, (a,))
    &&& forall|a: i32, r1: u32, r2: u32|
        #[trigger] call_ensures(f, (a,), r1) && #[trigger] call_ensures(f, (a,), r2) ==> r1 == r2
}

/// Totality, and determinism as a function of the character sequence alone.
pub open spec fn parse_ok<FP: Fn(&str) -> Option<u32>>(f: FP) -> bool {
    &&& forall|s: &str| #[trigger] call_requires(f, (s,))
    &&& forall|s1: &str, s2: &str, r1: Option<u32>, r2: Option<u32>|
        #[trigger] call_ensures(f, (s1,), r1) && #[trigger] call_ensures(f, (s2,), r2) && s1@
            == s2@ ==> r1 == r2
}

/// Totality, and determinism of the rendered characters.
pub open spec fn text_ok<FT: Fn(u32) -> String>(f: FT) -> bool {
    &&& forall|a: u32| #[trigger] call_requires(f, (a,))
    &&& forall|a: u32, r1: String, r2: String|
        #[trigger] call_ensures(f, (a,), r1) && #[trigger] call_ensures(f, (a,), r2) ==> r1@ == r2@
}

pub open spec fn arith_fn<FA: Fn(BinaryOperator, u32, u32) -> u32>(f: FA) -> spec_fn(
    BinaryOperator,
    u32,
    u32,
) -> u32 {
    |op: BinaryOperator, a: u32, b: u32| choose|r: u32| call_ensures(f, (op, a, b), r)
}

pub open spec fn cmp_fn<FC: Fn(BinaryComparator, u32, u32) -> bool>(f: FC) -> spec_fn(
    BinaryComparator,
    u32,
    u32,
) -> bool {
    |op: BinaryComparator, a: u32, b: u32| choose|r: bool| call_ensures(f, (op, a, b), r)
}

pub open spec fn unary_fn<FU: Fn(UnaryOperator, u32) -> u32>(f: FU) -> spec_fn(
    UnaryOperator,
    u32,
) -> u32 {
    |op: UnaryOperator, a: u32| choose|r: u32| call_ensures(f, (op, a), r)
}

pub open spec fn of_int_fn<FI: Fn(i32) -> u32>(f: FI) -> spec_fn(i32) -> u32 {
    |a: i32| choose|r: u32| call_ensures(f, (a,), r)
}

pub open spec fn parse_fn<FP: Fn(&str) -> Option<u32>>(f: FP) -> spec_fn(Seq<char>) -> Option<
    u32,
> {
    |cs: Seq<char>|
        {
            let picked: (&str, Option<u32>) = choose|s: &str, r: Option<u32>|
                s@ == cs && #[trigger] call_ensures(f, (s,), r);
            picked.1
        }
}

pub open spec fn text_fn<FT: Fn(u32) -> String>(f: FT) -> spec_fn(u32) -> Seq<char> {
    |a: u32|
        {
            let picked: String = choose|r: String| #[trigger] call_ensures(f, (a,), r);
            picked@
        }
}

/// Applies a float-literal parse kernel, pinning the result to the kernel's
/// mathematical function.
pub fn apply_parse<FP: Fn(&str) -> Option<u32>>(fp: &FP, s: &str) -> (r: Option<u32>)
    requires
        parse_ok(*fp),
    ensures
        r == parse_fn(*fp)(s@),
{
    let r = (fp)(s);
    proof {
        assert(exists|s2: &str, r2: Option<u32>|
            s2@ == s@ && #[trigger] call_ensures(*fp, (s2,), r2)) by {
            assert(call_ensures(*fp, (s,), r));
        }
        let picked: (&str, Option<u32>) = choose|s2: &str, r2: Option<u32>|
            s2@ == s@ && #[trigger] call_ensures(*fp, (s2,), r2);
    }
    r
}

/// Applies a float-rendering kernel, pinning the characters to the kernel's
/// mathematical function.
pub fn apply_text<FT: Fn(u32) -> String>(ft: &FT, a: u32) -> (r: String)
    requires
        text_ok(*ft),
    ensures
        r@ == text_fn(*ft)(a),
{
    let r = (ft)(a);
    proof {
        let picked: String = choose|r2: String| #[trigger] call_ensures(*ft, (a,), r2);
        assert(call_ensures(*ft, (a,), r));
    }
    r
}

impl<FA, FC, FU, FI, FP, FT> Host<FA, FC, FU, FI, FP, FT> where
    FA: Fn(BinaryOperator, u32, u32) -> u32,
    FC: Fn(BinaryComparator, u32, u32) -> bool,
    FU: Fn(UnaryOperator, u32) -> u32,
    FI: Fn(i32) -> u32,
    FP: Fn(&str) -> Option<u32>,
    FT: Fn(u32) -> String,
 {
    /// A kernel is admissible when each closure is total and deterministic —
    /// true of any implementation by pure machine-float operations.
    pub open spec fn wf(&self) -> bool {
        &&& arith_ok(self.arith)
        &&& cmp_ok(self.cmp)
        &&& unary_ok(self.unary)
        &&& of_int_ok(self.of_int)
        &&& parse_ok(self.parse)
        &&& text_ok(self.text)
    }

    /// The mathematical functions this kernel implements.
    pub open spec fn fns(&self) -> HostFns {
        HostFns {
            arith: arith_fn(self.arith),
            cmp: cmp_fn(self.cmp),
            unary: unary_fn(self.unary),
            of_int: of_int_fn(self.of_int),
            parse: parse_fn(self.parse),
            text: text_fn(self.text),
        }
    }

    pub fn k_arith(&self, op: BinaryOperator, a: u32, b: u32) -> (r: u32)
        requires
            self.wf(),
        ensures
            r == (self.fns().arith)(op, a, b),
    {
        let r = (self.arith)(op, a, b);
        proof {
            assert(call_ensures(self.arith, (op, a, b), (self.fns().arith)(op, a, b)));
        }
        r
    }

    pub fn k_cmp(&self, op: BinaryComparator, a: u32, b: u32) -> (r: bool)
        requires
            self.wf(),
        ensures
            r == (self.fns().cmp)(op, a, b),
    {
        let r = (self.cmp)(op, a, b);
        proof {
            assert(call_ensures(self.cmp, (op, a, b), (self.fns().cmp)(op, a, b)));
        }
        r
    }

    pub fn k_unary(&self, op: UnaryOperator, a: u32) -> (r: u32)
        requires
            self.wf(),
        ensures
            r == (self.fns().unary)(op, a),
    {
        let r = (self.unary)(op, a);
        proof {
            assert(call_ensures(self.unary, (op, a), (self.fns().unary)(op, a)));
        }
        r
    }

    pub fn k_of_int(&self, a: i32) -> (r: u32)
        requires
            self.wf(),
        ensures
            r == (self.fns().of_int)(a),
    {
        let r = (self.of_int)(a);
        proof {
            assert(call_ensures(self.of_int, (a,), (self.fns().of_int)(a)));
        }
        r
    }

    pub fn k_parse(&self, s: &str) -> (r: Option<u32>)
        requires
            self.wf(),
        ensures
            r == (self.fns().parse)(s@),
    {
        apply_parse(&self.parse, s)
    }

    pub fn k_text(&self, a: u32) -> (r: String)
        requires
            self.wf(),
        ensures
            r@ == (self.fns().text)(a),
    {
        apply_text(&self.text, a)
    }
}

} // verus!
