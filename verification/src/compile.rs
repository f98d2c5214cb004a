//! Lowering from the MIR expression tree to the SSA stream: emits basic
//! blocks for conditional control flow, threads values through block joins,
//! and patches forward branch targets once their blocks exist.
//!
//! The whole pass is mirrored, step for step, by the spec functions
//! [`lower`], [`lower_arm`], [`lower_join`] and [`lower_fun`] over the
//! builder's abstract state; each executable function is proved to produce
//! exactly the mirrored state.

use crate::buf::splice_u32;
use crate::encoding::{enc, Inst, OP2_ADD_I64, TAG_FUNCTION, TAG_GOTO, TAG_RETURN, TYPE_BOOL,
    TYPE_I64, TYPE_VOID};
use crate::mir;
use crate::mir::Expression;
use crate::ssa;
use crate::ssa::{BuilderModel, Label, PatchPoint, Value};
use vstd::bytes::{lemma_auto_spec_u32_to_from_le_bytes, spec_u32_to_le_bytes};
use vstd::prelude::*;

verus! {

/// The byte-string name of the one call the lowering pass knows,
/// `add.i64`.
pub open spec fn add_i64_sym() -> Seq<u8> {
    seq![97u8, 100u8, 100u8, 46u8, 105u8, 54u8, 52u8]
}

/// The SSA type an expression evaluates to. Meaningful only on well-formed
/// expressions (see [`exp_wf`]).
pub open spec fn exp_type(e: Expression) -> u8
    decreases e,
{
    match e {
        Expression::ConstBool(_) => TYPE_BOOL,
        Expression::ConstI64(_) => TYPE_I64,
        Expression::Call(_) => TYPE_I64,
        Expression::If(i) => exp_type(i.if_true),
        _ => TYPE_VOID,
    }
}

/// The expressions the lowering pass accepts: constants, two-argument
/// `add.i64` calls of I64 operands, and conditionals whose condition is
/// BOOL and whose arms agree on their type. Everything else (`Do`,
/// `Variable`, unknown calls) is a structural error, left to a later
/// extension.
pub open spec fn exp_wf(e: Expression) -> bool
    decreases e,
{
    match e {
        Expression::ConstBool(_) => true,
        Expression::ConstI64(_) => true,
        Expression::Call(c) => if c.args@.len() == 2 {
            &&& c.function.0@ == add_i64_sym()
            &&& exp_wf(c.args@[0])
            &&& exp_type(c.args@[0]) == TYPE_I64
            &&& exp_wf(c.args@[1])
            &&& exp_type(c.args@[1]) == TYPE_I64
        } else {
            false
        },
        Expression::If(i) => {
            &&& exp_wf(i.condition)
            &&& exp_type(i.condition) == TYPE_BOOL
            &&& exp_wf(i.if_true)
            &&& exp_wf(i.if_false)
            &&& exp_type(i.if_true) == exp_type(i.if_false)
        },
        _ => false,
    }
}

/// An upper bound on the number of values lowering `e` mints.
pub open spec fn max_values(e: Expression) -> nat
    decreases e,
{
    match e {
        Expression::ConstBool(_) => 1,
        Expression::ConstI64(_) => 1,
        Expression::Call(c) => if c.args@.len() == 2 {
            max_values(c.args@[0]) + max_values(c.args@[1]) + 1
        } else {
            0
        },
        Expression::If(i) => max_values(i.condition) + max_values(i.if_true) + max_values(
            i.if_false,
        ) + 1,
        _ => 0,
    }
}

/// An upper bound on the number of labels lowering `e` mints.
pub open spec fn max_labels(e: Expression) -> nat
    decreases e,
{
    match e {
        Expression::ConstBool(_) => 0,
        Expression::ConstI64(_) => 0,
        Expression::Call(c) => if c.args@.len() == 2 {
            max_labels(c.args@[0]) + max_labels(c.args@[1])
        } else {
            0
        },
        Expression::If(i) => max_labels(i.condition) + max_labels(i.if_true) + max_labels(
            i.if_false,
        ) + 3,
        _ => 0,
    }
}

/// One step of the lowering mirror: the builder state and, unless the
/// expression is divergent, the value it leaves behind with its type.
pub open spec fn lower(e: Expression, st: BuilderModel) -> (BuilderModel, Option<(u32, u8)>)
    decreases e, 0int,
{
    match e {
        Expression::ConstBool(p) => (
            BuilderModel {
                bytes: st.bytes + enc((Inst::ConstBool { b: p })),
                next_value: st.next_value + 1,
                ..st
            },
            Some(((st.next_value) as u32, TYPE_BOOL)),
        ),
        Expression::ConstI64(c) => (
            BuilderModel {
                bytes: st.bytes + enc((Inst::ConstI64 { c })),
                next_value: st.next_value + 1,
                ..st
            },
            Some(((st.next_value) as u32, TYPE_I64)),
        ),
        Expression::Call(c) => if c.args@.len() == 2 {
            let (st1, r1) = lower(c.args@[0], st);
            match r1 {
                None => (st1, None),
                Some((x, _t1)) => {
                    let (st2, r2) = lower(c.args@[1], st1);
                    match r2 {
                        None => (st2, None),
                        Some((y, _t2)) => (
                            BuilderModel {
                                bytes: st2.bytes + enc((Inst::Op2 { op: OP2_ADD_I64, x, y })),
                                next_value: st2.next_value + 1,
                                ..st2
                            },
                            Some(((st2.next_value) as u32, TYPE_I64)),
                        ),
                    }
                },
            }
        } else {
            (st, None)
        },
        Expression::If(i) => {
            let (st1, r1) = lower(i.condition, st);
            match r1 {
                None => (st1, None),
                Some((p, _t)) => {
                    let n = st1.bytes.len() as int;
                    let st2 = BuilderModel {
                        bytes: st1.bytes + enc((Inst::If { p, a: 0, b: 0 })),
                        ..st1
                    };
                    let (st3, case0) = lower_arm(i.if_false, st2, n + 9);
                    let (st4, case1) = lower_arm(i.if_true, st3, n + 5);
                    lower_join(st4, case0, case1)
                },
            }
        },
        _ => (st, None),
    }
}

/// One arm of a conditional: mint a `Case` label, patch the pending `If`
/// slot at `slot` to it, lower the arm, and (unless the arm diverges) emit
/// a one-argument `Goto` toward the yet-unknown join, returning the arm's
/// type and the goto's patch point.
pub open spec fn lower_arm(e: Expression, st: BuilderModel, slot: int) -> (
    BuilderModel,
    Option<(u8, int)>,
)
    decreases e, 1int,
{
    let label = st.next_label;
    let st1 = BuilderModel {
        bytes: st.bytes + enc(Inst::Case),
        next_label: st.next_label + 1,
        ..st
    };
    let st2 = BuilderModel { bytes: splice_u32(st1.bytes, slot, label as u32), ..st1 };
    let (st3, r) = lower(e, st2);
    match r {
        None => (st3, None),
        Some((x, t)) => {
            let point = st3.bytes.len() + 1;
            let st4 = BuilderModel {
                bytes: st3.bytes + (seq![TAG_GOTO] + spec_u32_to_le_bytes(0)
                    + spec_u32_to_le_bytes(1)) + spec_u32_to_le_bytes(x),
                ..st3
            };
            (st4, Some((t, point as int)))
        },
    }
}

/// The join step of a conditional, combining the two arm outcomes:
/// both arms divergent — no join block, the conditional is divergent;
/// exactly one arm convergent — a one-parameter join with a single incoming
/// edge, that arm's goto patched to it; both convergent — the same join
/// with both gotos patched to it. A join mints exactly one new value, of
/// the (common) arm type.
pub open spec fn lower_join(
    st: BuilderModel,
    case0: Option<(u8, int)>,
    case1: Option<(u8, int)>,
) -> (BuilderModel, Option<(u32, u8)>) {
    match (case0, case1) {
        (None, None) => (st, None),
        (Some((t0, p0)), Some((t1, p1))) => {
            let label = st.next_label;
            let st1 = BuilderModel {
                bytes: st.bytes + (seq![crate::encoding::TAG_JOIN] + spec_u32_to_le_bytes(1)),
                next_label: st.next_label + 1,
                ..st
            };
            let st2 = BuilderModel { bytes: splice_u32(st1.bytes, p0, label as u32), ..st1 };
            let st3 = BuilderModel { bytes: splice_u32(st2.bytes, p1, label as u32), ..st2 };
            let st4 = BuilderModel {
                bytes: st3.bytes + seq![t0],
                next_value: st3.next_value + 1,
                ..st3
            };
            (st4, Some(((st3.next_value) as u32, t0)))
        },
        (Some((t, p)), None) | (None, Some((t, p))) => {
            let label = st.next_label;
            let st1 = BuilderModel {
                bytes: st.bytes + (seq![crate::encoding::TAG_JOIN] + spec_u32_to_le_bytes(1)),
                next_label: st.next_label + 1,
                ..st
            };
            let st2 = BuilderModel { bytes: splice_u32(st1.bytes, p, label as u32), ..st1 };
            let st3 = BuilderModel {
                bytes: st2.bytes + seq![t],
                next_value: st2.next_value + 1,
                ..st2
            };
            (st3, Some(((st2.next_value) as u32, t)))
        },
    }
}


/// Lowering an arm only appends (and patches the one slot it was given):
/// the state grows, counters grow by bounded amounts, and on well-formed
/// input the arm yields its expression's type together with a goto patch
/// point that lies inside the bytes written so far.
pub proof fn lemma_arm_frame(e: Expression, st: BuilderModel, slot: int)
    requires
        0 <= slot,
        slot + 4 <= st.bytes.len(),
        0 <= st.next_value,
        st.next_value + max_values(e) <= u32::MAX,
    ensures
        st.bytes.len() < lower_arm(e, st, slot).0.bytes.len(),
        st.next_value <= lower_arm(e, st, slot).0.next_value,
        lower_arm(e, st, slot).0.next_value <= st.next_value + max_values(e),
        st.next_label <= lower_arm(e, st, slot).0.next_label,
        lower_arm(e, st, slot).0.next_label <= st.next_label + max_labels(e) + 1,
        lower_arm(e, st, slot).0.next_variable == st.next_variable,
        lower_arm(e, st, slot).1 matches Some((t, point)) ==> 0 <= point && point + 4
            <= lower_arm(e, st, slot).0.bytes.len(),
        exp_wf(e) ==> (lower_arm(e, st, slot).1 matches Some((t, point)) && t == exp_type(e)),
    decreases e, 1int,
{
    lemma_auto_spec_u32_to_from_le_bytes();
    let label = st.next_label;
    let st1 = BuilderModel {
        bytes: st.bytes + enc(Inst::Case),
        next_label: st.next_label + 1,
        ..st
    };
    let st2 = BuilderModel { bytes: splice_u32(st1.bytes, slot, label as u32), ..st1 };
    assert(st2.bytes.len() == st.bytes.len() + 1);
    lemma_lower_frame(e, st2);
}

/// Lowering only appends (and patches inside what it appended): lengths
/// grow, counters grow by bounded amounts, the variable counter is
/// untouched, and on well-formed input the expression always yields a
/// value -- the one minted last -- of the expression's type.
pub proof fn lemma_lower_frame(e: Expression, st: BuilderModel)
    requires
        0 <= st.next_value,
        st.next_value + max_values(e) <= u32::MAX,
    ensures
        st.bytes.len() <= lower(e, st).0.bytes.len(),
        st.next_value <= lower(e, st).0.next_value,
        lower(e, st).0.next_value <= st.next_value + max_values(e),
        st.next_label <= lower(e, st).0.next_label,
        lower(e, st).0.next_label <= st.next_label + max_labels(e),
        lower(e, st).0.next_variable == st.next_variable,
        lower(e, st).1 matches Some((v, t)) ==> v as int == lower(e, st).0.next_value - 1
            && st.next_value < lower(e, st).0.next_value,
        exp_wf(e) ==> (lower(e, st).1 matches Some((v, t)) && t == exp_type(e)),
    decreases e, 0int,
{
    lemma_auto_spec_u32_to_from_le_bytes();
    match e {
        Expression::ConstBool(_) => {}
        Expression::ConstI64(_) => {}
        Expression::Call(c) => {
            if c.args@.len() == 2 {
                lemma_lower_frame(c.args@[0], st);
                let (st1, r1) = lower(c.args@[0], st);
                if r1 is Some {
                    lemma_lower_frame(c.args@[1], st1);
                }
            }
        }
        Expression::If(i) => {
            lemma_lower_frame(i.condition, st);
            let (st1, r1) = lower(i.condition, st);
            match r1 {
                None => {}
                Some((p, _t)) => {
                    let n = st1.bytes.len() as int;
                    let st2 = BuilderModel {
                        bytes: st1.bytes + enc((Inst::If { p, a: 0, b: 0 })),
                        ..st1
                    };
                    assert(st2.bytes.len() == n + 13);
                    lemma_arm_frame(i.if_false, st2, n + 9);
                    let (st3, case0) = lower_arm(i.if_false, st2, n + 9);
                    lemma_arm_frame(i.if_true, st3, n + 5);
                    let (st4, case1) = lower_arm(i.if_true, st3, n + 5);
                    lemma_join_frame(st4, case0, case1);
                }
            }
        }
        _ => {}
    }
}

/// The join step appends at most a two-record tail, patches only the arm
/// patch points it was given, mints at most one value and one label, and
/// yields a value exactly when at least one arm did.
pub proof fn lemma_join_frame(
    st: BuilderModel,
    case0: Option<(u8, int)>,
    case1: Option<(u8, int)>,
)
    requires
        0 <= st.next_value,
        st.next_value + 1 <= u32::MAX,
        case0 matches Some((t, p)) ==> 0 <= p && p + 4 <= st.bytes.len(),
        case1 matches Some((t, p)) ==> 0 <= p && p + 4 <= st.bytes.len(),
    ensures
        st.bytes.len() <= lower_join(st, case0, case1).0.bytes.len(),
        st.next_value <= lower_join(st, case0, case1).0.next_value,
        lower_join(st, case0, case1).0.next_value <= st.next_value + 1,
        st.next_label <= lower_join(st, case0, case1).0.next_label,
        lower_join(st, case0, case1).0.next_label <= st.next_label + 1,
        lower_join(st, case0, case1).0.next_variable == st.next_variable,
        (case0 is Some || case1 is Some) <==> lower_join(st, case0, case1).1 is Some,
        lower_join(st, case0, case1).1 matches Some((v, t)) ==> v as int == lower_join(
            st,
            case0,
            case1,
        ).0.next_value - 1 && st.next_value < lower_join(st, case0, case1).0.next_value,
        case0 matches Some((t0, p0)) ==> (lower_join(st, case0, case1).1 matches Some((v, t))
            && t == t0),
        case0 is None && case1 is Some ==> (lower_join(st, case0, case1).1 matches Some((v, t))
            && t == case1.unwrap().0),
{
    lemma_auto_spec_u32_to_from_le_bytes();
}


/// The ghost form of an arm outcome: the arm's type code and the byte
/// offset of its goto's label field.
pub open spec fn opt_tp(r: Option<(ssa::Type, PatchPoint)>) -> Option<(u8, int)> {
    match r {
        None => None,
        Some((t, p)) => Some((t.0, p.0 as int)),
    }
}

/// The ghost form of an expression outcome: the value identifier and its
/// type code.
pub open spec fn opt_vt(r: Option<(Value, ssa::Type)>) -> Option<(u32, u8)> {
    match r {
        None => None,
        Some((v, t)) => Some((v.0, t.0)),
    }
}

/// The lowering environment: the SSA builder the pass writes into.
pub struct Env {
    pub out: ssa::Builder,
}

impl Env {
    /// The abstract state of the underlying builder.
    pub open spec fn model(&self) -> BuilderModel {
        self.out.model()
    }

    /// Creates an environment holding a fresh builder.
    pub fn new() -> (e: Env)
        ensures
            e.model().bytes == Seq::<u8>::empty(),
            e.model().next_value == 0,
            e.model().next_label == 0,
            e.model().next_variable == 0,
    {
        Env { out: ssa::Builder::new() }
    }
}

/// Whether the symbol is the byte string `add.i64`.
fn is_add_i64(s: &mir::Symbol) -> (r: bool)
    ensures
        r == (s.0@ == add_i64_sym()),
{
    if s.0.len() != 7 {
        proof {
            assert(s.0@ != add_i64_sym());
        }
        return false;
    }
    let ok = s.0[0] == 97 && s.0[1] == 100 && s.0[2] == 100 && s.0[3] == 46 && s.0[4] == 105
        && s.0[5] == 54 && s.0[6] == 52;
    proof {
        if ok {
            assert(s.0@ =~= add_i64_sym());
        } else {
            assert(s.0@ != add_i64_sym());
        }
    }
    ok
}

/// The join step of lowering a conditional (the executable form of
/// [`lower_join`]): emits the join block for whichever arms converged and
/// patches their gotos to it.
fn finish_if(
    env: &mut Env,
    case0: Option<(ssa::Type, PatchPoint)>,
    case1: Option<(ssa::Type, PatchPoint)>,
) -> (r: Option<(Value, ssa::Type)>)
    requires
        0 <= old(env).model().next_value,
        old(env).model().next_value + 1 <= u32::MAX,
        old(env).model().next_label + 1 <= u32::MAX,
        opt_tp(case0) matches Some((t, p)) ==> p + 4 <= old(env).model().bytes.len(),
        opt_tp(case1) matches Some((t, p)) ==> p + 4 <= old(env).model().bytes.len(),
        case0 matches Some((t0, p0)) && case1 matches Some((t1, p1)) ==> t0 == t1,
    ensures
        final(env).model() == lower_join(old(env).model(), opt_tp(case0), opt_tp(case1)).0,
        opt_vt(r) == lower_join(old(env).model(), opt_tp(case0), opt_tp(case1)).1,
{
    proof {
        lemma_auto_spec_u32_to_from_le_bytes();
    }
    let ghost st = old(env).model();
    match (case0, case1) {
        (None, None) => None,
        (Some((t0, p0)), Some((t1, p1))) => {
            let label = env.out.emit_join(1);
            env.out.patch_label(p0, label);
            env.out.patch_label(p1, label);
            let v = env.out.emit_param(t0);
            proof {
                assert(env.model() =~= lower_join(st, opt_tp(case0), opt_tp(case1)).0);
            }
            Some((v, t0))
        },
        (Some((t, p)), None) | (None, Some((t, p))) => {
            let label = env.out.emit_join(1);
            env.out.patch_label(p, label);
            let v = env.out.emit_param(t);
            proof {
                assert(env.model() =~= lower_join(st, opt_tp(case0), opt_tp(case1)).0);
            }
            Some((v, t))
        },
    }
}

/// Lowers one arm of a conditional (the executable form of [`lower_arm`]):
/// mints the arm's `Case` block, patches the pending `If` slot to it,
/// lowers the arm expression and closes the arm with a `Goto` toward the
/// yet-unknown join.
fn compile_arm(env: &mut Env, exp: &Expression, slot: PatchPoint) -> (r: Option<
    (ssa::Type, PatchPoint),
>)
    requires
        exp_wf(*exp),
        slot.0 + 4 <= old(env).model().bytes.len(),
        0 <= old(env).model().next_value,
        old(env).model().next_value + max_values(*exp) <= u32::MAX,
        old(env).model().next_label + max_labels(*exp) + 1 <= u32::MAX,
    ensures
        final(env).model() == lower_arm(*exp, old(env).model(), slot.0 as int).0,
        opt_tp(r) == lower_arm(*exp, old(env).model(), slot.0 as int).1,
    decreases *exp, 1int,
{
    proof {
        lemma_auto_spec_u32_to_from_le_bytes();
    }
    let ghost st = old(env).model();
    let label = env.out.emit_case();
    env.out.patch_label(slot, label);
    let ghost st2 = BuilderModel {
        bytes: splice_u32(st.bytes + enc(Inst::Case), slot.0 as int, (st.next_label) as u32),
        next_label: st.next_label + 1,
        ..st
    };
    proof {
        assert(env.model() =~= st2);
    }
    match compile_expression(env, exp) {
        None => {
            proof {
                assert(env.model() =~= lower_arm(*exp, st, slot.0 as int).0);
            }
            None
        },
        Some((x, t)) => {
            let point = env.out.emit_goto(Label(0), 1);
            env.out.emit_value(x);
            proof {
                assert(env.model() =~= lower_arm(*exp, st, slot.0 as int).0);
            }
            Some((t, point))
        },
    }
}

/// Lowers one expression (the executable form of [`lower`]). An expression
/// either evaluates to a single typed SSA value, or does not return to its
/// continuation at all; on the well-formed expressions the pass accepts,
/// the result is always a value, the one minted last, of the expression's
/// type (see [`lemma_lower_frame`]).
pub fn compile_expression(env: &mut Env, exp: &Expression) -> (r: Option<(Value, ssa::Type)>)
    requires
        exp_wf(*exp),
        0 <= old(env).model().next_value,
        old(env).model().next_value + max_values(*exp) <= u32::MAX,
        old(env).model().next_label + max_labels(*exp) <= u32::MAX,
    ensures
        final(env).model() == lower(*exp, old(env).model()).0,
        opt_vt(r) == lower(*exp, old(env).model()).1,
    decreases *exp, 0int,
{
    let ghost st = old(env).model();
    match exp {
        Expression::ConstBool(p) => {
            let v = env.out.emit_const_bool(*p);
            proof {
                assert(env.model() =~= lower(*exp, st).0);
            }
            Some((v, ssa::Type(TYPE_BOOL)))
        },
        Expression::ConstI64(n) => {
            let v = env.out.emit_const_i64(*n);
            proof {
                assert(env.model() =~= lower(*exp, st).0);
            }
            Some((v, ssa::Type(TYPE_I64)))
        },
        Expression::Call(c) => {
            if is_add_i64(&c.function) && c.args.len() == 2 {
                proof {
                    lemma_lower_frame(c.args@[0], st);
                }
                let r0 = compile_expression(env, &c.args[0]);
                match r0 {
                    None => None,
                    Some((x, _t0)) => {
                        proof {
                            lemma_lower_frame(c.args@[1], lower(c.args@[0], st).0);
                        }
                        let r1 = compile_expression(env, &c.args[1]);
                        match r1 {
                            None => None,
                            Some((y, _t1)) => {
                                let v = env.out.emit_op2(ssa::Op2(OP2_ADD_I64), x, y);
                                proof {
                                    assert(env.model() =~= lower(*exp, st).0);
                                }
                                Some((v, ssa::Type(TYPE_I64)))
                            },
                        }
                    },
                }
            } else {
                proof {
                    assert(false);
                }
                None
            }
        },
        Expression::If(i) => {
            proof {
                lemma_lower_frame(i.condition, st);
            }
            let r_c = compile_expression(env, &i.condition);
            match r_c {
                None => None,
                Some((p, _t)) => {
                    let ghost st1 = lower(i.condition, st).0;
                    let (a, b) = env.out.emit_if(p, Label(0), Label(0));
                    let ghost st2 = BuilderModel {
                        bytes: st1.bytes + enc((Inst::If { p: p.0, a: 0, b: 0 })),
                        ..st1
                    };
                    proof {
                        lemma_auto_spec_u32_to_from_le_bytes();
                        assert(env.model() =~= st2);
                        lemma_arm_frame(i.if_false, st2, st1.bytes.len() as int + 9);
                    }
                    let case0 = compile_arm(env, &i.if_false, b);
                    let ghost st3 = lower_arm(i.if_false, st2, st1.bytes.len() as int + 9).0;
                    proof {
                        lemma_arm_frame(i.if_true, st3, st1.bytes.len() as int + 5);
                    }
                    let case1 = compile_arm(env, &i.if_true, a);
                    let r = finish_if(env, case0, case1);
                    proof {
                        assert(env.model() =~= lower(*exp, st).0);
                    }
                    r
                },
            }
        },
        _ => {
            proof {
                assert(false);
            }
            None
        },
    }
}


/// The parameter type bytes of a function header: one `I64` code per
/// parameter (the surface language has no other type yet).
pub open spec fn params_types(ps: Seq<(mir::Symbol, mir::Type)>) -> Seq<u8> {
    Seq::new(ps.len(), |i: int| TYPE_I64)
}

/// The whole-function lowering mirror: the function header with one
/// continuation, one parameter record per MIR parameter, the lowered body,
/// and -- when the body yields a value -- a `Return` of that value to
/// continuation 0.
pub open spec fn lower_fun(f: mir::Function) -> BuilderModel {
    let st0 = BuilderModel {
        bytes: Seq::<u8>::empty() + seq![TAG_FUNCTION] + spec_u32_to_le_bytes(1)
            + spec_u32_to_le_bytes(f.params@.len() as u32) + params_types(f.params@),
        next_value: f.params@.len() as int,
        next_label: 1,
        next_variable: 0,
    };
    let (st1, r) = lower(f.body, st0);
    match r {
        None => st1,
        Some((v, _t)) => BuilderModel {
            bytes: st1.bytes + (seq![TAG_RETURN] + spec_u32_to_le_bytes(0)
                + spec_u32_to_le_bytes(1)) + spec_u32_to_le_bytes(v),
            ..st1
        },
    }
}

/// Translates a MIR function into a fresh SSA stream and returns the
/// environment holding it (call [`crate::printing::display`] on its bytes
/// for a listing).
pub fn compile(fun: &mir::Function) -> (env: Env)
    requires
        exp_wf(fun.body),
        fun.params@.len() + max_values(fun.body) <= u32::MAX,
        1 + max_labels(fun.body) <= u32::MAX,
    ensures
        env.model() == lower_fun(*fun),
{
    let mut env = Env::new();
    let nparams = fun.params.len();
    env.out.emit_function(1, nparams as u32);
    let mut k: usize = 0;
    while k < nparams
        invariant
            k <= nparams,
            nparams == fun.params@.len(),
            nparams + max_values(fun.body) <= u32::MAX,
            env.model().bytes == Seq::<u8>::empty() + seq![TAG_FUNCTION] + spec_u32_to_le_bytes(
                1,
            ) + spec_u32_to_le_bytes(nparams as u32) + Seq::new(k as nat, |i: int| TYPE_I64),
            env.model().next_value == k,
            env.model().next_label == 1,
            env.model().next_variable == 0,
        decreases nparams - k,
    {
        let t = fun.params[k].1;
        match t {
            mir::Type::I64 => {
                let ghost pre = env.model().bytes;
                let _ = env.out.emit_param(ssa::Type(TYPE_I64));
                proof {
                    assert(env.model().bytes =~= pre + seq![TYPE_I64]);
                    assert(pre + seq![TYPE_I64] =~= Seq::<u8>::empty() + seq![TAG_FUNCTION]
                        + spec_u32_to_le_bytes(1) + spec_u32_to_le_bytes(nparams as u32)
                        + Seq::new((k + 1) as nat, |i: int| TYPE_I64));
                }
            },
        }
        k = k + 1;
    }
    let ghost st0 = BuilderModel {
        bytes: Seq::<u8>::empty() + seq![TAG_FUNCTION] + spec_u32_to_le_bytes(1)
            + spec_u32_to_le_bytes(fun.params@.len() as u32) + params_types(fun.params@),
        next_value: fun.params@.len() as int,
        next_label: 1,
        next_variable: 0,
    };
    proof {
        assert(Seq::new(nparams as nat, |i: int| TYPE_I64) =~= params_types(fun.params@));
        assert(env.model() =~= st0);
    }
    match compile_expression(&mut env, &fun.body) {
        None => {},
        Some((value, _ty)) => {
            env.out.emit_return(0, 1);
            env.out.emit_value(value);
        },
    }
    proof {
        assert(env.model() =~= lower_fun(*fun));
    }
    env
}

/// Join determinism of lowering: when both arms of a conditional yield a
/// value of the common type `t`, the join introduces exactly one new
/// value, numbered with the next free identifier, and its type is `t`.
pub proof fn lemma_join_determinism(st: BuilderModel, t: u8, p0: int, p1: int)
    requires
        0 <= st.next_value,
        st.next_value + 1 <= u32::MAX,
        0 <= p0,
        p0 + 4 <= st.bytes.len(),
        0 <= p1,
        p1 + 4 <= st.bytes.len(),
    ensures
        lower_join(st, Some((t, p0)), Some((t, p1))).1 == Some(((st.next_value) as u32, t)),
        lower_join(st, Some((t, p0)), Some((t, p1))).0.next_value == st.next_value + 1,
        lower_join(st, Some((t, p0)), Some((t, p1))).0.next_label == st.next_label + 1,
{
}

/// Divergence propagation: when both arms of a conditional diverge there
/// is no join and the conditional itself is divergent, with the builder
/// state untouched; when exactly one arm yields a value, the join has that
/// single incoming edge and yields a fresh value of that arm's type.
pub proof fn lemma_divergence_propagation(st: BuilderModel, t: u8, p: int)
    requires
        0 <= st.next_value,
        st.next_value + 1 <= u32::MAX,
        0 <= p,
        p + 4 <= st.bytes.len(),
    ensures
        lower_join(st, None, None).0 == st,
        lower_join(st, None, None).1 is None,
        lower_join(st, Some((t, p)), None).1 == Some(((st.next_value) as u32, t)),
        lower_join(st, None, Some((t, p))).1 == Some(((st.next_value) as u32, t)),
        lower_join(st, Some((t, p)), None).0.bytes.len() == st.bytes.len() + 6,
        lower_join(st, None, Some((t, p))).0.bytes.len() == st.bytes.len() + 6,
{
    lemma_auto_spec_u32_to_from_le_bytes();
}

} // verus!
