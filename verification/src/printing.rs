//! Pretty-printer: walks the decoded stream and produces a human-readable
//! listing with stable value/label naming. Block entries print as
//! `L: kind (params)`; value-producing middle instructions print as
//! `%V = mnemonic operands`; terminators print without minting identifiers.
//! A `Function` header resets the label counter (taking label 0 for itself)
//! and the value counter.
//!
//! Records whose listing format is not fixed yet (the variable ops and the
//! reserved `Kont` and `ConstI32` records) print as an unknown-instruction
//! line, and mint nothing.

use crate::encoding::{dec_at, vals_of, Inst};
use crate::ssa::{
    read, spec_op1_name, spec_op2_name, spec_type_name, Instruction, Type, TypeList, ValueList,
};
use vstd::prelude::*;
use vstd::string::StringExecFns;

verus! {

/// The decimal digit characters, `0` through `9`.
pub open spec fn digit_char(d: int) -> char {
    if d == 0 {
        '0'
    } else if d == 1 {
        '1'
    } else if d == 2 {
        '2'
    } else if d == 3 {
        '3'
    } else if d == 4 {
        '4'
    } else if d == 5 {
        '5'
    } else if d == 6 {
        '6'
    } else if d == 7 {
        '7'
    } else if d == 8 {
        '8'
    } else {
        '9'
    }
}

/// Decimal digits of `n`, most significant first, no leading zeros
/// (except for `n == 0` itself).
pub open spec fn dec_digits(n: nat) -> Seq<char>
    decreases n,
{
    if n < 10 {
        seq![digit_char(n as int)]
    } else {
        dec_digits(n / 10).push(digit_char((n % 10) as int))
    }
}

/// Appends the decimal form of `n` to `out`.
fn push_dec(out: &mut String, n: u64)
    ensures
        final(out)@ == old(out)@ + dec_digits(n as nat),
    decreases n,
{
    if n >= 10 {
        push_dec(out, n / 10);
    }
    let d = n % 10;
    let digit: &str = if d == 0 {
        "0"
    } else if d == 1 {
        "1"
    } else if d == 2 {
        "2"
    } else if d == 3 {
        "3"
    } else if d == 4 {
        "4"
    } else if d == 5 {
        "5"
    } else if d == 6 {
        "6"
    } else if d == 7 {
        "7"
    } else if d == 8 {
        "8"
    } else {
        "9"
    };
    out.append(digit);
    proof {
        reveal_strlit("0");
        reveal_strlit("1");
        reveal_strlit("2");
        reveal_strlit("3");
        reveal_strlit("4");
        reveal_strlit("5");
        reveal_strlit("6");
        reveal_strlit("7");
        reveal_strlit("8");
        reveal_strlit("9");
        assert(digit@ =~= seq![digit_char(n as int % 10)]);
        assert(final(out)@ =~= old(out)@ + dec_digits(n as nat));
    }
}

/// The parameter list text of a block entry: `%V ty` entries separated by
/// `", "`, with value identifiers counting up from `vid + i`.
pub open spec fn params_text(params: Seq<u8>, vid: int, i: int) -> Seq<char>
    decreases params.len() - i,
{
    if 0 <= i < params.len() {
        (if i > 0 {
            ", "@
        } else {
            Seq::<char>::empty()
        }) + "%"@ + dec_digits((vid + i) as nat) + " "@ + spec_type_name(params[i])
            + params_text(params, vid, i + 1)
    } else {
        Seq::<char>::empty()
    }
}

/// The argument list text of a terminator: `%V` entries separated by `", "`.
pub open spec fn vals_text(vals: Seq<u32>, i: int) -> Seq<char>
    decreases vals.len() - i,
{
    if 0 <= i < vals.len() {
        (if i > 0 {
            ", "@
        } else {
            Seq::<char>::empty()
        }) + "%"@ + dec_digits(vals[i] as nat) + vals_text(vals, i + 1)
    } else {
        Seq::<char>::empty()
    }
}

/// The continuation list text of a function header: `...` entries separated
/// by `"|"`.
pub open spec fn konts_text(n: int, i: int) -> Seq<char>
    decreases n - i,
{
    if i < n {
        (if i > 0 {
            "|"@
        } else {
            Seq::<char>::empty()
        }) + "..."@ + konts_text(n, i + 1)
    } else {
        Seq::<char>::empty()
    }
}

/// `n` bar characters.
pub open spec fn bars(n: int) -> Seq<char>
    decreases n,
{
    if n <= 0 {
        Seq::<char>::empty()
    } else {
        "|"@ + bars(n - 1)
    }
}

/// The printer's running counters.
pub struct PrState {
    pub function_id: int,
    pub label_id: int,
    pub value_id: int,
    pub nkonts: int,
}

/// The listing line of one instruction under counters `st`, and the
/// counters after it.
pub open spec fn render_inst(m: Inst, st: PrState) -> (Seq<char>, PrState) {
    match m {
        Inst::Function { nkonts, params } => (
            dec_digits(st.function_id as nat) + ": function $"@ + dec_digits(0) + " ("@
                + params_text(params, 0, 0) + ") -> "@ + (if nkonts == 0 {
                "!"@
            } else {
                "("@ + konts_text(nkonts as int, 0) + ")"@
            }) + "\n"@,
            PrState {
                function_id: st.function_id + 1,
                label_id: 1,
                value_id: params.len() as int,
                nkonts: nkonts as int,
            },
        ),
        Inst::Case => (
            dec_digits(st.label_id as nat) + ": case\n"@,
            PrState { label_id: st.label_id + 1, ..st },
        ),
        Inst::Join { params } => (
            dec_digits(st.label_id as nat) + ": join ("@ + params_text(params, st.value_id, 0)
                + ")\n"@,
            PrState {
                label_id: st.label_id + 1,
                value_id: st.value_id + params.len() as int,
                ..st
            },
        ),
        Inst::ConstBool { b } => (
            "\t%"@ + dec_digits(st.value_id as nat) + " = const.bool #"@ + (if b {
                "true"@
            } else {
                "false"@
            }) + "\n"@,
            PrState { value_id: st.value_id + 1, ..st },
        ),
        Inst::ConstI64 { c } => (
            "\t%"@ + dec_digits(st.value_id as nat) + " = const.i64 #"@ + dec_digits(c as nat)
                + "\n"@,
            PrState { value_id: st.value_id + 1, ..st },
        ),
        Inst::Op1 { op, x } => (
            "\t%"@ + dec_digits(st.value_id as nat) + " = "@ + spec_op1_name(op) + " %"@
                + dec_digits(x as nat) + "\n"@,
            PrState { value_id: st.value_id + 1, ..st },
        ),
        Inst::Op2 { op, x, y } => (
            "\t%"@ + dec_digits(st.value_id as nat) + " = "@ + spec_op2_name(op) + " %"@
                + dec_digits(x as nat) + " %"@ + dec_digits(y as nat) + "\n"@,
            PrState { value_id: st.value_id + 1, ..st },
        ),
        Inst::Select { p, x, y } => (
            "\t%"@ + dec_digits(st.value_id as nat) + " = select %"@ + dec_digits(p as nat)
                + " %"@ + dec_digits(x as nat) + " %"@ + dec_digits(y as nat) + "\n"@,
            PrState { value_id: st.value_id + 1, ..st },
        ),
        Inst::If { p, a, b } => (
            "\tif %"@ + dec_digits(p as nat) + " then =>"@ + dec_digits(a as nat) + " else =>"@
                + dec_digits(b as nat) + "\n"@,
            st,
        ),
        Inst::Goto { target, args } => (
            "\tgoto =>"@ + dec_digits(target as nat) + " ("@ + vals_text(vals_of(args), 0)
                + ")\n"@,
            st,
        ),
        Inst::Return { kont, args } => (
            "\treturn ("@ + bars(kont as int) + vals_text(vals_of(args), 0) + bars(
                if st.nkonts >= kont as int + 1 {
                    st.nkonts - kont - 1
                } else {
                    0
                },
            ) + ")\n"@,
            st,
        ),
        _ => ("UNKNOWN INSTRUCTION\n"@, st),
    }
}

/// The listing of the stream that starts at the head of `b`, under
/// counters `st`.
pub open spec fn render_from(b: Seq<u8>, st: PrState) -> Seq<char>
    decreases b.len(),
{
    match dec_at(b) {
        None => Seq::<char>::empty(),
        Some((m, k)) => if 1 <= k <= b.len() {
            render_inst(m, st).0 + render_from(b.skip(k), render_inst(m, st).1)
        } else {
            Seq::<char>::empty()
        },
    }
}

/// The listing of a whole byte stream, counters starting at zero.
pub open spec fn render(b: Seq<u8>) -> Seq<char> {
    render_from(b, PrState { function_id: 0, label_id: 0, value_id: 0, nkonts: 0 })
}

/// Appends the parameter list of a block entry, numbering the parameters
/// `start_vid` upward.
fn push_params(out: &mut String, params: &TypeList, start_vid: u64)
    requires
        start_vid + params.0@.len() <= u64::MAX,
    ensures
        final(out)@ == old(out)@ + params_text(params.0@, start_vid as int, 0),
{
    let n = params.0.len();
    let mut i: usize = 0;
    while i < n
        invariant
            i <= n,
            n == params.0@.len(),
            start_vid + n <= u64::MAX,
            old(out)@ + params_text(params.0@, start_vid as int, 0) == out@ + params_text(
                params.0@,
                start_vid as int,
                i as int,
            ),
        decreases n - i,
    {
        let ghost pre = out@;
        if i > 0 {
            out.append(", ");
        }
        out.append("%");
        push_dec(out, start_vid + (i as u64));
        out.append(" ");
        out.append(Type(params.0[i]).name());
        i = i + 1;
        proof {
            assert(pre + params_text(params.0@, start_vid as int, i - 1) =~= out@ + params_text(
                params.0@,
                start_vid as int,
                i as int,
            ));
        }
    }
    proof {
        assert(final(out)@ =~= old(out)@ + params_text(params.0@, start_vid as int, 0));
    }
}

/// Appends the argument list of a terminator.
fn push_vals(out: &mut String, args: &ValueList)
    ensures
        final(out)@ == old(out)@ + vals_text(vals_of(args.0@), 0),
{
    let vals = args.iter();
    let ghost vs = vals_of(args.0@);
    let n = vals.len();
    let mut i: usize = 0;
    while i < n
        invariant
            i <= n,
            n == vals@.len(),
            vals@.len() == vs.len(),
            forall|j: int| 0 <= j < n ==> #[trigger] vals@[j].0 == vs[j],
            old(out)@ + vals_text(vs, 0) == out@ + vals_text(vs, i as int),
        decreases n - i,
    {
        let ghost pre = out@;
        if i > 0 {
            out.append(", ");
        }
        out.append("%");
        push_dec(out, vals[i].0 as u64);
        i = i + 1;
        proof {
            assert(pre + vals_text(vs, i - 1) =~= out@ + vals_text(vs, i as int));
        }
    }
    proof {
        assert(final(out)@ =~= old(out)@ + vals_text(vs, 0));
    }
}

/// Appends the continuation list of a function header.
fn push_konts(out: &mut String, n: u32)
    ensures
        final(out)@ == old(out)@ + konts_text(n as int, 0),
{
    let mut i: u32 = 0;
    while i < n
        invariant
            i <= n,
            old(out)@ + konts_text(n as int, 0) == out@ + konts_text(n as int, i as int),
        decreases n - i,
    {
        let ghost pre = out@;
        if i > 0 {
            out.append("|");
        }
        out.append("...");
        i = i + 1;
        proof {
            assert(pre + konts_text(n as int, i - 1) =~= out@ + konts_text(n as int, i as int));
        }
    }
    proof {
        assert(final(out)@ =~= old(out)@ + konts_text(n as int, 0));
    }
}

/// Appends `n` bars.
fn push_bars(out: &mut String, n: u64)
    ensures
        final(out)@ == old(out)@ + bars(n as int),
    decreases n,
{
    if n > 0 {
        out.append("|");
        push_bars(out, n - 1);
        proof {
            assert(final(out)@ =~= old(out)@ + bars(n as int));
        }
    } else {
        proof {
            assert(final(out)@ =~= old(out)@ + bars(0));
        }
    }
}


/// Appends the listing line of a `Function` header.
fn print_function(out: &mut String, function_id: u64, nk: u32, tl: &TypeList, Ghost(st): Ghost<PrState>)
    requires
        st.function_id == function_id as int,
    ensures
        final(out)@ == old(out)@ + render_inst((Inst::Function { nkonts: nk, params: tl.0@ }), st).0,
{
    push_dec(out, function_id);
    out.append(": function $");
    push_dec(out, 0);
    out.append(" (");
    let len = tl.0.len();
    assert(len <= u64::MAX);
    push_params(out, tl, 0);
    out.append(") -> ");
    if nk == 0 {
        out.append("!");
    } else {
        out.append("(");
        push_konts(out, nk);
        out.append(")");
    }
    out.append("\n");
    proof {
        assert(final(out)@ =~= old(out)@ + render_inst((Inst::Function { nkonts: nk, params: tl.0@ }), st).0);
    }
}

/// Appends the listing line of a `Case` block entry.
fn print_case(out: &mut String, label_id: u64, Ghost(st): Ghost<PrState>)
    requires
        st.label_id == label_id as int,
    ensures
        final(out)@ == old(out)@ + render_inst(Inst::Case, st).0,
{
    push_dec(out, label_id);
    out.append(": case\n");
    proof {
        assert(final(out)@ =~= old(out)@ + render_inst(Inst::Case, st).0);
    }
}

/// Appends the listing line of a `Join` block entry.
fn print_join(out: &mut String, label_id: u64, value_id: u64, tl: &TypeList, Ghost(st): Ghost<PrState>)
    requires
        st.label_id == label_id as int,
        st.value_id == value_id as int,
        value_id + tl.0@.len() <= u64::MAX,
    ensures
        final(out)@ == old(out)@ + render_inst((Inst::Join { params: tl.0@ }), st).0,
{
    push_dec(out, label_id);
    out.append(": join (");
    push_params(out, tl, value_id);
    out.append(")\n");
    proof {
        assert(final(out)@ =~= old(out)@ + render_inst((Inst::Join { params: tl.0@ }), st).0);
    }
}

/// Appends the listing line of a `ConstBool` record.
fn print_const_bool(out: &mut String, value_id: u64, p: bool, Ghost(st): Ghost<PrState>)
    requires
        st.value_id == value_id as int,
    ensures
        final(out)@ == old(out)@ + render_inst((Inst::ConstBool { b: p }), st).0,
{
    out.append("\t%");
    push_dec(out, value_id);
    out.append(" = const.bool #");
    out.append(if p { "true" } else { "false" });
    out.append("\n");
    proof {
        assert(final(out)@ =~= old(out)@ + render_inst((Inst::ConstBool { b: p }), st).0);
    }
}

/// Appends the listing line of a `ConstI64` record.
fn print_const_i64(out: &mut String, value_id: u64, c: u64, Ghost(st): Ghost<PrState>)
    requires
        st.value_id == value_id as int,
    ensures
        final(out)@ == old(out)@ + render_inst((Inst::ConstI64 { c }), st).0,
{
    out.append("\t%");
    push_dec(out, value_id);
    out.append(" = const.i64 #");
    push_dec(out, c);
    out.append("\n");
    proof {
        assert(final(out)@ =~= old(out)@ + render_inst((Inst::ConstI64 { c }), st).0);
    }
}

/// Appends the listing line of an `Op1` record.
fn print_op1(out: &mut String, value_id: u64, t: crate::ssa::Op1, x: crate::ssa::Value, Ghost(st): Ghost<PrState>)
    requires
        st.value_id == value_id as int,
    ensures
        final(out)@ == old(out)@ + render_inst((Inst::Op1 { op: t.0, x: x.0 }), st).0,
{
    out.append("\t%");
    push_dec(out, value_id);
    out.append(" = ");
    out.append(t.name());
    out.append(" %");
    push_dec(out, x.0 as u64);
    out.append("\n");
    proof {
        assert(final(out)@ =~= old(out)@ + render_inst((Inst::Op1 { op: t.0, x: x.0 }), st).0);
    }
}

/// Appends the listing line of an `Op2` record.
fn print_op2(out: &mut String, value_id: u64, t: crate::ssa::Op2, x: crate::ssa::Value, y: crate::ssa::Value, Ghost(st): Ghost<PrState>)
    requires
        st.value_id == value_id as int,
    ensures
        final(out)@ == old(out)@ + render_inst((Inst::Op2 { op: t.0, x: x.0, y: y.0 }), st).0,
{
    out.append("\t%");
    push_dec(out, value_id);
    out.append(" = ");
    out.append(t.name());
    out.append(" %");
    push_dec(out, x.0 as u64);
    out.append(" %");
    push_dec(out, y.0 as u64);
    out.append("\n");
    proof {
        assert(final(out)@ =~= old(out)@ + render_inst((Inst::Op2 { op: t.0, x: x.0, y: y.0 }), st).0);
    }
}

/// Appends the listing line of a `Select` record.
fn print_select(out: &mut String, value_id: u64, p: crate::ssa::Value, x: crate::ssa::Value, y: crate::ssa::Value, Ghost(st): Ghost<PrState>)
    requires
        st.value_id == value_id as int,
    ensures
        final(out)@ == old(out)@ + render_inst((Inst::Select { p: p.0, x: x.0, y: y.0 }), st).0,
{
    out.append("\t%");
    push_dec(out, value_id);
    out.append(" = select %");
    push_dec(out, p.0 as u64);
    out.append(" %");
    push_dec(out, x.0 as u64);
    out.append(" %");
    push_dec(out, y.0 as u64);
    out.append("\n");
    proof {
        assert(final(out)@ =~= old(out)@ + render_inst((Inst::Select { p: p.0, x: x.0, y: y.0 }), st).0);
    }
}

/// Appends the listing line of an `If` terminator.
fn print_if(out: &mut String, p: crate::ssa::Value, a: crate::ssa::Label, b: crate::ssa::Label, Ghost(st): Ghost<PrState>)
    ensures
        final(out)@ == old(out)@ + render_inst((Inst::If { p: p.0, a: a.0, b: b.0 }), st).0,
{
    out.append("\tif %");
    push_dec(out, p.0 as u64);
    out.append(" then =>");
    push_dec(out, a.0 as u64);
    out.append(" else =>");
    push_dec(out, b.0 as u64);
    out.append("\n");
    proof {
        assert(final(out)@ =~= old(out)@ + render_inst((Inst::If { p: p.0, a: a.0, b: b.0 }), st).0);
    }
}

/// Appends the listing line of a `Goto` terminator.
fn print_goto(out: &mut String, a: crate::ssa::Label, vl: &ValueList, Ghost(st): Ghost<PrState>)
    ensures
        final(out)@ == old(out)@ + render_inst((Inst::Goto { target: a.0, args: vl.0@ }), st).0,
{
    out.append("\tgoto =>");
    push_dec(out, a.0 as u64);
    out.append(" (");
    push_vals(out, vl);
    out.append(")\n");
    proof {
        assert(final(out)@ =~= old(out)@ + render_inst((Inst::Goto { target: a.0, args: vl.0@ }), st).0);
    }
}

/// Appends the listing line of a `Return` terminator, with one bar slot per
/// continuation of the enclosing function.
fn print_return(out: &mut String, nkonts: u32, index: u32, vl: &ValueList, Ghost(st): Ghost<PrState>)
    requires
        st.nkonts == nkonts as int,
    ensures
        final(out)@ == old(out)@ + render_inst((Inst::Return { kont: index, args: vl.0@ }), st).0,
{
    out.append("\treturn (");
    push_bars(out, index as u64);
    push_vals(out, vl);
    let rest: u32 = if nkonts >= index {
        if nkonts - index >= 1 {
            nkonts - index - 1
        } else {
            0
        }
    } else {
        0
    };
    push_bars(out, rest as u64);
    out.append(")\n");
    proof {
        assert(final(out)@ =~= old(out)@ + render_inst((Inst::Return { kont: index, args: vl.0@ }), st).0);
    }
}

/// Renders the listing of the instruction stream held in `buf`, decoding
/// from its start until the decoder halts.
#[verifier::rlimit(60)]
#[verifier::spinoff_prover]
pub fn display(buf: &[u8]) -> (out: String)
    ensures
        out@ == render(buf@),
{
    let n = buf.len();
    let mut out = String::new();
    let mut pos: usize = 0;
    let mut function_id: u64 = 0;
    let mut label_id: u64 = 0;
    let mut value_id: u64 = 0;
    let mut nkonts: u32 = 0;
    let mut done = false;
    proof {
        assert(buf@.skip(0) =~= buf@);
        assert(out@ + render(buf@) =~= render(buf@));
    }
    while !done
        invariant
            pos <= n,
            n == buf@.len(),
            function_id <= pos,
            label_id <= pos,
            value_id <= pos,
            done ==> out@ == render(buf@),
            !done ==> out@ + render_from(
                buf@.skip(pos as int),
                PrState {
                    function_id: function_id as int,
                    label_id: label_id as int,
                    value_id: value_id as int,
                    nkonts: nkonts as int,
                },
            ) == render(buf@),
        decreases n - pos + (if done { 0int } else { 1int }),
    {
        let ghost st = PrState {
            function_id: function_id as int,
            label_id: label_id as int,
            value_id: value_id as int,
            nkonts: nkonts as int,
        };
        let ghost rem = buf@.skip(pos as int);
        let ghost pre = out@;
        let ghost pos0 = pos;
        match read(buf, &mut pos) {
            None => {
                done = true;
                proof {
                    assert(render_from(rem, st) =~= Seq::<char>::empty());
                }
            }
            Some(inst) => {
                proof {
                    crate::encoding::lemma_dec_at_bounds(rem);
                    assert(buf@.skip(pos as int) =~= rem.skip(pos - pos0));
                }
                let ghost m = inst.model();
                let ghost st2 = render_inst(m, st).1;
                match inst {
                    Instruction::Function(nk, tl) => {
                        nkonts = nk;
                        print_function(&mut out, function_id, nk, &tl, Ghost(st));
                        function_id = function_id + 1;
                        label_id = 1;
                        value_id = tl.0.len() as u64;
                    }
                    Instruction::Case() => {
                        print_case(&mut out, label_id, Ghost(st));
                        label_id = label_id + 1;
                    }
                    Instruction::Join(tl) => {
                        print_join(&mut out, label_id, value_id, &tl, Ghost(st));
                        label_id = label_id + 1;
                        value_id = value_id + tl.0.len() as u64;
                    }
                    Instruction::ConstBool(p) => {
                        print_const_bool(&mut out, value_id, p, Ghost(st));
                        value_id = value_id + 1;
                    }
                    Instruction::ConstI64(c) => {
                        print_const_i64(&mut out, value_id, c, Ghost(st));
                        value_id = value_id + 1;
                    }
                    Instruction::Op1(t, x) => {
                        print_op1(&mut out, value_id, t, x, Ghost(st));
                        value_id = value_id + 1;
                    }
                    Instruction::Op2(t, x, y) => {
                        print_op2(&mut out, value_id, t, x, y, Ghost(st));
                        value_id = value_id + 1;
                    }
                    Instruction::Select(p, x, y) => {
                        print_select(&mut out, value_id, p, x, y, Ghost(st));
                        value_id = value_id + 1;
                    }
                    Instruction::If(p, a, b) => {
                        print_if(&mut out, p, a, b, Ghost(st));
                    }
                    Instruction::Goto(a, vl) => {
                        print_goto(&mut out, a, &vl, Ghost(st));
                    }
                    Instruction::Return(index, vl) => {
                        print_return(&mut out, nkonts, index, &vl, Ghost(st));
                    }
                    _ => {
                        out.append("UNKNOWN INSTRUCTION\n");
                    }
                }
                proof {
                    assert(out@ == pre + render_inst(m, st).0);
                    assert(pre + render_from(rem, st) =~= out@ + render_from(
                        buf@.skip(pos as int),
                        st2,
                    ));
                }
            }
        }
    }
    out
}

} // verus!
