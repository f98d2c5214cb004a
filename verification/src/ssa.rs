//! SSA instruction stream: the typed instruction variant, the streaming
//! builder that appends records and mints fresh value/label identifiers, and
//! the streaming decoder.

use crate::buf::{splice_u32, Buf};
use crate::encoding::{
    dec_at, enc, u32_at, u64_at, vals_of, Inst, OP1_CTZ_I64, OP1_NEG_I64, OP2_ADD_I64,
    OP2_IS_EQ_I64, OP2_SUB_I64, TAG_CASE, TAG_CONST_BOOL, TAG_CONST_I32, TAG_CONST_I64,
    TAG_FUNCTION, TAG_GET_VARIABLE, TAG_GOTO, TAG_IF, TAG_JOIN, TAG_KONT, TAG_LET_VARIABLE,
    TAG_OP1, TAG_OP2, TAG_RETURN, TAG_SELECT, TAG_SET_VARIABLE, TYPE_I64,
};
use vstd::bytes::{spec_u32_from_le_bytes, spec_u32_to_le_bytes, u32_from_le_bytes, u64_from_le_bytes};
use vstd::prelude::*;

verus! {

/// One-byte instruction tag (see the tag constants in [`crate::encoding`]).
#[derive(Clone, Copy, Debug, PartialEq, Eq, Structural)]
pub struct Tag(pub u8);

/// One-byte semantic type code.
#[derive(Clone, Copy, Debug, PartialEq, Eq, Structural)]
pub struct Type(pub u8);

/// One-byte unary opcode.
#[derive(Clone, Copy, Debug, PartialEq, Eq, Structural)]
pub struct Op1(pub u8);

/// One-byte binary opcode.
#[derive(Clone, Copy, Debug, PartialEq, Eq, Structural)]
pub struct Op2(pub u8);

/// Identifier of an SSA result, numbered from 0 within a function.
#[derive(Clone, Copy, Debug, PartialEq, Eq, Structural)]
pub struct Value(pub u32);

/// Identifier of a basic-block entry, numbered from 1 within a function
/// (0 is the unpatched sentinel; the function header is label 0 implicitly).
#[derive(Clone, Copy, Debug, PartialEq, Eq, Structural)]
pub struct Label(pub u32);

/// Identifier of a mutable variable slot.
#[derive(Clone, Copy, Debug, PartialEq, Eq, Structural)]
pub struct Variable(pub u32);

/// Byte offset of a 4-byte label field awaiting [`Builder::patch_label`].
#[derive(Clone, Copy, Debug, PartialEq, Eq, Structural)]
pub struct PatchPoint(pub usize);

/// A parameter-type payload, one type code byte per entry.
#[derive(Debug, PartialEq, Eq)]
pub struct TypeList(pub Vec<u8>);

/// A value payload, four little-endian bytes per value.
#[derive(Debug, PartialEq, Eq)]
pub struct ValueList(pub Vec<u8>);

/// A decoded instruction.
#[derive(Debug, PartialEq, Eq)]
pub enum Instruction {
    // block entry
    Function(u32, TypeList),
    Case(),
    Join(TypeList),
    Kont(TypeList),
    // block middle
    ConstBool(bool),
    ConstI32(u32),
    ConstI64(u64),
    Op1(Op1, Value),
    Op2(Op2, Value, Value),
    Select(Value, Value, Value),
    LetVariable(Value),
    GetVariable(Variable),
    SetVariable(Variable, Value),
    // block terminator
    If(Value, Label, Label),
    Return(u32, ValueList),
    Goto(Label, ValueList),
}

impl Instruction {
    /// The ghost model of this instruction.
    pub open spec fn model(&self) -> Inst {
        match self {
            Instruction::Function(nkonts, tl) => Inst::Function {
                nkonts: *nkonts,
                params: tl.0@,
            },
            Instruction::Case() => Inst::Case,
            Instruction::Join(tl) => Inst::Join { params: tl.0@ },
            Instruction::Kont(tl) => Inst::Kont { params: tl.0@ },
            Instruction::ConstBool(b) => Inst::ConstBool { b: *b },
            Instruction::ConstI32(c) => Inst::ConstI32 { c: *c },
            Instruction::ConstI64(c) => Inst::ConstI64 { c: *c },
            Instruction::Op1(t, x) => Inst::Op1 { op: t.0, x: x.0 },
            Instruction::Op2(t, x, y) => Inst::Op2 { op: t.0, x: x.0, y: y.0 },
            Instruction::Select(p, x, y) => Inst::Select { p: p.0, x: x.0, y: y.0 },
            Instruction::LetVariable(x) => Inst::LetVariable { x: x.0 },
            Instruction::GetVariable(v) => Inst::GetVariable { v: v.0 },
            Instruction::SetVariable(v, x) => Inst::SetVariable { v: v.0, x: x.0 },
            Instruction::If(p, a, b) => Inst::If { p: p.0, a: a.0, b: b.0 },
            Instruction::Return(kont, vl) => Inst::Return { kont: *kont, args: vl.0@ },
            Instruction::Goto(a, vl) => Inst::Goto { target: a.0, args: vl.0@ },
        }
    }
}

/// The printed name of a type code.
pub open spec fn spec_type_name(t: u8) -> Seq<char> {
    if t == TYPE_I64 {
        "i64"@
    } else {
        "unknown"@
    }
}

/// The printed mnemonic of a unary opcode.
pub open spec fn spec_op1_name(op: u8) -> Seq<char> {
    if op == OP1_CTZ_I64 {
        "ctz.i64"@
    } else if op == OP1_NEG_I64 {
        "neg.i64"@
    } else {
        "unknown"@
    }
}

/// The printed mnemonic of a binary opcode.
pub open spec fn spec_op2_name(op: u8) -> Seq<char> {
    if op == OP2_ADD_I64 {
        "add.i64"@
    } else if op == OP2_SUB_I64 {
        "sub.i64"@
    } else if op == OP2_IS_EQ_I64 {
        "is_eq.i64"@
    } else {
        "unknown"@
    }
}

impl Type {
    /// Human-readable name of the type.
    pub fn name(self) -> (r: &'static str)
        ensures
            r@ == spec_type_name(self.0),
    {
        if self.0 == TYPE_I64 {
            "i64"
        } else {
            "unknown"
        }
    }
}

impl Op1 {
    /// Human-readable mnemonic of the opcode.
    pub fn name(self) -> (r: &'static str)
        ensures
            r@ == spec_op1_name(self.0),
    {
        if self.0 == OP1_CTZ_I64 {
            "ctz.i64"
        } else if self.0 == OP1_NEG_I64 {
            "neg.i64"
        } else {
            "unknown"
        }
    }
}

impl Op2 {
    /// Human-readable mnemonic of the opcode.
    pub fn name(self) -> (r: &'static str)
        ensures
            r@ == spec_op2_name(self.0),
    {
        if self.0 == OP2_ADD_I64 {
            "add.i64"
        } else if self.0 == OP2_SUB_I64 {
            "sub.i64"
        } else if self.0 == OP2_IS_EQ_I64 {
            "is_eq.i64"
        } else {
            "unknown"
        }
    }
}

impl TypeList {
    /// The types held by the payload, decoded into a vector.
    pub fn iter(&self) -> (r: Vec<Type>)
        ensures
            r@.len() == self.0@.len(),
            forall|i: int| 0 <= i < r@.len() ==> #[trigger] r@[i].0 == self.0@[i],
    {
        let n = self.0.len();
        let mut r: Vec<Type> = Vec::new();
        let mut i: usize = 0;
        while i < n
            invariant
                i <= n,
                n == self.0@.len(),
                r@.len() == i,
                forall|j: int| 0 <= j < i ==> #[trigger] r@[j].0 == self.0@[j],
            decreases n - i,
        {
            r.push(Type(self.0[i]));
            i = i + 1;
        }
        r
    }
}

impl ValueList {
    /// The values held by the payload, decoded four bytes at a time.
    pub fn iter(&self) -> (r: Vec<Value>)
        ensures
            r@.len() == vals_of(self.0@).len(),
            forall|i: int| 0 <= i < r@.len() ==> #[trigger] r@[i].0 == vals_of(self.0@)[i],
    {
        let n = self.0.len();
        let mut r: Vec<Value> = Vec::new();
        let mut i: usize = 0;
        while n - i >= 4
            invariant
                n == self.0@.len(),
                i == 4 * r@.len(),
                i <= n,
                forall|j: int| 0 <= j < r@.len() ==> #[trigger] r@[j].0 == vals_of(self.0@)[j],
            decreases n - i,
        {
            let x = u32_from_le_bytes(&self.0.as_slice()[i..i + 4]);
            proof {
                assert(self.0@.subrange(i as int, i + 4) =~= self.0@.subrange(i as int, i as int
                    + 4));
            }
            r.push(Value(x));
            i = i + 4;
        }
        proof {
            assert(r@.len() == vals_of(self.0@).len());
        }
        r
    }
}

/// The builder's abstract state: the bytes written so far and the three
/// running counters for fresh values, labels and variables.
#[verifier::ext_equal]
pub struct BuilderModel {
    pub bytes: Seq<u8>,
    pub next_value: int,
    pub next_label: int,
    pub next_variable: int,
}

/// `post` extends `pre` by exactly `bytes`, minting `dv` values and `dl`
/// labels and no variables.
pub open spec fn appended(pre: BuilderModel, post: BuilderModel, bytes: Seq<u8>, dv: int, dl: int) -> bool {
    &&& post.bytes == pre.bytes + bytes
    &&& post.next_value == pre.next_value + dv
    &&& post.next_label == pre.next_label + dl
    &&& post.next_variable == pre.next_variable
}

/// Streaming SSA builder: appends typed records to a byte buffer and mints
/// fresh value/label/variable identifiers. It performs no SSA verification;
/// miscounted payloads and dangling label sentinels are the caller's
/// responsibility.
pub struct Builder {
    buf: Buf,
    value_id: u32,
    label_id: u32,
    variable_id: u32,
}

impl Builder {
    /// The abstract state of the builder.
    pub closed spec fn model(&self) -> BuilderModel {
        BuilderModel {
            bytes: self.buf.contents(),
            next_value: self.value_id as int,
            next_label: self.label_id as int,
            next_variable: self.variable_id as int,
        }
    }

    /// Creates an empty builder with all counters at zero.
    pub fn new() -> (b: Builder)
        ensures
            b.model().bytes == Seq::<u8>::empty(),
            b.model().next_value == 0,
            b.model().next_label == 0,
            b.model().next_variable == 0,
    {
        Builder { buf: Buf::new(), value_id: 0, label_id: 0, variable_id: 0 }
    }

    /// Mints the next fresh value identifier.
    pub fn next_value(&mut self) -> (r: Value)
        requires
            old(self).model().next_value < u32::MAX as int,
        ensures
            r.0 as int == old(self).model().next_value,
            appended(old(self).model(), final(self).model(), Seq::<u8>::empty(), 1, 0),
    {
        let n = self.value_id;
        self.value_id = n + 1;
        proof {
            assert(final(self).model().bytes =~= old(self).model().bytes + Seq::<u8>::empty());
        }
        Value(n)
    }

    /// Mints the next fresh label identifier.
    pub fn next_label(&mut self) -> (r: Label)
        requires
            old(self).model().next_label < u32::MAX as int,
        ensures
            r.0 as int == old(self).model().next_label,
            appended(old(self).model(), final(self).model(), Seq::<u8>::empty(), 0, 1),
    {
        let n = self.label_id;
        self.label_id = n + 1;
        proof {
            assert(final(self).model().bytes =~= old(self).model().bytes + Seq::<u8>::empty());
        }
        Label(n)
    }

    /// Mints the next fresh variable identifier.
    pub fn next_variable(&mut self) -> (r: Variable)
        requires
            old(self).model().next_variable < u32::MAX as int,
        ensures
            r.0 as int == old(self).model().next_variable,
            final(self).model().bytes == old(self).model().bytes,
            final(self).model().next_value == old(self).model().next_value,
            final(self).model().next_label == old(self).model().next_label,
            final(self).model().next_variable == old(self).model().next_variable + 1,
    {
        let n = self.variable_id;
        self.variable_id = n + 1;
        Variable(n)
    }

    /// Read-only view of the bytes emitted so far.
    pub fn view(&self) -> (r: &[u8])
        ensures
            r@ == self.model().bytes,
    {
        self.buf.view_bytes()
    }

    /// Overwrites the 4-byte label field at patch point `i` with label `a`.
    /// Patching the same slot again is allowed; the last write wins.
    pub fn patch_label(&mut self, i: PatchPoint, a: Label)
        requires
            i.0 + 4 <= old(self).model().bytes.len(),
        ensures
            final(self).model().bytes == splice_u32(old(self).model().bytes, i.0 as int, a.0),
            final(self).model().next_value == old(self).model().next_value,
            final(self).model().next_label == old(self).model().next_label,
            final(self).model().next_variable == old(self).model().next_variable,
    {
        self.buf.set_u32(i.0, a.0);
    }

    /// Appends one parameter type byte (to the open `Function`/`Join`/`Kont`
    /// record) and mints the value that the parameter binds.
    pub fn emit_param(&mut self, t: Type) -> (r: Value)
        requires
            old(self).model().next_value < u32::MAX as int,
        ensures
            r.0 as int == old(self).model().next_value,
            appended(old(self).model(), final(self).model(), seq![t.0], 1, 0),
    {
        self.buf.push_u8(t.0);
        self.next_value()
    }

    /// Appends one value operand (to the open `Goto`/`Return` record).
    pub fn emit_value(&mut self, x: Value)
        ensures
            appended(old(self).model(), final(self).model(), spec_u32_to_le_bytes(x.0), 0, 0),
    {
        self.buf.push_u32(x.0);
    }

    /// Writes a `Function` header and resets the value counter to 0 and the
    /// label counter to 1. The `nargs` parameter type bytes are appended
    /// separately by `emit_param`, one per parameter, immediately after.
    pub fn emit_function(&mut self, nkonts: u32, nargs: u32)
        ensures
            final(self).model().bytes == old(self).model().bytes + seq![TAG_FUNCTION]
                + spec_u32_to_le_bytes(nkonts) + spec_u32_to_le_bytes(nargs),
            final(self).model().next_value == 0,
            final(self).model().next_label == 1,
            final(self).model().next_variable == old(self).model().next_variable,
    {
        self.buf.push_u8(TAG_FUNCTION);
        self.buf.push_u32(nkonts);
        self.buf.push_u32(nargs);
        self.value_id = 0;
        self.label_id = 1;
        proof {
            assert(final(self).model().bytes =~= old(self).model().bytes + seq![TAG_FUNCTION]
                + spec_u32_to_le_bytes(nkonts) + spec_u32_to_le_bytes(nargs));
        }
    }

    /// Appends a `Case` block entry and mints its label.
    pub fn emit_case(&mut self) -> (r: Label)
        requires
            old(self).model().next_label < u32::MAX as int,
        ensures
            r.0 as int == old(self).model().next_label,
            appended(old(self).model(), final(self).model(), enc(Inst::Case), 0, 1),
    {
        self.buf.push_u8(TAG_CASE);
        proof {
            assert(self.buf.contents() =~= old(self).model().bytes + enc(Inst::Case));
        }
        self.next_label()
    }

    /// Writes a `Join` header and mints its label. The `nargs` parameter type
    /// bytes are appended separately by `emit_param` immediately after.
    pub fn emit_join(&mut self, nargs: u32) -> (r: Label)
        requires
            old(self).model().next_label < u32::MAX as int,
        ensures
            r.0 as int == old(self).model().next_label,
            appended(
                old(self).model(),
                final(self).model(),
                seq![TAG_JOIN] + spec_u32_to_le_bytes(nargs),
                0,
                1,
            ),
    {
        self.buf.push_u8(TAG_JOIN);
        self.buf.push_u32(nargs);
        proof {
            assert(self.buf.contents() =~= old(self).model().bytes + (seq![TAG_JOIN]
                + spec_u32_to_le_bytes(nargs)));
        }
        self.next_label()
    }

    /// Appends a `ConstBool` record and mints the value it produces.
    pub fn emit_const_bool(&mut self, p: bool) -> (r: Value)
        requires
            old(self).model().next_value < u32::MAX as int,
        ensures
            r.0 as int == old(self).model().next_value,
            appended(old(self).model(), final(self).model(), enc((Inst::ConstBool { b: p })), 1, 0),
    {
        self.buf.push_u8(TAG_CONST_BOOL);
        self.buf.push_u8(if p { 1u8 } else { 0u8 });
        proof {
            assert(self.buf.contents() =~= old(self).model().bytes + enc((Inst::ConstBool {
                b: p,
            })));
        }
        self.next_value()
    }

    /// Appends a `ConstI64` record and mints the value it produces.
    pub fn emit_const_i64(&mut self, c: u64) -> (r: Value)
        requires
            old(self).model().next_value < u32::MAX as int,
        ensures
            r.0 as int == old(self).model().next_value,
            appended(old(self).model(), final(self).model(), enc((Inst::ConstI64 { c })), 1, 0),
    {
        self.buf.push_u8(TAG_CONST_I64);
        self.buf.push_u64(c);
        proof {
            assert(self.buf.contents() =~= old(self).model().bytes + enc((Inst::ConstI64 { c })));
        }
        self.next_value()
    }

    /// Appends an `Op1` record and mints the value it produces.
    pub fn emit_op1(&mut self, t: Op1, x: Value) -> (r: Value)
        requires
            old(self).model().next_value < u32::MAX as int,
        ensures
            r.0 as int == old(self).model().next_value,
            appended(
                old(self).model(),
                final(self).model(),
                enc((Inst::Op1 { op: t.0, x: x.0 })),
                1,
                0,
            ),
    {
        self.buf.push_u8(TAG_OP1);
        self.buf.push_u8(t.0);
        self.buf.push_u32(x.0);
        proof {
            assert(self.buf.contents() =~= old(self).model().bytes + enc((Inst::Op1 {
                op: t.0,
                x: x.0,
            })));
        }
        self.next_value()
    }

    /// Appends an `Op2` record and mints the value it produces.
    pub fn emit_op2(&mut self, t: Op2, x: Value, y: Value) -> (r: Value)
        requires
            old(self).model().next_value < u32::MAX as int,
        ensures
            r.0 as int == old(self).model().next_value,
            appended(
                old(self).model(),
                final(self).model(),
                enc((Inst::Op2 { op: t.0, x: x.0, y: y.0 })),
                1,
                0,
            ),
    {
        self.buf.push_u8(TAG_OP2);
        self.buf.push_u8(t.0);
        self.buf.push_u32(x.0);
        self.buf.push_u32(y.0);
        proof {
            assert(self.buf.contents() =~= old(self).model().bytes + enc((Inst::Op2 {
                op: t.0,
                x: x.0,
                y: y.0,
            })));
        }
        self.next_value()
    }

    /// Appends a `Select` record and mints the value it produces.
    pub fn emit_select(&mut self, p: Value, x: Value, y: Value) -> (r: Value)
        requires
            old(self).model().next_value < u32::MAX as int,
        ensures
            r.0 as int == old(self).model().next_value,
            appended(
                old(self).model(),
                final(self).model(),
                enc((Inst::Select { p: p.0, x: x.0, y: y.0 })),
                1,
                0,
            ),
    {
        self.buf.push_u8(TAG_SELECT);
        self.buf.push_u32(p.0);
        self.buf.push_u32(x.0);
        self.buf.push_u32(y.0);
        proof {
            assert(self.buf.contents() =~= old(self).model().bytes + enc((Inst::Select {
                p: p.0,
                x: x.0,
                y: y.0,
            })));
        }
        self.next_value()
    }

    /// Appends a `LetVariable` record and mints the variable it binds.
    pub fn emit_let_variable(&mut self, x: Value) -> (r: Variable)
        requires
            old(self).model().next_variable < u32::MAX as int,
        ensures
            r.0 as int == old(self).model().next_variable,
            final(self).model().bytes == old(self).model().bytes + enc((Inst::LetVariable {
                x: x.0,
            })),
            final(self).model().next_value == old(self).model().next_value,
            final(self).model().next_label == old(self).model().next_label,
            final(self).model().next_variable == old(self).model().next_variable + 1,
    {
        self.buf.push_u8(TAG_LET_VARIABLE);
        self.buf.push_u32(x.0);
        proof {
            assert(self.buf.contents() =~= old(self).model().bytes + enc((Inst::LetVariable {
                x: x.0,
            })));
        }
        self.next_variable()
    }

    /// Appends a `GetVariable` record and mints the value it produces.
    pub fn emit_get_variable(&mut self, x: Variable) -> (r: Value)
        requires
            old(self).model().next_value < u32::MAX as int,
        ensures
            r.0 as int == old(self).model().next_value,
            appended(
                old(self).model(),
                final(self).model(),
                enc((Inst::GetVariable { v: x.0 })),
                1,
                0,
            ),
    {
        self.buf.push_u8(TAG_GET_VARIABLE);
        self.buf.push_u32(x.0);
        proof {
            assert(self.buf.contents() =~= old(self).model().bytes + enc((Inst::GetVariable {
                v: x.0,
            })));
        }
        self.next_value()
    }

    /// Appends a `SetVariable` record; produces no value.
    pub fn emit_set_variable(&mut self, x: Variable, y: Value)
        ensures
            appended(
                old(self).model(),
                final(self).model(),
                enc((Inst::SetVariable { v: x.0, x: y.0 })),
                0,
                0,
            ),
    {
        self.buf.push_u8(TAG_SET_VARIABLE);
        self.buf.push_u32(x.0);
        self.buf.push_u32(y.0);
        proof {
            assert(self.buf.contents() =~= old(self).model().bytes + enc((Inst::SetVariable {
                v: x.0,
                x: y.0,
            })));
        }
    }

    /// Appends an `If` terminator and returns the two patch points of its
    /// then/else label fields, in that order.
    pub fn emit_if(&mut self, p: Value, a: Label, b: Label) -> (r: (PatchPoint, PatchPoint))
        ensures
            appended(
                old(self).model(),
                final(self).model(),
                enc((Inst::If { p: p.0, a: a.0, b: b.0 })),
                0,
                0,
            ),
            r.0.0 == old(self).model().bytes.len() + 5,
            r.1.0 == old(self).model().bytes.len() + 9,
    {
        self.buf.push_u8(TAG_IF);
        self.buf.push_u32(p.0);
        self.buf.push_u32(a.0);
        self.buf.push_u32(b.0);
        proof {
            vstd::bytes::lemma_auto_spec_u32_to_from_le_bytes();
            assert(self.buf.contents() =~= old(self).model().bytes + enc((Inst::If {
                p: p.0,
                a: a.0,
                b: b.0,
            })));
            assert(self.buf.contents().len() == old(self).model().bytes.len() + 13);
        }
        let n = self.buf.len();
        (PatchPoint(n - 8), PatchPoint(n - 4))
    }

    /// Writes a `Goto` header and returns the patch point of its label field.
    /// The `nargs` value operands are appended separately by `emit_value`
    /// immediately after.
    pub fn emit_goto(&mut self, a: Label, nargs: u32) -> (r: PatchPoint)
        ensures
            appended(
                old(self).model(),
                final(self).model(),
                seq![TAG_GOTO] + spec_u32_to_le_bytes(a.0) + spec_u32_to_le_bytes(nargs),
                0,
                0,
            ),
            r.0 == old(self).model().bytes.len() + 1,
    {
        self.buf.push_u8(TAG_GOTO);
        self.buf.push_u32(a.0);
        self.buf.push_u32(nargs);
        proof {
            vstd::bytes::lemma_auto_spec_u32_to_from_le_bytes();
            assert(self.buf.contents() =~= old(self).model().bytes + (seq![TAG_GOTO]
                + spec_u32_to_le_bytes(a.0) + spec_u32_to_le_bytes(nargs)));
            assert(self.buf.contents().len() == old(self).model().bytes.len() + 9);
        }
        let n = self.buf.len();
        PatchPoint(n - 8)
    }

    /// Writes a `Return` header. The `nargs` value operands are appended
    /// separately by `emit_value` immediately after.
    pub fn emit_return(&mut self, index: u32, nargs: u32)
        ensures
            appended(
                old(self).model(),
                final(self).model(),
                seq![TAG_RETURN] + spec_u32_to_le_bytes(index) + spec_u32_to_le_bytes(nargs),
                0,
                0,
            ),
    {
        self.buf.push_u8(TAG_RETURN);
        self.buf.push_u32(index);
        self.buf.push_u32(nargs);
        proof {
            assert(self.buf.contents() =~= old(self).model().bytes + (seq![TAG_RETURN]
                + spec_u32_to_le_bytes(index) + spec_u32_to_le_bytes(nargs)));
        }
    }
}

/// Reads the 32-bit little-endian integer at offset `i` of `buf`.
fn read_u32(buf: &[u8], i: usize) -> (x: u32)
    requires
        i + 4 <= buf@.len(),
    ensures
        x == u32_at(buf@, i as int),
{
    let n = buf.len();
    assert(i + 4 <= n);
    u32_from_le_bytes(&buf[i..i + 4])
}

/// Reads the 64-bit little-endian integer at offset `i` of `buf`.
fn read_u64(buf: &[u8], i: usize) -> (x: u64)
    requires
        i + 8 <= buf@.len(),
    ensures
        x == u64_at(buf@, i as int),
{
    let n = buf.len();
    assert(i + 8 <= n);
    u64_from_le_bytes(&buf[i..i + 8])
}

/// Copies `n` bytes of `buf` starting at `from` into a fresh vector.
fn copy_slice(buf: &[u8], from: usize, n: usize) -> (r: Vec<u8>)
    requires
        from + n <= buf@.len(),
    ensures
        r@ == buf@.subrange(from as int, from + n),
{
    let len = buf.len();
    let mut r: Vec<u8> = Vec::new();
    let mut i: usize = 0;
    while i < n
        invariant
            i <= n,
            from + n <= len,
            len == buf@.len(),
            r@.len() == i,
            forall|j: int| 0 <= j < i ==> #[trigger] r@[j] == buf@[from + j],
        decreases n - i,
    {
        r.push(buf[from + i]);
        i = i + 1;
    }
    proof {
        assert(r@ =~= buf@.subrange(from as int, from + n));
    }
    r
}

/// Pulls the next instruction out of `buf` at cursor `*pos`. On success the
/// cursor advances past the consumed record; on exhaustion, an unknown or
/// reserved tag, or a truncated body it stays where it was and `None` comes
/// back.
pub fn read(buf: &[u8], pos: &mut usize) -> (r: Option<Instruction>)
    requires
        *old(pos) <= buf@.len(),
    ensures
        match dec_at(buf@.skip(*old(pos) as int)) {
            Some((m, k)) => {
                &&& r matches Some(inst) && inst.model() == m
                &&& *final(pos) == *old(pos) + k
            },
            None => r is None && *final(pos) == *old(pos),
        },
{
    let start = *pos;
    let n = buf.len();
    let ghost s = buf@.skip(start as int);
    if start >= n {
        return None;
    }
    let tag = buf[start];
    assert(tag == s[0]);
    if tag == TAG_FUNCTION {
        if n - start < 9 {
            return None;
        }
        let nkonts = read_u32(buf, start + 1);
        let nargs = read_u32(buf, start + 5);
        proof {
            assert(buf@.subrange(start + 1, start + 5) =~= s.subrange(1, 5));
            assert(buf@.subrange(start + 5, start + 9) =~= s.subrange(5, 9));
        }
        let nargs_us = nargs as usize;
        if n - start - 9 < nargs_us {
            return None;
        }
        let params = copy_slice(buf, start + 9, nargs_us);
        proof {
            assert(params@ =~= s.subrange(9, 9 + nargs as int));
        }
        *pos = start + 9 + nargs_us;
        Some(Instruction::Function(nkonts, TypeList(params)))
    } else if tag == TAG_CASE {
        *pos = start + 1;
        Some(Instruction::Case())
    } else if tag == TAG_JOIN {
        if n - start < 5 {
            return None;
        }
        let nargs = read_u32(buf, start + 1);
        proof {
            assert(buf@.subrange(start + 1, start + 5) =~= s.subrange(1, 5));
        }
        let nargs_us = nargs as usize;
        if n - start - 5 < nargs_us {
            return None;
        }
        let params = copy_slice(buf, start + 5, nargs_us);
        proof {
            assert(params@ =~= s.subrange(5, 5 + nargs as int));
        }
        *pos = start + 5 + nargs_us;
        Some(Instruction::Join(TypeList(params)))
    } else if tag == TAG_KONT {
        if n - start < 5 {
            return None;
        }
        let nargs = read_u32(buf, start + 1);
        proof {
            assert(buf@.subrange(start + 1, start + 5) =~= s.subrange(1, 5));
        }
        let nargs_us = nargs as usize;
        if n - start - 5 < nargs_us {
            return None;
        }
        let params = copy_slice(buf, start + 5, nargs_us);
        proof {
            assert(params@ =~= s.subrange(5, 5 + nargs as int));
        }
        *pos = start + 5 + nargs_us;
        Some(Instruction::Kont(TypeList(params)))
    } else if tag == TAG_OP1 {
        if n - start < 6 {
            return None;
        }
        let op = buf[start + 1];
        let x = read_u32(buf, start + 2);
        proof {
            assert(buf@.subrange(start + 2, start + 6) =~= s.subrange(2, 6));
        }
        *pos = start + 6;
        Some(Instruction::Op1(Op1(op), Value(x)))
    } else if tag == TAG_OP2 {
        if n - start < 10 {
            return None;
        }
        let op = buf[start + 1];
        let x = read_u32(buf, start + 2);
        let y = read_u32(buf, start + 6);
        proof {
            assert(buf@.subrange(start + 2, start + 6) =~= s.subrange(2, 6));
            assert(buf@.subrange(start + 6, start + 10) =~= s.subrange(6, 10));
        }
        *pos = start + 10;
        Some(Instruction::Op2(Op2(op), Value(x), Value(y)))
    } else if tag == TAG_SELECT {
        if n - start < 13 {
            return None;
        }
        let p = read_u32(buf, start + 1);
        let x = read_u32(buf, start + 5);
        let y = read_u32(buf, start + 9);
        proof {
            assert(buf@.subrange(start + 1, start + 5) =~= s.subrange(1, 5));
            assert(buf@.subrange(start + 5, start + 9) =~= s.subrange(5, 9));
            assert(buf@.subrange(start + 9, start + 13) =~= s.subrange(9, 13));
        }
        *pos = start + 13;
        Some(Instruction::Select(Value(p), Value(x), Value(y)))
    } else if tag == TAG_CONST_I32 {
        if n - start < 5 {
            return None;
        }
        let c = read_u32(buf, start + 1);
        proof {
            assert(buf@.subrange(start + 1, start + 5) =~= s.subrange(1, 5));
        }
        *pos = start + 5;
        Some(Instruction::ConstI32(c))
    } else if tag == TAG_CONST_I64 {
        if n - start < 9 {
            return None;
        }
        let c = read_u64(buf, start + 1);
        proof {
            assert(buf@.subrange(start + 1, start + 9) =~= s.subrange(1, 9));
        }
        *pos = start + 9;
        Some(Instruction::ConstI64(c))
    } else if tag == TAG_CONST_BOOL {
        if n - start < 2 {
            return None;
        }
        let p = buf[start + 1];
        *pos = start + 2;
        Some(Instruction::ConstBool(p != 0))
    } else if tag == TAG_LET_VARIABLE {
        if n - start < 5 {
            return None;
        }
        let x = read_u32(buf, start + 1);
        proof {
            assert(buf@.subrange(start + 1, start + 5) =~= s.subrange(1, 5));
        }
        *pos = start + 5;
        Some(Instruction::LetVariable(Value(x)))
    } else if tag == TAG_GET_VARIABLE {
        if n - start < 5 {
            return None;
        }
        let x = read_u32(buf, start + 1);
        proof {
            assert(buf@.subrange(start + 1, start + 5) =~= s.subrange(1, 5));
        }
        *pos = start + 5;
        Some(Instruction::GetVariable(Variable(x)))
    } else if tag == TAG_SET_VARIABLE {
        if n - start < 9 {
            return None;
        }
        let x = read_u32(buf, start + 1);
        let y = read_u32(buf, start + 5);
        proof {
            assert(buf@.subrange(start + 1, start + 5) =~= s.subrange(1, 5));
            assert(buf@.subrange(start + 5, start + 9) =~= s.subrange(5, 9));
        }
        *pos = start + 9;
        Some(Instruction::SetVariable(Variable(x), Value(y)))
    } else if tag == TAG_IF {
        if n - start < 13 {
            return None;
        }
        let p = read_u32(buf, start + 1);
        let a = read_u32(buf, start + 5);
        let b = read_u32(buf, start + 9);
        proof {
            assert(buf@.subrange(start + 1, start + 5) =~= s.subrange(1, 5));
            assert(buf@.subrange(start + 5, start + 9) =~= s.subrange(5, 9));
            assert(buf@.subrange(start + 9, start + 13) =~= s.subrange(9, 13));
        }
        *pos = start + 13;
        Some(Instruction::If(Value(p), Label(a), Label(b)))
    } else if tag == TAG_GOTO {
        if n - start < 9 {
            return None;
        }
        let a = read_u32(buf, start + 1);
        let nargs = read_u32(buf, start + 5);
        proof {
            assert(buf@.subrange(start + 1, start + 5) =~= s.subrange(1, 5));
            assert(buf@.subrange(start + 5, start + 9) =~= s.subrange(5, 9));
        }
        let nargs_us = nargs as usize;
        if (n - start - 9) / 4 < nargs_us {
            return None;
        }
        let args = copy_slice(buf, start + 9, 4 * nargs_us);
        proof {
            assert(args@ =~= s.subrange(9, 9 + 4 * nargs as int));
        }
        *pos = start + 9 + 4 * nargs_us;
        Some(Instruction::Goto(Label(a), ValueList(args)))
    } else if tag == TAG_RETURN {
        if n - start < 9 {
            return None;
        }
        let index = read_u32(buf, start + 1);
        let nargs = read_u32(buf, start + 5);
        proof {
            assert(buf@.subrange(start + 1, start + 5) =~= s.subrange(1, 5));
            assert(buf@.subrange(start + 5, start + 9) =~= s.subrange(5, 9));
        }
        let nargs_us = nargs as usize;
        if (n - start - 9) / 4 < nargs_us {
            return None;
        }
        let args = copy_slice(buf, start + 9, 4 * nargs_us);
        proof {
            assert(args@ =~= s.subrange(9, 9 + 4 * nargs as int));
        }
        *pos = start + 9 + 4 * nargs_us;
        Some(Instruction::Return(index, ValueList(args)))
    } else {
        None
    }
}

} // verus!
