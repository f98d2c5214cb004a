//! The instruction encoding schema: tag bytes, operand layout, a ghost model
//! of a single decoded instruction, and the encoder / decoder on byte
//! sequences, with the round-trip proof between the two.
//!
//! Every instruction is one tag byte followed by a positionally encoded,
//! width-fixed body (little-endian, no alignment, no frame length). The
//! variable-length payloads of `Function`/`Join`/`Kont` (one type byte per
//! parameter) and `Goto`/`Return` (four bytes per value) are preceded by a
//! 32-bit count.

use vstd::bytes::{
    spec_u32_from_le_bytes, spec_u32_to_le_bytes, spec_u64_from_le_bytes, spec_u64_to_le_bytes,
    lemma_auto_spec_u32_to_from_le_bytes, lemma_auto_spec_u64_to_from_le_bytes,
};
use vstd::prelude::*;

verus! {

// Tag bytes.
pub const TAG_FUNCTION: u8 = 0x01;
pub const TAG_CASE: u8 = 0x02;
pub const TAG_JOIN: u8 = 0x03;
pub const TAG_KONT: u8 = 0x04;
pub const TAG_OP1: u8 = 0x05;
pub const TAG_OP2: u8 = 0x06;
pub const TAG_SELECT: u8 = 0x07;
pub const TAG_CONST_I32: u8 = 0x08;
pub const TAG_CONST_I64: u8 = 0x09;
pub const TAG_IF: u8 = 0x0a;
pub const TAG_GOTO: u8 = 0x0b;
pub const TAG_RETURN: u8 = 0x0c;
/// Reserved: no body layout yet, so the decoder halts on it.
pub const TAG_CALL: u8 = 0x0d;
/// Reserved: no body layout yet, so the decoder halts on it.
pub const TAG_TAILCALL: u8 = 0x0e;
pub const TAG_CONST_BOOL: u8 = 0x0f;
pub const TAG_LET_VARIABLE: u8 = 0x10;
pub const TAG_GET_VARIABLE: u8 = 0x11;
pub const TAG_SET_VARIABLE: u8 = 0x12;

// Semantic type codes.
pub const TYPE_BOOL: u8 = 0x02;
pub const TYPE_I5: u8 = 0x03;
pub const TYPE_I6: u8 = 0x04;
pub const TYPE_I32: u8 = 0x07;
pub const TYPE_I64: u8 = 0x08;
pub const TYPE_REF: u8 = 0x09;
pub const TYPE_VOID: u8 = 0x0d;

// Unary opcodes.
pub const OP1_CAST_I32_I64_SX: u8 = 0x01;
pub const OP1_CAST_I32_I64_ZX: u8 = 0x02;
pub const OP1_CAST_I64_I32: u8 = 0x03;
pub const OP1_BIT_NOT_I64: u8 = 0x05;
pub const OP1_CLZ_I64: u8 = 0x06;
pub const OP1_CTZ_I64: u8 = 0x07;
pub const OP1_NEG_I64: u8 = 0x08;

// Binary opcodes.
pub const OP2_BIT_XOR_I64: u8 = 0x05;
pub const OP2_ADD_I64: u8 = 0x06;
pub const OP2_SUB_I64: u8 = 0x07;
pub const OP2_IS_EQ_I64: u8 = 0x08;

/// The 32-bit little-endian integer stored at offset `i` of `b`.
pub open spec fn u32_at(b: Seq<u8>, i: int) -> u32 {
    spec_u32_from_le_bytes(b.subrange(i, i + 4))
}

/// The 64-bit little-endian integer stored at offset `i` of `b`.
pub open spec fn u64_at(b: Seq<u8>, i: int) -> u64 {
    spec_u64_from_le_bytes(b.subrange(i, i + 8))
}

/// The 32-bit values held by a packed little-endian value list.
pub open spec fn vals_of(raw: Seq<u8>) -> Seq<u32> {
    Seq::new((raw.len() / 4) as nat, |i: int| u32_at(raw, 4 * i))
}

/// Ghost model of one decoded instruction. Parameter-type payloads are kept
/// as their raw bytes (one type code per entry); value payloads are kept as
/// their raw bytes (four per value, see [`vals_of`]).
#[allow(inconsistent_fields)]
pub enum Inst {
    Function { nkonts: u32, params: Seq<u8> },
    Case,
    Join { params: Seq<u8> },
    Kont { params: Seq<u8> },
    Op1 { op: u8, x: u32 },
    Op2 { op: u8, x: u32, y: u32 },
    Select { p: u32, x: u32, y: u32 },
    ConstI32 { c: u32 },
    ConstI64 { c: u64 },
    ConstBool { b: bool },
    LetVariable { x: u32 },
    GetVariable { v: u32 },
    SetVariable { v: u32, x: u32 },
    If { p: u32, a: u32, b: u32 },
    Goto { target: u32, args: Seq<u8> },
    Return { kont: u32, args: Seq<u8> },
}

/// The payload counts of `m` fit their 32-bit count fields, and value
/// payloads hold whole 4-byte entries.
pub open spec fn inst_wf(m: Inst) -> bool {
    match m {
        Inst::Function { nkonts, params } => params.len() <= u32::MAX,
        Inst::Join { params } => params.len() <= u32::MAX,
        Inst::Kont { params } => params.len() <= u32::MAX,
        Inst::Goto { target, args } => args.len() % 4 == 0 && args.len() / 4 <= u32::MAX,
        Inst::Return { kont, args } => args.len() % 4 == 0 && args.len() / 4 <= u32::MAX,
        _ => true,
    }
}

/// The byte encoding of one instruction.
pub open spec fn enc(m: Inst) -> Seq<u8> {
    match m {
        Inst::Function { nkonts, params } => seq![TAG_FUNCTION] + spec_u32_to_le_bytes(nkonts)
            + spec_u32_to_le_bytes(params.len() as u32) + params,
        Inst::Case => seq![TAG_CASE],
        Inst::Join { params } => seq![TAG_JOIN] + spec_u32_to_le_bytes(params.len() as u32)
            + params,
        Inst::Kont { params } => seq![TAG_KONT] + spec_u32_to_le_bytes(params.len() as u32)
            + params,
        Inst::Op1 { op, x } => seq![TAG_OP1, op] + spec_u32_to_le_bytes(x),
        Inst::Op2 { op, x, y } => seq![TAG_OP2, op] + spec_u32_to_le_bytes(x)
            + spec_u32_to_le_bytes(y),
        Inst::Select { p, x, y } => seq![TAG_SELECT] + spec_u32_to_le_bytes(p)
            + spec_u32_to_le_bytes(x) + spec_u32_to_le_bytes(y),
        Inst::ConstI32 { c } => seq![TAG_CONST_I32] + spec_u32_to_le_bytes(c),
        Inst::ConstI64 { c } => seq![TAG_CONST_I64] + spec_u64_to_le_bytes(c),
        Inst::ConstBool { b } => seq![TAG_CONST_BOOL, if b { 1u8 } else { 0u8 }],
        Inst::LetVariable { x } => seq![TAG_LET_VARIABLE] + spec_u32_to_le_bytes(x),
        Inst::GetVariable { v } => seq![TAG_GET_VARIABLE] + spec_u32_to_le_bytes(v),
        Inst::SetVariable { v, x } => seq![TAG_SET_VARIABLE] + spec_u32_to_le_bytes(v)
            + spec_u32_to_le_bytes(x),
        Inst::If { p, a, b } => seq![TAG_IF] + spec_u32_to_le_bytes(p) + spec_u32_to_le_bytes(a)
            + spec_u32_to_le_bytes(b),
        Inst::Goto { target, args } => seq![TAG_GOTO] + spec_u32_to_le_bytes(target)
            + spec_u32_to_le_bytes((args.len() / 4) as u32) + args,
        Inst::Return { kont, args } => seq![TAG_RETURN] + spec_u32_to_le_bytes(kont)
            + spec_u32_to_le_bytes((args.len() / 4) as u32) + args,
    }
}

/// Decodes the instruction that starts at the head of `b`: the instruction
/// and the number of bytes it occupies. `None` when the bytes are exhausted,
/// the tag is unknown or reserved, or the body is truncated.
pub open spec fn dec_at(b: Seq<u8>) -> Option<(Inst, int)> {
    if b.len() < 1 {
        None
    } else {
        let tag = b[0];
        if tag == TAG_FUNCTION {
            if b.len() < 9 {
                None
            } else {
                let nargs = u32_at(b, 5) as int;
                if b.len() < 9 + nargs {
                    None
                } else {
                    Some((
                        Inst::Function { nkonts: u32_at(b, 1), params: b.subrange(9, 9 + nargs) },
                        9 + nargs,
                    ))
                }
            }
        } else if tag == TAG_CASE {
            Some((Inst::Case, 1))
        } else if tag == TAG_JOIN {
            if b.len() < 5 {
                None
            } else {
                let nargs = u32_at(b, 1) as int;
                if b.len() < 5 + nargs {
                    None
                } else {
                    Some((Inst::Join { params: b.subrange(5, 5 + nargs) }, 5 + nargs))
                }
            }
        } else if tag == TAG_KONT {
            if b.len() < 5 {
                None
            } else {
                let nargs = u32_at(b, 1) as int;
                if b.len() < 5 + nargs {
                    None
                } else {
                    Some((Inst::Kont { params: b.subrange(5, 5 + nargs) }, 5 + nargs))
                }
            }
        } else if tag == TAG_OP1 {
            if b.len() < 6 {
                None
            } else {
                Some((Inst::Op1 { op: b[1], x: u32_at(b, 2) }, 6))
            }
        } else if tag == TAG_OP2 {
            if b.len() < 10 {
                None
            } else {
                Some((Inst::Op2 { op: b[1], x: u32_at(b, 2), y: u32_at(b, 6) }, 10))
            }
        } else if tag == TAG_SELECT {
            if b.len() < 13 {
                None
            } else {
                Some((Inst::Select { p: u32_at(b, 1), x: u32_at(b, 5), y: u32_at(b, 9) }, 13))
            }
        } else if tag == TAG_CONST_I32 {
            if b.len() < 5 {
                None
            } else {
                Some((Inst::ConstI32 { c: u32_at(b, 1) }, 5))
            }
        } else if tag == TAG_CONST_I64 {
            if b.len() < 9 {
                None
            } else {
                Some((Inst::ConstI64 { c: u64_at(b, 1) }, 9))
            }
        } else if tag == TAG_CONST_BOOL {
            if b.len() < 2 {
                None
            } else {
                Some((Inst::ConstBool { b: b[1] != 0 }, 2))
            }
        } else if tag == TAG_LET_VARIABLE {
            if b.len() < 5 {
                None
            } else {
                Some((Inst::LetVariable { x: u32_at(b, 1) }, 5))
            }
        } else if tag == TAG_GET_VARIABLE {
            if b.len() < 5 {
                None
            } else {
                Some((Inst::GetVariable { v: u32_at(b, 1) }, 5))
            }
        } else if tag == TAG_SET_VARIABLE {
            if b.len() < 9 {
                None
            } else {
                Some((Inst::SetVariable { v: u32_at(b, 1), x: u32_at(b, 5) }, 9))
            }
        } else if tag == TAG_IF {
            if b.len() < 13 {
                None
            } else {
                Some((Inst::If { p: u32_at(b, 1), a: u32_at(b, 5), b: u32_at(b, 9) }, 13))
            }
        } else if tag == TAG_GOTO {
            if b.len() < 9 {
                None
            } else {
                let nargs = u32_at(b, 5) as int;
                if b.len() < 9 + 4 * nargs {
                    None
                } else {
                    Some((
                        Inst::Goto { target: u32_at(b, 1), args: b.subrange(9, 9 + 4 * nargs) },
                        9 + 4 * nargs,
                    ))
                }
            }
        } else if tag == TAG_RETURN {
            if b.len() < 9 {
                None
            } else {
                let nargs = u32_at(b, 5) as int;
                if b.len() < 9 + 4 * nargs {
                    None
                } else {
                    Some((
                        Inst::Return { kont: u32_at(b, 1), args: b.subrange(9, 9 + 4 * nargs) },
                        9 + 4 * nargs,
                    ))
                }
            }
        } else {
            None
        }
    }
}

/// A decoded instruction occupies at least one byte, at most the whole
/// sequence, and is well formed.
pub proof fn lemma_dec_at_bounds(b: Seq<u8>)
    ensures
        dec_at(b) matches Some((m, k)) ==> 1 <= k <= b.len() && inst_wf(m),
{
}

/// The encoding of an instruction starts with its tag and is never empty.
pub proof fn lemma_enc_len(m: Inst)
    ensures
        1 <= enc(m).len(),
{
}

/// Encoding round-trip for one instruction: decoding bytes that start with
/// `enc(m)` yields `m` again and consumes exactly `enc(m)`, whatever follows.
pub proof fn lemma_enc_dec(m: Inst, rest: Seq<u8>)
    requires
        inst_wf(m),
    ensures
        dec_at(enc(m) + rest) == Some((m, enc(m).len() as int)),
{
    lemma_auto_spec_u32_to_from_le_bytes();
    lemma_auto_spec_u64_to_from_le_bytes();
    let b = enc(m) + rest;
    match m {
        Inst::Function { nkonts, params } => {
            assert(b.subrange(1, 5) =~= spec_u32_to_le_bytes(nkonts));
            assert(b.subrange(5, 9) =~= spec_u32_to_le_bytes(params.len() as u32));
            assert(b.subrange(9, 9 + params.len() as int) =~= params);
        }
        Inst::Case => {}
        Inst::Join { params } => {
            assert(b.subrange(1, 5) =~= spec_u32_to_le_bytes(params.len() as u32));
            assert(b.subrange(5, 5 + params.len() as int) =~= params);
        }
        Inst::Kont { params } => {
            assert(b.subrange(1, 5) =~= spec_u32_to_le_bytes(params.len() as u32));
            assert(b.subrange(5, 5 + params.len() as int) =~= params);
        }
        Inst::Op1 { op, x } => {
            assert(b.subrange(2, 6) =~= spec_u32_to_le_bytes(x));
        }
        Inst::Op2 { op, x, y } => {
            assert(b.subrange(2, 6) =~= spec_u32_to_le_bytes(x));
            assert(b.subrange(6, 10) =~= spec_u32_to_le_bytes(y));
        }
        Inst::Select { p, x, y } => {
            assert(b.subrange(1, 5) =~= spec_u32_to_le_bytes(p));
            assert(b.subrange(5, 9) =~= spec_u32_to_le_bytes(x));
            assert(b.subrange(9, 13) =~= spec_u32_to_le_bytes(y));
        }
        Inst::ConstI32 { c } => {
            assert(b.subrange(1, 5) =~= spec_u32_to_le_bytes(c));
        }
        Inst::ConstI64 { c } => {
            assert(b.subrange(1, 9) =~= spec_u64_to_le_bytes(c));
        }
        Inst::ConstBool { b: p } => {
            assert(b[1] == if p { 1u8 } else { 0u8 });
        }
        Inst::LetVariable { x } => {
            assert(b.subrange(1, 5) =~= spec_u32_to_le_bytes(x));
        }
        Inst::GetVariable { v } => {
            assert(b.subrange(1, 5) =~= spec_u32_to_le_bytes(v));
        }
        Inst::SetVariable { v, x } => {
            assert(b.subrange(1, 5) =~= spec_u32_to_le_bytes(v));
            assert(b.subrange(5, 9) =~= spec_u32_to_le_bytes(x));
        }
        Inst::If { p, a, b: t } => {
            assert(b.subrange(1, 5) =~= spec_u32_to_le_bytes(p));
            assert(b.subrange(5, 9) =~= spec_u32_to_le_bytes(a));
            assert(b.subrange(9, 13) =~= spec_u32_to_le_bytes(t));
        }
        Inst::Goto { target, args } => {
            assert(b.subrange(1, 5) =~= spec_u32_to_le_bytes(target));
            assert(b.subrange(5, 9) =~= spec_u32_to_le_bytes((args.len() / 4) as u32));
            assert(b.subrange(9, 9 + args.len() as int) =~= args);
        }
        Inst::Return { kont, args } => {
            assert(b.subrange(1, 5) =~= spec_u32_to_le_bytes(kont));
            assert(b.subrange(5, 9) =~= spec_u32_to_le_bytes((args.len() / 4) as u32));
            assert(b.subrange(9, 9 + args.len() as int) =~= args);
        }
    }
}

/// Decodes a whole stream: the instructions found from the head of `b`
/// until the decoder halts (exhaustion, unknown tag, or truncated body).
pub open spec fn dec_stream(b: Seq<u8>) -> Seq<Inst>
    decreases b.len(),
{
    match dec_at(b) {
        None => Seq::empty(),
        Some((m, k)) => if 1 <= k <= b.len() {
            seq![m] + dec_stream(b.skip(k))
        } else {
            Seq::empty()
        },
    }
}

/// The byte encoding of a whole instruction stream.
pub open spec fn enc_stream(ms: Seq<Inst>) -> Seq<u8>
    decreases ms.len(),
{
    if ms.len() == 0 {
        Seq::empty()
    } else {
        enc(ms[0]) + enc_stream(ms.skip(1))
    }
}

/// Every instruction of the stream is well formed.
pub open spec fn stream_wf(ms: Seq<Inst>) -> bool {
    forall|i: int| 0 <= i < ms.len() ==> inst_wf(#[trigger] ms[i])
}

/// Encoding round-trip for streams: decoding the encoding of any well-formed
/// instruction sequence yields exactly that sequence, element for element.
pub proof fn lemma_stream_round_trip(ms: Seq<Inst>)
    requires
        stream_wf(ms),
    ensures
        dec_stream(enc_stream(ms)) == ms,
    decreases ms.len(),
{
    if ms.len() == 0 {
        assert(dec_stream(enc_stream(ms)) =~= ms);
    } else {
        let head = enc(ms[0]);
        let tail = enc_stream(ms.skip(1));
        lemma_enc_dec(ms[0], tail);
        lemma_enc_len(ms[0]);
        assert((head + tail).skip(head.len() as int) =~= tail);
        assert(stream_wf(ms.skip(1)));
        lemma_stream_round_trip(ms.skip(1));
        assert(dec_stream(enc_stream(ms)) =~= ms);
    }
}

} // verus!
