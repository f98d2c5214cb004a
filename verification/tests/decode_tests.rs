use lilac::ssa::{
    read, Builder, Instruction, Label, Op1, Op2, Type, TypeList, Value, ValueList,
};

fn le32(v: &mut Vec<u8>, x: u32) {
    v.extend_from_slice(&x.to_le_bytes());
}

fn read_all(buf: &[u8]) -> (Vec<Instruction>, usize) {
    let mut out = Vec::new();
    let mut pos = 0usize;
    while let Some(inst) = read(buf, &mut pos) {
        out.push(inst);
    }
    (out, pos)
}

#[test]
fn round_trip_middle_ops() {
    let mut b = Builder::new();
    let _ = b.emit_const_bool(true);
    let _ = b.emit_const_i64(123456789012345);
    let _ = b.emit_op1(Op1(0x08), Value(10));
    let _ = b.emit_op2(Op2(0x06), Value(1), Value(2));
    let _ = b.emit_select(Value(0), Value(1), Value(2));
    let (insts, pos) = read_all(b.view());
    assert_eq!(pos, b.view().len());
    assert_eq!(
        insts,
        vec![
            Instruction::ConstBool(true),
            Instruction::ConstI64(123456789012345),
            Instruction::Op1(Op1(0x08), Value(10)),
            Instruction::Op2(Op2(0x06), Value(1), Value(2)),
            Instruction::Select(Value(0), Value(1), Value(2)),
        ]
    );
}

#[test]
fn round_trip_block_entries_and_terminators() {
    let mut b = Builder::new();
    b.emit_function(1, 2);
    let _ = b.emit_param(Type(0x08));
    let _ = b.emit_param(Type(0x02));
    let _ = b.emit_case();
    let _ = b.emit_join(1);
    let _ = b.emit_param(Type(0x08));
    let _ = b.emit_if(Value(0), Label(1), Label(2));
    let _ = b.emit_goto(Label(2), 2);
    b.emit_value(Value(3));
    b.emit_value(Value(4));
    b.emit_return(0, 1);
    b.emit_value(Value(2));
    let (insts, pos) = read_all(b.view());
    assert_eq!(pos, b.view().len());
    assert_eq!(
        insts,
        vec![
            Instruction::Function(1, TypeList(vec![0x08, 0x02])),
            Instruction::Case(),
            Instruction::Join(TypeList(vec![0x08])),
            Instruction::If(Value(0), Label(1), Label(2)),
            Instruction::Goto(Label(2), ValueList({
                let mut v = Vec::new();
                le32(&mut v, 3);
                le32(&mut v, 4);
                v
            })),
            Instruction::Return(0, ValueList({
                let mut v = Vec::new();
                le32(&mut v, 2);
                v
            })),
        ]
    );
}

#[test]
fn fib_scaffold_round_trips() {
    let mut b = Builder::new();
    b.emit_function(1, 1);
    let _ = b.emit_param(Type(0x08));
    let _ = b.emit_const_i64(1);
    let _ = b.emit_const_i64(0);
    let _ = b.emit_goto(Label(1), 3);
    b.emit_value(Value(0));
    b.emit_value(Value(1));
    b.emit_value(Value(2));
    let _ = b.emit_join(3);
    let _ = b.emit_param(Type(0x08));
    let _ = b.emit_param(Type(0x08));
    let _ = b.emit_param(Type(0x08));
    let _ = b.emit_op2(Op2(0x08), Value(3), Value(2));
    let _ = b.emit_if(Value(6), Label(3), Label(2));
    let _ = b.emit_case();
    let _ = b.emit_op2(Op2(0x06), Value(4), Value(5));
    let _ = b.emit_op2(Op2(0x07), Value(3), Value(1));
    let _ = b.emit_goto(Label(1), 3);
    b.emit_value(Value(8));
    b.emit_value(Value(5));
    b.emit_value(Value(7));
    let _ = b.emit_case();
    b.emit_return(0, 1);
    b.emit_value(Value(5));

    // The exact bytes of the stream, record for record.
    let mut expected = vec![0x01u8];
    le32(&mut expected, 1);
    le32(&mut expected, 1);
    expected.push(0x08);
    expected.push(0x09);
    expected.extend_from_slice(&1u64.to_le_bytes());
    expected.push(0x09);
    expected.extend_from_slice(&0u64.to_le_bytes());
    expected.push(0x0b);
    le32(&mut expected, 1);
    le32(&mut expected, 3);
    le32(&mut expected, 0);
    le32(&mut expected, 1);
    le32(&mut expected, 2);
    expected.push(0x03);
    le32(&mut expected, 3);
    expected.extend_from_slice(&[0x08, 0x08, 0x08]);
    expected.push(0x06);
    expected.push(0x08);
    le32(&mut expected, 3);
    le32(&mut expected, 2);
    expected.push(0x0a);
    le32(&mut expected, 6);
    le32(&mut expected, 3);
    le32(&mut expected, 2);
    expected.push(0x02);
    expected.push(0x06);
    expected.push(0x06);
    le32(&mut expected, 4);
    le32(&mut expected, 5);
    expected.push(0x06);
    expected.push(0x07);
    le32(&mut expected, 3);
    le32(&mut expected, 1);
    expected.push(0x0b);
    le32(&mut expected, 1);
    le32(&mut expected, 3);
    le32(&mut expected, 8);
    le32(&mut expected, 5);
    le32(&mut expected, 7);
    expected.push(0x02);
    expected.push(0x0c);
    le32(&mut expected, 0);
    le32(&mut expected, 1);
    le32(&mut expected, 5);
    assert_eq!(b.view(), expected.as_slice());

    // The exact decoded instruction list.
    let (insts, pos) = read_all(b.view());
    assert_eq!(pos, b.view().len());
    let goto_args = |xs: &[u32]| {
        let mut v = Vec::new();
        for &x in xs {
            le32(&mut v, x);
        }
        ValueList(v)
    };
    assert_eq!(
        insts,
        vec![
            Instruction::Function(1, TypeList(vec![0x08])),
            Instruction::ConstI64(1),
            Instruction::ConstI64(0),
            Instruction::Goto(Label(1), goto_args(&[0, 1, 2])),
            Instruction::Join(TypeList(vec![0x08, 0x08, 0x08])),
            Instruction::Op2(Op2(0x08), Value(3), Value(2)),
            Instruction::If(Value(6), Label(3), Label(2)),
            Instruction::Case(),
            Instruction::Op2(Op2(0x06), Value(4), Value(5)),
            Instruction::Op2(Op2(0x07), Value(3), Value(1)),
            Instruction::Goto(Label(1), goto_args(&[8, 5, 7])),
            Instruction::Case(),
            Instruction::Return(0, goto_args(&[5])),
        ]
    );
}

#[test]
fn decoder_stops_on_stray_byte() {
    let mut b = Builder::new();
    let _ = b.emit_const_i64(9);
    let _ = b.emit_case();
    let mut bytes = b.view().to_vec();
    bytes.push(0xff);
    let mut pos = 0usize;
    assert_eq!(read(&bytes, &mut pos), Some(Instruction::ConstI64(9)));
    assert_eq!(read(&bytes, &mut pos), Some(Instruction::Case()));
    let at_stray = pos;
    assert_eq!(read(&bytes, &mut pos), None);
    assert_eq!(pos, at_stray);
    assert_eq!(at_stray, bytes.len() - 1);
}

#[test]
fn decoder_stops_on_truncated_body() {
    let mut bytes = vec![0x09u8, 0x01, 0x02];
    let mut pos = 0usize;
    assert_eq!(read(&bytes, &mut pos), None);
    assert_eq!(pos, 0);
    bytes.clear();
    bytes.push(0x06);
    bytes.push(0x06);
    le32(&mut bytes, 1);
    let mut pos2 = 0usize;
    assert_eq!(read(&bytes, &mut pos2), None);
    assert_eq!(pos2, 0);
}

#[test]
fn decoder_stops_on_reserved_tags() {
    for tag in [0x00u8, 0x0d, 0x0e, 0x13, 0xff] {
        let bytes = vec![tag, 0, 0, 0, 0, 0, 0, 0, 0, 0, 0, 0, 0];
        let mut pos = 0usize;
        assert_eq!(read(&bytes, &mut pos), None, "tag {tag:#x}");
        assert_eq!(pos, 0);
    }
}

#[test]
fn decoder_reads_reserved_layouts() {
    // Kont and ConstI32 have fixed layouts in the schema even though the
    // builder has no entry point for them yet.
    let mut bytes = vec![0x04u8];
    le32(&mut bytes, 2);
    bytes.push(0x08);
    bytes.push(0x02);
    bytes.push(0x08);
    le32(&mut bytes, 77);
    let mut pos = 0usize;
    assert_eq!(
        read(&bytes, &mut pos),
        Some(Instruction::Kont(TypeList(vec![0x08, 0x02])))
    );
    assert_eq!(read(&bytes, &mut pos), Some(Instruction::ConstI32(77)));
    assert_eq!(pos, bytes.len());
}

#[test]
fn const_bool_accepts_any_nonzero_byte() {
    let bytes = vec![0x0fu8, 0x07, 0x0f, 0x00];
    let mut pos = 0usize;
    assert_eq!(read(&bytes, &mut pos), Some(Instruction::ConstBool(true)));
    assert_eq!(read(&bytes, &mut pos), Some(Instruction::ConstBool(false)));
}

#[test]
fn type_list_iter_decodes_each_byte() {
    let tl = TypeList(vec![0x08, 0x02, 0x07]);
    assert_eq!(tl.iter(), vec![Type(0x08), Type(0x02), Type(0x07)]);
}

#[test]
fn value_list_iter_decodes_chunks() {
    let mut raw = Vec::new();
    le32(&mut raw, 5);
    le32(&mut raw, 70000);
    let vl = ValueList(raw);
    assert_eq!(vl.iter(), vec![Value(5), Value(70000)]);
    assert_eq!(ValueList(Vec::new()).iter(), Vec::<Value>::new());
}

#[test]
fn decoder_stops_on_truncated_payload() {
    let mut bytes = vec![0x01u8];
    le32(&mut bytes, 1);
    le32(&mut bytes, 3);
    bytes.push(0x08);
    let mut pos = 0usize;
    assert_eq!(read(&bytes, &mut pos), None);
    assert_eq!(pos, 0);
    let mut goto = vec![0x0bu8];
    le32(&mut goto, 1);
    le32(&mut goto, 2);
    le32(&mut goto, 9);
    let mut pos2 = 0usize;
    assert_eq!(read(&goto, &mut pos2), None);
    assert_eq!(pos2, 0);
}
