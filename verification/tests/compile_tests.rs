use lilac::compile::{compile, compile_expression, Env};
use lilac::mir::{Call, Expression, Function, If, Symbol, Type};
use lilac::printing::display;
use lilac::ssa;
use lilac::ssa::{read, Instruction, Label, Op2, TypeList, Value, ValueList};

fn le32(v: &mut Vec<u8>, x: u32) {
    v.extend_from_slice(&x.to_le_bytes());
}

fn vl(xs: &[u32]) -> ValueList {
    let mut v = Vec::new();
    for &x in xs {
        le32(&mut v, x);
    }
    ValueList(v)
}

fn read_all(buf: &[u8]) -> Vec<Instruction> {
    let mut out = Vec::new();
    let mut pos = 0usize;
    while let Some(inst) = read(buf, &mut pos) {
        out.push(inst);
    }
    assert_eq!(pos, buf.len());
    out
}

fn if_expr(cond: Expression, if_true: Expression, if_false: Expression) -> Expression {
    Expression::If(Box::new(If { condition: cond, if_true, if_false }))
}

fn add_expr(x: Expression, y: Expression) -> Expression {
    Expression::Call(Box::new(Call {
        function: Symbol(b"add.i64".to_vec()),
        args: vec![x, y],
    }))
}

#[test]
fn const_return_exact_bytes() {
    let f = Function {
        name: Symbol(b"f".to_vec()),
        params: vec![],
        body: Expression::ConstI64(42),
    };
    let env = compile(&f);
    let mut expected = vec![0x01u8];
    le32(&mut expected, 1);
    le32(&mut expected, 0);
    expected.push(0x09);
    expected.extend_from_slice(&42u64.to_le_bytes());
    expected.push(0x0c);
    le32(&mut expected, 0);
    le32(&mut expected, 1);
    le32(&mut expected, 0);
    assert_eq!(env.out.view(), expected.as_slice());
}

#[test]
fn if_else_constants_lowering() {
    let f = Function {
        name: Symbol(b"f".to_vec()),
        params: vec![],
        body: if_expr(
            Expression::ConstBool(false),
            Expression::ConstI64(1),
            Expression::ConstI64(2),
        ),
    };
    let env = compile(&f);
    assert_eq!(
        read_all(env.out.view()),
        vec![
            Instruction::Function(1, TypeList(vec![])),
            Instruction::ConstBool(false),
            Instruction::If(Value(0), Label(2), Label(1)),
            Instruction::Case(),
            Instruction::ConstI64(2),
            Instruction::Goto(Label(3), vl(&[1])),
            Instruction::Case(),
            Instruction::ConstI64(1),
            Instruction::Goto(Label(3), vl(&[2])),
            Instruction::Join(TypeList(vec![0x08])),
            Instruction::Return(0, vl(&[3])),
        ]
    );
}

#[test]
fn add_of_two_ifs_lowering() {
    let f = Function {
        name: Symbol(b"f".to_vec()),
        params: vec![],
        body: add_expr(
            if_expr(
                Expression::ConstBool(false),
                Expression::ConstI64(1),
                Expression::ConstI64(2),
            ),
            if_expr(
                Expression::ConstBool(true),
                Expression::ConstI64(3),
                Expression::ConstI64(4),
            ),
        ),
    };
    let env = compile(&f);
    assert_eq!(
        read_all(env.out.view()),
        vec![
            Instruction::Function(1, TypeList(vec![])),
            Instruction::ConstBool(false),
            Instruction::If(Value(0), Label(2), Label(1)),
            Instruction::Case(),
            Instruction::ConstI64(2),
            Instruction::Goto(Label(3), vl(&[1])),
            Instruction::Case(),
            Instruction::ConstI64(1),
            Instruction::Goto(Label(3), vl(&[2])),
            Instruction::Join(TypeList(vec![0x08])),
            Instruction::ConstBool(true),
            Instruction::If(Value(4), Label(5), Label(4)),
            Instruction::Case(),
            Instruction::ConstI64(4),
            Instruction::Goto(Label(6), vl(&[5])),
            Instruction::Case(),
            Instruction::ConstI64(3),
            Instruction::Goto(Label(6), vl(&[6])),
            Instruction::Join(TypeList(vec![0x08])),
            Instruction::Op2(Op2(0x06), Value(3), Value(7)),
            Instruction::Return(0, vl(&[8])),
        ]
    );
}

#[test]
fn join_mints_next_free_value_with_common_type() {
    let mut env = Env::new();
    env.out.emit_function(1, 0);
    let e = if_expr(
        Expression::ConstBool(true),
        Expression::ConstI64(1),
        Expression::ConstI64(2),
    );
    let r = compile_expression(&mut env, &e);
    // condition %0, arms %1 and %2, join parameter %3 of the common type
    assert_eq!(r, Some((Value(3), ssa::Type(0x08))));
}

#[test]
fn nested_if_joins_thread_values() {
    let mut env = Env::new();
    env.out.emit_function(1, 0);
    let inner = if_expr(
        Expression::ConstBool(true),
        Expression::ConstI64(1),
        Expression::ConstI64(2),
    );
    let e = if_expr(Expression::ConstBool(false), inner, Expression::ConstI64(9));
    let r = compile_expression(&mut env, &e);
    // %0 cond, %1 const 9 (false arm), %2 inner cond, %3 and %4 inner arms,
    // %5 inner join parameter, %6 outer join parameter
    assert_eq!(r, Some((Value(6), ssa::Type(0x08))));
}

#[test]
fn compiled_function_with_params_binds_them_first() {
    let f = Function {
        name: Symbol(b"f".to_vec()),
        params: vec![
            (Symbol(b"a".to_vec()), Type::I64),
            (Symbol(b"b".to_vec()), Type::I64),
        ],
        body: add_expr(Expression::ConstI64(1), Expression::ConstI64(2)),
    };
    let env = compile(&f);
    assert_eq!(
        read_all(env.out.view()),
        vec![
            Instruction::Function(1, TypeList(vec![0x08, 0x08])),
            Instruction::ConstI64(1),
            Instruction::ConstI64(2),
            Instruction::Op2(Op2(0x06), Value(2), Value(3)),
            Instruction::Return(0, vl(&[4])),
        ]
    );
}

#[test]
fn if_else_listing() {
    let f = Function {
        name: Symbol(b"f".to_vec()),
        params: vec![],
        body: if_expr(
            Expression::ConstBool(false),
            Expression::ConstI64(1),
            Expression::ConstI64(2),
        ),
    };
    let env = compile(&f);
    let expected = "0: function $0 () -> (...)\n\t%0 = const.bool #false\n\tif %0 then =>2 else =>1\n1: case\n\t%1 = const.i64 #2\n\tgoto =>3 (%1)\n2: case\n\t%2 = const.i64 #1\n\tgoto =>3 (%2)\n3: join (%3 i64)\n\treturn (%3)\n";
    assert_eq!(display(env.out.view()), expected);
}
