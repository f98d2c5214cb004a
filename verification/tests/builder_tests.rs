use lilac::ssa::{Builder, Label, Op1, Op2, PatchPoint, Type, Value};

fn le32(v: &mut Vec<u8>, x: u32) {
    v.extend_from_slice(&x.to_le_bytes());
}

fn le64(v: &mut Vec<u8>, x: u64) {
    v.extend_from_slice(&x.to_le_bytes());
}

#[test]
fn value_numbering_monotonic() {
    let mut b = Builder::new();
    b.emit_function(1, 0);
    assert_eq!(b.emit_const_i64(7), Value(0));
    assert_eq!(b.emit_const_bool(true), Value(1));
    assert_eq!(b.emit_op1(Op1(0x08), Value(0)), Value(2));
    assert_eq!(b.emit_op2(Op2(0x06), Value(0), Value(2)), Value(3));
    assert_eq!(b.emit_select(Value(1), Value(0), Value(2)), Value(4));
    assert_eq!(b.emit_param(Type(0x08)), Value(5));
}

#[test]
fn label_numbering_monotonic() {
    let mut b = Builder::new();
    b.emit_function(1, 0);
    assert_eq!(b.emit_case(), Label(1));
    assert_eq!(b.emit_join(0), Label(2));
    assert_eq!(b.emit_case(), Label(3));
}

#[test]
fn counters_reset_on_emit_function() {
    let mut b = Builder::new();
    b.emit_function(1, 0);
    assert_eq!(b.emit_const_i64(1), Value(0));
    assert_eq!(b.emit_case(), Label(1));
    b.emit_function(1, 0);
    assert_eq!(b.emit_const_i64(1), Value(0));
    assert_eq!(b.emit_case(), Label(1));
}

#[test]
fn next_ids_mint_in_order() {
    let mut b = Builder::new();
    assert_eq!(b.next_value(), Value(0));
    assert_eq!(b.next_value(), Value(1));
    assert_eq!(b.next_label(), Label(0));
    assert_eq!(b.next_label(), Label(1));
    assert_eq!(b.next_variable().0, 0);
    assert_eq!(b.next_variable().0, 1);
}

#[test]
fn emit_const_i64_bytes() {
    let mut b = Builder::new();
    let _ = b.emit_const_i64(42);
    let mut expected = vec![0x09u8];
    le64(&mut expected, 42);
    assert_eq!(b.view(), expected.as_slice());
}

#[test]
fn emit_function_header_bytes() {
    let mut b = Builder::new();
    b.emit_function(2, 3);
    let mut expected = vec![0x01u8];
    le32(&mut expected, 2);
    le32(&mut expected, 3);
    assert_eq!(b.view(), expected.as_slice());
}

#[test]
fn emit_if_returns_patch_points_of_label_fields() {
    let mut b = Builder::new();
    let _ = b.emit_const_bool(true);
    let before = b.view().len();
    let (a, pb) = b.emit_if(Value(0), Label(0), Label(0));
    assert_eq!(a, PatchPoint(before + 5));
    assert_eq!(pb, PatchPoint(before + 9));
}

#[test]
fn patch_label_overwrites_only_its_field() {
    let mut b = Builder::new();
    let _ = b.emit_const_bool(false);
    let (a, pb) = b.emit_if(Value(0), Label(0), Label(0));
    b.patch_label(a, Label(7));
    b.patch_label(pb, Label(9));
    let mut expected = vec![0x0fu8, 0x00];
    expected.push(0x0a);
    le32(&mut expected, 0);
    le32(&mut expected, 7);
    le32(&mut expected, 9);
    assert_eq!(b.view(), expected.as_slice());
}

#[test]
fn patch_label_is_idempotent() {
    let mut b1 = Builder::new();
    let _ = b1.emit_const_bool(false);
    let (a1, _) = b1.emit_if(Value(0), Label(0), Label(0));
    b1.patch_label(a1, Label(3));

    let mut b2 = Builder::new();
    let _ = b2.emit_const_bool(false);
    let (a2, _) = b2.emit_if(Value(0), Label(0), Label(0));
    b2.patch_label(a2, Label(3));
    b2.patch_label(a2, Label(3));

    assert_eq!(b1.view(), b2.view());
    assert_eq!(
        lilac::printing::display(b1.view()),
        lilac::printing::display(b2.view())
    );
}

#[test]
fn byte_level_stability_across_runs() {
    fn run() -> Vec<u8> {
        let mut b = Builder::new();
        b.emit_function(1, 1);
        let _ = b.emit_param(Type(0x08));
        let _ = b.emit_const_i64(5);
        let _ = b.emit_op2(Op2(0x06), Value(0), Value(1));
        let p = b.emit_goto(Label(0), 1);
        b.emit_value(Value(2));
        let _ = b.emit_join(1);
        let _ = b.emit_param(Type(0x08));
        b.patch_label(p, Label(1));
        b.emit_return(0, 1);
        b.emit_value(Value(3));
        b.view().to_vec()
    }
    assert_eq!(run(), run());
}

#[test]
fn variable_ops_bytes_and_ids() {
    let mut b = Builder::new();
    let v0 = b.emit_let_variable(Value(4));
    assert_eq!(v0.0, 0);
    let v1 = b.emit_let_variable(Value(5));
    assert_eq!(v1.0, 1);
    let x = b.emit_get_variable(v0);
    assert_eq!(x, Value(0));
    b.emit_set_variable(v1, x);
    let mut expected = vec![0x10u8];
    le32(&mut expected, 4);
    expected.push(0x10);
    le32(&mut expected, 5);
    expected.push(0x11);
    le32(&mut expected, 0);
    expected.push(0x12);
    le32(&mut expected, 1);
    le32(&mut expected, 0);
    assert_eq!(b.view(), expected.as_slice());
}
