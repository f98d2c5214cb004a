use lilac::printing::display;
use lilac::ssa::{Builder, Label, Op1, Op2, Type, Value};

#[test]
fn printer_names_ops() {
    assert_eq!(Op1(0x08).name(), "neg.i64");
    assert_eq!(Op1(0x07).name(), "ctz.i64");
    assert_eq!(Op1(0x44).name(), "unknown");
    assert_eq!(Op2(0x06).name(), "add.i64");
    assert_eq!(Op2(0x07).name(), "sub.i64");
    assert_eq!(Op2(0x08).name(), "is_eq.i64");
    assert_eq!(Op2(0x44).name(), "unknown");
    assert_eq!(Type(0x08).name(), "i64");
    assert_eq!(Type(0x02).name(), "unknown");
}

#[test]
fn printer_lists_middle_ops() {
    let mut b = Builder::new();
    let _ = b.emit_op1(Op1(0x08), Value(10));
    let _ = b.emit_op1(Op1(0x07), Value(11));
    let _ = b.emit_op2(Op2(0x06), Value(12), Value(13));
    let _ = b.emit_op2(Op2(0x07), Value(14), Value(15));
    let out = display(b.view());
    assert_eq!(
        out,
        "\t%0 = neg.i64 %10\n\t%1 = ctz.i64 %11\n\t%2 = add.i64 %12 %13\n\t%3 = sub.i64 %14 %15\n"
    );
}

#[test]
fn printer_lists_function_and_blocks() {
    let mut b = Builder::new();
    b.emit_function(1, 1);
    let _ = b.emit_param(Type(0x08));
    let _ = b.emit_const_bool(true);
    let _ = b.emit_if(Value(1), Label(1), Label(2));
    let _ = b.emit_case();
    let p = b.emit_goto(Label(0), 1);
    b.emit_value(Value(0));
    let _ = b.emit_case();
    let _ = b.emit_join(1);
    let _ = b.emit_param(Type(0x08));
    b.patch_label(p, Label(3));
    b.emit_return(0, 1);
    b.emit_value(Value(2));
    let out = display(b.view());
    let expected = "0: function $0 (%0 i64) -> (...)\n\t%1 = const.bool #true\n\tif %1 then =>1 else =>2\n1: case\n\tgoto =>3 (%0)\n2: case\n3: join (%2 i64)\n\treturn (%2)\n";
    assert_eq!(out, expected);
}

#[test]
fn printer_separates_multiple_params_and_args() {
    let mut b = Builder::new();
    b.emit_function(2, 2);
    let _ = b.emit_param(Type(0x08));
    let _ = b.emit_param(Type(0x08));
    let _ = b.emit_goto(Label(1), 2);
    b.emit_value(Value(0));
    b.emit_value(Value(1));
    let out = display(b.view());
    assert_eq!(
        out,
        "0: function $0 (%0 i64, %1 i64) -> (...|...)\n\tgoto =>1 (%0, %1)\n"
    );
}

#[test]
fn printer_marks_return_continuation_slots() {
    let mut b = Builder::new();
    b.emit_function(3, 0);
    b.emit_return(1, 1);
    b.emit_value(Value(0));
    let out = display(b.view());
    assert_eq!(out, "0: function $0 () -> (...|...|...)\n\treturn (|%0|)\n");
}

#[test]
fn printer_no_continuation_prints_bang() {
    let mut b = Builder::new();
    b.emit_function(0, 0);
    let out = display(b.view());
    assert_eq!(out, "0: function $0 () -> !\n");
}

#[test]
fn printer_counts_values_and_labels_per_function() {
    let mut b = Builder::new();
    b.emit_function(1, 0);
    let _ = b.emit_const_i64(1);
    b.emit_function(1, 0);
    let _ = b.emit_const_i64(2);
    let out = display(b.view());
    assert_eq!(
        out,
        "0: function $0 () -> (...)\n\t%0 = const.i64 #1\n1: function $0 () -> (...)\n\t%0 = const.i64 #2\n"
    );
}

#[test]
fn printer_large_decimal_ids() {
    let mut b = Builder::new();
    let _ = b.emit_op1(Op1(0x08), Value(4294967295));
    let out = display(b.view());
    assert_eq!(out, "\t%0 = neg.i64 %4294967295\n");
}

#[test]
fn printer_marks_unfixed_records_unknown() {
    let mut b = Builder::new();
    let v = b.emit_let_variable(Value(0));
    let _ = b.emit_get_variable(v);
    let out = display(b.view());
    assert_eq!(out, "UNKNOWN INSTRUCTION\nUNKNOWN INSTRUCTION\n");
}

#[test]
fn printer_stops_with_decoder() {
    let mut b = Builder::new();
    let _ = b.emit_const_i64(3);
    let mut bytes = b.view().to_vec();
    bytes.push(0xff);
    bytes.push(0x09);
    assert_eq!(display(&bytes), "\t%0 = const.i64 #3\n");
}

#[test]
fn printer_empty_join_and_goto_args() {
    let mut b = Builder::new();
    let _ = b.emit_join(0);
    let _ = b.emit_goto(Label(5), 0);
    assert_eq!(display(b.view()), "0: join ()\n\tgoto =>5 ()\n");
}
