use yex::link::{check_operands, OpCode, OpCodeMetadata};
use yex::session::{patch_bytecode, LinkError, Session, Unit};
use yex::value::Value;

fn op(opcode: OpCode) -> OpCodeMetadata {
    OpCodeMetadata { line: 1, column: 0, opcode }
}

fn n(x: f64) -> Value {
    Value::Num(x.to_bits())
}

#[test]
fn patch_moves_push_only() {
    let ops = vec![op(OpCode::Push(0)), op(OpCode::Jmp(1)), op(OpCode::Push(2)), op(OpCode::Call(3))];
    let mut unit = Unit::new(ops, vec![n(1.0), n(2.0), n(3.0)]);
    assert!(patch_bytecode(&mut unit, 5));
    assert_eq!(
        unit.code(),
        &[op(OpCode::Push(5)), op(OpCode::Jmp(1)), op(OpCode::Push(7)), op(OpCode::Call(3))][..]
    );
    assert_eq!(unit.constants(), &[n(1.0), n(2.0), n(3.0)][..]);
}

#[test]
fn link_range_and_length() {
    let mut s = Session::new();
    let first = Unit::new(vec![op(OpCode::Push(0)), op(OpCode::Push(1))], vec![n(1.0), n(2.0)]);
    s.link(first).unwrap();
    assert_eq!(s.pool_len(), 2);
    let second = Unit::new(
        vec![op(OpCode::Push(0)), op(OpCode::Push(2)), op(OpCode::Push(1)), op(OpCode::Add)],
        vec![n(3.0), n(4.0), n(5.0)],
    );
    let code = s.link(second).unwrap();
    assert_eq!(s.pool_len(), 5);
    for o in &code {
        if let OpCode::Push(i) = o.opcode {
            assert!((2..5).contains(&i));
        }
    }
    assert_eq!(code[3].opcode, OpCode::Add);
    assert_eq!(s.constants(), &[n(1.0), n(2.0), n(3.0), n(4.0), n(5.0)][..]);
}

#[test]
fn sequential_units_resolve() {
    let mut s = Session::new();
    let a = Unit::new(vec![op(OpCode::Push(0))], vec![Value::Str("x".to_string())]);
    let a_code = s.link(a).unwrap();
    let b = Unit::new(vec![op(OpCode::Push(0)), op(OpCode::Pop)], vec![n(10.0)]);
    let b_code = s.link(b).unwrap();
    let OpCode::Push(ia) = a_code[0].opcode else { panic!("push expected") };
    let OpCode::Push(ib) = b_code[0].opcode else { panic!("push expected") };
    assert_eq!(s.constant(ia), Some(&Value::Str("x".to_string())));
    assert_eq!(s.constant(ib), Some(&n(10.0)));
    assert_eq!(s.constant(2), None);
}

#[test]
fn relocation_runs_once() {
    let mut u = Unit::new(vec![op(OpCode::Push(0)), op(OpCode::Push(1))], vec![n(1.0), n(2.0)]);
    assert!(!u.is_relocated());
    assert!(patch_bytecode(&mut u, 3));
    assert_eq!(u.code(), &[op(OpCode::Push(3)), op(OpCode::Push(4))][..]);
    assert!(!patch_bytecode(&mut u, 3));
    assert_eq!(u.code(), &[op(OpCode::Push(3)), op(OpCode::Push(4))][..]);
    assert!(u.is_relocated());
    let mut s = Session::new();
    assert_eq!(s.link(u).unwrap_err(), LinkError::AlreadyRelocated);
    assert_eq!(s.pool_len(), 0);
}

#[test]
fn out_of_range_operand_is_refused() {
    let mut s = Session::new();
    s.link(Unit::new(vec![], vec![n(1.0)])).unwrap();
    let bad = Unit::new(vec![op(OpCode::Push(1))], vec![n(2.0)]);
    assert_eq!(s.link(bad).unwrap_err(), LinkError::OperandOutOfRange);
    assert_eq!(s.pool_len(), 1);
    assert!(!check_operands(&[op(OpCode::Push(1))], 1));
    assert!(check_operands(&[op(OpCode::Push(0)), op(OpCode::Jmp(9))], 1));
}

#[test]
fn pool_is_kept_across_reset() {
    let mut s = Session::new();
    s.link(Unit::new(vec![op(OpCode::Push(0))], vec![n(7.0)])).unwrap();
    s.push(n(1.0));
    s.push(n(2.0));
    assert_eq!(s.pop_last(), Some(n(2.0)));
    s.reset();
    assert_eq!(s.pop_last(), None);
    assert_eq!(s.pool_len(), 1);
    assert_eq!(s.constant(0), Some(&n(7.0)));
}

#[test]
fn empty_unit_links() {
    let mut s = Session::new();
    let code = s.link(Unit::new(vec![op(OpCode::Halt)], vec![])).unwrap();
    assert_eq!(code, vec![op(OpCode::Halt)]);
    assert_eq!(s.pool_len(), 0);
}

#[test]
fn pool_index_table() {
    assert_eq!(OpCode::Push(4).pool_index(), Some(4));
    assert_eq!(OpCode::Jmf(4).pool_index(), None);
    assert_eq!(OpCode::Push(4).relocate(6), OpCode::Push(10));
    assert_eq!(OpCode::Call(4).relocate(6), OpCode::Call(4));
}

#[test]
fn second_pass_leaves_operands_unchanged() {
    let mut u = Unit::new(vec![op(OpCode::Push(0)), op(OpCode::Push(2)), op(OpCode::Dup)], vec![n(1.0), n(2.0), n(3.0)]);
    assert!(patch_bytecode(&mut u, 4));
    let once = u.code().to_vec();
    assert!(!patch_bytecode(&mut u, 4));
    assert_eq!(u.code(), &once[..]);
    assert_eq!(once[0].opcode, OpCode::Push(4));
    assert_eq!(once[1].opcode, OpCode::Push(6));
}
