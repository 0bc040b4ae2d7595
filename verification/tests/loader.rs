use bunny::machine::Fault;
use bunny::processor::{Register, RegisterKind, RKVal};
use bunny::read::Program;

fn loaded(src: &str) -> Program {
    let mut p = Program::new();
    p.load(src.as_bytes().to_vec());
    p
}

fn toks(stmt: &[Vec<u8>]) -> Vec<String> {
    stmt.iter().map(|t| String::from_utf8(t.clone()).unwrap()).collect()
}

#[test]
fn default_program_raw_text_is_exit() {
    let p = Program::new();
    assert_eq!(p.raw_thread, b"exit".to_vec());
    assert_eq!(p.thread_len, 0);
    assert!(p.thread.is_empty());
    assert!(p.functions.is_empty());
}

#[test]
fn load_splits_statements_and_tokens() {
    let p = loaded("set uia 1,view uia,exit");
    assert_eq!(p.thread_len, 3);
    assert_eq!(toks(&p.thread[0]), vec!["set", "uia", "1"]);
    assert_eq!(toks(&p.thread[1]), vec!["view", "uia"]);
    assert_eq!(toks(&p.thread[2]), vec!["exit"]);
}

#[test]
fn load_trims_and_drops_empty_statements() {
    let p = loaded("  a b , , c ,,  ");
    assert_eq!(p.thread_len, 2);
    assert_eq!(toks(&p.thread[0]), vec!["a", "b"]);
    assert_eq!(toks(&p.thread[1]), vec!["c"]);
}

#[test]
fn load_records_labels_with_one_based_positions() {
    let p = loaded("fn:,return,main:,exit");
    assert_eq!(p.functions.len(), 2);
    assert_eq!(String::from_utf8(p.functions[0].0.clone()).unwrap(), "fn:");
    assert_eq!(p.functions[0].1, 1);
    assert_eq!(String::from_utf8(p.functions[1].0.clone()).unwrap(), "main:");
    assert_eq!(p.functions[1].1, 3);
}

#[test]
fn lines_returns_trimmed_nonempty_statements() {
    let mut p = Program::new();
    p.load(" x y ,, z ".as_bytes().to_vec());
    let ls = p.lines();
    assert_eq!(ls.len(), 2);
    assert_eq!(String::from_utf8(ls[0].clone()).unwrap(), "x y");
    assert_eq!(String::from_utf8(ls[1].clone()).unwrap(), "z");
}

#[test]
fn split_rebuilds_thread_from_raw() {
    let mut p = loaded("a b,c");
    p.split();
    assert_eq!(p.thread_len, 2);
    assert_eq!(toks(&p.thread[0]), vec!["a", "b"]);
}

#[test]
fn double_spaces_make_empty_tokens() {
    let p = loaded("print a  b");
    assert_eq!(p.thread_len, 1);
    assert_eq!(toks(&p.thread[0]), vec!["print", "a", "", "b"]);
}

#[test]
fn fresh_registers_hold_null() {
    let u = Register::new_unsigned();
    assert_eq!(u.kind, RegisterKind::U8);
    assert_eq!(u.value, RKVal::Null);
    assert_eq!(u.valu8(), Err(Fault::NotANumber));
    let s = Register::new_signed();
    assert_eq!(s.kind, RegisterKind::I8);
    assert_eq!(s.vali8(), Err(Fault::NotANumber));
    let p = Register::new_process();
    assert_eq!(p.kind, RegisterKind::Process);
    assert_eq!(p.process_val(), Err(Fault::NotANumber));
}

#[test]
fn typed_register_writes_check_kind() {
    let mut u = Register::new_unsigned();
    assert_eq!(u.set_u8(7), Ok(()));
    assert_eq!(u.valu8(), Ok(7));
    assert_eq!(u.set_i8(-1), Err(Fault::NotARegister));
    let mut s = Register::new_signed();
    assert_eq!(s.set_i8(-9), Ok(()));
    assert_eq!(s.vali8(), Ok(-9));
    assert_eq!(s.set_u8(1), Err(Fault::NotARegister));
}

#[test]
fn register_literal_parsing() {
    let mut u = Register::new_unsigned();
    assert_eq!(u.set_u8_str(&b"255".to_vec()), Ok(()));
    assert_eq!(u.valu8(), Ok(255));
    assert_eq!(u.set_u8_str(&b"256".to_vec()), Err(Fault::NotANumber));
    assert_eq!(u.set_u8_str(&b"".to_vec()), Err(Fault::NotANumber));
    assert_eq!(u.set_u8_str(&b"-1".to_vec()), Err(Fault::NotANumber));
    let mut s = Register::new_signed();
    assert_eq!(s.set_i8_str(&b"-128".to_vec()), Ok(()));
    assert_eq!(s.vali8(), Ok(-128));
    assert_eq!(s.set_i8_str(&b"128".to_vec()), Err(Fault::NotANumber));
    assert_eq!(s.set_i8_str(&b"-0".to_vec()), Ok(()));
    assert_eq!(s.vali8(), Ok(0));
    let mut pr = Register::new_process();
    assert_eq!(pr.set_process(&b"2147483647".to_vec()), Ok(()));
    assert_eq!(pr.process_val(), Ok(2147483647));
    assert_eq!(pr.set_process(&b"-2147483648".to_vec()), Ok(()));
    assert_eq!(pr.process_val(), Ok(-2147483648));
    assert_eq!(pr.set_process(&b"2147483648".to_vec()), Err(Fault::NotANumber));
}

#[test]
fn raw_value_accessors_check_the_tag() {
    assert_eq!(RKVal::U8(3).numu8(), Ok(3));
    assert_eq!(RKVal::I8(-3).numi8(), Ok(-3));
    assert_eq!(RKVal::Null.numu8(), Err(Fault::NotARegister));
    assert_eq!(RKVal::I32(1).numi8(), Err(Fault::NotARegister));
}

#[test]
fn mistagged_write_is_rejected_not_coerced() {
    let mut u = Register::new_unsigned();
    assert_eq!(u.set_i8_str(&b"5".to_vec()), Err(Fault::NotARegister));
    assert_eq!(u.value, RKVal::Null);
}
