use bunny::machine::{Fault, Status};
use bunny::processor::{fault_code, Processor};
use bunny::read::Program;

fn run_src(src: &str) -> (Status, Vec<u8>) {
    let mut p = Processor::new();
    let mut prog = Program::new();
    prog.load(src.as_bytes().to_vec());
    let st = p.run(prog);
    (st, p.output)
}

fn out_str(bytes: &[u8]) -> String {
    String::from_utf8(bytes.to_vec()).unwrap()
}

#[test]
fn set_view_unsigned_prints_every_value() {
    for n in 0u16..=255 {
        let src = format!("main:,set uia {},view uia,set proc 0,exit", n);
        let (st, out) = run_src(&src);
        assert_eq!(st, Status::Halted(0));
        assert_eq!(out_str(&out), format!("{}\n", n));
    }
}

#[test]
fn set_view_signed_prints_every_value() {
    for n in -128i16..=127 {
        let src = format!("main:,set sia {},view sia,set proc 0,exit", n);
        let (st, out) = run_src(&src);
        assert_eq!(st, Status::Halted(0));
        assert_eq!(out_str(&out), format!("{}\n", n));
    }
}

#[test]
fn exit_reports_proc_value() {
    let (st, out) = run_src("main:,set proc 42,exit");
    assert_eq!(st, Status::Halted(42));
    assert!(out.is_empty());
}

#[test]
fn exit_with_negative_code() {
    let (st, _) = run_src("main:,set proc -3,exit");
    assert_eq!(st, Status::Halted(-3));
}

#[test]
fn exit_without_proc_is_not_a_number() {
    let (st, _) = run_src("main:,exit");
    assert_eq!(st, Status::Failed(Fault::NotANumber));
}

#[test]
fn goto_then_return_resumes_after_goto() {
    let src = "fn:,return,main:,set proc 0,goto fn:,set proc 7,exit";
    let (st, out) = run_src(src);
    assert_eq!(st, Status::Halted(7));
    assert!(out.is_empty());
}

#[test]
fn goto_by_numeric_position() {
    let (st, _) = run_src("fn:,set proc 8,exit,main:,goto 1");
    assert_eq!(st, Status::Halted(8));
}

#[test]
fn goto_unknown_label_fails() {
    let (st, _) = run_src("main:,goto nope:");
    assert_eq!(st, Status::Failed(Fault::LabelNotFound));
}

#[test]
fn jump_eq_taken_on_equal_values() {
    let src = "main:,set uia 4,set uib 4,jump_eq uia uib 6,set proc 1,set proc 0,exit";
    let (st, _) = run_src(src);
    assert_eq!(st, Status::Halted(0));
}

#[test]
fn jump_eq_not_taken_on_different_values() {
    let src = "main:,set uia 4,set uib 5,jump_eq uia uib 7,set proc 1,exit,set proc 0,exit";
    let (st, _) = run_src(src);
    assert_eq!(st, Status::Halted(1));
}

#[test]
fn jump_neq_taken_on_different_values() {
    let src = "main:,set sia -1,set sib 1,jump_neq sia sib 6,set proc 1,set proc 0,exit";
    let (st, _) = run_src(src);
    assert_eq!(st, Status::Halted(0));
}

#[test]
fn jump_neq_not_taken_on_equal_values() {
    let src = "main:,set sia 3,set sib 3,jump_neq sia sib 7,set proc 1,exit,set proc 0,exit";
    let (st, _) = run_src(src);
    assert_eq!(st, Status::Halted(1));
}

#[test]
fn jump_eq_mixed_classes_is_not_a_register() {
    let (st, out) = run_src("main:,set uia 5,set sia 5,jump_eq uia sia 1,view uia");
    assert_eq!(st, Status::Failed(Fault::NotARegister));
    assert!(out.is_empty());
    assert_ne!(fault_code(Fault::NotARegister), 0);
}

#[test]
fn jump_eq_bad_target_only_when_taken() {
    let (st, _) = run_src("main:,set uia 1,set uib 1,jump_eq uia uib zz");
    assert_eq!(st, Status::Failed(Fault::NotANumber));
    let (st2, _) = run_src("main:,set uia 1,set uib 2,jump_eq uia uib zz,set proc 0,exit");
    assert_eq!(st2, Status::Halted(0));
}

#[test]
fn jump_eq_target_zero_is_not_a_number() {
    let (st, _) = run_src("main:,set uia 1,set uib 1,jump_eq uia uib 0");
    assert_eq!(st, Status::Failed(Fault::NotANumber));
}

#[test]
fn add_stores_into_second_operand() {
    let (st, out) = run_src("main:,set uia 1,set uib 2,add uia uib,view uib,set proc 0,exit");
    assert_eq!(st, Status::Halted(0));
    assert_eq!(out_str(&out), "3\n");
}

#[test]
fn add_wraps_at_eight_bits() {
    let (st, out) = run_src("main:,set uia 200,set uib 100,add uia uib,view uib,set proc 0,exit");
    assert_eq!(st, Status::Halted(0));
    assert_eq!(out_str(&out), "44\n");
}

#[test]
fn sub_wraps_below_zero() {
    let (st, out) = run_src("main:,set uia 1,set uib 0,sub uia uib,view uib,set proc 0,exit");
    assert_eq!(st, Status::Halted(0));
    assert_eq!(out_str(&out), "255\n");
}

#[test]
fn signed_add_and_wrap() {
    let (st, out) = run_src("main:,set sia -5,set sib 7,add sia sib,view sib,set proc 0,exit");
    assert_eq!(st, Status::Halted(0));
    assert_eq!(out_str(&out), "2\n");
    let (st2, out2) = run_src("main:,set sia 100,set sib 100,add sia sib,view sib,set proc 0,exit");
    assert_eq!(st2, Status::Halted(0));
    assert_eq!(out_str(&out2), "-56\n");
}

#[test]
fn add_on_proc_is_not_a_register() {
    let (st, _) = run_src("main:,set uia 1,add proc uia");
    assert_eq!(st, Status::Failed(Fault::NotARegister));
}

#[test]
fn add_on_unset_register_is_not_a_register() {
    let (st, _) = run_src("main:,add uia uib");
    assert_eq!(st, Status::Failed(Fault::NotARegister));
}

#[test]
fn move_copies_raw_value() {
    let (st, out) = run_src("main:,set uia 9,move uia uib,view uib,set proc 0,exit");
    assert_eq!(st, Status::Halted(0));
    assert_eq!(out_str(&out), "9\n");
}

#[test]
fn move_across_kinds_leaves_mistagged_value() {
    let (st, _) = run_src("main:,set uia 9,move uia sia,view sia");
    assert_eq!(st, Status::Failed(Fault::NotANumber));
}

#[test]
fn del_resets_to_null() {
    let (st, _) = run_src("main:,set uia 3,del uia,view uia");
    assert_eq!(st, Status::Failed(Fault::NotANumber));
}

#[test]
fn jump_skips_to_position_after_target() {
    let (st, _) = run_src("main:,jump 3,set proc 1,set proc 0,exit");
    assert_eq!(st, Status::Halted(0));
}

#[test]
fn jump_huge_index_is_not_a_number() {
    let (st, _) = run_src("main:,jump 99999999999999999999");
    assert_eq!(st, Status::Failed(Fault::NotANumber));
}

#[test]
fn running_off_the_end_uses_proc() {
    let (st, _) = run_src("main:,set proc 4");
    assert_eq!(st, Status::Halted(4));
}

#[test]
fn view_proc_prints_signed_32() {
    let (st, out) = run_src("main:,set proc -12,view proc,exit");
    assert_eq!(st, Status::Halted(-12));
    assert_eq!(out_str(&out), "-12\n");
}

#[test]
fn set_out_of_range_is_not_a_number() {
    let (st, _) = run_src("main:,set uia 256,exit");
    assert_eq!(st, Status::Failed(Fault::NotANumber));
    let (st2, _) = run_src("main:,set sia -129,exit");
    assert_eq!(st2, Status::Failed(Fault::NotANumber));
}

#[test]
fn set_with_plus_sign_parses() {
    let (st, out) = run_src("main:,set uia +7,view uia,set proc 0,exit");
    assert_eq!(st, Status::Halted(0));
    assert_eq!(out_str(&out), "7\n");
}

#[test]
fn set_unknown_register_is_not_a_register() {
    let (st, _) = run_src("main:,set xyz 1");
    assert_eq!(st, Status::Failed(Fault::NotARegister));
}

#[test]
fn unknown_mnemonic_is_not_a_command() {
    let (st, _) = run_src("main:,bogus");
    assert_eq!(st, Status::Failed(Fault::NotACommand));
    let (st2, _) = run_src("main:,a b c d e");
    assert_eq!(st2, Status::Failed(Fault::NotACommand));
}

#[test]
fn print_family_outputs() {
    let (st, out) = run_src("main:,print hi,printl yo,set proc 0,exit");
    assert_eq!(st, Status::Halted(0));
    assert_eq!(out_str(&out), "hiyo\n");
    let (st2, out2) = run_src("main:,print a b,printl,print c d e,set proc 0,exit");
    assert_eq!(st2, Status::Halted(0));
    assert_eq!(out_str(&out2), "a b\nc d e");
    let (st3, out3) = run_src("main:,printl a b,printl a b c,set proc 0,exit");
    assert_eq!(st3, Status::Halted(0));
    assert_eq!(out_str(&out3), "a b\na b c\n");
}

#[test]
fn bunny_prints_banner() {
    let (st, out) = run_src("main:,bunny,set proc 0,exit");
    assert_eq!(st, Status::Halted(0));
    assert_eq!(out_str(&out), "(\\ /)\n( . .)\nC(\")(\")\n");
}

#[test]
fn label_statement_is_skipped() {
    let (st, _) = run_src("main:,other: stuff,set proc 0,exit");
    assert_eq!(st, Status::Halted(0));
}

#[test]
fn empty_source_without_main_fails_before_any_statement() {
    let (st, out) = run_src("");
    assert_eq!(st, Status::Failed(Fault::LabelNotFound));
    assert!(out.is_empty());
    let (st2, out2) = run_src(" , ,");
    assert_eq!(st2, Status::Failed(Fault::LabelNotFound));
    assert!(out2.is_empty());
}

#[test]
fn source_without_main_label_fails() {
    let (st, out) = run_src("set uia 1,set uib 2,add uia uib,view uib,set proc 0,exit");
    assert_eq!(st, Status::Failed(Fault::LabelNotFound));
    assert!(out.is_empty());
}

#[test]
fn goto_picks_first_matching_label() {
    let (st, _) = run_src("x:,set proc 1,exit,x:,set proc 2,exit,main:,goto x:");
    assert_eq!(st, Status::Halted(1));
}

#[test]
fn view_of_unset_register_is_not_a_number() {
    let (st, _) = run_src("main:,view proc");
    assert_eq!(st, Status::Failed(Fault::NotANumber));
    let (st2, _) = run_src("main:,view nope");
    assert_eq!(st2, Status::Failed(Fault::NotARegister));
}

#[test]
fn fault_codes_are_distinct_negatives() {
    assert_eq!(fault_code(Fault::NotACommand), -5);
    assert_eq!(fault_code(Fault::NotANumber), -6);
    assert_eq!(fault_code(Fault::NotARegister), -7);
    assert_eq!(fault_code(Fault::LabelNotFound), -5);
}

#[test]
fn whitespace_around_statements_is_trimmed() {
    let (st, out) = run_src("  main: ,  set proc 0 ,\n view proc ,  exit  ");
    assert_eq!(st, Status::Halted(0));
    assert_eq!(out_str(&out), "0\n");
}

#[test]
fn empty_statements_are_dropped() {
    let (st, _) = run_src("main:,,set proc 0,,exit");
    assert_eq!(st, Status::Halted(0));
}
