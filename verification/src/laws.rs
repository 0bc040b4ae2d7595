//! The machine's laws: properties of the small-step semantics that hold for
//! every program and every state, proved once and for all over
//! `machine::spec_step`. Because `Processor::run` is a chain of these steps,
//! each law carries over to the running engine.

use vstd::prelude::*;
use crate::machine::{
    advance, fail, is_signed, is_unsigned, kw_jump_eq, kw_jump_neq, kw_main_label, kw_return,
    kw_set, kw_view, lookup_from, name_sia, name_uia, newline, reg_of, spec_boot, spec_lookup,
    spec_step, spec_steps, Fault, MachineView, Status,
};
use crate::num::{
    dec_rep, dec_rep_int, is_digit, lemma_dec_rep_parses_i8, lemma_dec_rep_parses_u8,
    lemma_dec_rep_round_trip, parse_usize_spec,
};
use crate::processor::RKVal;
use crate::read::contains_colon;

verus! {

/// The keyword lengths, spelled out once so that the mnemonic decode's
/// inequality tests settle by length alone.
proof fn lemma_kw_lens()
    ensures
        kw_set().len() == 3,
        kw_view().len() == 4,
        crate::machine::kw_add().len() == 3,
        crate::machine::kw_sub().len() == 3,
        crate::machine::kw_del().len() == 3,
        crate::machine::kw_jump().len() == 4,
        kw_jump_eq().len() == 7,
        kw_jump_neq().len() == 8,
        crate::machine::kw_goto().len() == 4,
        crate::machine::kw_print().len() == 5,
        crate::machine::kw_printl().len() == 6,
        crate::machine::kw_bunny().len() == 5,
        kw_return().len() == 6,
        crate::machine::kw_exit().len() == 4,
        crate::machine::kw_move().len() == 4,
{
}

/// None of the instruction keywords carries a colon, so none is ever taken
/// for a label declaration.
proof fn lemma_keyword_no_colon(t: Seq<u8>)
    requires
        t == kw_set() || t == kw_view() || t == kw_return() || t == kw_jump_eq() || t
            == kw_jump_neq(),
    ensures
        !contains_colon(t),
{
    assert(forall|i: int| 0 <= i < t.len() ==> t[i] != ':' as u8);
}

/// Setting an unsigned register to a literal in [0,255] and then viewing it
/// prints exactly that literal: the two statements move the counter past
/// both, store the value, and append its decimal rendering and a newline to
/// the output, changing nothing else.
pub proof fn lemma_set_then_view_unsigned(m: MachineView, n: u8)
    requires
        m.status == Status::Running,
        1 <= m.counter,
        m.counter + 1 <= m.thread.len(),
        m.thread[m.counter - 1] == seq![kw_set(), name_uia(), dec_rep(n as nat)],
        m.thread[m.counter] == seq![kw_view(), name_uia()],
    ensures
        spec_steps(m, 2) == (MachineView {
            uia: RKVal::U8(n),
            counter: m.counter + 2,
            output: m.output.add(dec_rep(n as nat)).add(newline()),
            ..m
        }),
{
    lemma_dec_rep_parses_u8(n);
    lemma_keyword_no_colon(kw_set());
    lemma_keyword_no_colon(kw_view());
    let m1 = spec_step(m);
    assert(m1 == (MachineView { uia: RKVal::U8(n), counter: m.counter + 1, ..m }));
    let m2 = spec_step(m1);
    assert(m2 == (MachineView {
        uia: RKVal::U8(n),
        counter: m.counter + 2,
        output: m.output.add(dec_rep(n as nat).add(newline())),
        ..m
    }));
    assert(m.output.add(dec_rep(n as nat).add(newline())) =~= m.output.add(
        dec_rep(n as nat),
    ).add(newline()));
    assert(spec_steps(m, 2) == spec_steps(m1, 1));
    assert(spec_steps(m1, 1) == spec_steps(m2, 0));
}

/// Setting a signed register to a literal in [-128,127] and then viewing it
/// prints exactly that literal.
pub proof fn lemma_set_then_view_signed(m: MachineView, n: i8)
    requires
        m.status == Status::Running,
        1 <= m.counter,
        m.counter + 1 <= m.thread.len(),
        m.thread[m.counter - 1] == seq![kw_set(), name_sia(), dec_rep_int(n as int)],
        m.thread[m.counter] == seq![kw_view(), name_sia()],
    ensures
        spec_steps(m, 2) == (MachineView {
            sia: RKVal::I8(n),
            counter: m.counter + 2,
            output: m.output.add(dec_rep_int(n as int)).add(newline()),
            ..m
        }),
{
    lemma_dec_rep_parses_i8(n);
    lemma_keyword_no_colon(kw_set());
    lemma_keyword_no_colon(kw_view());
    let m1 = spec_step(m);
    assert(m1 == (MachineView { sia: RKVal::I8(n), counter: m.counter + 1, ..m }));
    let m2 = spec_step(m1);
    assert(m2 == (MachineView {
        sia: RKVal::I8(n),
        counter: m.counter + 2,
        output: m.output.add(dec_rep_int(n as int).add(newline())),
        ..m
    }));
    assert(m.output.add(dec_rep_int(n as int).add(newline())) =~= m.output.add(
        dec_rep_int(n as int),
    ).add(newline()));
    assert(spec_steps(m, 2) == spec_steps(m1, 1));
    assert(spec_steps(m1, 1) == spec_steps(m2, 0));
}

/// Single-slot return correctness: a `goto` whose label statement is
/// immediately followed by `return` comes back to the statement right after
/// the `goto`, with registers and output untouched. This holds for exactly
/// one level of nesting — the two steps here are the `goto` and the
/// `return`, with no second `goto` in between — and the return slot is left
/// holding the position of the `goto` itself.
pub proof fn lemma_goto_then_return(m: MachineView, dest: Seq<u8>, loc: int)
    requires
        m.status == Status::Running,
        1 <= m.counter <= m.thread.len(),
        m.thread[m.counter - 1] == seq![crate::machine::kw_goto(), dest],
        spec_lookup(m.functions, dest) == Some(loc),
        1 <= loc + 1 <= m.thread.len(),
        m.thread[loc] == seq![kw_return()],
    ensures
        spec_steps(m, 2) == (MachineView { counter: m.counter + 1, past: m.counter, ..m }),
{
    assert(forall|i: int|
        0 <= i < crate::machine::kw_goto().len() ==> crate::machine::kw_goto()[i] != ':' as u8);
    assert(!contains_colon(crate::machine::kw_goto()));
    lemma_keyword_no_colon(kw_return());
    let m1 = spec_step(m);
    assert(m1 == (MachineView { past: m.counter, counter: loc + 1, ..m }));
    let m2 = spec_step(m1);
    assert(m2 == (MachineView { counter: m.counter + 1, past: m.counter, ..m }));
    assert(spec_steps(m, 2) == spec_steps(m1, 1));
    assert(spec_steps(m1, 1) == spec_steps(m2, 0));
}

/// A conditional jump over two registers of one signedness class branches to
/// the named statement exactly when the comparison holds: `jump_eq` on equal
/// values, `jump_neq` on different ones; otherwise the counter just moves
/// on. Nothing but the counter changes.
pub proof fn lemma_cond_jump_branches(
    m: MachineView,
    on_eq: bool,
    d: Seq<u8>,
    v: Seq<u8>,
    t: Seq<u8>,
    x: int,
    y: int,
    k: usize,
)
    requires
        m.status == Status::Running,
        1 <= m.counter <= m.thread.len(),
        m.thread[m.counter - 1] == seq![
            if on_eq {
                kw_jump_eq()
            } else {
                kw_jump_neq()
            },
            d,
            v,
            t,
        ],
        ({
            let (r1, r2) = (crate::machine::spec_reg_name(d), crate::machine::spec_reg_name(v));
            &&& r1 is Some
            &&& r2 is Some
            &&& ((is_unsigned(r1.unwrap()) && is_unsigned(r2.unwrap()) && reg_of(m, r1.unwrap())
                == RKVal::U8(x as u8) && reg_of(m, r2.unwrap()) == RKVal::U8(y as u8) && 0 <= x
                <= 255 && 0 <= y <= 255) || (is_signed(r1.unwrap()) && is_signed(r2.unwrap())
                && reg_of(m, r1.unwrap()) == RKVal::I8(x as i8) && reg_of(m, r2.unwrap())
                == RKVal::I8(y as i8) && -128 <= x <= 127 && -128 <= y <= 127))
        }),
        parse_usize_spec(t) == Some(k),
        k >= 1,
    ensures
        spec_step(m) == if (on_eq && x == y) || (!on_eq && x != y) {
            MachineView { counter: k as int, ..m }
        } else {
            advance(m)
        },
{
    if on_eq {
        lemma_keyword_no_colon(kw_jump_eq());
    } else {
        lemma_keyword_no_colon(kw_jump_neq());
    }
    lemma_kw_lens();
    let stmt = m.thread[m.counter - 1];
    assert(stmt.len() == 4);
    assert(stmt[1] == d && stmt[2] == v && stmt[3] == t);
    assert(!contains_colon(stmt[0]));
    assert(spec_step(m) == crate::machine::spec_four(m, stmt[0], d, v, t));
    if on_eq {
        assert(crate::machine::spec_mnemonic(stmt[0]) == crate::machine::Mnemonic::Ife);
    } else {
        assert(crate::machine::spec_mnemonic(stmt[0]) == crate::machine::Mnemonic::Ifn);
    }
    assert(spec_step(m) == crate::machine::spec_cond_jump(m, d, v, t, on_eq));
    let r1 = crate::machine::spec_reg_name(d).unwrap();
    let r2 = crate::machine::spec_reg_name(v).unwrap();
    let take = (on_eq && x == y) || (!on_eq && x != y);
    if is_unsigned(r1) && is_unsigned(r2) {
        let a = reg_of(m, r1)->U8_0;
        let b = reg_of(m, r2)->U8_0;
        assert(a == x as u8 && b == y as u8);
        assert((a == b) == (x == y));
        assert(spec_step(m) == crate::machine::spec_branch(m, t, if on_eq {
            a == b
        } else {
            a != b
        }));
    } else {
        let a = reg_of(m, r1)->I8_0;
        let b = reg_of(m, r2)->I8_0;
        assert(a == x as i8 && b == y as i8);
        assert((a == b) == (x == y));
        assert(spec_step(m) == crate::machine::spec_branch(m, t, if on_eq {
            a == b
        } else {
            a != b
        }));
    }
    assert(spec_step(m) == crate::machine::spec_branch(m, t, take));
    if take {
        assert(crate::machine::spec_branch(m, t, take) == (MachineView { counter: k as int, ..m }));
    } else {
        assert(crate::machine::spec_branch(m, t, take) == advance(m));
    }
}

/// A conditional jump whose two operands are not both unsigned-class or
/// both signed-class registers fails with `NotARegister`, whatever the
/// third operand holds.
pub proof fn lemma_cond_jump_mixed_classes(
    m: MachineView,
    on_eq: bool,
    d: Seq<u8>,
    v: Seq<u8>,
    t: Seq<u8>,
)
    requires
        m.status == Status::Running,
        1 <= m.counter <= m.thread.len(),
        m.thread[m.counter - 1] == seq![
            if on_eq {
                kw_jump_eq()
            } else {
                kw_jump_neq()
            },
            d,
            v,
            t,
        ],
        !(match (crate::machine::spec_reg_name(d), crate::machine::spec_reg_name(v)) {
            (Some(a), Some(b)) => (is_unsigned(a) && is_unsigned(b)) || (is_signed(a) && is_signed(
                b,
            )),
            _ => false,
        }),
    ensures
        spec_step(m) == fail(m, Fault::NotARegister),
{
    if on_eq {
        lemma_keyword_no_colon(kw_jump_eq());
    } else {
        lemma_keyword_no_colon(kw_jump_neq());
    }
    lemma_kw_lens();
    let stmt = m.thread[m.counter - 1];
    assert(stmt.len() == 4);
    assert(stmt[1] == d && stmt[2] == v && stmt[3] == t);
    assert(!contains_colon(stmt[0]));
    assert(spec_step(m) == crate::machine::spec_four(m, stmt[0], d, v, t));
    if on_eq {
        assert(crate::machine::spec_mnemonic(stmt[0]) == crate::machine::Mnemonic::Ife);
    } else {
        assert(crate::machine::spec_mnemonic(stmt[0]) == crate::machine::Mnemonic::Ifn);
    }
    assert(spec_step(m) == crate::machine::spec_cond_jump(m, d, v, t, on_eq));
    match (crate::machine::spec_reg_name(d), crate::machine::spec_reg_name(v)) {
        (Some(a), Some(b)) => {
            assert(!(is_unsigned(a) && is_unsigned(b)));
            assert(!(is_signed(a) && is_signed(b)));
            assert(crate::machine::spec_cond_jump(m, d, v, t, on_eq) == fail(
                m,
                Fault::NotARegister,
            ));
        },
        _ => {
            assert(crate::machine::spec_cond_jump(m, d, v, t, on_eq) == fail(
                m,
                Fault::NotARegister,
            ));
        },
    }
}

/// A label table without a `main:` entry fails the boot with
/// `LabelNotFound` before any statement is fetched: the machine's state is
/// untouched but for the status.
pub proof fn lemma_missing_main_faults(m: MachineView)
    requires
        forall|i: int| 0 <= i < m.functions.len() ==> (#[trigger] m.functions[i]).0
            != kw_main_label(),
    ensures
        spec_boot(m) == fail(m, Fault::LabelNotFound),
{
    lemma_lookup_no_main(m.functions, 0);
}

/// `main:` is never the decimal rendering of a position, so a table without
/// the name has no match at all.
proof fn lemma_lookup_no_main(fns: Seq<(Seq<u8>, int)>, i: int)
    requires
        0 <= i <= fns.len(),
        forall|j: int| 0 <= j < fns.len() ==> (#[trigger] fns[j]).0 != kw_main_label(),
    ensures
        lookup_from(fns, kw_main_label(), i) is None,
    decreases fns.len() - i,
{
    if i < fns.len() {
        if fns[i].1 >= 0 && kw_main_label() == dec_rep(fns[i].1 as nat) {
            lemma_dec_rep_round_trip(fns[i].1 as nat);
            assert(is_digit(dec_rep(fns[i].1 as nat)[4]));
            assert(kw_main_label()[4] == ':' as u8);
            assert(false);
        }
        lemma_lookup_no_main(fns, i + 1);
    }
}

} // verus!

