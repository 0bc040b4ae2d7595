//! The machine's semantics: an abstract state (registers, counter, return
//! slot, program, output) and a total small-step function over it. The
//! engine in `processor` is proved to follow these steps exactly, so every
//! contract about a run can be read off this module alone.

use vstd::prelude::*;
use crate::num::{
    dec_rep, dec_rep_int, parse_i32_spec, parse_i8_spec, parse_u8_spec, parse_usize_spec,
};
use crate::processor::RKVal;
use crate::read::contains_colon;

verus! {

/// The fatal conditions. Each ends a run at once; none is recovered.
#[derive(Clone, Copy, Debug, PartialEq, Eq, Structural)]
pub enum Fault {
    NotACommand,
    NotANumber,
    NotARegister,
    LabelNotFound,
}

/// How a run stands: still fetching, ended by `exit` or by running off the
/// end of the program, or ended by a fatal condition.
#[derive(Clone, Copy, Debug, PartialEq, Eq, Structural)]
pub enum Status {
    Running,
    Halted(i32),
    Failed(Fault),
}

/// The mnemonic of a statement's first token.
#[derive(Clone, Copy, Debug, PartialEq, Eq, Structural)]
pub enum Mnemonic {
    Sto,
    Vew,
    Add,
    Sub,
    Del,
    Jmp,
    Ife,
    Ifn,
    Gto,
    Prt,
    Prl,
    Bny,
    Rtn,
    Ext,
    Mov,
    Pnc,
}

/// A register's name.
#[derive(Clone, Copy, Debug, PartialEq, Eq, Structural)]
pub enum RName {
    Proc,
    Uia,
    Uib,
    Uic,
    Uid,
    Sia,
    Sib,
    Sic,
    Sid,
}

/// The abstract machine state.
pub ghost struct MachineView {
    pub proc: RKVal,
    pub uia: RKVal,
    pub uib: RKVal,
    pub uic: RKVal,
    pub uid: RKVal,
    pub sia: RKVal,
    pub sib: RKVal,
    pub sic: RKVal,
    pub sid: RKVal,
    pub counter: int,
    pub past: int,
    pub thread: Seq<Seq<Seq<u8>>>,
    pub functions: Seq<(Seq<u8>, int)>,
    pub output: Seq<u8>,
    pub status: Status,
}

pub open spec fn newline() -> Seq<u8> {
    seq!['\n' as u8]
}

pub open spec fn sp() -> Seq<u8> {
    seq![' ' as u8]
}

/// The banner the `bunny` instruction prints.
pub open spec fn bunny_banner() -> Seq<u8> {
    seq![
        '(' as u8, '\\' as u8, ' ' as u8, '/' as u8, ')' as u8, '\n' as u8,
        '(' as u8, ' ' as u8, '.' as u8, ' ' as u8, '.' as u8, ')' as u8, '\n' as u8,
        'C' as u8, '(' as u8, '"' as u8, ')' as u8, '(' as u8, '"' as u8, ')' as u8,
    ]
}

pub open spec fn kw_set() -> Seq<u8> {
    seq!['s' as u8, 'e' as u8, 't' as u8]
}

pub open spec fn kw_view() -> Seq<u8> {
    seq!['v' as u8, 'i' as u8, 'e' as u8, 'w' as u8]
}

pub open spec fn kw_add() -> Seq<u8> {
    seq!['a' as u8, 'd' as u8, 'd' as u8]
}

pub open spec fn kw_sub() -> Seq<u8> {
    seq!['s' as u8, 'u' as u8, 'b' as u8]
}

pub open spec fn kw_del() -> Seq<u8> {
    seq!['d' as u8, 'e' as u8, 'l' as u8]
}

pub open spec fn kw_jump() -> Seq<u8> {
    seq!['j' as u8, 'u' as u8, 'm' as u8, 'p' as u8]
}

pub open spec fn kw_jump_eq() -> Seq<u8> {
    seq!['j' as u8, 'u' as u8, 'm' as u8, 'p' as u8, '_' as u8, 'e' as u8, 'q' as u8]
}

pub open spec fn kw_jump_neq() -> Seq<u8> {
    seq!['j' as u8, 'u' as u8, 'm' as u8, 'p' as u8, '_' as u8, 'n' as u8, 'e' as u8, 'q' as u8]
}

pub open spec fn kw_goto() -> Seq<u8> {
    seq!['g' as u8, 'o' as u8, 't' as u8, 'o' as u8]
}

pub open spec fn kw_print() -> Seq<u8> {
    seq!['p' as u8, 'r' as u8, 'i' as u8, 'n' as u8, 't' as u8]
}

pub open spec fn kw_printl() -> Seq<u8> {
    seq!['p' as u8, 'r' as u8, 'i' as u8, 'n' as u8, 't' as u8, 'l' as u8]
}

pub open spec fn kw_bunny() -> Seq<u8> {
    seq!['b' as u8, 'u' as u8, 'n' as u8, 'n' as u8, 'y' as u8]
}

pub open spec fn kw_return() -> Seq<u8> {
    seq!['r' as u8, 'e' as u8, 't' as u8, 'u' as u8, 'r' as u8, 'n' as u8]
}

pub open spec fn kw_exit() -> Seq<u8> {
    seq!['e' as u8, 'x' as u8, 'i' as u8, 't' as u8]
}

pub open spec fn kw_move() -> Seq<u8> {
    seq!['m' as u8, 'o' as u8, 'v' as u8, 'e' as u8]
}

pub open spec fn kw_main_label() -> Seq<u8> {
    seq!['m' as u8, 'a' as u8, 'i' as u8, 'n' as u8, ':' as u8]
}

pub open spec fn name_proc() -> Seq<u8> {
    seq!['p' as u8, 'r' as u8, 'o' as u8, 'c' as u8]
}

pub open spec fn name_uia() -> Seq<u8> {
    seq!['u' as u8, 'i' as u8, 'a' as u8]
}

pub open spec fn name_uib() -> Seq<u8> {
    seq!['u' as u8, 'i' as u8, 'b' as u8]
}

pub open spec fn name_uic() -> Seq<u8> {
    seq!['u' as u8, 'i' as u8, 'c' as u8]
}

pub open spec fn name_uid() -> Seq<u8> {
    seq!['u' as u8, 'i' as u8, 'd' as u8]
}

pub open spec fn name_sia() -> Seq<u8> {
    seq!['s' as u8, 'i' as u8, 'a' as u8]
}

pub open spec fn name_sib() -> Seq<u8> {
    seq!['s' as u8, 'i' as u8, 'b' as u8]
}

pub open spec fn name_sic() -> Seq<u8> {
    seq!['s' as u8, 'i' as u8, 'c' as u8]
}

pub open spec fn name_sid() -> Seq<u8> {
    seq!['s' as u8, 'i' as u8, 'd' as u8]
}

pub open spec fn spec_mnemonic(t: Seq<u8>) -> Mnemonic {
    if t == kw_set() {
        Mnemonic::Sto
    } else if t == kw_view() {
        Mnemonic::Vew
    } else if t == kw_add() {
        Mnemonic::Add
    } else if t == kw_sub() {
        Mnemonic::Sub
    } else if t == kw_del() {
        Mnemonic::Del
    } else if t == kw_jump() {
        Mnemonic::Jmp
    } else if t == kw_jump_eq() {
        Mnemonic::Ife
    } else if t == kw_jump_neq() {
        Mnemonic::Ifn
    } else if t == kw_goto() {
        Mnemonic::Gto
    } else if t == kw_print() {
        Mnemonic::Prt
    } else if t == kw_printl() {
        Mnemonic::Prl
    } else if t == kw_bunny() {
        Mnemonic::Bny
    } else if t == kw_return() {
        Mnemonic::Rtn
    } else if t == kw_exit() {
        Mnemonic::Ext
    } else if t == kw_move() {
        Mnemonic::Mov
    } else {
        Mnemonic::Pnc
    }
}

pub open spec fn spec_reg_name(t: Seq<u8>) -> Option<RName> {
    if t == name_proc() {
        Some(RName::Proc)
    } else if t == name_uia() {
        Some(RName::Uia)
    } else if t == name_uib() {
        Some(RName::Uib)
    } else if t == name_uic() {
        Some(RName::Uic)
    } else if t == name_uid() {
        Some(RName::Uid)
    } else if t == name_sia() {
        Some(RName::Sia)
    } else if t == name_sib() {
        Some(RName::Sib)
    } else if t == name_sic() {
        Some(RName::Sic)
    } else if t == name_sid() {
        Some(RName::Sid)
    } else {
        None
    }
}

pub open spec fn is_unsigned(r: RName) -> bool {
    r == RName::Uia || r == RName::Uib || r == RName::Uic || r == RName::Uid
}

pub open spec fn is_signed(r: RName) -> bool {
    r == RName::Sia || r == RName::Sib || r == RName::Sic || r == RName::Sid
}

pub open spec fn reg_of(m: MachineView, r: RName) -> RKVal {
    match r {
        RName::Proc => m.proc,
        RName::Uia => m.uia,
        RName::Uib => m.uib,
        RName::Uic => m.uic,
        RName::Uid => m.uid,
        RName::Sia => m.sia,
        RName::Sib => m.sib,
        RName::Sic => m.sic,
        RName::Sid => m.sid,
    }
}

pub open spec fn set_reg(m: MachineView, r: RName, v: RKVal) -> MachineView {
    match r {
        RName::Proc => MachineView { proc: v, ..m },
        RName::Uia => MachineView { uia: v, ..m },
        RName::Uib => MachineView { uib: v, ..m },
        RName::Uic => MachineView { uic: v, ..m },
        RName::Uid => MachineView { uid: v, ..m },
        RName::Sia => MachineView { sia: v, ..m },
        RName::Sib => MachineView { sib: v, ..m },
        RName::Sic => MachineView { sic: v, ..m },
        RName::Sid => MachineView { sid: v, ..m },
    }
}

/// The counter advance that follows every dispatched statement.
pub open spec fn advance(m: MachineView) -> MachineView {
    MachineView { counter: m.counter + 1, ..m }
}

pub open spec fn fail(m: MachineView, f: Fault) -> MachineView {
    MachineView { status: Status::Failed(f), ..m }
}

pub open spec fn emit(m: MachineView, bytes: Seq<u8>) -> MachineView {
    MachineView { output: m.output.add(bytes), ..m }
}

/// Label lookup from entry `i` on: the first entry whose name equals `dest`,
/// or whose position rendered in decimal equals `dest`, wins.
pub open spec fn lookup_from(fns: Seq<(Seq<u8>, int)>, dest: Seq<u8>, i: int) -> Option<int>
    decreases fns.len() - i,
{
    if i < 0 || i >= fns.len() {
        None
    } else if dest == fns[i].0 || (fns[i].1 >= 0 && dest == dec_rep(fns[i].1 as nat)) {
        Some(fns[i].1)
    } else {
        lookup_from(fns, dest, i + 1)
    }
}

pub open spec fn spec_lookup(fns: Seq<(Seq<u8>, int)>, dest: Seq<u8>) -> Option<int> {
    lookup_from(fns, dest, 0)
}

/// 8-bit wraparound: `add`/`sub` operate in the register's native width and
/// wrap at its boundary.
pub open spec fn wrap_u8(x: int) -> u8 {
    if x > 255 {
        (x - 256) as u8
    } else if x < 0 {
        (x + 256) as u8
    } else {
        x as u8
    }
}

pub open spec fn wrap_i8(x: int) -> i8 {
    if x > 127 {
        (x - 256) as i8
    } else if x < -128 {
        (x + 256) as i8
    } else {
        x as i8
    }
}

/// What `view` prints for a register, going by the register's kind: the
/// process register must hold an `I32`, an unsigned register a `U8`, a
/// signed one an `I8`; anything else is not a number.
pub open spec fn view_bytes(m: MachineView, r: RName) -> Option<Seq<u8>> {
    match r {
        RName::Proc => match m.proc {
            RKVal::I32(v) => Some(dec_rep_int(v as int)),
            _ => None,
        },
        _ => if is_unsigned(r) {
            match reg_of(m, r) {
                RKVal::U8(v) => Some(dec_rep(v as nat)),
                _ => None,
            }
        } else {
            match reg_of(m, r) {
                RKVal::I8(v) => Some(dec_rep_int(v as int)),
                _ => None,
            }
        },
    }
}

/// One-token statements: `return`, `exit`, `bunny`, `printl`.
pub open spec fn spec_one(m: MachineView, cmd: Seq<u8>) -> MachineView {
    match spec_mnemonic(cmd) {
        Mnemonic::Rtn => MachineView { counter: m.past + 1, ..m },
        Mnemonic::Ext => match m.proc {
            RKVal::I32(v) => MachineView { status: Status::Halted(v), ..m },
            _ => fail(m, Fault::NotANumber),
        },
        Mnemonic::Bny => advance(emit(m, bunny_banner().add(newline()))),
        Mnemonic::Prl => advance(emit(m, newline())),
        _ => fail(m, Fault::NotACommand),
    }
}

/// `view`: print the typed value of a register, going by its kind.
pub open spec fn spec_view(m: MachineView, dest: Seq<u8>) -> MachineView {
    match spec_reg_name(dest) {
        Some(r) => match view_bytes(m, r) {
            Some(b) => advance(emit(m, b.add(newline()))),
            None => fail(m, Fault::NotANumber),
        },
        None => fail(m, Fault::NotARegister),
    }
}

/// `jump`: the operand is an unsigned statement index, taken directly.
pub open spec fn spec_jump(m: MachineView, dest: Seq<u8>) -> MachineView {
    match parse_usize_spec(dest) {
        Some(v) => MachineView { counter: v + 1, ..m },
        None => fail(m, Fault::NotANumber),
    }
}

/// `goto`: resolve the operand against the label table, save the counter in
/// the return slot, and continue at the statement after the label.
pub open spec fn spec_goto(m: MachineView, dest: Seq<u8>) -> MachineView {
    match spec_lookup(m.functions, dest) {
        Some(loc) => MachineView { past: m.counter, counter: loc + 1, ..m },
        None => fail(m, Fault::LabelNotFound),
    }
}

/// `del`: reset a register to `Null`.
pub open spec fn spec_del(m: MachineView, dest: Seq<u8>) -> MachineView {
    match spec_reg_name(dest) {
        Some(r) => advance(set_reg(m, r, RKVal::Null)),
        None => fail(m, Fault::NotARegister),
    }
}

/// Two-token statements: `view`, `jump`, `goto`, `print`, `printl`, `del`.
pub open spec fn spec_two(m: MachineView, cmd: Seq<u8>, dest: Seq<u8>) -> MachineView {
    match spec_mnemonic(cmd) {
        Mnemonic::Vew => spec_view(m, dest),
        Mnemonic::Jmp => spec_jump(m, dest),
        Mnemonic::Gto => spec_goto(m, dest),
        Mnemonic::Prt => advance(emit(m, dest)),
        Mnemonic::Prl => advance(emit(m, dest.add(newline()))),
        Mnemonic::Del => spec_del(m, dest),
        _ => fail(m, Fault::NotACommand),
    }
}

/// `add`/`sub`: both operands must be registers of one signedness class; the
/// first is read and the result lands in the second operand's register.
pub open spec fn spec_arith(m: MachineView, dest: Seq<u8>, v: Seq<u8>, is_add: bool) -> MachineView {
    match (spec_reg_name(dest), spec_reg_name(v)) {
        (Some(r1), Some(r2)) => if is_unsigned(r1) && is_unsigned(r2) {
            match (reg_of(m, r1), reg_of(m, r2)) {
                (RKVal::U8(a), RKVal::U8(b)) => advance(
                    set_reg(
                        m,
                        r2,
                        RKVal::U8(
                            if is_add {
                                wrap_u8(b as int + a as int)
                            } else {
                                wrap_u8(b as int - a as int)
                            },
                        ),
                    ),
                ),
                _ => fail(m, Fault::NotARegister),
            }
        } else if is_signed(r1) && is_signed(r2) {
            match (reg_of(m, r1), reg_of(m, r2)) {
                (RKVal::I8(a), RKVal::I8(b)) => advance(
                    set_reg(
                        m,
                        r2,
                        RKVal::I8(
                            if is_add {
                                wrap_i8(b as int + a as int)
                            } else {
                                wrap_i8(b as int - a as int)
                            },
                        ),
                    ),
                ),
                _ => fail(m, Fault::NotARegister),
            }
        } else {
            fail(m, Fault::NotARegister)
        },
        _ => fail(m, Fault::NotARegister),
    }
}

/// `set`: parse the literal into the named register per its kind.
pub open spec fn spec_set(m: MachineView, dest: Seq<u8>, v: Seq<u8>) -> MachineView {
    match spec_reg_name(dest) {
        Some(RName::Proc) => match parse_i32_spec(v) {
            Some(x) => advance(MachineView { proc: RKVal::I32(x), ..m }),
            None => fail(m, Fault::NotANumber),
        },
        Some(r) => if is_unsigned(r) {
            match parse_u8_spec(v) {
                Some(x) => advance(set_reg(m, r, RKVal::U8(x))),
                None => fail(m, Fault::NotANumber),
            }
        } else {
            match parse_i8_spec(v) {
                Some(x) => advance(set_reg(m, r, RKVal::I8(x))),
                None => fail(m, Fault::NotANumber),
            }
        },
        None => fail(m, Fault::NotARegister),
    }
}

/// `move`: copy the stored value verbatim, without re-validating it against
/// the destination's kind.
pub open spec fn spec_move(m: MachineView, dest: Seq<u8>, v: Seq<u8>) -> MachineView {
    match (spec_reg_name(dest), spec_reg_name(v)) {
        (Some(a), Some(b)) => advance(set_reg(m, b, reg_of(m, a))),
        _ => fail(m, Fault::NotARegister),
    }
}

/// Three-token statements: `set`, `add`, `sub`, `move`, `print`, `printl`.
pub open spec fn spec_three(m: MachineView, cmd: Seq<u8>, dest: Seq<u8>, v: Seq<u8>) -> MachineView {
    match spec_mnemonic(cmd) {
        Mnemonic::Sto => spec_set(m, dest, v),
        Mnemonic::Add => spec_arith(m, dest, v, true),
        Mnemonic::Sub => spec_arith(m, dest, v, false),
        Mnemonic::Mov => spec_move(m, dest, v),
        Mnemonic::Prt => advance(emit(m, dest.add(sp()).add(v))),
        Mnemonic::Prl => advance(emit(m, dest.add(sp()).add(v).add(newline()))),
        _ => fail(m, Fault::NotACommand),
    }
}

/// The conditional jumps: compare two same-class registers, and when the
/// branch is taken the operand names a 1-based statement position.
pub open spec fn spec_cond_jump(
    m: MachineView,
    dest: Seq<u8>,
    v: Seq<u8>,
    n: Seq<u8>,
    on_eq: bool,
) -> MachineView {
    match (spec_reg_name(dest), spec_reg_name(v)) {
        (Some(r1), Some(r2)) => if is_unsigned(r1) && is_unsigned(r2) {
            match (reg_of(m, r1), reg_of(m, r2)) {
                (RKVal::U8(a), RKVal::U8(b)) => spec_branch(m, n, if on_eq {
                    a == b
                } else {
                    a != b
                }),
                _ => fail(m, Fault::NotARegister),
            }
        } else if is_signed(r1) && is_signed(r2) {
            match (reg_of(m, r1), reg_of(m, r2)) {
                (RKVal::I8(a), RKVal::I8(b)) => spec_branch(m, n, if on_eq {
                    a == b
                } else {
                    a != b
                }),
                _ => fail(m, Fault::NotARegister),
            }
        } else {
            fail(m, Fault::NotARegister)
        },
        _ => fail(m, Fault::NotARegister),
    }
}

pub open spec fn spec_branch(m: MachineView, n: Seq<u8>, take: bool) -> MachineView {
    if take {
        match parse_usize_spec(n) {
            Some(x) => if x >= 1 {
                MachineView { counter: x as int, ..m }
            } else {
                fail(m, Fault::NotANumber)
            },
            None => fail(m, Fault::NotANumber),
        }
    } else {
        advance(m)
    }
}

/// Four-token statements: `jump_eq`, `jump_neq`, `print`, `printl`.
pub open spec fn spec_four(
    m: MachineView,
    cmd: Seq<u8>,
    dest: Seq<u8>,
    v: Seq<u8>,
    n: Seq<u8>,
) -> MachineView {
    match spec_mnemonic(cmd) {
        Mnemonic::Ife => spec_cond_jump(m, dest, v, n, true),
        Mnemonic::Ifn => spec_cond_jump(m, dest, v, n, false),
        Mnemonic::Prt => advance(emit(m, dest.add(sp()).add(v).add(sp()).add(n))),
        Mnemonic::Prl => advance(emit(m, dest.add(sp()).add(v).add(sp()).add(n).add(newline()))),
        _ => fail(m, Fault::NotACommand),
    }
}

/// One fetch-decode-execute step. A counter outside `[1, thread_len]` ends
/// the run with the process register's value; a label declaration is skipped
/// as a no-op; otherwise the statement is dispatched by its token count.
pub open spec fn spec_step(m: MachineView) -> MachineView {
    if m.status != Status::Running {
        m
    } else if m.counter < 1 || m.counter > m.thread.len() {
        match m.proc {
            RKVal::I32(v) => MachineView { status: Status::Halted(v), ..m },
            _ => fail(m, Fault::NotANumber),
        }
    } else {
        let stmt = m.thread[m.counter - 1];
        if stmt.len() > 0 && contains_colon(stmt[0]) {
            advance(m)
        } else if stmt.len() == 1 {
            spec_one(m, stmt[0])
        } else if stmt.len() == 2 {
            spec_two(m, stmt[0], stmt[1])
        } else if stmt.len() == 3 {
            spec_three(m, stmt[0], stmt[1], stmt[2])
        } else if stmt.len() == 4 {
            spec_four(m, stmt[0], stmt[1], stmt[2], stmt[3])
        } else {
            fail(m, Fault::NotACommand)
        }
    }
}

/// The implicit `goto main:` that opens every run. On success the counter
/// lands on the label declaration itself, which the first step skips.
pub open spec fn spec_boot(m: MachineView) -> MachineView {
    match spec_lookup(m.functions, kw_main_label()) {
        Some(loc) => MachineView { past: m.counter, counter: loc, ..m },
        None => fail(m, Fault::LabelNotFound),
    }
}

/// `m` with its status replaced: how an engine that reports its status
/// separately is compared against the spec step.
pub open spec fn with_status(m: MachineView, s: Status) -> MachineView {
    MachineView { status: s, ..m }
}

/// `m` with a freshly loaded program and the initial counter state.
pub open spec fn loaded(m: MachineView, t: Seq<Seq<Seq<u8>>>, f: Seq<(Seq<u8>, int)>) -> MachineView {
    MachineView { thread: t, functions: f, counter: 1, past: 0, ..m }
}

pub open spec fn spec_steps(m: MachineView, n: nat) -> MachineView
    decreases n,
{
    if n == 0 {
        m
    } else {
        spec_steps(spec_step(m), (n - 1) as nat)
    }
}

/// A terminal state never moves again.
pub proof fn lemma_terminal_stays(m: MachineView, n: nat)
    requires
        m.status != Status::Running,
    ensures
        spec_steps(m, n) == m,
    decreases n,
{
    if n > 0 {
        lemma_terminal_stays(m, (n - 1) as nat);
    }
}

pub proof fn lemma_steps_add(m: MachineView, a: nat, b: nat)
    ensures
        spec_steps(m, a + b) == spec_steps(spec_steps(m, a), b),
    decreases a,
{
    if a > 0 {
        lemma_steps_add(spec_step(m), (a - 1) as nat, b);
    }
}

/// The semantics is deterministic and a terminal state absorbs: whenever two
/// step counts both land on a state that is no longer running, they land on
/// the same state. A run's outcome — exit code or fault, registers, output —
/// is therefore unique.
pub proof fn lemma_terminal_unique(m: MachineView, a: nat, b: nat)
    requires
        spec_steps(m, a).status != Status::Running,
        spec_steps(m, b).status != Status::Running,
    ensures
        spec_steps(m, a) == spec_steps(m, b),
{
    if a <= b {
        lemma_steps_add(m, a, (b - a) as nat);
        lemma_terminal_stays(spec_steps(m, a), (b - a) as nat);
    } else {
        lemma_steps_add(m, b, (a - b) as nat);
        lemma_terminal_stays(spec_steps(m, b), (a - b) as nat);
    }
}

} // verus!
