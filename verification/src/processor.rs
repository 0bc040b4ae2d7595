//! The execution engine: the bank of nine typed registers and the
//! fetch-decode-execute loop. Every step the engine takes is proved equal to
//! `machine::spec_step` on the engine's abstract view, and a whole run is a
//! chain of such steps from the booted state.

use vstd::prelude::*;
use crate::machine::{
    advance, bunny_banner, emit, is_signed, is_unsigned, kw_main_label, lemma_steps_add, loaded,
    lookup_from, newline, reg_of, set_reg, spec_arith, spec_boot, spec_branch, spec_cond_jump,
    spec_del, spec_four, spec_goto, spec_jump, spec_lookup, spec_mnemonic, spec_move, spec_one,
    spec_reg_name, spec_set, spec_step, spec_steps, spec_three, spec_two, spec_view, sp,
    with_status, wrap_i8, wrap_u8, Fault, MachineView, Mnemonic, RName, Status,
};
use crate::num::{
    i64_to_dec, parse_i32_spec, parse_i32_tok, parse_i8_spec, parse_i8_tok, parse_u8_spec,
    parse_u8_tok, parse_usize_tok, u64_to_dec,
};
use crate::read::{copy_bytes, funcs_view, has_colon, thread_view, Program};

verus! {

/// A register's fixed kind: which value tag a typed write accepts.
#[derive(Clone, Copy, Debug, PartialEq, Eq, Structural)]
pub enum RegisterKind {
    U8,
    I8,
    Process,
}

/// A register's stored value. `Null` stands for "uninitialized" and is valid
/// for any kind; the other tags are checked on typed writes only, so a raw
/// `move` can leave a mistagged value behind.
#[derive(Clone, Copy, Debug, PartialEq, Eq, Structural)]
pub enum RKVal {
    U8(u8),
    I8(i8),
    I32(i32),
    Null,
}

impl RKVal {
    /// The unsigned payload; any other tag is not an unsigned register's
    /// content.
    pub fn numu8(&self) -> (r: Result<u8, Fault>)
        ensures
            match *self {
                RKVal::U8(n) => r == Ok::<u8, Fault>(n),
                _ => r == Err::<u8, Fault>(Fault::NotARegister),
            },
    {
        match *self {
            RKVal::U8(n) => Ok(n),
            _ => Err(Fault::NotARegister),
        }
    }

    /// The signed payload; any other tag is not a signed register's content.
    pub fn numi8(&self) -> (r: Result<i8, Fault>)
        ensures
            match *self {
                RKVal::I8(n) => r == Ok::<i8, Fault>(n),
                _ => r == Err::<i8, Fault>(Fault::NotARegister),
            },
    {
        match *self {
            RKVal::I8(n) => Ok(n),
            _ => Err(Fault::NotARegister),
        }
    }
}

/// One typed storage cell.
#[derive(Clone, Copy, Debug)]
pub struct Register {
    pub kind: RegisterKind,
    pub value: RKVal,
}

impl Register {
    pub fn new_unsigned() -> (r: Register)
        ensures
            r.kind == RegisterKind::U8,
            r.value == RKVal::Null,
    {
        Register { kind: RegisterKind::U8, value: RKVal::Null }
    }

    pub fn new_signed() -> (r: Register)
        ensures
            r.kind == RegisterKind::I8,
            r.value == RKVal::Null,
    {
        Register { kind: RegisterKind::I8, value: RKVal::Null }
    }

    pub fn new_process() -> (r: Register)
        ensures
            r.kind == RegisterKind::Process,
            r.value == RKVal::Null,
    {
        Register { kind: RegisterKind::Process, value: RKVal::Null }
    }

    /// The exit code this register holds; not a number unless it was set to
    /// a signed 32-bit value.
    pub fn process_val(&self) -> (r: Result<i32, Fault>)
        ensures
            match self.value {
                RKVal::I32(v) => r == Ok::<i32, Fault>(v),
                _ => r == Err::<i32, Fault>(Fault::NotANumber),
            },
    {
        match self.value {
            RKVal::I32(v) => Ok(v),
            _ => Err(Fault::NotANumber),
        }
    }

    /// The unsigned value this register holds, checked against its tag.
    pub fn valu8(&self) -> (r: Result<u8, Fault>)
        ensures
            match self.value {
                RKVal::U8(v) => r == Ok::<u8, Fault>(v),
                _ => r == Err::<u8, Fault>(Fault::NotANumber),
            },
    {
        match self.value {
            RKVal::U8(v) => Ok(v),
            _ => Err(Fault::NotANumber),
        }
    }

    /// The signed value this register holds, checked against its tag.
    pub fn vali8(&self) -> (r: Result<i8, Fault>)
        ensures
            match self.value {
                RKVal::I8(v) => r == Ok::<i8, Fault>(v),
                _ => r == Err::<i8, Fault>(Fault::NotANumber),
            },
    {
        match self.value {
            RKVal::I8(v) => Ok(v),
            _ => Err(Fault::NotANumber),
        }
    }

    /// Writes a raw unsigned value through the typed path.
    pub fn set_u8(&mut self, v: u8) -> (r: Result<(), Fault>)
        ensures
            match old(self).kind {
                RegisterKind::U8 => r == Ok::<(), Fault>(()) && *final(self) == (Register {
                    kind: old(self).kind,
                    value: RKVal::U8(v),
                }),
                _ => r == Err::<(), Fault>(Fault::NotARegister) && *final(self) == *old(self),
            },
    {
        match self.kind {
            RegisterKind::U8 => {
                self.value = RKVal::U8(v);
                Ok(())
            },
            _ => Err(Fault::NotARegister),
        }
    }

    /// Writes a raw signed value through the typed path.
    pub fn set_i8(&mut self, v: i8) -> (r: Result<(), Fault>)
        ensures
            match old(self).kind {
                RegisterKind::I8 => r == Ok::<(), Fault>(()) && *final(self) == (Register {
                    kind: old(self).kind,
                    value: RKVal::I8(v),
                }),
                _ => r == Err::<(), Fault>(Fault::NotARegister) && *final(self) == *old(self),
            },
    {
        match self.kind {
            RegisterKind::I8 => {
                self.value = RKVal::I8(v);
                Ok(())
            },
            _ => Err(Fault::NotARegister),
        }
    }

    /// Parses a signed 32-bit literal into the process register. A literal
    /// that does not parse is not a number; a parsed literal aimed at a
    /// register of another kind is not this register.
    pub fn set_process(&mut self, v: &Vec<u8>) -> (r: Result<(), Fault>)
        ensures
            match parse_i32_spec(v@) {
                None => r == Err::<(), Fault>(Fault::NotANumber) && *final(self) == *old(self),
                Some(x) => match old(self).kind {
                    RegisterKind::Process => r == Ok::<(), Fault>(()) && *final(self) == (Register {
                        kind: old(self).kind,
                        value: RKVal::I32(x),
                    }),
                    _ => r == Err::<(), Fault>(Fault::NotARegister) && *final(self) == *old(self),
                },
            },
    {
        match parse_i32_tok(v) {
            Some(x) => match self.kind {
                RegisterKind::Process => {
                    self.value = RKVal::I32(x);
                    Ok(())
                },
                _ => Err(Fault::NotARegister),
            },
            None => Err(Fault::NotANumber),
        }
    }

    /// Parses an unsigned 8-bit literal into an unsigned register.
    pub fn set_u8_str(&mut self, v: &Vec<u8>) -> (r: Result<(), Fault>)
        ensures
            match parse_u8_spec(v@) {
                None => r == Err::<(), Fault>(Fault::NotANumber) && *final(self) == *old(self),
                Some(x) => match old(self).kind {
                    RegisterKind::U8 => r == Ok::<(), Fault>(()) && *final(self) == (Register {
                        kind: old(self).kind,
                        value: RKVal::U8(x),
                    }),
                    _ => r == Err::<(), Fault>(Fault::NotARegister) && *final(self) == *old(self),
                },
            },
    {
        match parse_u8_tok(v) {
            Some(x) => match self.kind {
                RegisterKind::U8 => {
                    self.value = RKVal::U8(x);
                    Ok(())
                },
                _ => Err(Fault::NotARegister),
            },
            None => Err(Fault::NotANumber),
        }
    }

    /// Parses a signed 8-bit literal into a signed register.
    pub fn set_i8_str(&mut self, v: &Vec<u8>) -> (r: Result<(), Fault>)
        ensures
            match parse_i8_spec(v@) {
                None => r == Err::<(), Fault>(Fault::NotANumber) && *final(self) == *old(self),
                Some(x) => match old(self).kind {
                    RegisterKind::I8 => r == Ok::<(), Fault>(()) && *final(self) == (Register {
                        kind: old(self).kind,
                        value: RKVal::I8(x),
                    }),
                    _ => r == Err::<(), Fault>(Fault::NotARegister) && *final(self) == *old(self),
                },
            },
    {
        match parse_i8_tok(v) {
            Some(x) => match self.kind {
                RegisterKind::I8 => {
                    self.value = RKVal::I8(x);
                    Ok(())
                },
                _ => Err(Fault::NotARegister),
            },
            None => Err(Fault::NotANumber),
        }
    }
}

/// The exit code of each fatal condition. A label lookup failure shares the
/// unknown-command code; the other three conditions have codes of their own.
pub fn fault_code(f: Fault) -> (r: i32)
    ensures
        r == spec_fault_code(f),
{
    match f {
        Fault::NotACommand => -5,
        Fault::NotANumber => -6,
        Fault::NotARegister => -7,
        Fault::LabelNotFound => -5,
    }
}

pub open spec fn spec_fault_code(f: Fault) -> i32 {
    match f {
        Fault::NotACommand => -5i32,
        Fault::NotANumber => -6i32,
        Fault::NotARegister => -7i32,
        Fault::LabelNotFound => -5i32,
    }
}

/// Decodes a statement's first token into its mnemonic.
pub fn decode_mnemonic(t: &Vec<u8>) -> (m: Mnemonic)
    ensures
        m == spec_mnemonic(t@),
{
    let n = t.len();
    if n == 3 {
        if t[0] == 115 && t[1] == 101 && t[2] == 116 {
            proof {
                assert(t@ =~= crate::machine::kw_set());
            }
            return Mnemonic::Sto;
        }
        if t[0] == 97 && t[1] == 100 && t[2] == 100 {
            proof {
                assert(t@ =~= crate::machine::kw_add());
            }
            return Mnemonic::Add;
        }
        if t[0] == 115 && t[1] == 117 && t[2] == 98 {
            proof {
                assert(t@ =~= crate::machine::kw_sub());
            }
            return Mnemonic::Sub;
        }
        if t[0] == 100 && t[1] == 101 && t[2] == 108 {
            proof {
                assert(t@ =~= crate::machine::kw_del());
            }
            return Mnemonic::Del;
        }
    }
    if n == 4 {
        if t[0] == 118 && t[1] == 105 && t[2] == 101 && t[3] == 119 {
            proof {
                assert(t@ =~= crate::machine::kw_view());
            }
            return Mnemonic::Vew;
        }
        if t[0] == 106 && t[1] == 117 && t[2] == 109 && t[3] == 112 {
            proof {
                assert(t@ =~= crate::machine::kw_jump());
            }
            return Mnemonic::Jmp;
        }
        if t[0] == 103 && t[1] == 111 && t[2] == 116 && t[3] == 111 {
            proof {
                assert(t@ =~= crate::machine::kw_goto());
            }
            return Mnemonic::Gto;
        }
        if t[0] == 101 && t[1] == 120 && t[2] == 105 && t[3] == 116 {
            proof {
                assert(t@ =~= crate::machine::kw_exit());
            }
            return Mnemonic::Ext;
        }
        if t[0] == 109 && t[1] == 111 && t[2] == 118 && t[3] == 101 {
            proof {
                assert(t@ =~= crate::machine::kw_move());
            }
            return Mnemonic::Mov;
        }
    }
    if n == 5 {
        if t[0] == 112 && t[1] == 114 && t[2] == 105 && t[3] == 110 && t[4] == 116 {
            proof {
                assert(t@ =~= crate::machine::kw_print());
            }
            return Mnemonic::Prt;
        }
        if t[0] == 98 && t[1] == 117 && t[2] == 110 && t[3] == 110 && t[4] == 121 {
            proof {
                assert(t@ =~= crate::machine::kw_bunny());
            }
            return Mnemonic::Bny;
        }
    }
    if n == 6 {
        if t[0] == 112 && t[1] == 114 && t[2] == 105 && t[3] == 110 && t[4] == 116 && t[5] == 108 {
            proof {
                assert(t@ =~= crate::machine::kw_printl());
            }
            return Mnemonic::Prl;
        }
        if t[0] == 114 && t[1] == 101 && t[2] == 116 && t[3] == 117 && t[4] == 114 && t[5] == 110 {
            proof {
                assert(t@ =~= crate::machine::kw_return());
            }
            return Mnemonic::Rtn;
        }
    }
    if n == 7 {
        if t[0] == 106 && t[1] == 117 && t[2] == 109 && t[3] == 112 && t[4] == 95 && t[5] == 101
            && t[6] == 113 {
            proof {
                assert(t@ =~= crate::machine::kw_jump_eq());
            }
            return Mnemonic::Ife;
        }
    }
    if n == 8 {
        if t[0] == 106 && t[1] == 117 && t[2] == 109 && t[3] == 112 && t[4] == 95 && t[5] == 110
            && t[6] == 101 && t[7] == 113 {
            proof {
                assert(t@ =~= crate::machine::kw_jump_neq());
            }
            return Mnemonic::Ifn;
        }
    }
    Mnemonic::Pnc
}

/// Decodes a token into a register name, if it names one of the nine.
pub fn decode_reg(t: &Vec<u8>) -> (r: Option<RName>)
    ensures
        r == spec_reg_name(t@),
{
    let n = t.len();
    if n == 4 {
        if t[0] == 112 && t[1] == 114 && t[2] == 111 && t[3] == 99 {
            proof {
                assert(t@ =~= crate::machine::name_proc());
            }
            return Some(RName::Proc);
        }
    }
    if n == 3 {
        if t[0] == 117 && t[1] == 105 {
            if t[2] == 97 {
                proof {
                    assert(t@ =~= crate::machine::name_uia());
                }
                return Some(RName::Uia);
            }
            if t[2] == 98 {
                proof {
                    assert(t@ =~= crate::machine::name_uib());
                }
                return Some(RName::Uib);
            }
            if t[2] == 99 {
                proof {
                    assert(t@ =~= crate::machine::name_uic());
                }
                return Some(RName::Uic);
            }
            if t[2] == 100 {
                proof {
                    assert(t@ =~= crate::machine::name_uid());
                }
                return Some(RName::Uid);
            }
        }
        if t[0] == 115 && t[1] == 105 {
            if t[2] == 97 {
                proof {
                    assert(t@ =~= crate::machine::name_sia());
                }
                return Some(RName::Sia);
            }
            if t[2] == 98 {
                proof {
                    assert(t@ =~= crate::machine::name_sib());
                }
                return Some(RName::Sib);
            }
            if t[2] == 99 {
                proof {
                    assert(t@ =~= crate::machine::name_sic());
                }
                return Some(RName::Sic);
            }
            if t[2] == 100 {
                proof {
                    assert(t@ =~= crate::machine::name_sid());
                }
                return Some(RName::Sid);
            }
        }
    }
    None
}

pub fn unsigned_name(r: RName) -> (b: bool)
    ensures
        b == is_unsigned(r),
{
    match r {
        RName::Uia | RName::Uib | RName::Uic | RName::Uid => true,
        _ => false,
    }
}

pub fn signed_name(r: RName) -> (b: bool)
    ensures
        b == is_signed(r),
{
    match r {
        RName::Sia | RName::Sib | RName::Sic | RName::Sid => true,
        _ => false,
    }
}

/// Byte-string equality.
pub fn bytes_eq(a: &Vec<u8>, b: &Vec<u8>) -> (r: bool)
    ensures
        r == (a@ == b@),
{
    if a.len() != b.len() {
        return false;
    }
    let mut i: usize = 0;
    while i < a.len()
        invariant
            a@.len() == b@.len(),
            0 <= i <= a@.len(),
            forall|j: int| 0 <= j < i ==> a@[j] == b@[j],
        decreases a@.len() - i,
    {
        if a[i] != b[i] {
            return false;
        }
        i = i + 1;
    }
    proof {
        assert(a@ =~= b@);
    }
    true
}

/// The banner bytes the `bunny` instruction prints.
fn banner_vec() -> (v: Vec<u8>)
    ensures
        v@ == bunny_banner(),
{
    let mut v: Vec<u8> = Vec::new();
    v.push(40);
    v.push(92);
    v.push(32);
    v.push(47);
    v.push(41);
    v.push(10);
    v.push(40);
    v.push(32);
    v.push(46);
    v.push(32);
    v.push(46);
    v.push(41);
    v.push(10);
    v.push(67);
    v.push(40);
    v.push(34);
    v.push(41);
    v.push(40);
    v.push(34);
    v.push(41);
    proof {
        assert(v@ =~= bunny_banner());
    }
    v
}

/// The token of the entry label every run starts from.
fn main_label_vec() -> (v: Vec<u8>)
    ensures
        v@ == kw_main_label(),
{
    let mut v: Vec<u8> = Vec::new();
    v.push(109);
    v.push(97);
    v.push(105);
    v.push(110);
    v.push(58);
    proof {
        assert(v@ =~= kw_main_label());
    }
    v
}

/// Resolves a `goto` operand against the label table: the first entry whose
/// name, or whose position written in decimal, equals the operand.
pub fn lookup_label(fns: &Vec<(Vec<u8>, usize)>, dest: &Vec<u8>) -> (r: Option<usize>)
    ensures
        match r {
            Some(loc) => spec_lookup(funcs_view(fns@), dest@) == Some(loc as int),
            None => spec_lookup(funcs_view(fns@), dest@) is None,
        },
{
    let ghost fv = funcs_view(fns@);
    let mut i: usize = 0;
    while i < fns.len()
        invariant
            0 <= i <= fns@.len(),
            fv == funcs_view(fns@),
            lookup_from(fv, dest@, 0) == lookup_from(fv, dest@, i as int),
        decreases fns@.len() - i,
    {
        proof {
            assert(fv[i as int] == (fns@[i as int].0@, fns@[i as int].1 as int));
        }
        let name_match = bytes_eq(dest, &fns[i].0);
        let num = u64_to_dec(fns[i].1 as u64);
        let num_match = bytes_eq(dest, &num);
        if name_match || num_match {
            return Some(fns[i].1);
        }
        i = i + 1;
    }
    None
}

/// Deep copy of the statement at position `i` of the statement list.
fn copy_stmt(t: &Vec<Vec<Vec<u8>>>, i: usize) -> (s: Vec<Vec<u8>>)
    requires
        i < t@.len(),
    ensures
        s@.map_values(|x: Vec<u8>| x@) == thread_view(t@)[i as int],
{
    let ghost target = t@[i as int]@.map_values(|tok: Vec<u8>| tok@);
    let row = &t[i];
    let mut s: Vec<Vec<u8>> = Vec::new();
    let mut j: usize = 0;
    while j < row.len()
        invariant
            0 <= j <= row@.len(),
            row@ == t@[i as int]@,
            target == t@[i as int]@.map_values(|tok: Vec<u8>| tok@),
            s@.map_values(|x: Vec<u8>| x@) == target.take(j as int),
        decreases row@.len() - j,
    {
        let ghost pre = s@.map_values(|x: Vec<u8>| x@);
        let tok = copy_bytes(&row[j]);
        let ghost tv = tok@;
        s.push(tok);
        proof {
            assert(s@.map_values(|x: Vec<u8>| x@) =~= pre.push(tv));
            assert(target[j as int] == t@[i as int]@[j as int]@);
            assert(target.take(j + 1) =~= target.take(j as int).push(target[j as int]));
        }
        j = j + 1;
    }
    proof {
        assert(target.take(target.len() as int) =~= target);
    }
    s
}

/// The machine: nine registers, the counter, the single return slot, the
/// loaded program and the output produced so far.
pub struct Processor {
    pub proc: Register,
    pub counter: u128,
    pub past: u128,
    pub thread: Program,
    pub output: Vec<u8>,
    pub uia: Register,
    pub sia: Register,
    pub uib: Register,
    pub sib: Register,
    pub uic: Register,
    pub sic: Register,
    pub uid: Register,
    pub sid: Register,
}

impl View for Processor {
    type V = MachineView;

    open spec fn view(&self) -> MachineView {
        MachineView {
            proc: self.proc.value,
            uia: self.uia.value,
            uib: self.uib.value,
            uic: self.uic.value,
            uid: self.uid.value,
            sia: self.sia.value,
            sib: self.sib.value,
            sic: self.sic.value,
            sid: self.sid.value,
            counter: self.counter as int,
            past: self.past as int,
            thread: thread_view(self.thread.thread@),
            functions: funcs_view(self.thread.functions@),
            output: self.output@,
            status: Status::Running,
        }
    }
}

impl Processor {
    /// Each register carries its proper kind, the program's recorded length
    /// is honest, and counter and return slot sit in the reachable range.
    pub open spec fn wf(self) -> bool {
        &&& self.proc.kind == RegisterKind::Process
        &&& self.uia.kind == RegisterKind::U8
        &&& self.uib.kind == RegisterKind::U8
        &&& self.uic.kind == RegisterKind::U8
        &&& self.uid.kind == RegisterKind::U8
        &&& self.sia.kind == RegisterKind::I8
        &&& self.sib.kind == RegisterKind::I8
        &&& self.sic.kind == RegisterKind::I8
        &&& self.sid.kind == RegisterKind::I8
        &&& self.thread.wf()
        &&& self.counter <= usize::MAX as u128 + 1
        &&& self.past <= usize::MAX as u128
    }

    /// A fresh machine: all registers `Null`, counter 1, empty return slot,
    /// the default program, no output yet.
    pub fn new() -> (p: Processor)
        ensures
            p.wf(),
            p.counter == 1,
            p.past == 0,
            p@.proc == RKVal::Null,
            p@.uia == RKVal::Null,
            p@.uib == RKVal::Null,
            p@.uic == RKVal::Null,
            p@.uid == RKVal::Null,
            p@.sia == RKVal::Null,
            p@.sib == RKVal::Null,
            p@.sic == RKVal::Null,
            p@.sid == RKVal::Null,
            p@.thread.len() == 0,
            p@.functions.len() == 0,
            p@.output.len() == 0,
    {
        Processor {
            proc: Register::new_process(),
            counter: 1,
            past: 0,
            thread: Program::new(),
            output: Vec::new(),
            uia: Register::new_unsigned(),
            sia: Register::new_signed(),
            uib: Register::new_unsigned(),
            sib: Register::new_signed(),
            uic: Register::new_unsigned(),
            sic: Register::new_signed(),
            uid: Register::new_unsigned(),
            sid: Register::new_signed(),
        }
    }

    fn get_reg(&self, r: RName) -> (v: RKVal)
        ensures
            v == reg_of(self@, r),
    {
        match r {
            RName::Proc => self.proc.value,
            RName::Uia => self.uia.value,
            RName::Uib => self.uib.value,
            RName::Uic => self.uic.value,
            RName::Uid => self.uid.value,
            RName::Sia => self.sia.value,
            RName::Sib => self.sib.value,
            RName::Sic => self.sic.value,
            RName::Sid => self.sid.value,
        }
    }

    fn put_reg(&mut self, r: RName, v: RKVal)
        requires
            old(self).wf(),
        ensures
            final(self).wf(),
            final(self)@ == set_reg(old(self)@, r, v),
            final(self).counter == old(self).counter,
            final(self).thread == old(self).thread,
    {
        match r {
            RName::Proc => self.proc.value = v,
            RName::Uia => self.uia.value = v,
            RName::Uib => self.uib.value = v,
            RName::Uic => self.uic.value = v,
            RName::Uid => self.uid.value = v,
            RName::Sia => self.sia.value = v,
            RName::Sib => self.sib.value = v,
            RName::Sic => self.sic.value = v,
            RName::Sid => self.sid.value = v,
        }
    }

    fn emit_bytes(&mut self, b: &Vec<u8>)
        requires
            old(self).wf(),
        ensures
            final(self).wf(),
            final(self)@ == emit(old(self)@, b@),
            final(self).counter == old(self).counter,
            final(self).thread == old(self).thread,
    {
        let mut i: usize = 0;
        proof {
            assert(old(self).output@.add(b@.take(0)) =~= old(self).output@);
        }
        while i < b.len()
            invariant
                0 <= i <= b@.len(),
                self.wf(),
                self.counter == old(self).counter,
                self.past == old(self).past,
                self.thread == old(self).thread,
                self.proc == old(self).proc,
                self.uia == old(self).uia,
                self.uib == old(self).uib,
                self.uic == old(self).uic,
                self.uid == old(self).uid,
                self.sia == old(self).sia,
                self.sib == old(self).sib,
                self.sic == old(self).sic,
                self.sid == old(self).sid,
                self.output@ == old(self).output@.add(b@.take(i as int)),
            decreases b@.len() - i,
        {
            self.output.push(b[i]);
            proof {
                assert(old(self).output@.add(b@.take(i + 1)) =~= old(self).output@.add(
                    b@.take(i as int),
                ).push(b@[i as int]));
            }
            i = i + 1;
        }
        proof {
            assert(b@.take(b@.len() as int) =~= b@);
        }
    }

    fn emit_nl(&mut self)
        requires
            old(self).wf(),
        ensures
            final(self).wf(),
            final(self)@ == emit(old(self)@, newline()),
            final(self).counter == old(self).counter,
            final(self).thread == old(self).thread,
    {
        self.output.push(10);
        proof {
            assert(old(self).output@.push(10u8) =~= old(self).output@.add(newline()));
        }
    }

    fn emit_sp(&mut self)
        requires
            old(self).wf(),
        ensures
            final(self).wf(),
            final(self)@ == emit(old(self)@, sp()),
            final(self).counter == old(self).counter,
            final(self).thread == old(self).thread,
    {
        self.output.push(32);
        proof {
            assert(old(self).output@.push(32u8) =~= old(self).output@.add(sp()));
        }
    }

    /// One-token statements: `return`, `exit`, `bunny`, `printl`.
    fn one(&mut self, cmd: &Vec<u8>) -> (r: Status)
        requires
            old(self).wf(),
            1 <= old(self).counter,
            old(self).counter <= old(self).thread.thread_len as u128,
        ensures
            final(self).wf(),
            spec_one(old(self)@, cmd@) == with_status(final(self)@, r),
    {
        match decode_mnemonic(cmd) {
            Mnemonic::Rtn => {
                self.counter = self.past + 1;
                Status::Running
            },
            Mnemonic::Ext => match self.proc.process_val() {
                Ok(v) => Status::Halted(v),
                Err(f) => Status::Failed(f),
            },
            Mnemonic::Bny => {
                let b = banner_vec();
                self.emit_bytes(&b);
                self.emit_nl();
                self.counter = self.counter + 1;
                proof {
                    assert(old(self)@.output.add(bunny_banner()).add(newline())
                        =~= old(self)@.output.add(bunny_banner().add(newline())));
                }
                Status::Running
            },
            Mnemonic::Prl => {
                self.emit_nl();
                self.counter = self.counter + 1;
                Status::Running
            },
            _ => Status::Failed(Fault::NotACommand),
        }
    }

    /// `view`: print the typed value of the named register.
    fn view_reg(&mut self, dest: &Vec<u8>) -> (r: Status)
        requires
            old(self).wf(),
            1 <= old(self).counter,
            old(self).counter <= old(self).thread.thread_len as u128,
        ensures
            final(self).wf(),
            spec_view(old(self)@, dest@) == with_status(final(self)@, r),
    {
        match decode_reg(dest) {
            None => Status::Failed(Fault::NotARegister),
            Some(rn) => {
                let val = self.get_reg(rn);
                match rn {
                    RName::Proc => match val {
                        RKVal::I32(v) => {
                            let d = i64_to_dec(v as i64);
                            self.emit_bytes(&d);
                            self.emit_nl();
                            self.counter = self.counter + 1;
                            proof {
                                assert(old(self)@.output.add(d@).add(newline())
                                    =~= old(self)@.output.add(d@.add(newline())));
                            }
                            Status::Running
                        },
                        _ => Status::Failed(Fault::NotANumber),
                    },
                    _ => if unsigned_name(rn) {
                        match val {
                            RKVal::U8(v) => {
                                let d = u64_to_dec(v as u64);
                                self.emit_bytes(&d);
                                self.emit_nl();
                                self.counter = self.counter + 1;
                                proof {
                                    assert(old(self)@.output.add(d@).add(newline())
                                        =~= old(self)@.output.add(d@.add(newline())));
                                }
                                Status::Running
                            },
                            _ => Status::Failed(Fault::NotANumber),
                        }
                    } else {
                        match val {
                            RKVal::I8(v) => {
                                let d = i64_to_dec(v as i64);
                                self.emit_bytes(&d);
                                self.emit_nl();
                                self.counter = self.counter + 1;
                                proof {
                                    assert(old(self)@.output.add(d@).add(newline())
                                        =~= old(self)@.output.add(d@.add(newline())));
                                }
                                Status::Running
                            },
                            _ => Status::Failed(Fault::NotANumber),
                        }
                    },
                }
            },
        }
    }

    /// `jump`: parse the operand as a statement index and go there.
    fn jump_str(&mut self, v: &Vec<u8>) -> (r: Status)
        requires
            old(self).wf(),
        ensures
            final(self).wf(),
            spec_jump(old(self)@, v@) == with_status(final(self)@, r),
    {
        match parse_usize_tok(v) {
            Some(x) => {
                self.counter = x as u128 + 1;
                Status::Running
            },
            None => Status::Failed(Fault::NotANumber),
        }
    }

    /// `goto`: resolve the label, remember where we came from, continue
    /// after the label.
    fn goto(&mut self, dest: &Vec<u8>) -> (r: Status)
        requires
            old(self).wf(),
            old(self).counter <= old(self).thread.thread_len as u128,
        ensures
            final(self).wf(),
            spec_goto(old(self)@, dest@) == with_status(final(self)@, r),
    {
        let found = lookup_label(&self.thread.functions, dest);
        match found {
            Some(loc) => {
                self.past = self.counter;
                self.counter = loc as u128 + 1;
                Status::Running
            },
            None => Status::Failed(Fault::LabelNotFound),
        }
    }

    /// `del`: reset the named register to `Null`.
    fn del(&mut self, dest: &Vec<u8>) -> (r: Status)
        requires
            old(self).wf(),
            old(self).counter <= old(self).thread.thread_len as u128,
        ensures
            final(self).wf(),
            spec_del(old(self)@, dest@) == with_status(final(self)@, r),
    {
        match decode_reg(dest) {
            Some(rn) => {
                self.put_reg(rn, RKVal::Null);
                self.counter = self.counter + 1;
                Status::Running
            },
            None => Status::Failed(Fault::NotARegister),
        }
    }

    /// Two-token statements: `view`, `jump`, `goto`, `print`, `printl`,
    /// `del`.
    fn two(&mut self, cmd: &Vec<u8>, dest: &Vec<u8>) -> (r: Status)
        requires
            old(self).wf(),
            1 <= old(self).counter,
            old(self).counter <= old(self).thread.thread_len as u128,
        ensures
            final(self).wf(),
            spec_two(old(self)@, cmd@, dest@) == with_status(final(self)@, r),
    {
        match decode_mnemonic(cmd) {
            Mnemonic::Vew => self.view_reg(dest),
            Mnemonic::Jmp => self.jump_str(dest),
            Mnemonic::Gto => self.goto(dest),
            Mnemonic::Prt => {
                self.emit_bytes(dest);
                self.counter = self.counter + 1;
                Status::Running
            },
            Mnemonic::Prl => {
                self.emit_bytes(dest);
                self.emit_nl();
                self.counter = self.counter + 1;
                proof {
                    assert(old(self)@.output.add(dest@).add(newline()) =~= old(self)@.output.add(
                        dest@.add(newline()),
                    ));
                }
                Status::Running
            },
            Mnemonic::Del => self.del(dest),
            _ => Status::Failed(Fault::NotACommand),
        }
    }

    /// `set` on an unsigned register.
    fn set_u8_lit(&mut self, rn: RName, v: &Vec<u8>) -> (r: Status)
        requires
            old(self).wf(),
            is_unsigned(rn),
            old(self).counter <= old(self).thread.thread_len as u128,
        ensures
            final(self).wf(),
            match parse_u8_spec(v@) {
                Some(x) => r == Status::Running && final(self)@ == advance(
                    set_reg(old(self)@, rn, RKVal::U8(x)),
                ),
                None => r == Status::Failed(Fault::NotANumber) && final(self)@ == old(self)@,
            },
    {
        let res = match rn {
            RName::Uia => self.uia.set_u8_str(v),
            RName::Uib => self.uib.set_u8_str(v),
            RName::Uic => self.uic.set_u8_str(v),
            RName::Uid => self.uid.set_u8_str(v),
            _ => Err(Fault::NotARegister),
        };
        match res {
            Ok(()) => {
                self.counter = self.counter + 1;
                Status::Running
            },
            Err(f) => Status::Failed(f),
        }
    }

    /// `set` on a signed register.
    fn set_i8_lit(&mut self, rn: RName, v: &Vec<u8>) -> (r: Status)
        requires
            old(self).wf(),
            is_signed(rn),
            old(self).counter <= old(self).thread.thread_len as u128,
        ensures
            final(self).wf(),
            match parse_i8_spec(v@) {
                Some(x) => r == Status::Running && final(self)@ == advance(
                    set_reg(old(self)@, rn, RKVal::I8(x)),
                ),
                None => r == Status::Failed(Fault::NotANumber) && final(self)@ == old(self)@,
            },
    {
        let res = match rn {
            RName::Sia => self.sia.set_i8_str(v),
            RName::Sib => self.sib.set_i8_str(v),
            RName::Sic => self.sic.set_i8_str(v),
            RName::Sid => self.sid.set_i8_str(v),
            _ => Err(Fault::NotARegister),
        };
        match res {
            Ok(()) => {
                self.counter = self.counter + 1;
                Status::Running
            },
            Err(f) => Status::Failed(f),
        }
    }

    /// `set`: parse the literal into the named register per its kind.
    fn set(&mut self, dest: &Vec<u8>, v: &Vec<u8>) -> (r: Status)
        requires
            old(self).wf(),
            1 <= old(self).counter,
            old(self).counter <= old(self).thread.thread_len as u128,
        ensures
            final(self).wf(),
            spec_set(old(self)@, dest@, v@) == with_status(final(self)@, r),
    {
        match decode_reg(dest) {
            None => Status::Failed(Fault::NotARegister),
            Some(RName::Proc) => match self.proc.set_process(v) {
                Ok(()) => {
                    self.counter = self.counter + 1;
                    Status::Running
                },
                Err(f) => Status::Failed(f),
            },
            Some(rn) => if unsigned_name(rn) {
                self.set_u8_lit(rn, v)
            } else {
                self.set_i8_lit(rn, v)
            },
        }
    }

    /// `move`: raw copy between registers, no kind check.
    fn mov(&mut self, dest: &Vec<u8>, v: &Vec<u8>) -> (r: Status)
        requires
            old(self).wf(),
            old(self).counter <= old(self).thread.thread_len as u128,
        ensures
            final(self).wf(),
            spec_move(old(self)@, dest@, v@) == with_status(final(self)@, r),
    {
        let d = decode_reg(dest);
        let s = decode_reg(v);
        match (d, s) {
            (Some(a), Some(b)) => {
                let buf = self.get_reg(a);
                self.put_reg(b, buf);
                self.counter = self.counter + 1;
                Status::Running
            },
            _ => Status::Failed(Fault::NotARegister),
        }
    }

    /// `add`/`sub`: read the first register, combine with the second, store
    /// the wrapped result back into the second operand's register.
    fn arith(&mut self, dest: &Vec<u8>, v: &Vec<u8>, is_add: bool) -> (r: Status)
        requires
            old(self).wf(),
            old(self).counter <= old(self).thread.thread_len as u128,
        ensures
            final(self).wf(),
            spec_arith(old(self)@, dest@, v@, is_add) == with_status(final(self)@, r),
    {
        let d = decode_reg(dest);
        let s = decode_reg(v);
        match (d, s) {
            (Some(r1), Some(r2)) => {
                if unsigned_name(r1) && unsigned_name(r2) {
                    let a = self.get_reg(r1);
                    let b = self.get_reg(r2);
                    match (a.numu8(), b.numu8()) {
                        (Ok(x), Ok(y)) => {
                            let z: u16 = if is_add {
                                y as u16 + x as u16
                            } else {
                                y as u16 + 256 - x as u16
                            };
                            let w: u8 = (z % 256) as u8;
                            proof {
                                if is_add {
                                    assert(w == wrap_u8(y as int + x as int));
                                } else {
                                    assert(w == wrap_u8(y as int - x as int));
                                }
                            }
                            self.put_reg(r2, RKVal::U8(w));
                            self.counter = self.counter + 1;
                            Status::Running
                        },
                        _ => Status::Failed(Fault::NotARegister),
                    }
                } else if signed_name(r1) && signed_name(r2) {
                    let a = self.get_reg(r1);
                    let b = self.get_reg(r2);
                    match (a.numi8(), b.numi8()) {
                        (Ok(x), Ok(y)) => {
                            let z: i16 = if is_add {
                                y as i16 + x as i16
                            } else {
                                y as i16 - x as i16
                            };
                            let w: i8 = if z > 127 {
                                (z - 256) as i8
                            } else if z < -128 {
                                (z + 256) as i8
                            } else {
                                z as i8
                            };
                            proof {
                                if is_add {
                                    assert(w == wrap_i8(y as int + x as int));
                                } else {
                                    assert(w == wrap_i8(y as int - x as int));
                                }
                            }
                            self.put_reg(r2, RKVal::I8(w));
                            self.counter = self.counter + 1;
                            Status::Running
                        },
                        _ => Status::Failed(Fault::NotARegister),
                    }
                } else {
                    Status::Failed(Fault::NotARegister)
                }
            },
            _ => Status::Failed(Fault::NotARegister),
        }
    }

    /// Three-token statements: `set`, `add`, `sub`, `move`, `print`,
    /// `printl`.
    fn three(&mut self, cmd: &Vec<u8>, dest: &Vec<u8>, v: &Vec<u8>) -> (r: Status)
        requires
            old(self).wf(),
            1 <= old(self).counter,
            old(self).counter <= old(self).thread.thread_len as u128,
        ensures
            final(self).wf(),
            spec_three(old(self)@, cmd@, dest@, v@) == with_status(final(self)@, r),
    {
        match decode_mnemonic(cmd) {
            Mnemonic::Sto => self.set(dest, v),
            Mnemonic::Add => self.arith(dest, v, true),
            Mnemonic::Sub => self.arith(dest, v, false),
            Mnemonic::Mov => self.mov(dest, v),
            Mnemonic::Prt => {
                self.emit_bytes(dest);
                self.emit_sp();
                self.emit_bytes(v);
                self.counter = self.counter + 1;
                proof {
                    assert(old(self)@.output.add(dest@).add(sp()).add(v@) =~= old(self)@.output.add(
                        dest@.add(sp()).add(v@),
                    ));
                }
                Status::Running
            },
            Mnemonic::Prl => {
                self.emit_bytes(dest);
                self.emit_sp();
                self.emit_bytes(v);
                self.emit_nl();
                self.counter = self.counter + 1;
                proof {
                    assert(old(self)@.output.add(dest@).add(sp()).add(v@).add(newline())
                        =~= old(self)@.output.add(dest@.add(sp()).add(v@).add(newline())));
                }
                Status::Running
            },
            _ => Status::Failed(Fault::NotACommand),
        }
    }

    /// The taken or fallen-through end of a conditional jump.
    fn branch(&mut self, n: &Vec<u8>, take: bool) -> (r: Status)
        requires
            old(self).wf(),
            old(self).counter <= old(self).thread.thread_len as u128,
        ensures
            final(self).wf(),
            spec_branch(old(self)@, n@, take) == with_status(final(self)@, r),
    {
        if take {
            match parse_usize_tok(n) {
                Some(x) => if x >= 1 {
                    self.counter = x as u128;
                    Status::Running
                } else {
                    Status::Failed(Fault::NotANumber)
                },
                None => Status::Failed(Fault::NotANumber),
            }
        } else {
            self.counter = self.counter + 1;
            Status::Running
        }
    }

    /// `jump_eq`/`jump_neq`: compare two same-class registers and branch.
    fn cond_jump(&mut self, dest: &Vec<u8>, v: &Vec<u8>, n: &Vec<u8>, on_eq: bool) -> (r: Status)
        requires
            old(self).wf(),
            old(self).counter <= old(self).thread.thread_len as u128,
        ensures
            final(self).wf(),
            spec_cond_jump(old(self)@, dest@, v@, n@, on_eq) == with_status(final(self)@, r),
    {
        let d = decode_reg(dest);
        let s = decode_reg(v);
        match (d, s) {
            (Some(r1), Some(r2)) => {
                if unsigned_name(r1) && unsigned_name(r2) {
                    let a = self.get_reg(r1);
                    let b = self.get_reg(r2);
                    match (a.numu8(), b.numu8()) {
                        (Ok(x), Ok(y)) => {
                            let take = if on_eq {
                                x == y
                            } else {
                                x != y
                            };
                            self.branch(n, take)
                        },
                        _ => Status::Failed(Fault::NotARegister),
                    }
                } else if signed_name(r1) && signed_name(r2) {
                    let a = self.get_reg(r1);
                    let b = self.get_reg(r2);
                    match (a.numi8(), b.numi8()) {
                        (Ok(x), Ok(y)) => {
                            let take = if on_eq {
                                x == y
                            } else {
                                x != y
                            };
                            self.branch(n, take)
                        },
                        _ => Status::Failed(Fault::NotARegister),
                    }
                } else {
                    Status::Failed(Fault::NotARegister)
                }
            },
            _ => Status::Failed(Fault::NotARegister),
        }
    }

    /// Four-token statements: `jump_eq`, `jump_neq`, `print`, `printl`.
    fn four(&mut self, cmd: &Vec<u8>, dest: &Vec<u8>, v: &Vec<u8>, n: &Vec<u8>) -> (r: Status)
        requires
            old(self).wf(),
            1 <= old(self).counter,
            old(self).counter <= old(self).thread.thread_len as u128,
        ensures
            final(self).wf(),
            spec_four(old(self)@, cmd@, dest@, v@, n@) == with_status(final(self)@, r),
    {
        match decode_mnemonic(cmd) {
            Mnemonic::Ife => self.cond_jump(dest, v, n, true),
            Mnemonic::Ifn => self.cond_jump(dest, v, n, false),
            Mnemonic::Prt => {
                self.emit_bytes(dest);
                self.emit_sp();
                self.emit_bytes(v);
                self.emit_sp();
                self.emit_bytes(n);
                self.counter = self.counter + 1;
                proof {
                    assert(old(self)@.output.add(dest@).add(sp()).add(v@).add(sp()).add(n@)
                        =~= old(self)@.output.add(dest@.add(sp()).add(v@).add(sp()).add(n@)));
                }
                Status::Running
            },
            Mnemonic::Prl => {
                self.emit_bytes(dest);
                self.emit_sp();
                self.emit_bytes(v);
                self.emit_sp();
                self.emit_bytes(n);
                self.emit_nl();
                self.counter = self.counter + 1;
                proof {
                    assert(old(self)@.output.add(dest@).add(sp()).add(v@).add(sp()).add(n@).add(
                        newline(),
                    ) =~= old(self)@.output.add(
                        dest@.add(sp()).add(v@).add(sp()).add(n@).add(newline()),
                    ));
                }
                Status::Running
            },
            _ => Status::Failed(Fault::NotACommand),
        }
    }

    /// One fetch-decode-execute step: the engine's move matches
    /// `spec_step` on its view.
    fn step_exec(&mut self) -> (r: Status)
        requires
            old(self).wf(),
            1 <= old(self).counter,
            old(self).counter <= old(self).thread.thread_len as u128,
        ensures
            final(self).wf(),
            spec_step(old(self)@) == with_status(final(self)@, r),
    {
        proof {
            assert(self.counter - 1 <= usize::MAX as u128);
        }
        let idx: usize = (self.counter - 1) as usize;
        proof {
            assert(idx as int == self.counter as int - 1);
            assert(idx < self.thread.thread@.len());
        }
        let stmt = copy_stmt(&self.thread.thread, idx);
        let ghost sv = thread_view(self.thread.thread@)[idx as int];
        proof {
            assert(stmt@.map_values(|x: Vec<u8>| x@) == sv);
            assert(sv == old(self)@.thread[old(self)@.counter - 1]);
        }
        let n_tok = stmt.len();
        proof {
            assert(n_tok == sv.len());
            if n_tok >= 1 {
                assert(stmt@[0]@ == sv[0]);
            }
            if n_tok >= 2 {
                assert(stmt@[1]@ == sv[1]);
            }
            if n_tok >= 3 {
                assert(stmt@[2]@ == sv[2]);
            }
            if n_tok >= 4 {
                assert(stmt@[3]@ == sv[3]);
            }
        }
        if n_tok >= 1 && has_colon(&stmt[0]) {
            self.counter = self.counter + 1;
            Status::Running
        } else if n_tok == 1 {
            self.one(&stmt[0])
        } else if n_tok == 2 {
            self.two(&stmt[0], &stmt[1])
        } else if n_tok == 3 {
            self.three(&stmt[0], &stmt[1], &stmt[2])
        } else if n_tok == 4 {
            self.four(&stmt[0], &stmt[1], &stmt[2], &stmt[3])
        } else {
            Status::Failed(Fault::NotACommand)
        }
    }

    /// Runs a program: install it, perform the implicit `goto main:`, then
    /// fetch, dispatch and advance until the run halts or fails. The result,
    /// together with the machine's final state, is a chain of `spec_step`
    /// moves from the booted state. A run that is still going after
    /// `u64::MAX` steps is reported as `Running`; any shorter run ends in a
    /// halt or a fault.
    pub fn run(&mut self, program: Program) -> (r: Status)
        requires
            old(self).wf(),
            program.wf(),
        ensures
            final(self).wf(),
            exists|n: nat|
                with_status(final(self)@, r) == spec_steps(
                    spec_boot(
                        loaded(
                            old(self)@,
                            thread_view(program.thread@),
                            funcs_view(program.functions@),
                        ),
                    ),
                    n,
                ),
            r == Status::Running ==> with_status(final(self)@, r) == spec_steps(
                spec_boot(
                    loaded(
                        old(self)@,
                        thread_view(program.thread@),
                        funcs_view(program.functions@),
                    ),
                ),
                u64::MAX as nat,
            ),
    {
        let ghost start = spec_boot(
            loaded(old(self)@, thread_view(program.thread@), funcs_view(program.functions@)),
        );
        self.thread = program;
        self.counter = 1;
        self.past = 0;
        let main_tok = main_label_vec();
        let found = lookup_label(&self.thread.functions, &main_tok);
        match found {
            None => {
                proof {
                    assert(with_status(self@, Status::Failed(Fault::LabelNotFound)) == spec_steps(
                        start,
                        0,
                    ));
                }
                return Status::Failed(Fault::LabelNotFound);
            },
            Some(loc) => {
                self.past = self.counter;
                self.counter = loc as u128;
            },
        }
        proof {
            assert(self@ == spec_steps(start, 0));
        }
        let ghost mut n: nat = 0;
        let mut fuel: u64 = u64::MAX;
        while fuel > 0 && 1 <= self.counter && self.counter <= self.thread.thread_len as u128
            invariant
                self.wf(),
                spec_steps(start, n) == self@,
                n + fuel == u64::MAX,
                start == spec_boot(
                    loaded(
                        old(self)@,
                        thread_view(program.thread@),
                        funcs_view(program.functions@),
                    ),
                ),
            decreases fuel,
        {
            fuel = fuel - 1;
            let r = self.step_exec();
            proof {
                lemma_steps_add(start, n, 1);
                assert(spec_steps(spec_step(spec_steps(start, n)), 0) == spec_step(
                    spec_steps(start, n),
                ));
                assert(spec_steps(spec_steps(start, n), 1) == spec_step(spec_steps(start, n)));
                n = n + 1;
            }
            match r {
                Status::Running => {
                    proof {
                        assert(with_status(self@, Status::Running) == self@);
                    }
                },
                _ => {
                    proof {
                        assert(with_status(self@, r) == spec_steps(start, n));
                        assert(exists|k: nat| with_status(self@, r) == spec_steps(start, k));
                    }
                    return r;
                },
            }
        }
        if 1 <= self.counter && self.counter <= self.thread.thread_len as u128 {
            proof {
                assert(n == u64::MAX as nat);
                assert(with_status(self@, Status::Running) == self@);
            }
            return Status::Running;
        }
        let pv = self.proc.process_val();
        proof {
            lemma_steps_add(start, n, 1);
            assert(spec_steps(spec_step(spec_steps(start, n)), 0) == spec_step(
                spec_steps(start, n),
            ));
            assert(spec_steps(spec_steps(start, n), 1) == spec_step(spec_steps(start, n)));
            n = n + 1;
        }
        match pv {
            Ok(v) => {
                proof {
                    assert(with_status(self@, Status::Halted(v)) == spec_steps(start, n));
                }
                Status::Halted(v)
            },
            Err(f) => {
                proof {
                    assert(with_status(self@, Status::Failed(f)) == spec_steps(start, n));
                }
                Status::Failed(f)
            },
        }
    }
}

} // verus!
