//! TRAP routines. Those that print or read characters are requests to the
//! caller: the machine computes what is to be printed, and takes the character
//! read through `trap_input`.

use vstd::prelude::*;
use crate::isa::{Register, is_condition_code};
use crate::laws::{
    lemma_char_input_keeps_invariant, lemma_flag_of_is_condition_code, lemma_trap_keeps_invariant,
};
use crate::svm::{Fault, Machine, Svm, cond_slot, pc_slot, read, set_cc};

verus! {

/// The trap routines, selected by the low byte of a TRAP instruction
/// (0x20 to 0x25, in this order).
#[derive(Debug, Clone, Copy, PartialEq, Eq, Structural)]
pub enum TrapCode {
    /// Read a character from the keyboard into R0, without echo.
    GETC,
    /// Write the character in the low byte of R0.
    OUT,
    /// Write the string of one character per word that starts at the address in R0.
    PUTS,
    /// Prompt for a character, read it into R0 and echo it.
    IN,
    /// Write the string of two characters per word that starts at the address in R0.
    PUTSP,
    /// Halt the machine.
    HALT,
}

impl TrapCode {
    /// The trap vector of the routine.
    pub open spec fn spec_code(self) -> u8 {
        match self {
            TrapCode::GETC => 0x20,
            TrapCode::OUT => 0x21,
            TrapCode::PUTS => 0x22,
            TrapCode::IN => 0x23,
            TrapCode::PUTSP => 0x24,
            TrapCode::HALT => 0x25,
        }
    }

    /// The routine of trap vector `code`, if there is one.
    pub open spec fn from_code(code: u8) -> Option<TrapCode> {
        if code == 0x20 {
            Some(TrapCode::GETC)
        } else if code == 0x21 {
            Some(TrapCode::OUT)
        } else if code == 0x22 {
            Some(TrapCode::PUTS)
        } else if code == 0x23 {
            Some(TrapCode::IN)
        } else if code == 0x24 {
            Some(TrapCode::PUTSP)
        } else if code == 0x25 {
            Some(TrapCode::HALT)
        } else {
            None
        }
    }

    /// Whether the routine reads a character into R0.
    pub open spec fn spec_reads_char(self) -> bool {
        self == TrapCode::GETC || self == TrapCode::IN
    }

    /// The routine of trap vector `code`; there is none outside 0x20 to 0x25.
    pub fn new(code: u8) -> (r: Self)
        requires
            0x20 <= code <= 0x25,
        ensures
            TrapCode::from_code(code) == Some(r),
            r.spec_code() == code,
    {
        match code {
            0x20 => TrapCode::GETC,
            0x21 => TrapCode::OUT,
            0x22 => TrapCode::PUTS,
            0x23 => TrapCode::IN,
            0x24 => TrapCode::PUTSP,
            _ => TrapCode::HALT,
        }
    }

    pub fn code(&self) -> (r: u8)
        ensures
            r == self.spec_code(),
    {
        match self {
            TrapCode::GETC => 0x20,
            TrapCode::OUT => 0x21,
            TrapCode::PUTS => 0x22,
            TrapCode::IN => 0x23,
            TrapCode::PUTSP => 0x24,
            TrapCode::HALT => 0x25,
        }
    }

    /// Whether the caller is to read a character and hand it to `trap_input`.
    pub fn reads_char(&self) -> (r: bool)
        ensures
            r == self.spec_reads_char(),
    {
        match self {
            TrapCode::GETC => true,
            TrapCode::IN => true,
            _ => false,
        }
    }
}

/// The trap vectors and the routines correspond one to one.
pub proof fn lemma_trap_code_roundtrip(t: TrapCode, code: u8)
    ensures
        TrapCode::from_code(t.spec_code()) == Some(t),
        TrapCode::from_code(code) matches Some(u) ==> u.spec_code() == code,
        TrapCode::from_code(code) is Some <==> 0x20 <= code <= 0x25,
{
}

/// The prompt of IN: "Enter a character: ".
pub open spec fn prompt() -> Seq<u8> {
    seq![69u8, 110, 116, 101, 114, 32, 97, 32, 99, 104, 97, 114, 97, 99, 116, 101, 114, 58, 32]
}

/// What HALT prints: "BYE".
pub open spec fn farewell() -> Seq<u8> {
    seq![66u8, 89, 69]
}

/// The characters of one word of a string: its low byte, and with two
/// characters per word also its high byte where that is not zero.
pub open spec fn chars_of(w: u16, packed: bool) -> Seq<u8> {
    let lo = seq![(w & 0xff) as u8];
    if packed && (w >> 8u16) != 0 {
        lo.push((w >> 8u16) as u8)
    } else {
        lo
    }
}

/// Writing the string that starts at `addr`: the characters of each word up to
/// the first zero word, the machine after those reads, and whether the string
/// runs past the last address (where the address would overflow).
pub open spec fn string_out(m: Machine, addr: int, packed: bool) -> (Seq<u8>, Machine, bool)
    decreases 0x10000 - addr,
{
    if addr < 0 || addr >= 0x10000 {
        (seq![], m, true)
    } else {
        let m1 = read(m, addr);
        let w = m1.mem[addr];
        if w == 0 {
            (seq![], m1, false)
        } else if addr == 0xFFFF {
            (chars_of(w, packed), m1, true)
        } else {
            let rest = string_out(m1, addr + 1, packed);
            (chars_of(w, packed) + rest.0, rest.1, rest.2)
        }
    }
}

/// The effect of the TRAP instruction `instr`: R7 gets PC, then the routine
/// runs; the result is the routine and what it prints, or the fault.
pub open spec fn trap_result(m: Machine, instr: u16) -> (Machine, Result<(TrapCode, Seq<u8>), Fault>) {
    let m1 = Machine { reg: m.reg.update(7, m.reg[pc_slot()]), ..m };
    let code = (instr & 0xff) as u8;
    match TrapCode::from_code(code) {
        None => (m1, Err(Fault::UnknownTrap(code))),
        Some(t) => match t {
            TrapCode::OUT => (m1, Ok((t, seq![(m.reg[0] & 0xff) as u8]))),
            TrapCode::PUTS => {
                let s = string_out(m1, m.reg[0] as int, false);
                (s.1, if s.2 { Err(Fault::StringOverrun) } else { Ok((t, s.0)) })
            },
            TrapCode::PUTSP => {
                let s = string_out(m1, m.reg[0] as int, true);
                (s.1, if s.2 { Err(Fault::StringOverrun) } else { Ok((t, s.0)) })
            },
            TrapCode::IN => (m1, Ok((t, prompt()))),
            TrapCode::HALT => (m1, Ok((t, farewell()))),
            TrapCode::GETC => (m1, Ok((t, seq![]))),
        },
    }
}

/// A trap routine to be completed by the caller: print `output`, and where the
/// routine reads a character, read one and hand it to `trap_input`.
#[derive(Debug)]
pub struct TrapRequest {
    pub code: TrapCode,
    pub output: Vec<u8>,
}

fn prompt_bytes() -> (r: Vec<u8>)
    ensures
        r@ == prompt(),
{
    let r: Vec<u8> = vec![69u8, 110, 116, 101, 114, 32, 97, 32, 99, 104, 97, 114, 97, 99, 116, 101, 114, 58, 32];
    assert(r@ =~= prompt());
    r
}

fn farewell_bytes() -> (r: Vec<u8>)
    ensures
        r@ == farewell(),
{
    let r: Vec<u8> = vec![66u8, 89, 69];
    assert(r@ =~= farewell());
    r
}

/// Reads the string that starts at the address in R0 and returns its characters,
/// and whether it ran past the last address.
fn write_string(svm: &mut Svm, key: &mut Option<u8>, packed: bool) -> (r: (Vec<u8>, bool))
    requires
        old(svm).wf(),
    ensures
        final(svm).wf(),
        r.0@ == string_out(old(svm).machine(*old(key)), old(svm).reg@[0] as int, packed).0,
        final(svm).machine(*final(key)) == string_out(old(svm).machine(*old(key)), old(svm).reg@[0] as int, packed).1,
        r.1 == string_out(old(svm).machine(*old(key)), old(svm).reg@[0] as int, packed).2,
        final(svm).current_instr == old(svm).current_instr,
{
    let ghost m0 = svm.machine(*key);
    let ghost a0 = svm.reg@[0] as int;
    let mut out: Vec<u8> = Vec::new();
    let mut addr: u16 = svm.reg[Register::R_R0.as_usize()];
    loop
        invariant
            svm.wf(),
            svm.current_instr == old(svm).current_instr,
            m0 == old(svm).machine(*old(key)),
            a0 == old(svm).reg@[0],
            string_out(m0, a0, packed).0 == out@ + string_out(svm.machine(*key), addr as int, packed).0,
            string_out(m0, a0, packed).1 == string_out(svm.machine(*key), addr as int, packed).1,
            string_out(m0, a0, packed).2 == string_out(svm.machine(*key), addr as int, packed).2,
        decreases 0x10000 - addr,
    {
        let ghost before = svm.machine(*key);
        let word = svm.mem_read(addr as usize, key);
        if word == 0 {
            assert(out@ + Seq::<u8>::empty() =~= out@);
            return (out, false);
        }
        let ghost out_before = out@;
        out.push((word & 0xff) as u8);
        if packed && (word >> 8u16) != 0 {
            out.push((word >> 8u16) as u8);
        }
        assert(out@ =~= out_before + chars_of(word, packed));
        if addr == 0xFFFF {
            assert(string_out(before, addr as int, packed).0 == chars_of(word, packed));
            return (out, true);
        }
        assert(string_out(before, addr as int, packed).0 == chars_of(word, packed) + string_out(
            svm.machine(*key),
            addr + 1,
            packed,
        ).0);
        assert(out_before + (chars_of(word, packed) + string_out(svm.machine(*key), addr + 1, packed).0)
            =~= out@ + string_out(svm.machine(*key), addr + 1, packed).0);
        addr = addr + 1;
    }
}

/// Runs the TRAP instruction last fetched: R7 gets PC, then the routine of the
/// instruction's low byte runs as far as the machine can take it.
pub fn trap(svm: &mut Svm, key: &mut Option<u8>) -> (r: Result<TrapRequest, Fault>)
    requires
        old(svm).wf(),
        old(svm).current_instr.is_some(),
    ensures
        final(svm).wf(),
        old(svm).inv() ==> final(svm).inv(),
        final(svm).current_instr == old(svm).current_instr,
        final(svm).machine(*final(key)) == trap_result(old(svm).machine(*old(key)), old(svm).instr()).0,
        match r {
            Ok(req) => trap_result(old(svm).machine(*old(key)), old(svm).instr()).1 == Ok::<(TrapCode, Seq<u8>), Fault>((req.code, req.output@)),
            Err(f) => trap_result(old(svm).machine(*old(key)), old(svm).instr()).1 == Err::<(TrapCode, Seq<u8>), Fault>(f),
        },
{
    let instr = svm.current_instr();
    proof {
        if svm.inv() {
            lemma_trap_keeps_invariant(svm.machine(*key), instr);
        }
    }
    let pc = svm.reg[Register::R_PC.as_usize()];
    svm.reg[Register::R_R7.as_usize()] = pc;
    let code = (instr & 0xff) as u8;
    if code < 0x20 || code > 0x25 {
        return Err(Fault::UnknownTrap(code));
    }
    let trap_code = TrapCode::new(code);
    let output = match trap_code {
        TrapCode::GETC => Vec::new(),
        TrapCode::OUT => {
            let c = (svm.reg[Register::R_R0.as_usize()] & 0xff) as u8;
            let mut v: Vec<u8> = Vec::new();
            v.push(c);
            assert(v@ =~= seq![c]);
            v
        },
        TrapCode::PUTS => {
            let (v, overrun) = write_string(svm, key, false);
            if overrun {
                return Err(Fault::StringOverrun);
            }
            v
        },
        TrapCode::IN => prompt_bytes(),
        TrapCode::PUTSP => {
            let (v, overrun) = write_string(svm, key, true);
            if overrun {
                return Err(Fault::StringOverrun);
            }
            v
        },
        TrapCode::HALT => farewell_bytes(),
    };
    Ok(TrapRequest { code: trap_code, output })
}

/// Completes GETC and IN with the character `byte` read by the caller: R0 gets
/// it and the condition code is set from it. Returns what is to be echoed:
/// the character for IN, nothing for GETC.
pub fn trap_input(svm: &mut Svm, code: &TrapCode, byte: u8) -> (echo: Vec<u8>)
    requires
        old(svm).wf(),
    ensures
        final(svm).wf(),
        final(svm).reg@ == set_cc(old(svm).reg@, 0, byte as u16),
        old(svm).inv() ==> final(svm).inv(),
        is_condition_code(final(svm).reg@[cond_slot()]),
        final(svm).mem@ == old(svm).mem@,
        final(svm).current_instr == old(svm).current_instr,
        echo@ == (if *code == TrapCode::IN { seq![byte] } else { Seq::<u8>::empty() }),
{
    proof {
        if svm.inv() {
            lemma_char_input_keeps_invariant(svm.machine(None), byte);
        }
    }
    svm.reg[Register::R_R0.as_usize()] = byte as u16;
    svm.update_flags(Register::R_R0);
    proof {
        lemma_flag_of_is_condition_code(byte as u16);
    }
    let mut echo: Vec<u8> = Vec::new();
    match code {
        TrapCode::IN => {
            echo.push(byte);
            assert(echo@ =~= seq![byte]);
        },
        _ => {
            assert(echo@ =~= Seq::<u8>::empty());
        },
    }
    echo
}

} // verus!
