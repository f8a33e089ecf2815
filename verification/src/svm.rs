//! The machine: registers, memory with its memory-mapped keyboard, and the
//! execution of every instruction class but TRAP, against a model of the ISA.
//!
//! The keyboard is an outside device: whether a key is waiting is handed to
//! the machine as an `Option<u8>` (the waiting byte). A read of the keyboard
//! status register consumes it.

use vstd::prelude::*;
use crate::isa::{
    ConditionFlag, MEMORY_MAX, OpCode, Register, flag_of, is_condition_code, swap16, sign_extend,
};
use crate::instructions::{
    AddAndInstruction, AddressingMode, BrInstr, JmpInstr, JsrInstruction, LdInstruction,
    LdiInstruction, LdrInstruction, LeaInstruction, NotInstruction, StInstruction,
    StiInstruction, StrInstruction, add_and_decodable, bit_11, bit_5, bits_11_9, bits_4_0,
    bits_8_6, imm5, offset6, pc_offset11, pc_offset9,
};
use crate::trap::{TrapRequest, trap, trap_result};
use crate::laws::{
    lemma_fetch_keeps_invariant, lemma_instructions_keep_invariant, lemma_trap_keeps_invariant,
};

verus! {

/// Keyboard status register: bit 15 set when a key has been read into KBDR.
pub const MR_KBSR: usize = 0xFE00;

/// Keyboard data register: the last key read.
pub const MR_KBDR: usize = 0xFE02;

/// Where the program counter starts.
pub const PC_START: u16 = 0x3000;

/// Number of slots of the register file.
pub const REGISTER_SLOTS: usize = 12;

/// Index of the program counter in the register file.
pub open spec fn pc_slot() -> int {
    Register::R_PC.id() as int
}

/// Index of the condition register in the register file.
pub open spec fn cond_slot() -> int {
    Register::R_COND.id() as int
}

/// The state that the ISA speaks of: registers, memory, and the key that the
/// keyboard holds for the next read of KBSR.
#[verifier::ext_equal]
pub struct Machine {
    pub reg: Seq<u16>,
    pub mem: Seq<u16>,
    pub key: Option<u8>,
}

/// Addition modulo 2^16.
pub open spec fn add16(a: u16, b: u16) -> u16 {
    ((a as int + b as int) % 0x10000) as u16
}

/// `reg` with `v` written to register `r` and the condition code set from `v`.
pub open spec fn set_cc(reg: Seq<u16>, r: int, v: u16) -> Seq<u16> {
    reg.update(r, v).update(cond_slot(), flag_of(v))
}

/// The machine after it reads address `addr`: reading KBSR first records the
/// keyboard in KBSR (bit 15 when a key is waiting) and KBDR (the key), and
/// consumes the key.
pub open spec fn read(m: Machine, addr: int) -> Machine {
    if addr == MR_KBSR {
        match m.key {
            Some(b) => Machine {
                mem: m.mem.update(MR_KBSR as int, 0x8000).update(MR_KBDR as int, b as u16),
                key: None,
                ..m
            },
            None => Machine { mem: m.mem.update(MR_KBSR as int, 0), key: None, ..m },
        }
    } else {
        m
    }
}

/// Fetch: read the word at PC and advance PC by one.
pub open spec fn fetch(m: Machine) -> Machine {
    let pc = m.reg[pc_slot()];
    let m1 = read(m, pc as int);
    Machine { reg: m1.reg.update(pc_slot(), (pc + 1) as u16), ..m1 }
}

/// The second operand of an ADD or AND.
pub open spec fn operand2(reg: Seq<u16>, i: u16) -> u16 {
    if bit_5(i) == 0 {
        reg[bits_4_0(i) as int]
    } else {
        imm5(i)
    }
}

/// ADD: DR gets SR1 plus the second operand, modulo 2^16; sets the condition code.
pub open spec fn exec_add(m: Machine, i: u16) -> Machine {
    let v = add16(m.reg[bits_8_6(i) as int], operand2(m.reg, i));
    Machine { reg: set_cc(m.reg, bits_11_9(i) as int, v), ..m }
}

/// AND: DR gets SR1 and the second operand, bit by bit; sets the condition code.
pub open spec fn exec_and(m: Machine, i: u16) -> Machine {
    let v = m.reg[bits_8_6(i) as int] & operand2(m.reg, i);
    Machine { reg: set_cc(m.reg, bits_11_9(i) as int, v), ..m }
}

/// NOT: DR gets the complement of SR; sets the condition code.
pub open spec fn exec_not(m: Machine, i: u16) -> Machine {
    let v = !m.reg[bits_8_6(i) as int];
    Machine { reg: set_cc(m.reg, bits_11_9(i) as int, v), ..m }
}

/// BR: branch when one of the tested condition codes `nzp` is the current one.
pub open spec fn exec_br(m: Machine, i: u16) -> Machine {
    if bits_11_9(i) & m.reg[cond_slot()] != 0 {
        Machine {
            reg: m.reg.update(pc_slot(), add16(m.reg[pc_slot()], pc_offset9(i))),
            ..m
        }
    } else {
        m
    }
}

/// JMP (and RET, its form with base register R7).
pub open spec fn exec_jmp(m: Machine, i: u16) -> Machine {
    Machine { reg: m.reg.update(pc_slot(), m.reg[bits_8_6(i) as int]), ..m }
}

/// JSR/JSRR: R7 gets the return address, then PC the target; JSRR reads its
/// base register after R7 is written.
pub open spec fn exec_jsr(m: Machine, i: u16) -> Machine {
    let pc = m.reg[pc_slot()];
    let r1 = m.reg.update(7, pc);
    let target = if bit_11(i) == 1 {
        add16(pc, pc_offset11(i))
    } else {
        r1[bits_8_6(i) as int]
    };
    Machine { reg: r1.update(pc_slot(), target), ..m }
}

/// LEA: DR gets PC plus the offset; sets the condition code.
pub open spec fn exec_lea(m: Machine, i: u16) -> Machine {
    let v = add16(m.reg[pc_slot()], pc_offset9(i));
    Machine { reg: set_cc(m.reg, bits_11_9(i) as int, v), ..m }
}

/// The machine after loading the word at `addr` into register `r`.
pub open spec fn load(m: Machine, r: int, addr: int) -> Machine {
    let m1 = read(m, addr);
    Machine { reg: set_cc(m1.reg, r, m1.mem[addr]), ..m1 }
}

/// LD: DR gets the word at PC plus the offset.
pub open spec fn exec_ld(m: Machine, i: u16) -> Machine {
    load(m, bits_11_9(i) as int, add16(m.reg[pc_slot()], pc_offset9(i)) as int)
}

/// LDI: DR gets the word whose address is the word at PC plus the offset.
pub open spec fn exec_ldi(m: Machine, i: u16) -> Machine {
    let a = add16(m.reg[pc_slot()], pc_offset9(i)) as int;
    let m1 = read(m, a);
    load(m1, bits_11_9(i) as int, m1.mem[a] as int)
}

/// LDR: DR gets the word at the base register plus the offset.
pub open spec fn exec_ldr(m: Machine, i: u16) -> Machine {
    load(m, bits_11_9(i) as int, add16(m.reg[bits_8_6(i) as int], offset6(i)) as int)
}

/// ST: the word at PC plus the offset gets SR.
pub open spec fn exec_st(m: Machine, i: u16) -> Machine {
    let a = add16(m.reg[pc_slot()], pc_offset9(i));
    Machine { mem: m.mem.update(a as int, m.reg[bits_11_9(i) as int]), ..m }
}

/// STI: the word whose address is the word at PC plus the offset gets SR.
pub open spec fn exec_sti(m: Machine, i: u16) -> Machine {
    let a = add16(m.reg[pc_slot()], pc_offset9(i)) as int;
    let m1 = read(m, a);
    Machine { mem: m1.mem.update(m1.mem[a] as int, m.reg[bits_11_9(i) as int]), ..m1 }
}

/// STR: the word at the base register plus the offset gets SR.
pub open spec fn exec_str(m: Machine, i: u16) -> Machine {
    let a = add16(m.reg[bits_8_6(i) as int], offset6(i));
    Machine { mem: m.mem.update(a as int, m.reg[bits_11_9(i) as int]), ..m }
}

/// The effect of an instruction of any class but TRAP and the two unused ones.
pub open spec fn execute(m: Machine, i: u16) -> Machine {
    match OpCode::decode((i >> 12u16) as int) {
        OpCode::OP_BR => exec_br(m, i),
        OpCode::OP_ADD => exec_add(m, i),
        OpCode::OP_LD => exec_ld(m, i),
        OpCode::OP_ST => exec_st(m, i),
        OpCode::OP_JSR => exec_jsr(m, i),
        OpCode::OP_AND => exec_and(m, i),
        OpCode::OP_LDR => exec_ldr(m, i),
        OpCode::OP_STR => exec_str(m, i),
        OpCode::OP_NOT => exec_not(m, i),
        OpCode::OP_LDI => exec_ldi(m, i),
        OpCode::OP_STI => exec_sti(m, i),
        OpCode::OP_JMP => exec_jmp(m, i),
        OpCode::OP_LEA => exec_lea(m, i),
        _ => m,
    }
}

/// The word that image bytes `2k` and `2k + 1` hold, high byte first.
pub open spec fn image_word(image: Seq<u8>, k: int) -> u16 {
    (image[2 * k] as int * 256 + image[2 * k + 1] as int) as u16
}

/// Number of program words in an image after its origin word; an odd last
/// byte is left out.
pub open spec fn image_word_count(image: Seq<u8>) -> int {
    (image.len() - 2) / 2
}

/// An image that has an origin and whose words fit in memory from there on.
pub open spec fn image_fits(image: Seq<u8>) -> bool {
    &&& image.len() >= 2
    &&& image_word(image, 0) + image_word_count(image) <= MEMORY_MAX
}

/// Sizes of the register file and memory.
pub open spec fn machine_wf(m: Machine) -> bool {
    &&& m.reg.len() == REGISTER_SLOTS
    &&& m.mem.len() == MEMORY_MAX
}

/// A machine whose condition register holds exactly one condition code.
pub open spec fn cond_valid(m: Machine) -> bool {
    is_condition_code(m.reg[cond_slot()])
}

/// Why the machine stops on an instruction.
#[derive(Debug, Clone, Copy, PartialEq, Eq, Structural)]
pub enum Fault {
    /// Fetching at address 0xFFFF, past which PC cannot advance.
    PcOverflow,
    /// An RTI or reserved opcode, which this machine does not implement.
    IllegalOpcode(OpCode),
    /// An ADD or AND in register mode whose low five bits name no register.
    InvalidRegister,
    /// A TRAP with no routine for its vector.
    UnknownTrap(u8),
    /// A string written by PUTS or PUTSP that runs past the last address.
    StringOverrun,
}

/// What one step of the machine came to.
#[derive(Debug)]
pub enum StepOutcome {
    /// The instruction ran.
    Executed,
    /// A TRAP ran as far as the machine can take it; the caller completes it.
    Trap(TrapRequest),
    /// The machine stops: the instruction cannot run.
    Fault(Fault),
}

/// What holds of every state that the machine reaches from `Svm::new`: the
/// sizes of registers and memory, exactly one condition code, and the two
/// spare slots of the register file (10 and 11) at zero.
pub open spec fn machine_inv(m: Machine) -> bool {
    &&& machine_wf(m)
    &&& cond_valid(m)
    &&& m.reg[10] == 0
    &&& m.reg[11] == 0
}

/// The LC-3 machine.
pub struct Svm {
    pub reg: Vec<u16>,
    pub mem: Vec<u16>,
    /// The instruction last fetched.
    pub current_instr: Option<u16>,
}

impl Svm {
    pub open spec fn wf(&self) -> bool {
        &&& self.reg@.len() == REGISTER_SLOTS
        &&& self.mem@.len() == MEMORY_MAX
    }

    /// The invariant of the machine's states (the keyboard plays no part in it).
    pub open spec fn inv(&self) -> bool {
        machine_inv(self.machine(None))
    }

    /// The machine as the ISA sees it, with the keyboard holding `key`.
    pub open spec fn machine(&self, key: Option<u8>) -> Machine {
        Machine { reg: self.reg@, mem: self.mem@, key }
    }

    /// The instruction last fetched.
    pub open spec fn instr(&self) -> u16 {
        self.current_instr.unwrap()
    }

    /// A machine with zeroed registers and memory, the Z condition code, and
    /// PC at `PC_START`.
    pub fn new() -> (r: Svm)
        ensures
            r.wf(),
            r.reg@ == Seq::new(REGISTER_SLOTS as nat, |i: int| 0u16).update(pc_slot(), PC_START).update(
                cond_slot(),
                2,
            ),
            r.mem@ == Seq::new(MEMORY_MAX as nat, |i: int| 0u16),
            r.current_instr.is_none(),
            cond_valid(r.machine(None)),
            r.inv(),
    {
        let mut reg: Vec<u16> = Vec::new();
        while reg.len() < REGISTER_SLOTS
            invariant
                reg@.len() <= REGISTER_SLOTS,
                forall|i: int| 0 <= i < reg@.len() ==> reg@[i] == 0,
            decreases REGISTER_SLOTS - reg@.len(),
        {
            reg.push(0);
        }
        reg[Register::R_COND.as_usize()] = ConditionFlag::FL_ZRO.bits();
        reg[Register::R_PC.as_usize()] = PC_START;
        let mut mem: Vec<u16> = Vec::new();
        while mem.len() < MEMORY_MAX
            invariant
                mem@.len() <= MEMORY_MAX,
                forall|i: int| 0 <= i < mem@.len() ==> mem@[i] == 0,
            decreases MEMORY_MAX - mem@.len(),
        {
            mem.push(0);
        }
        let r = Svm { reg, mem, current_instr: None };
        assert(r.reg@ =~= Seq::new(REGISTER_SLOTS as nat, |i: int| 0u16).update(pc_slot(), PC_START).update(cond_slot(), 2));
        assert(r.mem@ =~= Seq::new(MEMORY_MAX as nat, |i: int| 0u16));
        r
    }

    /// Reads the word at `addr`; a read of KBSR records the keyboard first.
    pub fn mem_read(&mut self, addr: usize, key: &mut Option<u8>) -> (r: u16)
        requires
            old(self).wf(),
            addr < MEMORY_MAX,
        ensures
            final(self).wf(),
            old(self).inv() ==> final(self).inv(),
            final(self).machine(*final(key)) == read(old(self).machine(*old(key)), addr as int),
            r == final(self).mem@[addr as int],
            final(self).current_instr == old(self).current_instr,
    {
        if addr == MR_KBSR {
            match *key {
                Some(b) => {
                    self.mem[MR_KBSR] = 0x8000;
                    self.mem[MR_KBDR] = b as u16;
                },
                None => {
                    self.mem[MR_KBSR] = 0;
                },
            }
            *key = None;
        }
        self.mem[addr]
    }

    pub fn mem_write(&mut self, addr: usize, val: u16)
        requires
            old(self).wf(),
            addr < MEMORY_MAX,
        ensures
            final(self).wf(),
            old(self).inv() ==> final(self).inv(),
            final(self).mem@ == old(self).mem@.update(addr as int, val),
            final(self).reg@ == old(self).reg@,
            final(self).current_instr == old(self).current_instr,
    {
        self.mem[addr] = val;
    }

    /// Sets the condition code from the value of register `r`.
    pub fn update_flags(&mut self, r: Register)
        requires
            old(self).wf(),
        ensures
            final(self).wf(),
            old(self).inv() ==> final(self).inv(),
            final(self).reg@ == old(self).reg@.update(cond_slot(), flag_of(old(self).reg@[r.id() as int])),
            final(self).mem@ == old(self).mem@,
            final(self).current_instr == old(self).current_instr,
    {
        let val = self.reg[r.as_usize()];
        if val == 0 {
            self.reg[Register::R_COND.as_usize()] = ConditionFlag::FL_ZRO.bits();
        } else if (val >> 15u16) == 1 {
            assert((val >> 15u16) == 1 <==> val >= 0x8000) by (bit_vector);
            self.reg[Register::R_COND.as_usize()] = ConditionFlag::FL_NEG.bits();
        } else {
            assert((val >> 15u16) == 1 <==> val >= 0x8000) by (bit_vector);
            self.reg[Register::R_COND.as_usize()] = ConditionFlag::FL_POS.bits();
        }
    }

    /// Fetches the instruction at PC, advances PC, and returns its opcode.
    pub fn pc_counter(&mut self, key: &mut Option<u8>) -> (r: OpCode)
        requires
            old(self).wf(),
            old(self).reg@[pc_slot()] < 0xFFFF,
        ensures
            final(self).wf(),
            old(self).inv() ==> final(self).inv(),
            final(self).machine(*final(key)) == fetch(old(self).machine(*old(key))),
            final(self).current_instr == Some(final(self).mem@[old(self).reg@[pc_slot()] as int]),
            r == OpCode::decode((final(self).instr() >> 12u16) as int),
    {
        proof {
            if self.inv() {
                lemma_fetch_keeps_invariant(self.machine(*key));
            }
        }
        let pc = self.reg[Register::R_PC.as_usize()];
        let instr = self.mem_read(pc as usize, key);
        self.reg[Register::R_PC.as_usize()] = pc + 1;
        self.current_instr = Some(instr);
        OpCode::from((instr >> 12u16) as usize)
    }

    pub fn current_instr(&self) -> (r: u16)
        requires
            self.current_instr.is_some(),
        ensures
            r == self.instr(),
    {
        self.current_instr.unwrap()
    }

    pub fn add(&mut self)
        requires
            old(self).wf(),
            old(self).current_instr.is_some(),
            add_and_decodable(old(self).instr()),
        ensures
            final(self).wf(),
            old(self).inv() ==> final(self).inv(),
            final(self).machine(None) == exec_add(old(self).machine(None), old(self).instr()),
            final(self).current_instr == old(self).current_instr,
    {
        proof {
            if self.inv() {
                lemma_instructions_keep_invariant(self.machine(None), self.instr());
            }
        }
        let instr = AddAndInstruction::new(self.current_instr());
        let source_register_1 = self.reg[instr.source_register_1.as_usize()];
        match &instr.mode {
            AddressingMode::Reg { source_register_2 } => {
                let v = self.reg[source_register_2.as_usize()].wrapping_add(source_register_1);
                proof {
                    lemma_wrapping_add(self.reg@[source_register_2.id() as int], source_register_1);
                }
                self.reg[instr.destination_register.as_usize()] = v;
            },
            AddressingMode::Imm(value) => {
                let v = source_register_1.wrapping_add(*value);
                proof {
                    lemma_wrapping_add(source_register_1, *value);
                }
                self.reg[instr.destination_register.as_usize()] = v;
            },
        }
        self.update_flags(instr.destination_register);
    }

    pub fn and(&mut self)
        requires
            old(self).wf(),
            old(self).current_instr.is_some(),
            add_and_decodable(old(self).instr()),
        ensures
            final(self).wf(),
            old(self).inv() ==> final(self).inv(),
            final(self).machine(None) == exec_and(old(self).machine(None), old(self).instr()),
            final(self).current_instr == old(self).current_instr,
    {
        proof {
            if self.inv() {
                lemma_instructions_keep_invariant(self.machine(None), self.instr());
            }
        }
        let instr = AddAndInstruction::new(self.current_instr());
        match &instr.mode {
            AddressingMode::Reg { source_register_2 } => {
                let v = self.reg[instr.source_register_1.as_usize()] & self.reg[source_register_2.as_usize()];
                self.reg[instr.destination_register.as_usize()] = v;
            },
            AddressingMode::Imm(value) => {
                let v = self.reg[instr.source_register_1.as_usize()] & *value;
                self.reg[instr.destination_register.as_usize()] = v;
            },
        }
        self.update_flags(instr.destination_register);
    }

    pub fn br(&mut self)
        requires
            old(self).wf(),
            old(self).current_instr.is_some(),
        ensures
            final(self).wf(),
            old(self).inv() ==> final(self).inv(),
            final(self).machine(None) == exec_br(old(self).machine(None), old(self).instr()),
            final(self).current_instr == old(self).current_instr,
    {
        proof {
            if self.inv() {
                lemma_instructions_keep_invariant(self.machine(None), self.instr());
            }
        }
        let instr = BrInstr::from_raw(self.current_instr());
        let pc_offset = sign_extend(instr.pc_offset(), 9);
        let npz = instr.nzp();
        if npz & self.reg[Register::R_COND.as_usize()] != 0 {
            let pc = self.reg[Register::R_PC.as_usize()];
            proof {
                lemma_wrapping_add(pc, pc_offset);
            }
            self.reg[Register::R_PC.as_usize()] = pc.wrapping_add(pc_offset);
        }
    }

    pub fn ldi(&mut self, key: &mut Option<u8>)
        requires
            old(self).wf(),
            old(self).current_instr.is_some(),
        ensures
            final(self).wf(),
            old(self).inv() ==> final(self).inv(),
            final(self).machine(*final(key)) == exec_ldi(old(self).machine(*old(key)), old(self).instr()),
            final(self).current_instr == old(self).current_instr,
    {
        proof {
            if self.inv() {
                lemma_instructions_keep_invariant(self.machine(*key), self.instr());
            }
        }
        let instr = LdiInstruction::new(self.current_instr());
        let pc = self.reg[Register::R_PC.as_usize()];
        proof {
            lemma_wrapping_add(pc, instr.pc_offset);
        }
        let addr = self.mem_read(pc.wrapping_add(instr.pc_offset) as usize, key);
        let value = self.mem_read(addr as usize, key);
        self.reg[instr.destination_register.as_usize()] = value;
        self.update_flags(instr.destination_register);
    }

    pub fn ld(&mut self, key: &mut Option<u8>)
        requires
            old(self).wf(),
            old(self).current_instr.is_some(),
        ensures
            final(self).wf(),
            old(self).inv() ==> final(self).inv(),
            final(self).machine(*final(key)) == exec_ld(old(self).machine(*old(key)), old(self).instr()),
            final(self).current_instr == old(self).current_instr,
    {
        proof {
            if self.inv() {
                lemma_instructions_keep_invariant(self.machine(*key), self.instr());
            }
        }
        let instr = LdInstruction::new(self.current_instr());
        let pc = self.reg[Register::R_PC.as_usize()];
        proof {
            lemma_wrapping_add(pc, instr.pc_offset);
        }
        let value = self.mem_read(pc.wrapping_add(instr.pc_offset) as usize, key);
        self.reg[instr.destination_register.as_usize()] = value;
        self.update_flags(instr.destination_register);
    }

    pub fn ldr(&mut self, key: &mut Option<u8>)
        requires
            old(self).wf(),
            old(self).current_instr.is_some(),
        ensures
            final(self).wf(),
            old(self).inv() ==> final(self).inv(),
            final(self).machine(*final(key)) == exec_ldr(old(self).machine(*old(key)), old(self).instr()),
            final(self).current_instr == old(self).current_instr,
    {
        proof {
            if self.inv() {
                lemma_instructions_keep_invariant(self.machine(*key), self.instr());
            }
        }
        let instr = LdrInstruction::new(self.current_instr());
        let base = self.reg[instr.base_register.as_usize()];
        proof {
            lemma_wrapping_add(base, instr.offset);
        }
        let value = self.mem_read(base.wrapping_add(instr.offset) as usize, key);
        self.reg[instr.destination_register.as_usize()] = value;
        self.update_flags(instr.destination_register);
    }

    pub fn st(&mut self)
        requires
            old(self).wf(),
            old(self).current_instr.is_some(),
        ensures
            final(self).wf(),
            old(self).inv() ==> final(self).inv(),
            final(self).machine(None) == exec_st(old(self).machine(None), old(self).instr()),
            final(self).current_instr == old(self).current_instr,
    {
        proof {
            if self.inv() {
                lemma_instructions_keep_invariant(self.machine(None), self.instr());
            }
        }
        let instr = StInstruction::new(self.current_instr());
        let pc = self.reg[Register::R_PC.as_usize()];
        proof {
            lemma_wrapping_add(pc, instr.pc_offset);
        }
        let addr = pc.wrapping_add(instr.pc_offset) as usize;
        let value = self.reg[instr.source_register.as_usize()];
        self.mem_write(addr, value);
    }

    pub fn sti(&mut self, key: &mut Option<u8>)
        requires
            old(self).wf(),
            old(self).current_instr.is_some(),
        ensures
            final(self).wf(),
            old(self).inv() ==> final(self).inv(),
            final(self).machine(*final(key)) == exec_sti(old(self).machine(*old(key)), old(self).instr()),
            final(self).current_instr == old(self).current_instr,
    {
        proof {
            if self.inv() {
                lemma_instructions_keep_invariant(self.machine(*key), self.instr());
            }
        }
        let instr = StiInstruction::new(self.current_instr());
        let pc = self.reg[Register::R_PC.as_usize()];
        proof {
            lemma_wrapping_add(pc, instr.pc_offset);
        }
        let addr = self.mem_read(pc.wrapping_add(instr.pc_offset) as usize, key);
        let value = self.reg[instr.source_register.as_usize()];
        self.mem_write(addr as usize, value);
    }

    pub fn str(&mut self)
        requires
            old(self).wf(),
            old(self).current_instr.is_some(),
        ensures
            final(self).wf(),
            old(self).inv() ==> final(self).inv(),
            final(self).machine(None) == exec_str(old(self).machine(None), old(self).instr()),
            final(self).current_instr == old(self).current_instr,
    {
        proof {
            if self.inv() {
                lemma_instructions_keep_invariant(self.machine(None), self.instr());
            }
        }
        let instr = StrInstruction::new(self.current_instr());
        let base = self.reg[instr.base_register.as_usize()];
        proof {
            lemma_wrapping_add(base, instr.offset);
        }
        let addr = base.wrapping_add(instr.offset) as usize;
        let value = self.reg[instr.source_register.as_usize()];
        self.mem_write(addr, value);
    }

    pub fn lea(&mut self)
        requires
            old(self).wf(),
            old(self).current_instr.is_some(),
        ensures
            final(self).wf(),
            old(self).inv() ==> final(self).inv(),
            final(self).machine(None) == exec_lea(old(self).machine(None), old(self).instr()),
            final(self).current_instr == old(self).current_instr,
    {
        proof {
            if self.inv() {
                lemma_instructions_keep_invariant(self.machine(None), self.instr());
            }
        }
        let instr = LeaInstruction::new(self.current_instr());
        let pc = self.reg[Register::R_PC.as_usize()];
        proof {
            lemma_wrapping_add(pc, instr.pc_offset);
        }
        self.reg[instr.destination_register.as_usize()] = pc.wrapping_add(instr.pc_offset);
        self.update_flags(instr.destination_register);
    }

    pub fn not(&mut self)
        requires
            old(self).wf(),
            old(self).current_instr.is_some(),
        ensures
            final(self).wf(),
            old(self).inv() ==> final(self).inv(),
            final(self).machine(None) == exec_not(old(self).machine(None), old(self).instr()),
            final(self).current_instr == old(self).current_instr,
    {
        proof {
            if self.inv() {
                lemma_instructions_keep_invariant(self.machine(None), self.instr());
            }
        }
        let instr = NotInstruction::new(self.current_instr());
        let v = !self.reg[instr.source_register.as_usize()];
        self.reg[instr.destination_register.as_usize()] = v;
        self.update_flags(instr.destination_register);
    }

    pub fn jmp(&mut self)
        requires
            old(self).wf(),
            old(self).current_instr.is_some(),
        ensures
            final(self).wf(),
            old(self).inv() ==> final(self).inv(),
            final(self).machine(None) == exec_jmp(old(self).machine(None), old(self).instr()),
            final(self).current_instr == old(self).current_instr,
    {
        proof {
            if self.inv() {
                lemma_instructions_keep_invariant(self.machine(None), self.instr());
            }
        }
        let base_register = JmpInstr::from_raw(self.current_instr()).baser() as usize;
        if base_register == Register::R_R7.as_usize() {
            self.reg[Register::R_PC.as_usize()] = self.reg[Register::R_R7.as_usize()];
            return;
        }
        self.reg[Register::R_PC.as_usize()] = self.reg[base_register];
    }

    pub fn jsr(&mut self)
        requires
            old(self).wf(),
            old(self).current_instr.is_some(),
        ensures
            final(self).wf(),
            old(self).inv() ==> final(self).inv(),
            final(self).machine(None) == exec_jsr(old(self).machine(None), old(self).instr()),
            final(self).current_instr == old(self).current_instr,
    {
        proof {
            if self.inv() {
                lemma_instructions_keep_invariant(self.machine(None), self.instr());
            }
        }
        let instr = JsrInstruction::new(self.current_instr());
        let pc = self.reg[Register::R_PC.as_usize()];
        self.reg[Register::R_R7.as_usize()] = pc;
        if instr.bit_11 == 1 {
            proof {
                lemma_wrapping_add(pc, instr.offset);
            }
            self.reg[Register::R_PC.as_usize()] = pc.wrapping_add(instr.offset);
        } else {
            self.reg[Register::R_PC.as_usize()] = self.reg[instr.base_register.as_usize()];
        }
    }

    /// Loads a program image: its first word, high byte first, is the origin,
    /// and each following word is stored from the origin on.
    pub fn load_image(&mut self, image: &[u8]) -> (origin: u16)
        requires
            old(self).wf(),
            image_fits(image@),
        ensures
            final(self).wf(),
            old(self).inv() ==> final(self).inv(),
            origin == image_word(image@, 0),
            final(self).reg@ == old(self).reg@,
            final(self).current_instr == old(self).current_instr,
            forall|j: int|
                0 <= j < MEMORY_MAX ==> #[trigger] final(self).mem@[j] == if origin <= j < origin
                    + image_word_count(image@) {
                    image_word(image@, j - origin + 1)
                } else {
                    old(self).mem@[j]
                },
    {
        let origin = image_origin(image);
        let count = (image.len() - 2) / 2;
        let mut i: usize = 0;
        while i < count
            invariant
                self.wf(),
                image@.len() >= 2,
                count == image_word_count(image@),
                origin == image_word(image@, 0),
                origin + count <= MEMORY_MAX,
                0 <= i <= count,
                self.reg@ == old(self).reg@,
                self.current_instr == old(self).current_instr,
                forall|j: int|
                    0 <= j < MEMORY_MAX ==> #[trigger] self.mem@[j] == if origin <= j < origin + i {
                        image_word(image@, j - origin + 1)
                    } else {
                        old(self).mem@[j]
                    },
            decreases count - i,
        {
            let word = word_at(image, 2 * i + 2);
            assert(2 * i + 2 == 2 * (i + 1));
            self.mem[origin as usize + i] = word;
            i = i + 1;
        }
        origin
    }

    /// Fetches the instruction at PC and runs it.
    pub fn step(&mut self, key: &mut Option<u8>) -> (r: StepOutcome)
        requires
            old(self).wf(),
        ensures
            final(self).wf(),
            old(self).inv() ==> final(self).inv(),
            ({
                let m0 = old(self).machine(*old(key));
                let m1 = final(self).machine(*final(key));
                let pc = m0.reg[pc_slot()];
                if pc == 0xFFFF {
                    &&& r == StepOutcome::Fault(Fault::PcOverflow)
                    &&& m1 == m0
                    &&& final(self).current_instr == old(self).current_instr
                } else {
                    let f = fetch(m0);
                    let i = f.mem[pc as int];
                    let op = OpCode::decode((i >> 12u16) as int);
                    &&& final(self).current_instr == Some(i)
                    &&& if op == OpCode::OP_RTI || op == OpCode::OP_RES || op == OpCode::OP_BAD {
                        r == StepOutcome::Fault(Fault::IllegalOpcode(op)) && m1 == f
                    } else if (op == OpCode::OP_ADD || op == OpCode::OP_AND) && !add_and_decodable(i) {
                        r == StepOutcome::Fault(Fault::InvalidRegister) && m1 == f
                    } else if op == OpCode::OP_TRAP {
                        &&& m1 == trap_result(f, i).0
                        &&& match trap_result(f, i).1 {
                            Ok((c, out)) => r matches StepOutcome::Trap(req) && req.code == c && req.output@ == out,
                            Err(e) => r == StepOutcome::Fault(e),
                        }
                    } else {
                        r == StepOutcome::Executed && m1 == execute(f, i)
                    }
                }
            }),
    {
        if self.reg[Register::R_PC.as_usize()] == 0xFFFF {
            return StepOutcome::Fault(Fault::PcOverflow);
        }
        let ghost m0 = self.machine(*key);
        let op = self.pc_counter(key);
        let instr = self.current_instr();
        proof {
            if machine_inv(m0) {
                let f = fetch(m0);
                lemma_fetch_keeps_invariant(m0);
                lemma_instructions_keep_invariant(f, instr);
                lemma_trap_keeps_invariant(f, instr);
            }
        }
        match op {
            OpCode::OP_BR => self.br(),
            OpCode::OP_ADD => {
                if (instr >> 5u16) & 1 == 0 && instr & 0x1f > 10 {
                    return StepOutcome::Fault(Fault::InvalidRegister);
                }
                self.add();
            },
            OpCode::OP_AND => {
                if (instr >> 5u16) & 1 == 0 && instr & 0x1f > 10 {
                    return StepOutcome::Fault(Fault::InvalidRegister);
                }
                self.and();
            },
            OpCode::OP_LD => self.ld(key),
            OpCode::OP_LDI => self.ldi(key),
            OpCode::OP_LDR => self.ldr(key),
            OpCode::OP_ST => self.st(),
            OpCode::OP_STI => self.sti(key),
            OpCode::OP_STR => self.str(),
            OpCode::OP_LEA => self.lea(),
            OpCode::OP_NOT => self.not(),
            OpCode::OP_JMP => self.jmp(),
            OpCode::OP_JSR => self.jsr(),
            OpCode::OP_TRAP => {
                return match trap(self, key) {
                    Ok(req) => StepOutcome::Trap(req),
                    Err(e) => StepOutcome::Fault(e),
                };
            },
            _ => {
                return StepOutcome::Fault(Fault::IllegalOpcode(op));
            },
        }
        StepOutcome::Executed
    }
}

/// The origin of a program image: its first word, high byte first.
pub fn image_origin(image: &[u8]) -> (r: u16)
    requires
        image@.len() >= 2,
    ensures
        r == image_word(image@, 0),
{
    word_at(image, 0)
}

/// The big-endian word at bytes `at`, `at + 1`.
fn word_at(image: &[u8], at: usize) -> (r: u16)
    requires
        at + 1 < image@.len(),
    ensures
        r as int == image@[at as int] as int * 256 + image@[at + 1] as int,
{
    let lo = image[at];
    let hi = image[at + 1];
    let le = (lo as u16) | ((hi as u16) << 8u16);
    assert(((lo as u16) | ((hi as u16) << 8u16)) as int == lo as int + 256 * hi as int) by (bit_vector);
    swap16(le)
}

/// `wrapping_add` on `u16` is addition modulo 2^16.
pub proof fn lemma_wrapping_add(a: u16, b: u16)
    ensures
        a.wrapping_add(b) == add16(a, b),
{
}

} // verus!
