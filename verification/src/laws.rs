//! Properties of the machine model that span instructions or hold of every
//! state the machine reaches.

use vstd::prelude::*;
use crate::isa::{flag_of, is_condition_code, sign_extend_spec};
use crate::instructions::{lemma_field_bounds, bit_11, bit_5, bits_11_9, bits_4_0, bits_8_6, offset6, pc_offset9};
use crate::isa::OpCode;
use crate::svm::{
    Fault, Machine, MR_KBSR, add16, operand2, cond_slot, cond_valid, machine_inv, set_cc, exec_add, exec_and, exec_br, exec_jmp,
    exec_jsr, exec_lea, exec_ld, exec_ldi, exec_ldr, exec_st, exec_sti, exec_str, exec_not, execute, fetch, load, machine_wf, pc_slot, read,
};
use crate::trap::{TrapCode, string_out, trap_result};

verus! {

/// Every value sets exactly one condition code.
pub proof fn lemma_flag_of_is_condition_code(v: u16)
    ensures
        is_condition_code(flag_of(v)),
        (flag_of(v) == 2) <==> v == 0,
        (flag_of(v) == 4) <==> v >= 0x8000,
{
}

/// Reading memory changes no register and keeps the memory's size.
pub proof fn lemma_read_keeps_registers(m: Machine, addr: int)
    requires
        machine_wf(m),
    ensures
        read(m, addr).reg == m.reg,
        machine_wf(read(m, addr)),
{
}

/// Writing a string reads memory only: no register changes.
pub proof fn lemma_string_out_keeps_registers(m: Machine, addr: int, packed: bool)
    requires
        machine_wf(m),
    ensures
        string_out(m, addr, packed).1.reg == m.reg,
        machine_wf(string_out(m, addr, packed).1),
    decreases 0x10000 - addr,
{
    if 0 <= addr < 0x10000 {
        let m1 = read(m, addr);
        if m1.mem[addr] != 0 && addr != 0xFFFF {
            lemma_string_out_keeps_registers(m1, addr + 1, packed);
        }
    }
}

/// A load into one of R0..R7 keeps the invariant.
proof fn lemma_load_keeps_invariant(m: Machine, r: int, addr: int)
    requires
        machine_inv(m),
        0 <= r <= 7,
    ensures
        machine_inv(load(m, r, addr)),
{
    lemma_flag_of_is_condition_code(read(m, addr).mem[addr]);
}

/// Reading memory keeps the invariant.
pub proof fn lemma_read_keeps_invariant(m: Machine, addr: int)
    requires
        machine_inv(m),
    ensures
        machine_inv(read(m, addr)),
{
}

/// Every instruction class keeps the invariant: exactly one condition code,
/// slots 10 and 11 of the register file zero, and the sizes of registers and
/// memory.
pub proof fn lemma_instructions_keep_invariant(m: Machine, i: u16)
    requires
        machine_inv(m),
    ensures
        machine_inv(exec_add(m, i)),
        machine_inv(exec_and(m, i)),
        machine_inv(exec_not(m, i)),
        machine_inv(exec_br(m, i)),
        machine_inv(exec_jmp(m, i)),
        machine_inv(exec_jsr(m, i)),
        machine_inv(exec_lea(m, i)),
        machine_inv(exec_ld(m, i)),
        machine_inv(exec_ldi(m, i)),
        machine_inv(exec_ldr(m, i)),
        machine_inv(exec_st(m, i)),
        machine_inv(exec_sti(m, i)),
        machine_inv(exec_str(m, i)),
        machine_inv(execute(m, i)),
{
    lemma_field_bounds(i);
    let dr = bits_11_9(i) as int;
    lemma_flag_of_is_condition_code(add16(m.reg[bits_8_6(i) as int], operand2(m.reg, i)));
    lemma_flag_of_is_condition_code(m.reg[bits_8_6(i) as int] & operand2(m.reg, i));
    lemma_flag_of_is_condition_code(!m.reg[bits_8_6(i) as int]);
    lemma_flag_of_is_condition_code(add16(m.reg[pc_slot()], pc_offset9(i)));
    let a9 = add16(m.reg[pc_slot()], pc_offset9(i)) as int;
    lemma_load_keeps_invariant(m, dr, a9);
    let m1 = read(m, a9);
    lemma_load_keeps_invariant(m1, dr, m1.mem[a9] as int);
    lemma_load_keeps_invariant(m, dr, add16(m.reg[bits_8_6(i) as int], offset6(i)) as int);
}

/// Fetching keeps the invariant.
pub proof fn lemma_fetch_keeps_invariant(m: Machine)
    requires
        machine_inv(m),
    ensures
        machine_inv(fetch(m)),
{
}

/// A TRAP keeps the invariant (GETC and IN set the condition code later,
/// from the character read).
pub proof fn lemma_trap_keeps_invariant(m: Machine, i: u16)
    requires
        machine_inv(m),
    ensures
        machine_inv(trap_result(m, i).0),
{
    let m1 = Machine { reg: m.reg.update(7, m.reg[pc_slot()]), ..m };
    lemma_string_out_keeps_registers(m1, m.reg[0] as int, false);
    lemma_string_out_keeps_registers(m1, m.reg[0] as int, true);
}

/// Writing a character into R0 with its condition code keeps the invariant.
pub proof fn lemma_char_input_keeps_invariant(m: Machine, byte: u8)
    requires
        machine_inv(m),
    ensures
        machine_inv(Machine { reg: set_cc(m.reg, 0, byte as u16), ..m }),
{
    lemma_flag_of_is_condition_code(byte as u16);
}

/// A word written to memory is what the next read of its address gives,
/// except at KBSR, whose reads report the keyboard instead.
pub proof fn lemma_read_after_write(m: Machine, addr: int, v: u16)
    requires
        machine_wf(m),
        0 <= addr < m.mem.len(),
    ensures
        addr != MR_KBSR ==> read(Machine { mem: m.mem.update(addr, v), ..m }, addr).mem[addr] == v,
        addr == MR_KBSR ==> read(Machine { mem: m.mem.update(addr, v), ..m }, addr).mem[addr] == (
        if m.key is Some {
            0x8000u16
        } else {
            0u16
        }),
{
}

/// After a JSR or JSRR, a RET (JMP through R7) returns to the instruction
/// after the call.
pub proof fn lemma_return_after_jsr(m: Machine, call: u16, ret: u16)
    requires
        machine_wf(m),
        bits_8_6(ret) == 7,
    ensures
        exec_jmp(exec_jsr(m, call), ret).reg[pc_slot()] == m.reg[pc_slot()],
        exec_jmp(exec_jsr(m, call), ret).reg[7] == m.reg[pc_slot()],
{
}

/// NOT of a register into itself, twice, gives the register back.
pub proof fn lemma_not_twice(m: Machine, i: u16)
    requires
        machine_wf(m),
        bits_11_9(i) == bits_8_6(i),
    ensures
        exec_not(exec_not(m, i), i).reg[bits_11_9(i) as int] == m.reg[bits_11_9(i) as int],
{
    lemma_field_bounds(i);
    let v = m.reg[bits_8_6(i) as int];
    assert(!(!v) == v) by (bit_vector);
}

/// BR with all of n, z, p branches whenever one condition code is set; BR
/// with none of them never branches.
pub proof fn lemma_br_all_or_none(m: Machine, i: u16)
    requires
        machine_wf(m),
        cond_valid(m),
    ensures
        bits_11_9(i) == 7 ==> exec_br(m, i).reg[pc_slot()] == add16(
            m.reg[pc_slot()],
            pc_offset9(i),
        ),
        bits_11_9(i) == 0 ==> exec_br(m, i) == m,
{
    let c = m.reg[cond_slot()];
    assert(is_condition_code(c) ==> (7u16 & c != 0 && 0u16 & c == 0)) by (bit_vector);
}

/// ADD of the immediate 0 copies the source register; AND of the immediate -1
/// (all ones) does too; AND of the immediate 0 clears the destination and sets Z.
pub proof fn lemma_add_and_identities(m: Machine, i: u16)
    requires
        machine_wf(m),
        bit_5(i) == 1,
    ensures
        bits_4_0(i) == 0 ==> exec_add(m, i).reg[bits_11_9(i) as int] == m.reg[bits_8_6(i) as int],
        bits_4_0(i) == 0x1f ==> exec_and(m, i).reg[bits_11_9(i) as int] == m.reg[bits_8_6(i) as int],
        bits_4_0(i) == 0 ==> exec_and(m, i).reg[bits_11_9(i) as int] == 0 && exec_and(m, i).reg[cond_slot()] == 2,
{
    lemma_field_bounds(i);
    let v = m.reg[bits_8_6(i) as int];
    assert(sign_extend_spec(0, 5) == 0) by (bit_vector);
    assert(sign_extend_spec(0x1f, 5) == 0xffff) by (bit_vector);
    assert(v & 0xffff == v && v & 0 == 0) by (bit_vector);
}

// ---------------------------------------------------------------------------
// What each instruction does, read off its bits: register fields are bit
// ranges, offsets are two's-complement numbers, addresses wrap modulo 2^16,
// and the condition code is N (4), Z (2) or P (1) of the value written.
// ---------------------------------------------------------------------------

/// The two's-complement value of a field whose top bit is worth `half`.
pub open spec fn signed_value(field: int, half: int) -> int {
    if field >= half {
        field - 2 * half
    } else {
        field
    }
}

/// Sign extension of each offset field is its two's-complement value modulo
/// 2^16; the 5-bit immediate, sign-extended, is the field with bits 5..15
/// copied from bit 4.
proof fn lemma_offset_values(i: u16)
    by (bit_vector)
    ensures
        sign_extend_spec(i & 0x1f, 5) as int == (if i & 0x10 != 0 {
            (i & 0x1f) as int + 0x10000 - 0x20
        } else {
            (i & 0x1f) as int
        }),
        sign_extend_spec(i & 0x1f, 5) == (if i & 0x10 != 0 {
            0xffe0u16 | (i & 0x1f)
        } else {
            i & 0x1f
        }),
        sign_extend_spec(i & 0x3f, 6) as int == (if i & 0x20 != 0 {
            (i & 0x3f) as int + 0x10000 - 0x40
        } else {
            (i & 0x3f) as int
        }),
        sign_extend_spec(i & 0x1ff, 9) as int == (if i & 0x100 != 0 {
            (i & 0x1ff) as int + 0x10000 - 0x200
        } else {
            (i & 0x1ff) as int
        }),
        sign_extend_spec(i & 0x7ff, 11) as int == (if i & 0x400 != 0 {
            (i & 0x7ff) as int + 0x10000 - 0x800
        } else {
            (i & 0x7ff) as int
        }),
        (i & 0x10 != 0) == ((i & 0x1f) >= 0x10),
        (i & 0x20 != 0) == ((i & 0x3f) >= 0x20),
        (i & 0x100 != 0) == ((i & 0x1ff) >= 0x100),
        (i & 0x400 != 0) == ((i & 0x7ff) >= 0x400),
        (i >> 9u16) & 0x7 <= 7,
        (i >> 6u16) & 0x7 <= 7,
        (i >> 5u16) & 0x1 <= 1,
        (i >> 11u16) & 0x1 <= 1,
        i & 0x1f <= 0x1f,
{
}

/// A BR's condition field against a single condition code: the code is
/// tested exactly when its bit is set, n (bit 11) for N = 4, z (bit 10) for
/// Z = 2, p (bit 9) for P = 1.
proof fn lemma_nzp_test(i: u16, c: u16)
    by (bit_vector)
    requires
        c == 1 || c == 2 || c == 4,
    ensures
        (((i >> 9u16) & 0x7) & c != 0) == ((c == 4 && (i >> 11u16) & 1 == 1) || (c == 2 && (i
            >> 10u16) & 1 == 1) || (c == 1 && (i >> 9u16) & 1 == 1)),
{
}

/// The complement of a word is 0xFFFF minus it.
proof fn lemma_not_value(v: u16)
    by (bit_vector)
    ensures
        (!v) as int == 0xffff - v as int,
{
}

/// ADD writes SR1 plus the second operand (SR2, or the 5-bit immediate as a
/// two's-complement number) modulo 2^16 into DR, and sets N, Z or P from that
/// value; nothing else changes.
pub proof fn lemma_add_semantics(m: Machine, i: u16)
    requires
        machine_inv(m),
    ensures
        ({
            let r = exec_add(m, i);
            let d = ((i >> 9u16) & 0x7) as int;
            let a = m.reg[((i >> 6u16) & 0x7) as int] as int;
            let b = if (i >> 5u16) & 1 == 1 {
                signed_value((i & 0x1f) as int, 0x10)
            } else {
                m.reg[(i & 0x1f) as int] as int
            };
            &&& r.reg[d] as int == (a + b) % 0x10000
            &&& r.reg[9] == (if r.reg[d] == 0 { 2u16 } else if r.reg[d] >= 0x8000 { 4u16 } else { 1u16 })
            &&& forall|j: int| 0 <= j < 12 && j != d && j != 9 ==> r.reg[j] == m.reg[j]
            &&& r.mem == m.mem
            &&& r.key == m.key
        }),
{
    lemma_offset_values(i);
}

/// AND writes SR1 and the second operand (SR2, or the 5-bit immediate with
/// bit 4 copied into bits 5..15), bit by bit, into DR, and sets N, Z or P from
/// that value; nothing else changes.
pub proof fn lemma_and_semantics(m: Machine, i: u16)
    requires
        machine_inv(m),
    ensures
        ({
            let r = exec_and(m, i);
            let d = ((i >> 9u16) & 0x7) as int;
            let a = m.reg[((i >> 6u16) & 0x7) as int];
            let b = if (i >> 5u16) & 1 == 1 {
                if i & 0x10 != 0 { 0xffe0u16 | (i & 0x1f) } else { i & 0x1f }
            } else {
                m.reg[(i & 0x1f) as int]
            };
            &&& r.reg[d] == a & b
            &&& r.reg[9] == (if r.reg[d] == 0 { 2u16 } else if r.reg[d] >= 0x8000 { 4u16 } else { 1u16 })
            &&& forall|j: int| 0 <= j < 12 && j != d && j != 9 ==> r.reg[j] == m.reg[j]
            &&& r.mem == m.mem
            &&& r.key == m.key
        }),
{
    lemma_offset_values(i);
}

/// NOT writes 0xFFFF minus SR into DR and sets N, Z or P from that value;
/// nothing else changes.
pub proof fn lemma_not_semantics(m: Machine, i: u16)
    requires
        machine_inv(m),
    ensures
        ({
            let r = exec_not(m, i);
            let d = ((i >> 9u16) & 0x7) as int;
            &&& r.reg[d] as int == 0xffff - m.reg[((i >> 6u16) & 0x7) as int] as int
            &&& r.reg[9] == (if r.reg[d] == 0 { 2u16 } else if r.reg[d] >= 0x8000 { 4u16 } else { 1u16 })
            &&& forall|j: int| 0 <= j < 12 && j != d && j != 9 ==> r.reg[j] == m.reg[j]
            &&& r.mem == m.mem
            &&& r.key == m.key
        }),
{
    lemma_offset_values(i);
    lemma_not_value(m.reg[((i >> 6u16) & 0x7) as int]);
}

/// LEA writes PC plus the 9-bit two's-complement offset, modulo 2^16, into DR
/// and sets N, Z or P from it; nothing else changes.
pub proof fn lemma_lea_semantics(m: Machine, i: u16)
    requires
        machine_inv(m),
    ensures
        ({
            let r = exec_lea(m, i);
            let d = ((i >> 9u16) & 0x7) as int;
            &&& r.reg[d] as int == (m.reg[8] + signed_value((i & 0x1ff) as int, 0x100)) % 0x10000
            &&& r.reg[9] == (if r.reg[d] == 0 { 2u16 } else if r.reg[d] >= 0x8000 { 4u16 } else { 1u16 })
            &&& forall|j: int| 0 <= j < 12 && j != d && j != 9 ==> r.reg[j] == m.reg[j]
            &&& r.mem == m.mem
            &&& r.key == m.key
        }),
{
    lemma_offset_values(i);
}

/// BR moves PC by the 9-bit two's-complement offset (modulo 2^16) exactly when
/// the current condition code's bit is set in the instruction (n = bit 11 for
/// N, z = bit 10 for Z, p = bit 9 for P), and otherwise changes nothing.
pub proof fn lemma_br_semantics(m: Machine, i: u16)
    requires
        machine_inv(m),
    ensures
        ({
            let r = exec_br(m, i);
            let c = m.reg[9];
            let taken = (c == 4 && (i >> 11u16) & 1 == 1) || (c == 2 && (i >> 10u16) & 1 == 1) || (
            c == 1 && (i >> 9u16) & 1 == 1);
            &&& r.reg[8] as int == (if taken {
                (m.reg[8] + signed_value((i & 0x1ff) as int, 0x100)) % 0x10000
            } else {
                m.reg[8] as int
            })
            &&& forall|j: int| 0 <= j < 12 && j != 8 ==> r.reg[j] == m.reg[j]
            &&& r.mem == m.mem
            &&& r.key == m.key
        }),
{
    lemma_offset_values(i);
    lemma_nzp_test(i, m.reg[9]);
}

/// JMP puts its base register (bits 8..6) in PC; nothing else changes.
pub proof fn lemma_jmp_semantics(m: Machine, i: u16)
    requires
        machine_inv(m),
    ensures
        ({
            let r = exec_jmp(m, i);
            &&& r.reg[8] == m.reg[((i >> 6u16) & 0x7) as int]
            &&& forall|j: int| 0 <= j < 12 && j != 8 ==> r.reg[j] == m.reg[j]
            &&& r.mem == m.mem
            &&& r.key == m.key
        }),
{
    lemma_offset_values(i);
}

/// JSR saves PC in R7 and moves PC by the 11-bit two's-complement offset
/// (modulo 2^16); JSRR (bit 11 clear) saves PC in R7 and jumps to its base
/// register as it stands after R7 is written; nothing else changes.
pub proof fn lemma_jsr_semantics(m: Machine, i: u16)
    requires
        machine_inv(m),
    ensures
        ({
            let r = exec_jsr(m, i);
            let base = ((i >> 6u16) & 0x7) as int;
            &&& r.reg[7] == m.reg[8]
            &&& r.reg[8] as int == (if (i >> 11u16) & 1 == 1 {
                (m.reg[8] + signed_value((i & 0x7ff) as int, 0x400)) % 0x10000
            } else if base == 7 {
                m.reg[8] as int
            } else {
                m.reg[base] as int
            })
            &&& forall|j: int| 0 <= j < 12 && j != 7 && j != 8 ==> r.reg[j] == m.reg[j]
            &&& r.mem == m.mem
            &&& r.key == m.key
        }),
{
    lemma_offset_values(i);
    assert((i >> 11u16) & 1 == 1 <==> bit_11(i) == 1);
}

/// The word a load gives at `addr` and the memory after: the word itself,
/// or at KBSR the keyboard status (0x8000 when a key is waiting, else 0).
pub open spec fn loaded_word(m: Machine, addr: int) -> u16 {
    if addr == MR_KBSR {
        if m.key is Some {
            0x8000u16
        } else {
            0u16
        }
    } else {
        m.mem[addr]
    }
}

/// LD loads into DR the word at PC plus the 9-bit two's-complement offset
/// (modulo 2^16) and sets N, Z or P from it; only DR and the condition code
/// change, and memory only where the address is KBSR.
pub proof fn lemma_ld_semantics(m: Machine, i: u16)
    requires
        machine_inv(m),
    ensures
        ({
            let r = exec_ld(m, i);
            let d = ((i >> 9u16) & 0x7) as int;
            let addr = (m.reg[8] + signed_value((i & 0x1ff) as int, 0x100)) % 0x10000;
            &&& r.reg[d] == loaded_word(m, addr)
            &&& r.reg[9] == (if r.reg[d] == 0 { 2u16 } else if r.reg[d] >= 0x8000 { 4u16 } else { 1u16 })
            &&& forall|j: int| 0 <= j < 12 && j != d && j != 9 ==> r.reg[j] == m.reg[j]
            &&& addr != MR_KBSR ==> r.mem == m.mem && r.key == m.key
        }),
{
    lemma_offset_values(i);
}

/// LDR loads into DR the word at the base register plus the 6-bit
/// two's-complement offset (modulo 2^16) and sets N, Z or P from it; only DR
/// and the condition code change, and memory only where the address is KBSR.
pub proof fn lemma_ldr_semantics(m: Machine, i: u16)
    requires
        machine_inv(m),
    ensures
        ({
            let r = exec_ldr(m, i);
            let d = ((i >> 9u16) & 0x7) as int;
            let addr = (m.reg[((i >> 6u16) & 0x7) as int] + signed_value((i & 0x3f) as int, 0x20))
                % 0x10000;
            &&& r.reg[d] == loaded_word(m, addr)
            &&& r.reg[9] == (if r.reg[d] == 0 { 2u16 } else if r.reg[d] >= 0x8000 { 4u16 } else { 1u16 })
            &&& forall|j: int| 0 <= j < 12 && j != d && j != 9 ==> r.reg[j] == m.reg[j]
            &&& addr != MR_KBSR ==> r.mem == m.mem && r.key == m.key
        }),
{
    lemma_offset_values(i);
}

/// LDI loads into DR the word whose address is the word at PC plus the 9-bit
/// two's-complement offset (modulo 2^16), and sets N, Z or P from it; away
/// from KBSR, only DR and the condition code change.
pub proof fn lemma_ldi_semantics(m: Machine, i: u16)
    requires
        machine_inv(m),
    ensures
        ({
            let r = exec_ldi(m, i);
            let d = ((i >> 9u16) & 0x7) as int;
            let a1 = (m.reg[8] + signed_value((i & 0x1ff) as int, 0x100)) % 0x10000;
            &&& r.reg[9] == (if r.reg[d] == 0 { 2u16 } else if r.reg[d] >= 0x8000 { 4u16 } else { 1u16 })
            &&& forall|j: int| 0 <= j < 12 && j != d && j != 9 ==> r.reg[j] == m.reg[j]
            &&& (a1 != MR_KBSR && m.mem[a1] != MR_KBSR) ==> r.reg[d] == m.mem[m.mem[a1] as int]
                && r.mem == m.mem && r.key == m.key
        }),
{
    lemma_offset_values(i);
}

/// ST writes SR to the word at PC plus the 9-bit two's-complement offset
/// (modulo 2^16); no other word and no register changes.
pub proof fn lemma_st_semantics(m: Machine, i: u16)
    requires
        machine_inv(m),
    ensures
        ({
            let r = exec_st(m, i);
            let addr = (m.reg[8] + signed_value((i & 0x1ff) as int, 0x100)) % 0x10000;
            &&& r.mem[addr] == m.reg[((i >> 9u16) & 0x7) as int]
            &&& forall|j: int| 0 <= j < 0x10000 && j != addr ==> r.mem[j] == m.mem[j]
            &&& r.mem.len() == m.mem.len()
            &&& r.reg == m.reg
            &&& r.key == m.key
        }),
{
    lemma_offset_values(i);
}

/// STR writes SR to the word at the base register plus the 6-bit
/// two's-complement offset (modulo 2^16); no other word and no register changes.
pub proof fn lemma_str_semantics(m: Machine, i: u16)
    requires
        machine_inv(m),
    ensures
        ({
            let r = exec_str(m, i);
            let addr = (m.reg[((i >> 6u16) & 0x7) as int] + signed_value((i & 0x3f) as int, 0x20))
                % 0x10000;
            &&& r.mem[addr] == m.reg[((i >> 9u16) & 0x7) as int]
            &&& forall|j: int| 0 <= j < 0x10000 && j != addr ==> r.mem[j] == m.mem[j]
            &&& r.mem.len() == m.mem.len()
            &&& r.reg == m.reg
            &&& r.key == m.key
        }),
{
    lemma_offset_values(i);
}

/// STI writes SR to the word whose address is the word at PC plus the 9-bit
/// two's-complement offset (modulo 2^16); away from KBSR no other word and no
/// register changes.
pub proof fn lemma_sti_semantics(m: Machine, i: u16)
    requires
        machine_inv(m),
    ensures
        ({
            let r = exec_sti(m, i);
            let a1 = (m.reg[8] + signed_value((i & 0x1ff) as int, 0x100)) % 0x10000;
            &&& r.reg == m.reg
            &&& a1 != MR_KBSR ==> {
                &&& r.mem[m.mem[a1] as int] == m.reg[((i >> 9u16) & 0x7) as int]
                &&& forall|j: int| 0 <= j < 0x10000 && j != m.mem[a1] ==> r.mem[j] == m.mem[j]
                &&& r.key == m.key
            }
        }),
{
    lemma_offset_values(i);
}

/// Fetching at PC (below 0xFFFF) advances PC by one and changes no other
/// register; away from KBSR it leaves memory and the keyboard alone.
pub proof fn lemma_fetch_semantics(m: Machine)
    requires
        machine_inv(m),
        m.reg[8] < 0xffff,
    ensures
        fetch(m).reg[8] == m.reg[8] + 1,
        forall|j: int| 0 <= j < 12 && j != 8 ==> fetch(m).reg[j] == m.reg[j],
        m.reg[8] != 0xfe00 ==> fetch(m).mem == m.mem && fetch(m).key == m.key,
{
}

/// A read of any address but KBSR (0xFE00) changes nothing. A read of KBSR
/// consumes the waiting key: with a key `b`, KBSR becomes 0x8000 and KBDR
/// (0xFE02) becomes `b`; with none, KBSR becomes 0 and KBDR keeps its word.
/// No other word and no register changes.
pub proof fn lemma_keyboard_read(m: Machine, addr: int)
    requires
        machine_inv(m),
        0 <= addr < 0x10000,
    ensures
        addr != 0xfe00 ==> read(m, addr) == m,
        addr == 0xfe00 ==> {
            let r = read(m, addr);
            &&& r.key is None
            &&& r.reg == m.reg
            &&& r.mem.len() == m.mem.len()
            &&& (m.key matches Some(b) ==> r.mem[0xfe00] == 0x8000 && r.mem[0xfe02] == b as u16)
            &&& (m.key is None ==> r.mem[0xfe00] == 0 && r.mem[0xfe02] == m.mem[0xfe02])
            &&& forall|j: int| 0 <= j < 0x10000 && j != 0xfe00 && j != 0xfe02 ==> r.mem[j] == m.mem[j]
        },
{
}

/// The top four bits select the instruction class: 0 BR, 1 ADD, 2 LD, 3 ST,
/// 4 JSR, 5 AND, 6 LDR, 7 STR, 9 NOT, 10 LDI, 11 STI, 12 JMP, 14 LEA; the
/// classes 8 (RTI) and 13 (reserved) do nothing here (the machine faults on them).
pub proof fn lemma_execute_dispatch(m: Machine, i: u16)
    ensures
        i >> 12u16 == 0 ==> execute(m, i) == exec_br(m, i),
        i >> 12u16 == 1 ==> execute(m, i) == exec_add(m, i),
        i >> 12u16 == 2 ==> execute(m, i) == exec_ld(m, i),
        i >> 12u16 == 3 ==> execute(m, i) == exec_st(m, i),
        i >> 12u16 == 4 ==> execute(m, i) == exec_jsr(m, i),
        i >> 12u16 == 5 ==> execute(m, i) == exec_and(m, i),
        i >> 12u16 == 6 ==> execute(m, i) == exec_ldr(m, i),
        i >> 12u16 == 7 ==> execute(m, i) == exec_str(m, i),
        i >> 12u16 == 8 ==> execute(m, i) == m,
        i >> 12u16 == 9 ==> execute(m, i) == exec_not(m, i),
        i >> 12u16 == 10 ==> execute(m, i) == exec_ldi(m, i),
        i >> 12u16 == 11 ==> execute(m, i) == exec_sti(m, i),
        i >> 12u16 == 12 ==> execute(m, i) == exec_jmp(m, i),
        i >> 12u16 == 13 ==> execute(m, i) == m,
        i >> 12u16 == 14 ==> execute(m, i) == exec_lea(m, i),
        OpCode::decode((i >> 12u16) as int) == OpCode::OP_TRAP <==> i >> 12u16 == 15,
{
}

/// Every TRAP saves PC in R7. By its low byte: 0x20 (GETC) prints nothing,
/// 0x21 (OUT) prints the low byte of R0, 0x23 (IN) prints
/// "Enter a character: ", 0x25 (HALT) prints "BYE", and a byte outside
/// 0x20..0x25 is refused; none of these changes memory or another register.
pub proof fn lemma_trap_semantics(m: Machine, i: u16)
    requires
        machine_inv(m),
    ensures
        trap_result(m, i).0.reg[7] == m.reg[8],
        forall|j: int| 0 <= j < 12 && j != 7 ==> trap_result(m, i).0.reg[j] == m.reg[j],
        ({
            let c = i & 0xff;
            let out = trap_result(m, i).1;
            &&& c == 0x20 ==> out == Ok::<(TrapCode, Seq<u8>), Fault>((TrapCode::GETC, seq![]))
            &&& c == 0x21 ==> out == Ok::<(TrapCode, Seq<u8>), Fault>((TrapCode::OUT, seq![(m.reg[0] & 0xff) as u8]))
            &&& c == 0x23 ==> out == Ok::<(TrapCode, Seq<u8>), Fault>((TrapCode::IN, seq![69u8, 110, 116, 101, 114, 32, 97, 32, 99, 104, 97, 114, 97, 99, 116, 101, 114, 58, 32]))
            &&& c == 0x25 ==> out == Ok::<(TrapCode, Seq<u8>), Fault>((TrapCode::HALT, seq![66u8, 89, 69]))
            &&& (c < 0x20 || c > 0x25) ==> out == Err::<(TrapCode, Seq<u8>), Fault>(Fault::UnknownTrap(c as u8))
            &&& (c == 0x20 || c == 0x21 || c == 0x23 || c == 0x25 || c < 0x20 || c > 0x25) ==> trap_result(m, i).0.mem == m.mem
        }),
        (i & 0xff == 0x22 || i & 0xff == 0x24) ==> trap_result(m, i).0.reg == m.reg.update(7, m.reg[8]),
{
    let m1 = Machine { reg: m.reg.update(7, m.reg[8]), ..m };
    lemma_string_out_keeps_registers(m1, m.reg[0] as int, false);
    lemma_string_out_keeps_registers(m1, m.reg[0] as int, true);
    assert(((i & 0xff) as u8) as u16 == i & 0xff) by (bit_vector);
}

/// PUTS of a string of `n` non-zero words at `a` ended by a zero word, away
/// from KBSR and before the last address, prints the low byte of each word in
/// order.
pub proof fn lemma_puts_prints_low_bytes(m: Machine, a: int, n: int)
    requires
        machine_wf(m),
        0 <= a,
        0 <= n,
        a + n < 0xffff,
        forall|j: int| a <= j < a + n ==> m.mem[j] != 0,
        m.mem[a + n] == 0,
        !(a <= 0xfe00 <= a + n),
    ensures
        string_out(m, a, false).0 == Seq::new(n as nat, |k: int| (m.mem[a + k] & 0xff) as u8),
        !string_out(m, a, false).2,
        string_out(m, a, false).1 == m,
    decreases n,
{
    if n > 0 {
        assert(m.mem[a] != 0);
        lemma_puts_prints_low_bytes(m, a + 1, n - 1);
        assert(string_out(m, a, false).0 =~= Seq::new(n as nat, |k: int| (m.mem[a + k] & 0xff) as u8));
    } else {
        assert(string_out(m, a, false).0 =~= Seq::new(0, |k: int| (m.mem[a + k] & 0xff) as u8));
    }
}

/// PUTSP of a string of `n` words at `a` whose two bytes are both non-zero,
/// ended by a zero word, away from KBSR and before the last address, prints
/// each word's low byte and then its high byte, word after word.
pub proof fn lemma_putsp_prints_low_then_high(m: Machine, a: int, n: int)
    requires
        machine_wf(m),
        0 <= a,
        0 <= n,
        a + n < 0xffff,
        forall|j: int| a <= j < a + n ==> m.mem[j] & 0xff != 0 && #[trigger] m.mem[j] >> 8u16 != 0,
        m.mem[a + n] == 0,
        !(a <= 0xfe00 <= a + n),
    ensures
        string_out(m, a, true).0 == Seq::new(
            (2 * n) as nat,
            |k: int|
                if k % 2 == 0 {
                    (m.mem[a + k / 2] & 0xff) as u8
                } else {
                    (m.mem[a + k / 2] >> 8u16) as u8
                },
        ),
        !string_out(m, a, true).2,
    decreases n,
{
    let f = |k: int|
        if k % 2 == 0 {
            (m.mem[a + k / 2] & 0xff) as u8
        } else {
            (m.mem[a + k / 2] >> 8u16) as u8
        };
    if n > 0 {
        let w = m.mem[a];
        assert(m.mem[a] & 0xff != 0 && m.mem[a] >> 8u16 != 0);
        assert(w != 0) by (bit_vector)
            requires
                w & 0xff != 0,
        ;
        lemma_putsp_prints_low_then_high(m, a + 1, n - 1);
        let g = |k: int|
            if k % 2 == 0 {
                (m.mem[a + 1 + k / 2] & 0xff) as u8
            } else {
                (m.mem[a + 1 + k / 2] >> 8u16) as u8
            };
        let rest = Seq::new((2 * (n - 1)) as nat, g);
        let whole = seq![(w & 0xff) as u8, (w >> 8u16) as u8] + rest;
        assert(string_out(m, a, true).0 == whole);
        assert forall|k: int| 0 <= k < 2 * n implies #[trigger] whole[k] == f(k) by {
            if k >= 2 {
                assert((k - 2) / 2 == k / 2 - 1);
                assert((k - 2) % 2 == k % 2);
            }
        }
        assert(string_out(m, a, true).0 =~= Seq::new((2 * n) as nat, f));
    } else {
        assert(string_out(m, a, true).0 =~= Seq::new(0, f));
    }
}

} // verus!
