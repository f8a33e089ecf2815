# lc3_vm

A virtual machine for the LC-3 instruction set, verified with Verus.

- `src/isa.rs`: registers, opcodes, condition codes, byte swapping and sign extension.
- `src/instructions.rs`: the bit layouts of instruction words and the decoded instructions.
- `src/svm.rs`: the machine, a model of the ISA (`Machine`, `execute`, `fetch`), and the
  execution of every instruction against it, including the memory-mapped keyboard.
- `src/trap.rs`: the trap routines; the ones that print or read characters are requests
  that the caller completes.
- `src/laws.rs`: properties that span instructions or hold of every reachable state.
- `app/main.rs`: the terminal program: raw keyboard input, loading the image file, and the
  loop that runs the machine and performs its traps' I/O.
