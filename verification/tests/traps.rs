use lc3_vm::svm::{Fault, StepOutcome, Svm, PC_START};
use lc3_vm::trap::{trap_input, TrapCode};

fn machine_with(program: &[u16]) -> Svm {
    let mut svm = Svm::new();
    for (i, w) in program.iter().enumerate() {
        svm.mem_write(PC_START as usize + i, *w);
    }
    svm
}

fn run_one(svm: &mut Svm) -> StepOutcome {
    let mut key: Option<u8> = None;
    svm.step(&mut key)
}

fn request(outcome: StepOutcome) -> (TrapCode, Vec<u8>) {
    match outcome {
        StepOutcome::Trap(req) => (req.code, req.output),
        other => panic!("expected a trap, got {:?}", other),
    }
}

#[test]
fn out_writes_low_byte_of_r0() {
    let mut svm = machine_with(&[0xF021]);
    svm.reg[0] = 0x0141;
    let (code, out) = request(run_one(&mut svm));
    assert_eq!(code, TrapCode::OUT);
    assert_eq!(out, vec![0x41]);
    assert_eq!(svm.reg[7], 0x3001);
}

#[test]
fn puts_writes_one_char_per_word() {
    let mut svm = machine_with(&[0xF022]);
    svm.reg[0] = 0x4000;
    svm.mem_write(0x4000, b'H' as u16);
    svm.mem_write(0x4001, 0x0169); // high byte ignored
    let (code, out) = request(run_one(&mut svm));
    assert_eq!(code, TrapCode::PUTS);
    assert_eq!(out, b"Hi".to_vec());
}

#[test]
fn putsp_writes_two_chars_per_word() {
    let mut svm = machine_with(&[0xF024]);
    svm.reg[0] = 0x4000;
    svm.mem_write(0x4000, 0x6548); // 'H' 'e'
    svm.mem_write(0x4001, 0x0021); // '!'
    let (code, out) = request(run_one(&mut svm));
    assert_eq!(code, TrapCode::PUTSP);
    assert_eq!(out, b"He!".to_vec());
}

#[test]
fn halt_says_bye() {
    let mut svm = machine_with(&[0xF025]);
    let (code, out) = request(run_one(&mut svm));
    assert_eq!(code, TrapCode::HALT);
    assert_eq!(out, b"BYE".to_vec());
}

#[test]
fn in_prompts_reads_and_echoes() {
    let mut svm = machine_with(&[0xF023]);
    let (code, out) = request(run_one(&mut svm));
    assert_eq!(code, TrapCode::IN);
    assert!(code.reads_char());
    assert_eq!(out, b"Enter a character: ".to_vec());
    let echo = trap_input(&mut svm, &code, b'x');
    assert_eq!(echo, vec![b'x']);
    assert_eq!(svm.reg[0], 0x78);
    assert_eq!(svm.reg[9], 1);
}

#[test]
fn getc_reads_without_echo() {
    let mut svm = machine_with(&[0xF020]);
    let (code, out) = request(run_one(&mut svm));
    assert_eq!(code, TrapCode::GETC);
    assert!(out.is_empty());
    svm.reg[0] = 5;
    let echo = trap_input(&mut svm, &code, 0);
    assert!(echo.is_empty());
    assert_eq!(svm.reg[0], 0);
    assert_eq!(svm.reg[9], 2);
}

#[test]
fn unknown_trap_vector_faults() {
    let mut svm = machine_with(&[0xF026]);
    assert!(matches!(run_one(&mut svm), StepOutcome::Fault(Fault::UnknownTrap(0x26))));
    assert_eq!(svm.reg[7], 0x3001);
}

#[test]
fn string_past_the_last_address_faults() {
    let mut svm = machine_with(&[0xF022]);
    svm.reg[0] = 0xFFFE;
    svm.mem_write(0xFFFE, 1);
    svm.mem_write(0xFFFF, 2);
    assert!(matches!(run_one(&mut svm), StepOutcome::Fault(Fault::StringOverrun)));
}

#[test]
fn trap_codes_roundtrip() {
    for c in 0x20u8..=0x25 {
        assert_eq!(TrapCode::new(c).code(), c);
    }
    assert!(!TrapCode::OUT.reads_char());
}
