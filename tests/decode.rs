use dog_vm::{DogCompileError, DogInst};

const DOG: &str = "\u{1F415}";
const PUPPY: &str = "\u{1F436}";
const CAT: &str = "\u{1F431}";

fn line(op: &str, k: usize) -> String {
    format!("{}{}{}", op, CAT, DOG.repeat(k))
}

#[test]
fn operand_counts_symbols() {
    for k in [0usize, 1, 3, 17, 300] {
        assert_eq!(DogInst::parse_line(&line(DOG, k)), Ok(DogInst::Push(k as u64)));
    }
}

#[test]
fn every_opcode_decodes() {
    let d = DOG;
    let p = PUPPY;
    let cases: Vec<(String, DogInst)> = vec![
        (d.to_string(), DogInst::Push(2)),
        (p.to_string(), DogInst::Pop(2)),
        (d.repeat(2), DogInst::Add(2)),
        (format!("{d}{p}{d}"), DogInst::Mul(2)),
        (p.repeat(3), DogInst::Print(2)),
        (p.repeat(4), DogInst::Input(2)),
        (format!("{p}{p}{p}{p}{d}"), DogInst::Jmp(2)),
        (format!("{d}{p}"), DogInst::Mov(0, 2)),
        (d.repeat(10), DogInst::Exit()),
    ];
    for (op, inst) in cases {
        assert_eq!(DogInst::parse_line(&line(&op, 2)), Ok(inst));
    }
}

#[test]
fn unknown_opcode_is_invalid_placeholder() {
    assert_eq!(DogInst::parse_line(&line(&DOG.repeat(3), 1)), Ok(DogInst::Invalid));
    assert_eq!(DogInst::parse_line(&line("", 1)), Ok(DogInst::Invalid));
    assert_eq!(DogInst::parse_line(&line("x", 1)), Ok(DogInst::Invalid));
    let near_jump = format!("{PUPPY}{PUPPY}{PUPPY}{DOG}{PUPPY}");
    assert_eq!(DogInst::parse_line(&line(&near_jump, 1)), Ok(DogInst::Invalid));
    assert_eq!(DogInst::parse_line(&line(&PUPPY.repeat(2), 1)), Ok(DogInst::Invalid));
}

#[test]
fn move_operand_splits_bytes() {
    let op = format!("{DOG}{PUPPY}");
    assert_eq!(DogInst::parse_line(&line(&op, 0x0102)), Ok(DogInst::Mov(1, 2)));
    assert_eq!(DogInst::parse_line(&line(&op, 0x0600)), Ok(DogInst::Mov(6, 0)));
    assert_eq!(DogInst::parse_line(&line(&op, 0x10305)), Ok(DogInst::Mov(3, 5)));
}

#[test]
fn missing_or_extra_delimiter_is_invalid_line() {
    let text = format!("{DOG}{DOG}");
    assert_eq!(
        DogInst::parse_line(&text),
        Err(DogCompileError::InvalidLine(text.clone()))
    );
    let text = format!("{DOG}{CAT}{DOG}{CAT}");
    assert_eq!(
        DogInst::parse_line(&text),
        Err(DogCompileError::InvalidLine(text.clone()))
    );
    assert_eq!(DogInst::parse_line(""), Err(DogCompileError::InvalidLine(String::new())));
}

#[test]
fn bad_operand_is_invalid_imm() {
    let text = format!("{DOG}{CAT}{DOG}{PUPPY}{DOG}");
    assert_eq!(
        DogInst::parse_line(&text),
        Err(DogCompileError::InvalidImm(format!("{DOG}{PUPPY}{DOG}")))
    );
    let text = format!("{DOG}{CAT} ");
    assert_eq!(DogInst::parse_line(&text), Err(DogCompileError::InvalidImm(" ".to_string())));
}

#[test]
fn parse_keeps_line_order() {
    let prog = [line(DOG, 3), line(&PUPPY.repeat(3), 1), line(&DOG.repeat(10), 0)].join("\n");
    assert_eq!(
        DogInst::parse(&prog),
        Ok(vec![DogInst::Push(3), DogInst::Print(1), DogInst::Exit()])
    );
}

#[test]
fn parse_reports_first_bad_line() {
    let bad1 = format!("{DOG}{DOG}");
    let bad2 = format!("{DOG}{CAT}x");
    let prog = [line(DOG, 1), bad1.clone(), bad2].join("\n");
    assert_eq!(DogInst::parse(&prog), Err(DogCompileError::InvalidLine(bad1)));
}

#[test]
fn parse_empty_text_is_one_bad_line() {
    assert_eq!(DogInst::parse(""), Err(DogCompileError::InvalidLine(String::new())));
}
