use vstd::prelude::*;
use crate::error::DogCompileError;

verus! {

/// The symbol that builds opcodes and, repeated, operands.
pub const DOG: char = '\u{1F415}';

/// The second opcode symbol.
pub const PUPPY: char = '\u{1F436}';

/// The symbol that separates the opcode field from the operand field.
pub const CAT: char = '\u{1F431}';

/// The symbol that separates the lines of a program.
pub const NEWLINE: char = '\n';

/// One decoded instruction.
#[derive(Debug, Clone, Copy, PartialEq, Eq)]
pub enum DogInst {
    /// Push the operand.
    Push(u64),
    /// Pop this many values into the scratch register.
    Pop(u64),
    /// Push general register 1 plus the operand.
    Add(u64),
    /// Push general register 1 times the operand.
    Mul(u64),
    /// Pop this many values and print their low bytes as text.
    Print(u64),
    /// Read input: not supported.
    Input(u64),
    /// Continue at this address.
    Jmp(u64),
    /// Copy register `.0` into register `.1`.
    Mov(u64, u64),
    /// Stop with success.
    Exit(),
    /// An unknown opcode, which faults when executed.
    Invalid,
}

/// A decoding error with its text as a sequence of characters.
pub enum CompileFault {
    Imm(Seq<char>),
    Opc(Seq<char>),
    Line(Seq<char>),
}

impl View for DogCompileError {
    type V = CompileFault;

    open spec fn view(&self) -> CompileFault {
        match self {
            DogCompileError::InvalidImm(s) => CompileFault::Imm(s@),
            DogCompileError::InvalidOpc(s) => CompileFault::Opc(s@),
            DogCompileError::InvalidLine(s) => CompileFault::Line(s@),
        }
    }
}

/// The fields of `s` between occurrences of `d`; there is always at least
/// one field, and `k` occurrences give `k + 1` fields.
pub open spec fn split(s: Seq<char>, d: char) -> Seq<Seq<char>>
    decreases s.len(),
{
    if s.len() == 0 {
        seq![Seq::empty()]
    } else {
        let p = split(s.drop_last(), d);
        if s.last() == d {
            p.push(Seq::empty())
        } else {
            p.update(p.len() - 1, p.last().push(s.last()))
        }
    }
}

/// Every character of `s` is `c`.
pub open spec fn is_run(s: Seq<char>, c: char) -> bool {
    forall|i: int| 0 <= i < s.len() ==> s[i] == c
}

/// The value of an operand field: the number of operand symbols, or `None`
/// where the field holds another character.
pub open spec fn operand_value(f: Seq<char>) -> Option<u64> {
    if is_run(f, DOG) {
        Some(f.len() as u64)
    } else {
        None
    }
}

/// The instruction that opcode field `op` selects, with operand `n`.
pub open spec fn decode_op(op: Seq<char>, n: u64) -> DogInst {
    if op == seq![DOG] {
        DogInst::Push(n)
    } else if op == seq![PUPPY] {
        DogInst::Pop(n)
    } else if op == seq![DOG, DOG] {
        DogInst::Add(n)
    } else if op == seq![DOG, PUPPY, DOG] {
        DogInst::Mul(n)
    } else if op == seq![PUPPY, PUPPY, PUPPY] {
        DogInst::Print(n)
    } else if op == seq![PUPPY, PUPPY, PUPPY, PUPPY] {
        DogInst::Input(n)
    } else if op == seq![PUPPY, PUPPY, PUPPY, PUPPY, DOG] {
        DogInst::Jmp(n)
    } else if op == seq![DOG, PUPPY] {
        DogInst::Mov(((n / 256) % 256) as u64, (n % 256) as u64)
    } else if op == Seq::new(10, |i: int| DOG) {
        DogInst::Exit()
    } else {
        DogInst::Invalid
    }
}

/// How one line decodes.
pub open spec fn decode_line(s: Seq<char>) -> Result<DogInst, CompileFault> {
    let parts = split(s, CAT);
    if parts.len() != 2 {
        Err(CompileFault::Line(s))
    } else {
        match operand_value(parts[1]) {
            None => Err(CompileFault::Imm(parts[1])),
            Some(n) => Ok(decode_op(parts[0], n)),
        }
    }
}

/// How a sequence of lines decodes: every line in order, or the error of
/// the first line that fails.
pub open spec fn decode_lines(ls: Seq<Seq<char>>) -> Result<Seq<DogInst>, CompileFault>
    decreases ls.len(),
{
    if ls.len() == 0 {
        Ok(Seq::empty())
    } else {
        match decode_lines(ls.drop_last()) {
            Err(e) => Err(e),
            Ok(v) => match decode_line(ls.last()) {
                Err(e) => Err(e),
                Ok(i) => Ok(v.push(i)),
            },
        }
    }
}

/// How a whole program decodes.
pub open spec fn decode_program(s: Seq<char>) -> Result<Seq<DogInst>, CompileFault> {
    decode_lines(split(s, NEWLINE))
}

/// The view of a decoding result.
pub open spec fn result_view<T>(r: Result<T, DogCompileError>) -> Result<T, CompileFault> {
    match r {
        Ok(v) => Ok(v),
        Err(e) => Err(e@),
    }
}

/// The characters of `s`.
fn chars_of(s: &str) -> (r: Vec<char>)
    ensures
        r@ == s@,
{
    let mut r: Vec<char> = Vec::new();
    for c in it: s.chars()
        invariant
            r@ == it.seq().take(it.index() as int),
            it.seq() == s@,
    {
        r.push(c);
    }
    r
}

/// The bounds of the fields of `cs@[a..b]` separated by `d`, as absolute
/// positions in `cs`.
fn split_fields(cs: &Vec<char>, a: usize, b: usize, d: char) -> (r: Vec<(usize, usize)>)
    requires
        a <= b <= cs@.len(),
    ensures
        r@.len() == split(cs@.subrange(a as int, b as int), d).len(),
        forall|j: int|
            0 <= j < r@.len() ==> a <= #[trigger] r@[j].0 <= r@[j].1 <= b && cs@.subrange(
                r@[j].0 as int,
                r@[j].1 as int,
            ) == split(cs@.subrange(a as int, b as int), d)[j],
{
    let mut r: Vec<(usize, usize)> = Vec::new();
    let mut start: usize = a;
    let mut i: usize = a;
    assert(cs@.subrange(a as int, a as int) =~= Seq::<char>::empty());
    while i < b
        invariant
            a <= start <= i <= b <= cs@.len(),
            split(cs@.subrange(a as int, i as int), d).len() == r@.len() + 1,
            split(cs@.subrange(a as int, i as int), d)[r@.len() as int] == cs@.subrange(
                start as int,
                i as int,
            ),
            forall|j: int|
                0 <= j < r@.len() ==> a <= #[trigger] r@[j].0 <= r@[j].1 <= i && cs@.subrange(
                    r@[j].0 as int,
                    r@[j].1 as int,
                ) == split(cs@.subrange(a as int, i as int), d)[j],
        decreases b - i,
    {
        let c = cs[i];
        assert(cs@.subrange(a as int, i + 1).drop_last() =~= cs@.subrange(a as int, i as int));
        if c == d {
            r.push((start, i));
            start = i + 1;
            assert(cs@.subrange(start as int, i + 1) =~= Seq::<char>::empty());
        } else {
            assert(cs@.subrange(start as int, i + 1) =~= cs@.subrange(start as int, i as int).push(c));
        }
        i = i + 1;
        assert(split(cs@.subrange(a as int, i as int), d).len() == r@.len() + 1);
    }
    r.push((start, b));
    r
}

/// Whether every character of `cs@[a..b]` is `c`.
fn run_of(cs: &Vec<char>, a: usize, b: usize, c: char) -> (r: bool)
    requires
        a <= b <= cs@.len(),
    ensures
        r == is_run(cs@.subrange(a as int, b as int), c),
{
    let mut i: usize = a;
    while i < b
        invariant
            a <= i <= b <= cs@.len(),
            is_run(cs@.subrange(a as int, i as int), c),
        decreases b - i,
    {
        if cs[i] != c {
            assert(cs@.subrange(a as int, b as int)[i - a] == cs@[i as int]);
            return false;
        }
        i = i + 1;
        assert(is_run(cs@.subrange(a as int, i as int), c)) by {
            assert forall|k: int| 0 <= k < i - a implies cs@.subrange(a as int, i as int)[k] == c by {
                if k < i - 1 - a {
                    assert(cs@.subrange(a as int, i - 1)[k] == c);
                }
            }
        }
    }
    true
}

/// The instruction that opcode field `cs@[a..b]` selects, with operand `n`.
fn decode_opcode(cs: &Vec<char>, a: usize, b: usize, n: u64) -> (r: DogInst)
    requires
        a <= b <= cs@.len(),
    ensures
        r == decode_op(cs@.subrange(a as int, b as int), n),
{
    let ghost op = cs@.subrange(a as int, b as int);
    let len = b - a;
    let dogs = run_of(cs, a, b, DOG);
    let puppies = run_of(cs, a, b, PUPPY);
    proof {
        assert(dogs ==> op.len() == 1 ==> op =~= seq![DOG]);
        assert(dogs ==> op.len() == 2 ==> op =~= seq![DOG, DOG]);
        assert(dogs ==> op.len() == 10 ==> op =~= Seq::new(10, |i: int| DOG));
        assert(puppies ==> op.len() == 1 ==> op =~= seq![PUPPY]);
        assert(puppies ==> op.len() == 3 ==> op =~= seq![PUPPY, PUPPY, PUPPY]);
        assert(puppies ==> op.len() == 4 ==> op =~= seq![PUPPY, PUPPY, PUPPY, PUPPY]);
        assert(op == seq![DOG] ==> op[0] == DOG && dogs);
        assert(op == seq![PUPPY] ==> op[0] == PUPPY && puppies);
        assert(op == seq![DOG, DOG] ==> op[1] == DOG && dogs);
        assert(op == seq![PUPPY, PUPPY, PUPPY] ==> op[2] == PUPPY && puppies);
        assert(op == seq![PUPPY, PUPPY, PUPPY, PUPPY] ==> op[3] == PUPPY && puppies);
        assert(op == Seq::new(10, |i: int| DOG) ==> dogs);
    }
    if len == 1 && dogs {
        DogInst::Push(n)
    } else if len == 1 && puppies {
        DogInst::Pop(n)
    } else if len == 2 && dogs {
        DogInst::Add(n)
    } else if len == 3 && cs[a] == DOG && cs[a + 1] == PUPPY && cs[a + 2] == DOG {
        assert(op =~= seq![DOG, PUPPY, DOG]);
        DogInst::Mul(n)
    } else if len == 3 && puppies {
        DogInst::Print(n)
    } else if len == 4 && puppies {
        DogInst::Input(n)
    } else if len == 5 && cs[a] == PUPPY && cs[a + 1] == PUPPY && cs[a + 2] == PUPPY && cs[a + 3]
        == PUPPY && cs[a + 4] == DOG {
        assert(op =~= seq![PUPPY, PUPPY, PUPPY, PUPPY, DOG]);
        DogInst::Jmp(n)
    } else if len == 2 && cs[a] == DOG && cs[a + 1] == PUPPY {
        assert(op =~= seq![DOG, PUPPY]);
        DogInst::Mov((n / 256) % 256, n % 256)
    } else if len == 10 && dogs {
        DogInst::Exit()
    } else {
        proof {
            if op == seq![DOG, PUPPY, DOG] {
                assert(op[0] == DOG && op[1] == PUPPY && op[2] == DOG);
            }
            if op == seq![PUPPY, PUPPY, PUPPY, PUPPY, DOG] {
                assert(op[0] == PUPPY && op[1] == PUPPY && op[2] == PUPPY);
                assert(op[3] == PUPPY && op[4] == DOG);
            }
            if op == seq![DOG, PUPPY] {
                assert(op[0] == DOG && op[1] == PUPPY);
            }
        }
        DogInst::Invalid
    }
}

/// Once a prefix of the lines fails to decode, the whole sequence fails
/// with the same error.
pub proof fn lemma_decode_lines_prefix_error(ls: Seq<Seq<char>>, k: int)
    requires
        0 <= k <= ls.len(),
        decode_lines(ls.take(k)) is Err,
    ensures
        decode_lines(ls) == decode_lines(ls.take(k)),
    decreases ls.len(),
{
    if k == ls.len() {
        assert(ls.take(k) =~= ls);
    } else {
        assert(ls.drop_last().take(k) =~= ls.take(k));
        lemma_decode_lines_prefix_error(ls.drop_last(), k);
    }
}

/// Decodes the line `cs@[a..b]`, where `cs` holds the characters of `text`.
fn decode_range(text: &str, cs: &Vec<char>, a: usize, b: usize) -> (r: Result<
    DogInst,
    DogCompileError,
>)
    requires
        cs@ == text@,
        a <= b <= cs@.len(),
    ensures
        result_view(r) == decode_line(cs@.subrange(a as int, b as int)),
{
    let ghost line = cs@.subrange(a as int, b as int);
    let parts = split_fields(cs, a, b, CAT);
    if parts.len() != 2 {
        return Err(DogCompileError::InvalidLine(text.substring_char(a, b).to_owned()));
    }
    let (opc_from, opc_to) = parts[0];
    let (opr_from, opr_to) = parts[1];
    assert(parts@[1].0 == opr_from);
    assert(parts@[0].0 == opc_from);
    if !run_of(cs, opr_from, opr_to, DOG) {
        return Err(DogCompileError::InvalidImm(text.substring_char(opr_from, opr_to).to_owned()));
    }
    let n = (opr_to - opr_from) as u64;
    Ok(decode_opcode(cs, opc_from, opc_to, n))
}

impl DogInst {
    /// Decodes one line: an opcode field and an operand field separated by
    /// a single cat.
    pub fn parse_line(line: &str) -> (r: Result<Self, DogCompileError>)
        ensures
            result_view(r) == decode_line(line@),
    {
        let cs = chars_of(line);
        assert(cs@.subrange(0, cs@.len() as int) =~= cs@);
        decode_range(line, &cs, 0, cs.len())
    }

    /// Decodes a program, one instruction per line; the lines are separated
    /// by `'\n'`. The first line that does not decode decides the error.
    pub fn parse(prog: &str) -> (r: Result<Vec<Self>, DogCompileError>)
        ensures
            match r {
                Ok(v) => decode_program(prog@) == Ok::<Seq<DogInst>, CompileFault>(v@),
                Err(e) => decode_program(prog@) == Err::<Seq<DogInst>, CompileFault>(e@),
            },
    {
        let cs = chars_of(prog);
        let ghost ls = split(prog@, NEWLINE);
        assert(cs@.subrange(0, cs@.len() as int) =~= cs@);
        let lines = split_fields(&cs, 0, cs.len(), NEWLINE);
        let mut insts: Vec<DogInst> = Vec::new();
        let mut k: usize = 0;
        assert(ls.take(0) =~= Seq::<Seq<char>>::empty());
        while k < lines.len()
            invariant
                cs@ == prog@,
                ls == split(prog@, NEWLINE),
                lines@.len() == ls.len(),
                forall|j: int|
                    0 <= j < lines@.len() ==> #[trigger] lines@[j].0 <= lines@[j].1 <= cs@.len()
                        && cs@.subrange(lines@[j].0 as int, lines@[j].1 as int) == ls[j],
                0 <= k <= lines@.len(),
                decode_lines(ls.take(k as int)) == Ok::<Seq<DogInst>, CompileFault>(insts@),
            decreases lines@.len() - k,
        {
            let (from, to) = lines[k];
            assert(lines@[k as int].0 == from);
            assert(ls.take(k + 1).drop_last() =~= ls.take(k as int));
            assert(ls.take(k + 1).last() == ls[k as int]);
            match decode_range(prog, &cs, from, to) {
                Ok(inst) => {
                    insts.push(inst);
                },
                Err(e) => {
                    proof {
                        lemma_decode_lines_prefix_error(ls, k + 1);
                    }
                    return Err(e);
                },
            }
            k = k + 1;
        }
        assert(ls.take(k as int) =~= ls);
        Ok(insts)
    }
}

} // verus!
