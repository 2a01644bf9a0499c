//! Properties of decoding and execution, stated over the specifications
//! that the executable functions follow.

use vstd::prelude::*;
use crate::error::DogRuntimeError;
use crate::inst::{
    decode_line, decode_lines, decode_op, decode_program, lemma_decode_lines_prefix_error,
    operand_value, split, CompileFault, DogInst, CAT, DOG, NEWLINE,
};
use crate::regs::valid_reg;
use crate::vm::{exec_spec, step_spec, wrap, Outcome, VmView};

verus! {

/// An operand field of `k` operand symbols has the value `k`.
pub proof fn lemma_operand_repetitions(k: nat)
    requires
        k <= u64::MAX,
    ensures
        operand_value(Seq::new(k, |i: int| DOG)) == Some(k as u64),
{
}

/// Splitting never yields an empty list of fields.
proof fn lemma_split_len(s: Seq<char>, d: char)
    ensures
        split(s, d).len() >= 1,
    decreases s.len(),
{
    if s.len() > 0 {
        lemma_split_len(s.drop_last(), d);
    }
}

/// Appending characters other than `d` extends the last field.
proof fn lemma_split_append(x: Seq<char>, b: Seq<char>, d: char)
    requires
        !b.contains(d),
    ensures
        split(x + b, d) == split(x, d).update(
            split(x, d).len() - 1,
            split(x, d).last() + b,
        ),
    decreases b.len(),
{
    lemma_split_len(x, d);
    if b.len() == 0 {
        assert(x + b =~= x);
        assert(split(x, d).last() + b =~= split(x, d).last());
        assert(split(x, d).update(split(x, d).len() - 1, split(x, d).last()) =~= split(x, d));
    } else {
        let c = b.last();
        assert(b.contains(c) ==> c != d);
        assert(b[b.len() - 1] == c);
        assert(!b.drop_last().contains(d)) by {
            if b.drop_last().contains(d) {
                let i = choose|i: int| 0 <= i < b.drop_last().len() && b.drop_last()[i] == d;
                assert(b[i] == d);
            }
        }
        lemma_split_append(x, b.drop_last(), d);
        assert((x + b).drop_last() =~= x + b.drop_last());
        assert((x + b).last() == c);
        assert((split(x, d).last() + b.drop_last()).push(c) =~= split(x, d).last() + b);
        assert(split(x + b, d) =~= split(x, d).update(
            split(x, d).len() - 1,
            split(x, d).last() + b,
        ));
    }
}

/// A line made of an opcode field `op` without a cat, one cat, and `k`
/// operand symbols decodes to the instruction of `op` with operand `k`.
pub proof fn lemma_line_operand(op: Seq<char>, k: nat)
    requires
        !op.contains(CAT),
        k <= u64::MAX,
    ensures
        decode_line(op + seq![CAT] + Seq::new(k, |i: int| DOG)) == Ok::<DogInst, CompileFault>(
            decode_op(op, k as u64),
        ),
{
    let dogs = Seq::new(k, |i: int| DOG);
    assert(!dogs.contains(CAT)) by {
        if dogs.contains(CAT) {
            let i = choose|i: int| 0 <= i < dogs.len() && dogs[i] == CAT;
            assert(dogs[i] == DOG);
        }
    }
    lemma_split_append(Seq::empty(), op, CAT);
    assert(Seq::<char>::empty() + op =~= op);
    let x = op + seq![CAT];
    assert(x.drop_last() =~= op);
    assert(split(x, CAT) =~= seq![op, Seq::empty()]);
    lemma_split_append(x, dogs, CAT);
    assert(Seq::<char>::empty() + dogs =~= dogs);
    assert(split(x + dogs, CAT) =~= seq![op, dogs]);
}

/// How many times `c` occurs in `s`.
pub open spec fn occurrences(s: Seq<char>, c: char) -> nat
    decreases s.len(),
{
    if s.len() == 0 {
        0
    } else {
        occurrences(s.drop_last(), c) + if s.last() == c {
            1nat
        } else {
            0nat
        }
    }
}

/// Splitting at `d` gives one field more than `d` occurs.
proof fn lemma_split_occurrences(s: Seq<char>, d: char)
    ensures
        split(s, d).len() == occurrences(s, d) + 1,
    decreases s.len(),
{
    if s.len() > 0 {
        lemma_split_occurrences(s.drop_last(), d);
        lemma_split_len(s.drop_last(), d);
    }
}

/// A program whose first line does not hold exactly one cat does not
/// decode: it fails with that line, whatever the other lines are.
pub proof fn lemma_bad_first_line(prog: Seq<char>)
    requires
        occurrences(split(prog, NEWLINE)[0], CAT) != 1,
    ensures
        decode_program(prog) == Err::<Seq<DogInst>, CompileFault>(
            CompileFault::Line(split(prog, NEWLINE)[0]),
        ),
{
    let ls = split(prog, NEWLINE);
    lemma_split_len(prog, NEWLINE);
    lemma_split_occurrences(ls[0], CAT);
    assert(ls.take(1).drop_last() =~= Seq::<Seq<char>>::empty());
    assert(ls.take(1).last() == ls[0]);
    assert(decode_lines(ls.take(1).drop_last()) == Ok::<Seq<DogInst>, CompileFault>(Seq::empty()));
    assert(decode_line(ls[0]) == Err::<DogInst, CompileFault>(CompileFault::Line(ls[0])));
    assert(decode_lines(ls.take(1)) == Err::<Seq<DogInst>, CompileFault>(
        CompileFault::Line(ls[0]),
    ));
    lemma_decode_lines_prefix_error(ls, 1);
}

/// Pushing `n` and then popping one value leaves `n` in the scratch
/// register and the stack as it was before the push.
pub proof fn lemma_push_then_pop(s: VmView, n: u64)
    requires
        s.regs.len() == 6,
    ensures
        ({
            let (s1, o1) = exec_spec(DogInst::Push(n), s);
            let (s2, o2) = exec_spec(DogInst::Pop(1), s1);
            &&& o1 == Outcome::Continue
            &&& o2 == Outcome::Continue
            &&& s2.regs[0] == n
            &&& s2.stack == s.stack
        }),
{
    let s1 = exec_spec(DogInst::Push(n), s).0;
    assert(s1.stack.take(s1.stack.len() - 1) =~= s.stack);
}

/// Popping `n` values from a stack with fewer than `n` is a fault that
/// changes nothing; otherwise exactly the top `n` values are removed.
pub proof fn lemma_pop_count(s: VmView, n: u64)
    ensures
        s.stack.len() < n ==> exec_spec(DogInst::Pop(n), s) == (
        s,
        Outcome::Failed(DogRuntimeError::EmptyStackError()),
        ),
        s.stack.len() >= n ==> ({
            let (s1, o) = exec_spec(DogInst::Pop(n), s);
            &&& o == Outcome::Continue
            &&& s1.stack.len() == s.stack.len() - n
            &&& s1.stack == s.stack.take(s.stack.len() - n)
        }),
{
}

/// `Add(n)` does exactly what pushing general register 1 plus `n` (modulo
/// 2^64) does, and leaves general register 1 as it was.
pub proof fn lemma_add_is_push(s: VmView, n: u64)
    requires
        s.regs.len() == 6,
    ensures
        exec_spec(DogInst::Add(n), s) == exec_spec(DogInst::Push(wrap(s.regs[1] + n)), s),
        exec_spec(DogInst::Add(n), s).0.regs[1] == s.regs[1],
{
}

/// `Mul(n)` pushes zero when general register 1 or `n` is zero.
pub proof fn lemma_mul_by_zero(s: VmView, n: u64)
    requires
        s.regs[1] == 0 || n == 0,
    ensures
        exec_spec(DogInst::Mul(n), s) == exec_spec(DogInst::Push(0), s),
{
    assert(s.regs[1] * n == 0) by (nonlinear_arith)
        requires
            s.regs[1] == 0 || n == 0,
    ;
}

/// After a jump to `t`, wherever it stands, the next fetch is of the
/// instruction at `t`, or faults with `t` where there is none.
pub proof fn lemma_jump_lands(p: Seq<DogInst>, s: VmView, t: u64)
    requires
        s.pc < p.len(),
        p[s.pc as int] == DogInst::Jmp(t),
    ensures
        ({
            let (s1, o) = step_spec(p, s);
            &&& o == Outcome::Continue
            &&& s1.pc == t
            &&& t < p.len() ==> step_spec(p, s1) == exec_spec(p[t as int], s1)
            &&& t >= p.len() ==> step_spec(p, s1) == (
            s1,
            Outcome::Failed(DogRuntimeError::InvalidPcError(t)),
            )
        }),
{
}

/// A move between valid registers leaves the destination holding the
/// source's earlier value; an id outside `0..=5` is a fault naming it.
pub proof fn lemma_move(s: VmView, src: u64, dst: u64)
    requires
        s.regs.len() == 6,
    ensures
        valid_reg(src) && valid_reg(dst) ==> ({
            let (s1, o) = exec_spec(DogInst::Mov(src, dst), s);
            o == Outcome::Continue && s1.regs[dst as int] == s.regs[src as int]
        }),
        !valid_reg(src) ==> exec_spec(DogInst::Mov(src, dst), s).1 == Outcome::Failed(
            DogRuntimeError::InvalidRegisterError(src),
        ),
        valid_reg(src) && !valid_reg(dst) ==> exec_spec(DogInst::Mov(src, dst), s).1
            == Outcome::Failed(DogRuntimeError::InvalidRegisterError(dst)),
{
}

} // verus!
