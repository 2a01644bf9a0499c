use vstd::prelude::*;
use crate::error::DogRuntimeError;

verus! {

/// The register file: the scratch register (id 0), five general registers
/// (ids 1 to 5), and the program counter.
#[derive(Debug, Clone, Copy)]
pub struct DogRegs {
    pub srg: u64,
    pub r1: u64,
    pub r2: u64,
    pub r3: u64,
    pub r4: u64,
    pub r5: u64,
    pub pc: u64,
}

/// Whether `id` names a register.
pub open spec fn valid_reg(id: u64) -> bool {
    id <= 5
}

impl View for DogRegs {
    type V = Seq<u64>;

    /// The six addressable registers, indexed by id.
    open spec fn view(&self) -> Seq<u64> {
        seq![self.srg, self.r1, self.r2, self.r3, self.r4, self.r5]
    }
}

impl DogRegs {
    /// All registers and the program counter start at zero.
    pub fn new() -> (r: Self)
        ensures
            r@ == Seq::new(6, |i: int| 0u64),
            r.pc == 0,
    {
        let r = Self { srg: 0, r1: 0, r2: 0, r3: 0, r4: 0, r5: 0, pc: 0 };
        assert(r@ =~= Seq::new(6, |i: int| 0u64));
        r
    }

    /// Reads register `id`.
    pub fn get(&self, id: u64) -> (r: Result<u64, DogRuntimeError>)
        ensures
            valid_reg(id) ==> r == Ok::<u64, DogRuntimeError>(self@[id as int]),
            !valid_reg(id) ==> r == Err::<u64, DogRuntimeError>(
                DogRuntimeError::InvalidRegisterError(id),
            ),
    {
        match id {
            0 => Ok(self.srg),
            1 => Ok(self.r1),
            2 => Ok(self.r2),
            3 => Ok(self.r3),
            4 => Ok(self.r4),
            5 => Ok(self.r5),
            _ => Err(DogRuntimeError::InvalidRegisterError(id)),
        }
    }

    /// Copies register `src` into register `dst`.
    ///
    /// An id outside `0..=5` is an error naming it (the source is checked
    /// first), and then nothing changes.
    pub fn mov(&mut self, src: u64, dst: u64) -> (r: Result<(), DogRuntimeError>)
        ensures
            final(self).pc == old(self).pc,
            !valid_reg(src) ==> r == Err::<(), DogRuntimeError>(
                DogRuntimeError::InvalidRegisterError(src),
            ),
            valid_reg(src) && !valid_reg(dst) ==> r == Err::<(), DogRuntimeError>(
                DogRuntimeError::InvalidRegisterError(dst),
            ),
            r is Err ==> *final(self) == *old(self),
            valid_reg(src) && valid_reg(dst) ==> r is Ok && final(self)@ == old(self)@.update(
                dst as int,
                old(self)@[src as int],
            ),
    {
        let val = match self.get(src) {
            Ok(v) => v,
            Err(e) => return Err(e),
        };
        match dst {
            0 => self.srg = val,
            1 => self.r1 = val,
            2 => self.r2 = val,
            3 => self.r3 = val,
            4 => self.r4 = val,
            5 => self.r5 = val,
            _ => return Err(DogRuntimeError::InvalidRegisterError(dst)),
        }
        assert(self@ =~= old(self)@.update(dst as int, old(self)@[src as int]));
        Ok(())
    }
}

} // verus!
