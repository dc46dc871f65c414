//! The register file: sixteen general registers, the index register, the
//! program counter, the stack pointer and the two timers.
use vstd::prelude::*;

verus! {

/// What a register file holds.
pub struct RegisterState {
    /// The general registers V0 to VF.
    pub v: Seq<u8>,
    pub i: u16,
    pub pc: u16,
    pub sp: u8,
    pub delay: u8,
    pub sound: u8,
}

/// The register file. Register 15 doubles as the flags register.
pub struct Registers {
    v: [u8; 16],
    i: u16,
    pc: u16,
    sp: u8,
    delay: u8,
    sound: u8,
}

impl View for Registers {
    type V = RegisterState;

    closed spec fn view(&self) -> RegisterState {
        RegisterState {
            v: self.v@,
            i: self.i,
            pc: self.pc,
            sp: self.sp,
            delay: self.delay,
            sound: self.sound,
        }
    }
}

impl Registers {
    /// Sixteen general registers, and a program counter inside the address space.
    pub open spec fn wf(&self) -> bool {
        self@.v.len() == 16 && self@.pc < 4096
    }

    /// All registers zero, the program counter at the entry point 0x200.
    pub fn new() -> (r: Registers)
        ensures
            r.wf(),
            r@.v == Seq::new(16, |k: int| 0u8),
            r@.i == 0,
            r@.pc == 0x200,
            r@.sp == 0,
            r@.delay == 0,
            r@.sound == 0,
    {
        let r = Registers { v: [0u8; 16], i: 0, pc: 0x200, sp: 0, delay: 0, sound: 0 };
        assert(r@.v =~= Seq::new(16, |k: int| 0u8));
        r
    }

    /// The value of register `x`.
    pub fn vx(&self, x: u8) -> (r: u8)
        requires
            self.wf(),
            x < 16,
        ensures
            r == self@.v[x as int],
    {
        self.v[x as usize]
    }

    /// Writes `w` to register `x` and returns the value it now holds.
    pub fn wvx(&mut self, x: u8, w: u8) -> (r: u8)
        requires
            old(self).wf(),
            x < 16,
        ensures
            final(self).wf(),
            final(self)@ == (RegisterState { v: old(self)@.v.update(x as int, w), ..old(self)@ }),
            r == w,
    {
        self.v[x as usize] = w;
        self.v[x as usize]
    }

    /// Adds `w` to register `x`, wrapping at 256, and returns the value it now holds.
    pub fn avx(&mut self, x: u8, w: u8) -> (r: u8)
        requires
            old(self).wf(),
            x < 16,
        ensures
            final(self).wf(),
            r == (old(self)@.v[x as int] + w) % 256,
            final(self)@ == (RegisterState { v: old(self)@.v.update(x as int, r), ..old(self)@ }),
    {
        let sum = self.vx(x).wrapping_add(w);
        self.wvx(x, sum)
    }

    /// The program counter.
    pub fn pc(&self) -> (r: u16)
        ensures
            r == self@.pc,
    {
        self.pc
    }

    /// Sets the program counter to an address inside the address space.
    pub fn set_pc(&mut self, pc: u16)
        requires
            old(self).wf(),
            pc < 4096,
        ensures
            final(self).wf(),
            final(self)@ == (RegisterState { pc, ..old(self)@ }),
    {
        self.pc = pc;
    }

    /// Moves the program counter one byte on, wrapping to 0 at the end of the address space.
    pub fn advance_pc(&mut self)
        requires
            old(self).wf(),
        ensures
            final(self).wf(),
            final(self)@ == (RegisterState { pc: ((old(self)@.pc + 1) % 4096) as u16, ..old(self)@ }),
    {
        if self.pc >= 4095 {
            self.pc = 0;
        } else {
            self.pc = self.pc + 1;
        }
    }

    /// The index register.
    pub fn i(&self) -> (r: u16)
        ensures
            r == self@.i,
    {
        self.i
    }

    /// Sets the index register.
    pub fn set_i(&mut self, i: u16)
        requires
            old(self).wf(),
        ensures
            final(self).wf(),
            final(self)@ == (RegisterState { i, ..old(self)@ }),
    {
        self.i = i;
    }

    /// The stack pointer.
    pub fn sp(&self) -> (r: u8)
        ensures
            r == self@.sp,
    {
        self.sp
    }

    /// The delay timer.
    pub fn delay(&self) -> (r: u8)
        ensures
            r == self@.delay,
    {
        self.delay
    }

    /// The sound timer.
    pub fn sound(&self) -> (r: u8)
        ensures
            r == self@.sound,
    {
        self.sound
    }
}

} // verus!
