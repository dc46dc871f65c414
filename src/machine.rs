//! The machine: address space, register file and framebuffer, and the
//! fetch-decode-execute cycle that runs on them.
use vstd::prelude::*;
use crate::pixel::{Pixel, Display, screen_of, screen_wf, blank_screen, blank_display, is_set, flip};
use crate::registers::{Registers, RegisterState};

verus! {

/// Address at which a program image is loaded, and where execution starts.
pub const PROGRAM_START: usize = 0x200;

/// The longest program image that fits: 4096 - 0x200 bytes.
pub const MAX_PROGRAM_LEN: usize = 3584;

/// Period of one cycle, in milliseconds.
pub const CYCLE_MILLIS: u64 = 50;

/// Why a program image was not loaded.
#[derive(Clone, Copy, PartialEq, Eq, Structural, Debug)]
pub enum RomError {
    /// The image is longer than the space above 0x200.
    TooBig,
}

/// What a machine holds.
pub struct MachineState {
    pub memory: Seq<u8>,
    pub regs: RegisterState,
    pub display: Seq<Seq<Pixel>>,
}

/// The program counter one byte on, wrapping to 0 at 4096.
pub open spec fn next_pc(pc: u16) -> u16 {
    ((pc + 1) % 4096) as u16
}

/// The state after one fetch: the counter has moved one byte on.
pub open spec fn fetched(s: MachineState) -> MachineState {
    MachineState { regs: RegisterState { pc: next_pc(s.regs.pc), ..s.regs }, ..s }
}

/// The byte that a fetch reads.
pub open spec fn fetch_byte(s: MachineState) -> u8 {
    s.memory[s.regs.pc as int]
}

/// The four 4-bit fields of an instruction made of bytes `a` and `b`.
pub open spec fn fields(a: u8, b: u8) -> (u8, u8, u8, u8) {
    ((a / 16) as u8, (a % 16) as u8, (b / 16) as u8, (b % 16) as u8)
}

/// The 12-bit address made of three fields, most significant first.
pub open spec fn address(a: u8, b: u8, c: u8) -> u16 {
    (a * 256 + b * 16 + c) as u16
}

/// The byte made of two fields, most significant first.
pub open spec fn immediate(hi: u8, lo: u8) -> u8 {
    (hi * 16 + lo) as u8
}

/// Whether the fields name one of the operations the machine carries out.
pub open spec fn is_known(f: (u8, u8, u8, u8)) -> bool {
    ||| f == (0u8, 0u8, 0u8, 0u8)
    ||| f == (0u8, 0u8, 0xEu8, 0u8)
    ||| f.0 == 1
    ||| f.0 == 6
    ||| f.0 == 7
    ||| f.0 == 0xA
    ||| f.0 == 0xD
}

/// The state with a program image copied in at 0x200.
pub open spec fn loaded(s: MachineState, rom: Seq<u8>) -> MachineState {
    MachineState {
        memory: Seq::new(
            4096,
            |a: int|
                if 0x200 <= a < 0x200 + rom.len() {
                    rom[a - 0x200]
                } else {
                    s.memory[a]
                },
        ),
        ..s
    }
}

/// How far below the sprite's origin row `r` lies, wrapping at the bottom edge.
pub open spec fn row_offset(oy: int, r: int) -> int {
    (r - oy) % 32
}

/// How far right of the sprite's origin column `c` lies, wrapping at the right edge.
pub open spec fn col_offset(ox: int, c: int) -> int {
    (c - ox) % 64
}

/// Bit `k` of `b`, counting from the least significant.
pub open spec fn bit_set(b: u8, k: u8) -> bool {
    (b >> k) & 1u8 == 1u8
}

/// Whether the sprite byte for row offset `dr` has a set bit at column offset `dc`.
pub open spec fn sprite_bit(memory: Seq<u8>, index: u16, dr: int, dc: int) -> bool {
    bit_set(memory[(index + dr) % 4096], (7 - dc) as u8)
}

/// Whether the draw has reached cell (`r`, `c`) once `rows` whole rows and then
/// `cols` columns of the next have been drawn.
pub open spec fn reached(ox: int, oy: int, rows: int, cols: int, r: int, c: int) -> bool {
    let dr = row_offset(oy, r);
    let dc = col_offset(ox, c);
    dc < 8 && (dr < rows || (dr == rows && dc < cols))
}

/// Whether the sprite flips cell (`r`, `c`) within the part drawn so far.
pub open spec fn flips(
    memory: Seq<u8>,
    index: u16,
    ox: int,
    oy: int,
    rows: int,
    cols: int,
    r: int,
    c: int,
) -> bool {
    reached(ox, oy, rows, cols, r, c) && sprite_bit(memory, index, row_offset(oy, r), col_offset(ox, c))
}

/// The screen once part of a sprite has been drawn onto `d` by exclusive or.
pub open spec fn drawn(
    d: Seq<Seq<Pixel>>,
    memory: Seq<u8>,
    index: u16,
    ox: int,
    oy: int,
    rows: int,
    cols: int,
) -> Seq<Seq<Pixel>> {
    Seq::new(
        32,
        |r: int|
            Seq::new(
                64,
                |c: int|
                    if flips(memory, index, ox, oy, rows, cols, r, c) {
                        flip(d[r][c])
                    } else {
                        d[r][c]
                    },
            ),
    )
}

/// Whether part of a sprite drawn onto `d` clears a cell that was set.
pub open spec fn collides(
    d: Seq<Seq<Pixel>>,
    memory: Seq<u8>,
    index: u16,
    ox: int,
    oy: int,
    rows: int,
    cols: int,
) -> bool {
    exists|r: int, c: int|
        0 <= r < 32 && 0 <= c < 64 && #[trigger] flips(memory, index, ox, oy, rows, cols, r, c)
            && is_set(d[r][c])
}

/// The sprite's origin column: register `x` modulo 64.
pub open spec fn origin_x(s: MachineState, x: u8) -> int {
    (s.regs.v[x as int] % 64) as int
}

/// The sprite's origin row: register `y` modulo 32.
pub open spec fn origin_y(s: MachineState, y: u8) -> int {
    (s.regs.v[y as int] % 32) as int
}

/// The state after drawing the `n`-row sprite at the index register, with its
/// origin taken from registers `x` and `y`; register 15 tells whether a set
/// cell was cleared.
pub open spec fn draw_spec(s: MachineState, x: u8, y: u8, n: u8) -> MachineState {
    let ox = origin_x(s, x);
    let oy = origin_y(s, y);
    let hit = collides(s.display, s.memory, s.regs.i, ox, oy, n as int, 0);
    MachineState {
        regs: RegisterState { v: s.regs.v.update(15, if hit { 1u8 } else { 0u8 }), ..s.regs },
        display: drawn(s.display, s.memory, s.regs.i, ox, oy, n as int, 0),
        ..s
    }
}

/// The state after executing the instruction made of bytes `a` and `b`.
pub open spec fn execute_spec(s: MachineState, a: u8, b: u8) -> MachineState {
    let f = fields(a, b);
    if f == (0u8, 0u8, 0xEu8, 0u8) {
        MachineState { display: blank_screen(), ..s }
    } else if f.0 == 1 {
        MachineState { regs: RegisterState { pc: address(f.1, f.2, f.3), ..s.regs }, ..s }
    } else if f.0 == 6 {
        MachineState {
            regs: RegisterState { v: s.regs.v.update(f.1 as int, immediate(f.2, f.3)), ..s.regs },
            ..s
        }
    } else if f.0 == 7 {
        MachineState {
            regs: RegisterState {
                v: s.regs.v.update(f.1 as int, ((s.regs.v[f.1 as int] + immediate(f.2, f.3)) % 256) as u8),
                ..s.regs
            },
            ..s
        }
    } else if f.0 == 0xA {
        MachineState { regs: RegisterState { i: address(f.1, f.2, f.3), ..s.regs }, ..s }
    } else if f.0 == 0xD {
        draw_spec(s, f.1, f.2, f.3)
    } else {
        s
    }
}

/// The state after one cycle: two fetches, then the instruction they read.
pub open spec fn step_spec(s: MachineState) -> MachineState {
    let a = fetch_byte(s);
    let s1 = fetched(s);
    let b = fetch_byte(s1);
    execute_spec(fetched(s1), a, b)
}

/// The row `dr` below origin `oy`, wrapped, lies exactly `dr` below it.
proof fn lemma_row_offset(oy: int, dr: int)
    requires
        0 <= oy < 32,
        0 <= dr < 32,
    ensures
        row_offset(oy, (dr + oy) % 32) == dr,
        forall|r: int| 0 <= r < 32 && row_offset(oy, r) == dr ==> r == (dr + oy) % 32,
{
    assert(row_offset(oy, (dr + oy) % 32) == dr) by (nonlinear_arith)
        requires
            0 <= oy < 32,
            0 <= dr < 32,
    ;
    assert forall|r: int| 0 <= r < 32 && row_offset(oy, r) == dr implies r == (dr + oy) % 32 by {
        assert(r == (dr + oy) % 32) by (nonlinear_arith)
            requires
                0 <= oy < 32,
                0 <= r < 32,
                (r - oy) % 32 == dr,
        ;
    }
}

/// The column `dc` right of origin `ox`, wrapped, lies exactly `dc` right of it.
proof fn lemma_col_offset(ox: int, dc: int)
    requires
        0 <= ox < 64,
        0 <= dc < 64,
    ensures
        col_offset(ox, (dc + ox) % 64) == dc,
        forall|c: int| 0 <= c < 64 && col_offset(ox, c) == dc ==> c == (dc + ox) % 64,
{
    assert(col_offset(ox, (dc + ox) % 64) == dc) by (nonlinear_arith)
        requires
            0 <= ox < 64,
            0 <= dc < 64,
    ;
    assert forall|c: int| 0 <= c < 64 && col_offset(ox, c) == dc implies c == (dc + ox) % 64 by {
        assert(c == (dc + ox) % 64) by (nonlinear_arith)
            requires
                0 <= ox < 64,
                0 <= c < 64,
                (c - ox) % 64 == dc,
        ;
    }
}

/// The interpreter: 4096 bytes of memory, the register file and the framebuffer.
pub struct Chip8I {
    memory: [u8; 4096],
    registers: Registers,
    display: Display,
}

impl View for Chip8I {
    type V = MachineState;

    closed spec fn view(&self) -> MachineState {
        MachineState {
            memory: self.memory@,
            regs: self.registers@,
            display: screen_of(self.display),
        }
    }
}

impl Chip8I {
    /// Sixteen general registers, the program counter inside the address space,
    /// and a screen of 32 rows of 64 cells.
    pub open spec fn wf(&self) -> bool {
        &&& self@.memory.len() == 4096
        &&& self@.regs.v.len() == 16
        &&& self@.regs.pc < 4096
        &&& screen_wf(self@.display)
    }

    proof fn lemma_wf(&self)
        requires
            self.registers.wf(),
        ensures
            self.wf(),
    {
    }

    /// A machine with zeroed memory and registers, the program counter at 0x200
    /// and a blank screen.
    pub fn new() -> (r: Chip8I)
        ensures
            r.wf(),
            r@.memory == Seq::new(4096, |a: int| 0u8),
            r@.regs.v == Seq::new(16, |k: int| 0u8),
            r@.regs.i == 0,
            r@.regs.pc == 0x200,
            r@.regs.sp == 0,
            r@.regs.delay == 0,
            r@.regs.sound == 0,
            r@.display == blank_screen(),
    {
        let r = Chip8I { memory: [0u8; 4096], registers: Registers::new(), display: blank_display() };
        assert(r@.memory =~= Seq::new(4096, |a: int| 0u8));
        proof {
            r.lemma_wf();
        }
        r
    }

    /// Reads the byte at the program counter and moves the counter one byte on,
    /// wrapping to 0 at the end of the address space.
    pub fn fetch(&mut self) -> (r: u8)
        requires
            old(self).wf(),
        ensures
            final(self).wf(),
            r == fetch_byte(old(self)@),
            final(self)@ == fetched(old(self)@),
    {
        let instr = self.memory[self.registers.pc() as usize];
        self.registers.advance_pc();
        proof {
            self.lemma_wf();
        }
        instr
    }
    /// Draws the `n`-row sprite at the index register by exclusive or, with its
    /// origin at register `x` modulo 64 and register `y` modulo 32, wrapping at
    /// both edges; register 15 becomes 1 if a set cell was cleared, else 0.
    fn draw(&mut self, x: u8, y: u8, n: u8)
        requires
            old(self).wf(),
            x < 16,
            y < 16,
            n < 16,
        ensures
            final(self).wf(),
            final(self)@ == draw_spec(old(self)@, x, y, n),
    {
        let ghost s0 = self@;
        let ox: u8 = self.registers.vx(x) % 64;
        let oy: u8 = self.registers.vx(y) % 32;
        let index: u16 = self.registers.i();
        let ghost d0 = s0.display;
        let ghost mem = s0.memory;
        let mut flag: u8 = 0;
        let mut i: u8 = 0;
        assert forall|r: int| 0 <= r < 32 implies d0[r]
            =~= drawn(d0, mem, index, ox as int, oy as int, 0, 0)[r] by {}
        assert(d0 =~= drawn(d0, mem, index, ox as int, oy as int, 0, 0));
        while i < n
            invariant
                self.wf(),
                i <= n < 16,
                ox < 64,
                oy < 32,
                index == s0.regs.i,
                self@.memory == mem,
                self@.regs == s0.regs,
                self@.display == drawn(d0, mem, index, ox as int, oy as int, i as int, 0),
                flag <= 1,
                (flag == 1) == collides(d0, mem, index, ox as int, oy as int, i as int, 0),
                screen_wf(d0),
                mem.len() == 4096,
            decreases n - i,
        {
            let sprite: u8 = self.memory[((index as usize) + (i as usize)) % 4096];
            let row: usize = ((i as usize) + (oy as usize)) % 32;
            proof {
                lemma_row_offset(oy as int, i as int);
            }
            let mut line: [Pixel; 64] = self.display[row];
            let mut j: u8 = 0;
            while j < 8
                invariant
                    self.wf(),
                    i < n < 16,
                    j <= 8,
                    ox < 64,
                    oy < 32,
                    row == (i as int + oy as int) % 32,
                    row_offset(oy as int, row as int) == i,
                    forall|r: int| 0 <= r < 32 && row_offset(oy as int, r) == i ==> r == row,
                    sprite == mem[(index + i) % 4096],
                    index == s0.regs.i,
                    self@.memory == mem,
                    self@.regs == s0.regs,
                    self@.display == drawn(d0, mem, index, ox as int, oy as int, i as int, 0),
                    line@ == drawn(d0, mem, index, ox as int, oy as int, i as int, j as int)[row as int],
                    flag <= 1,
                    (flag == 1) == collides(d0, mem, index, ox as int, oy as int, i as int, j as int),
                    screen_wf(d0),
                    mem.len() == 4096,
                decreases 8 - j,
            {
                let shift: u8 = 7 - j;
                let bit: u8 = (sprite >> shift) & 1;
                assert(bit <= 1) by (bit_vector)
                    requires
                        bit == (sprite >> shift) & 1u8,
                ;
                let col: usize = ((j as usize) + (ox as usize)) % 64;
                proof {
                    lemma_col_offset(ox as int, j as int);
                }
                let before: Pixel = line[col];
                let after: Pixel = before.xor(Pixel::from_bit(bit));
                line[col] = after;
                if before.is_white() && !after.is_white() {
                    flag = 1;
                }
                proof {
                    let oxi = ox as int;
                    let oyi = oy as int;
                    let here = flips(mem, index, oxi, oyi, i as int, j as int + 1, row as int, col as int);
                    assert(here == (bit == 1));
                    assert(line@ =~= drawn(d0, mem, index, oxi, oyi, i as int, j as int + 1)[row as int]);
                    if collides(d0, mem, index, oxi, oyi, i as int, j as int + 1) {
                        let (r, c) = choose|r: int, c: int|
                            0 <= r < 32 && 0 <= c < 64 && #[trigger] flips(mem, index, oxi, oyi, i as int, j as int + 1, r, c)
                                && is_set(d0[r][c]);
                        if !flips(mem, index, oxi, oyi, i as int, j as int, r, c) {
                            assert(r == row && c == col);
                        }
                    }
                    if collides(d0, mem, index, oxi, oyi, i as int, j as int) {
                        let (r, c) = choose|r: int, c: int|
                            0 <= r < 32 && 0 <= c < 64 && #[trigger] flips(mem, index, oxi, oyi, i as int, j as int, r, c)
                                && is_set(d0[r][c]);
                        assert(flips(mem, index, oxi, oyi, i as int, j as int + 1, r, c));
                    }
                    if here && is_set(d0[row as int][col as int]) {
                        assert(flips(mem, index, oxi, oyi, i as int, j as int + 1, row as int, col as int));
                    }
                }
                j = j + 1;
            }
            let ghost disp_before = self.display;
            self.display[row] = line;
            proof {
                assert(self.display@ == disp_before@.update(row as int, line));
                let oxi = ox as int;
                let oyi = oy as int;
                let next = drawn(d0, mem, index, oxi, oyi, i as int + 1, 0);
                assert forall|r: int| 0 <= r < 32 implies self@.display[r] =~= next[r] by {
                    if r == row {
                        assert(self@.display[r] == line@);
                        assert forall|c: int| 0 <= c < 64 implies
                            flips(mem, index, oxi, oyi, i as int + 1, 0, r, c)
                                == flips(mem, index, oxi, oyi, i as int, 8, r, c) by {}
                    } else {
                        assert(self@.display[r] == screen_of(disp_before)[r]);
                        assert forall|c: int| 0 <= c < 64 implies
                            flips(mem, index, oxi, oyi, i as int + 1, 0, r, c)
                                == flips(mem, index, oxi, oyi, i as int, 0, r, c) by {}
                    }
                }
                assert(self@.display =~= next);
                if collides(d0, mem, index, oxi, oyi, i as int + 1, 0) {
                    let (r, c) = choose|r: int, c: int|
                        0 <= r < 32 && 0 <= c < 64 && #[trigger] flips(mem, index, oxi, oyi, i as int + 1, 0, r, c)
                            && is_set(d0[r][c]);
                    assert(flips(mem, index, oxi, oyi, i as int, 8, r, c));
                }
                if collides(d0, mem, index, oxi, oyi, i as int, 8) {
                    let (r, c) = choose|r: int, c: int|
                        0 <= r < 32 && 0 <= c < 64 && #[trigger] flips(mem, index, oxi, oyi, i as int, 8, r, c)
                            && is_set(d0[r][c]);
                    assert(flips(mem, index, oxi, oyi, i as int + 1, 0, r, c));
                }
            }
            i = i + 1;
        }
        self.registers.wvx(15, flag);
        proof {
            self.lemma_wf();
        }
    }
    /// Executes the instruction made of bytes `a` and `b`. Instructions the
    /// machine does not carry out leave it unchanged.
    pub fn execute(&mut self, a: u8, b: u8)
        requires
            old(self).wf(),
        ensures
            final(self).wf(),
            final(self)@ == execute_spec(old(self)@, a, b),
    {
        let n0: u8 = (a & 0xF0) >> 4;
        let n1: u8 = a & 0x0F;
        let n2: u8 = (b & 0xF0) >> 4;
        let n3: u8 = b & 0x0F;
        assert(n0 == a / 16 && n1 == a % 16) by (bit_vector)
            requires
                n0 == (a & 0xF0) >> 4,
                n1 == a & 0x0F,
        ;
        assert(n2 == b / 16 && n3 == b % 16) by (bit_vector)
            requires
                n2 == (b & 0xF0) >> 4,
                n3 == b & 0x0F,
        ;
        match (n0, n1, n2, n3) {
            (0x0, 0x0, 0xE, 0x0) => {
                self.display = blank_display();
            },
            (0x1, hi, mid, lo) => {
                self.registers.set_pc((hi as u16) * 256 + (mid as u16) * 16 + (lo as u16));
            },
            (0x6, reg, hi, lo) => {
                self.registers.wvx(reg, hi * 16 + lo);
            },
            (0x7, reg, hi, lo) => {
                self.registers.avx(reg, hi * 16 + lo);
            },
            (0xA, hi, mid, lo) => {
                self.registers.set_i((hi as u16) * 256 + (mid as u16) * 16 + (lo as u16));
            },
            (0xD, rx, ry, rows) => {
                self.draw(rx, ry, rows);
            },
            _ => {},
        }
        proof {
            self.lemma_wf();
        }
    }

    /// Copies a program image into memory from 0x200 on. An image longer than
    /// 3584 bytes is refused and leaves the machine unchanged.
    pub fn read_rom(&mut self, rom: Vec<u8>) -> (r: Result<(), RomError>)
        requires
            old(self).wf(),
        ensures
            final(self).wf(),
            r is Ok <==> rom@.len() <= 3584,
            r is Ok ==> final(self)@ == loaded(old(self)@, rom@),
            r is Err ==> r == Err::<(), RomError>(RomError::TooBig) && final(self)@ == old(self)@,
    {
        if rom.len() > MAX_PROGRAM_LEN {
            return Err(RomError::TooBig);
        }
        let ghost m0 = self@.memory;
        let mut k: usize = 0;
        while k < rom.len()
            invariant
                self.wf(),
                k <= rom@.len() <= 3584,
                m0.len() == 4096,
                self@.regs == old(self)@.regs,
                self@.display == old(self)@.display,
                forall|a: int|
                    0 <= a < 4096 ==> #[trigger] self@.memory[a] == if 0x200 <= a < 0x200 + k {
                        rom@[a - 0x200]
                    } else {
                        m0[a]
                    },
            decreases rom@.len() - k,
        {
            self.memory[PROGRAM_START + k] = rom[k];
            k = k + 1;
        }
        assert(self@.memory =~= loaded(old(self)@, rom@).memory);
        Ok(())
    }

    /// One cycle: fetches two bytes, executes them, and returns the framebuffer.
    /// The keys are not read by any operation the machine carries out.
    pub fn step(&mut self, keys: &[bool; 16]) -> (r: Display)
        requires
            old(self).wf(),
        ensures
            final(self).wf(),
            final(self)@ == step_spec(old(self)@),
            screen_of(r) == final(self)@.display,
    {
        let instr_a = self.fetch();
        let instr_b = self.fetch();
        self.execute(instr_a, instr_b);
        self.display
    }

    /// The period of one cycle, in milliseconds.
    pub fn speed(&self) -> (r: u64)
        ensures
            r == 50,
    {
        CYCLE_MILLIS
    }

    /// Whether the sound signal is on; no operation the machine carries out
    /// drives the sound timer, so it is always off.
    pub fn buzzer_active(&self) -> (r: bool)
        ensures
            !r,
    {
        false
    }

    /// The register file.
    pub fn registers(&self) -> (r: &Registers)
        ensures
            r@ == self@.regs,
            self.wf() ==> r.wf(),
    {
        &self.registers
    }

    /// The framebuffer.
    pub fn display(&self) -> (r: Display)
        ensures
            screen_of(r) == self@.display,
    {
        self.display
    }

    /// The byte at address `addr`.
    pub fn memory_at(&self, addr: u16) -> (r: u8)
        requires
            self.wf(),
            addr < 4096,
        ensures
            r == self@.memory[addr as int],
    {
        self.memory[addr as usize]
    }
}

} // verus!
