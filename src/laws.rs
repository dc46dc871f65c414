//! Properties of the machine that relate several operations or hold of every state.
use vstd::prelude::*;
use crate::pixel::{Pixel, is_set, screen_wf};
use crate::machine::{
    MachineState, loaded, fetched, fetch_byte, fields, execute_spec, step_spec, is_known,
    draw_spec, flips, collides, origin_x, origin_y, row_offset, col_offset, bit_set,
    sprite_bit, immediate,
};

verus! {

/// A state of the machine as its operations keep it: 4096 bytes of memory,
/// sixteen registers, a program counter inside the address space and a screen
/// of 32 rows of 64 cells.
pub open spec fn state_wf(s: MachineState) -> bool {
    &&& s.memory.len() == 4096
    &&& s.regs.v.len() == 16
    &&& s.regs.pc < 4096
    &&& screen_wf(s.display)
}

/// Loading a program of at most 3584 bytes puts byte `k` of it at address
/// 0x200 + k, and leaves the registers and the screen as they were.
pub proof fn lemma_load_places_bytes(s: MachineState, rom: Seq<u8>)
    requires
        state_wf(s),
        rom.len() <= 3584,
    ensures
        forall|k: int| 0 <= k < rom.len() ==> #[trigger] loaded(s, rom).memory[0x200 + k] == rom[k],
        loaded(s, rom).regs == s.regs,
        loaded(s, rom).display == s.display,
{
}

/// With the program counter at 4095, a fetch reads address 4095 and wraps the
/// counter to 0; the next fetch reads address 0.
pub proof fn lemma_fetch_wraps(s: MachineState)
    requires
        state_wf(s),
        s.regs.pc == 4095,
    ensures
        fetch_byte(s) == s.memory[4095],
        fetched(s).regs.pc == 0,
        fetch_byte(fetched(s)) == s.memory[0],
{
}

/// Clearing the display leaves every one of its cells unset, whatever it held.
pub proof fn lemma_clear_blanks(s: MachineState, a: u8, b: u8)
    requires
        state_wf(s),
        fields(a, b) == (0u8, 0u8, 0xEu8, 0u8),
    ensures
        forall|r: int, c: int|
            0 <= r < 32 && 0 <= c < 64 ==> #[trigger] execute_spec(s, a, b).display[r][c] == Pixel::Black,
{
}

/// A jump sets the program counter to `(a << 8) | (b << 4) | c` for its fields
/// `a`, `b`, `c`, whatever the counter held.
pub proof fn lemma_jump_sets_pc(s: MachineState, a: u8, b: u8)
    requires
        state_wf(s),
        fields(a, b).0 == 1,
    ensures
        execute_spec(s, a, b).regs.pc == ((fields(a, b).1 as u16) << 8u16) | ((fields(a, b).2 as u16)
            << 4u16) | (fields(a, b).3 as u16),
{
    let f = fields(a, b);
    let (hi, mid, lo) = (f.1 as u16, f.2 as u16, f.3 as u16);
    assert((hi * 256 + mid * 16 + lo) as u16 == (hi << 8u16) | (mid << 4u16) | lo) by (bit_vector)
        requires
            hi < 16,
            mid < 16,
            lo < 16,
    ;
}

/// Loading `v` into register `x` and then reading register `x` gives `v`.
pub proof fn lemma_load_then_read(s: MachineState, x: u8, v: u8)
    requires
        state_wf(s),
        x < 16,
    ensures
        execute_spec(s, (0x60 + x) as u8, v).regs.v[x as int] == v,
{
}

/// Adding `v1` and then `v2` to register `x` adds `v1 + v2` modulo 256.
pub proof fn lemma_add_twice(s: MachineState, x: u8, v1: u8, v2: u8)
    requires
        state_wf(s),
        x < 16,
    ensures
        execute_spec(execute_spec(s, (0x70 + x) as u8, v1), (0x70 + x) as u8, v2).regs.v[x as int]
            == (s.regs.v[x as int] + v1 + v2) % 256,
{
    let op = (0x70 + x) as u8;
    assert(fields(op, v1) == (7u8, x, (v1 / 16) as u8, (v1 % 16) as u8));
    assert(fields(op, v2) == (7u8, x, (v2 / 16) as u8, (v2 % 16) as u8));
    assert(immediate((v1 / 16) as u8, (v1 % 16) as u8) == v1);
    assert(immediate((v2 / 16) as u8, (v2 % 16) as u8) == v2);
    let s1 = execute_spec(s, op, v1);
    assert(s1.regs.v[x as int] == (s.regs.v[x as int] + v1) % 256);
    assert(s1.regs.v.len() == 16);
}

/// Drawing a sprite twice at the same origin gives the screen back as it was,
/// and the second draw reports a collision exactly when the sprite has a set
/// bit, provided a set bit of the sprite falls on a cell that was unset before
/// the first draw whenever the sprite has one.
pub proof fn lemma_double_draw(s: MachineState, a: u8, b: u8)
    requires
        state_wf(s),
        fields(a, b).0 == 0xD,
        origin_x(execute_spec(s, a, b), fields(a, b).1) == origin_x(s, fields(a, b).1),
        origin_y(execute_spec(s, a, b), fields(a, b).2) == origin_y(s, fields(a, b).2),
        (exists|r: int, c: int|
            0 <= r < 32 && 0 <= c < 64 && #[trigger] flips(
                s.memory,
                s.regs.i,
                origin_x(s, fields(a, b).1),
                origin_y(s, fields(a, b).2),
                fields(a, b).3 as int,
                0,
                r,
                c,
            )) ==> collides_unset(s, fields(a, b).1, fields(a, b).2, fields(a, b).3),
    ensures
        execute_spec(execute_spec(s, a, b), a, b).display == s.display,
        (execute_spec(execute_spec(s, a, b), a, b).regs.v[15] == 1) <==> exists|r: int, c: int|
            0 <= r < 32 && 0 <= c < 64 && #[trigger] flips(
                s.memory,
                s.regs.i,
                origin_x(s, fields(a, b).1),
                origin_y(s, fields(a, b).2),
                fields(a, b).3 as int,
                0,
                r,
                c,
            ),
{
    let f = fields(a, b);
    let (x, y, n) = (f.1, f.2, f.3);
    let ox = origin_x(s, x);
    let oy = origin_y(s, y);
    let s1 = draw_spec(s, x, y, n);
    let s2 = draw_spec(s1, x, y, n);
    let d0 = s.display;
    let d1 = s1.display;
    assert forall|r: int| 0 <= r < 32 implies s2.display[r] =~= d0[r] by {}
    assert(s2.display =~= d0);
    if collides(d1, s.memory, s.regs.i, ox, oy, n as int, 0) {
        let (r, c) = choose|r: int, c: int|
            0 <= r < 32 && 0 <= c < 64 && #[trigger] flips(s.memory, s.regs.i, ox, oy, n as int, 0, r, c)
                && is_set(d1[r][c]);
        assert(flips(s.memory, s.regs.i, ox, oy, n as int, 0, r, c));
    }
    if collides_unset(s, x, y, n) {
        let (r, c) = choose|r: int, c: int|
            0 <= r < 32 && 0 <= c < 64 && #[trigger] flips(s.memory, s.regs.i, ox, oy, n as int, 0, r, c)
                && !is_set(d0[r][c]);
        assert(is_set(d1[r][c]));
    }
}

/// Whether the sprite of a draw with registers `x`, `y` and `n` rows has a set
/// bit that falls on a cell that is unset in `s`.
pub open spec fn collides_unset(s: MachineState, x: u8, y: u8, n: u8) -> bool {
    exists|r: int, c: int|
        0 <= r < 32 && 0 <= c < 64 && #[trigger] flips(
            s.memory,
            s.regs.i,
            origin_x(s, x),
            origin_y(s, y),
            n as int,
            0,
            r,
            c,
        ) && !is_set(s.display[r][c])
}

/// Drawing a one-row sprite whose only set bit is its leftmost one flips the
/// cell at the origin: if that cell was set it becomes unset and register 15
/// becomes 1; if it was unset it becomes set and register 15 becomes 0.
pub proof fn lemma_single_bit_collision(s: MachineState, a: u8, b: u8)
    requires
        state_wf(s),
        fields(a, b).0 == 0xD,
        fields(a, b).3 == 1,
        s.memory[s.regs.i as int % 4096] == 0x80,
    ensures
        ({
            let s1 = execute_spec(s, a, b);
            let ox = origin_x(s, fields(a, b).1);
            let oy = origin_y(s, fields(a, b).2);
            &&& is_set(s.display[oy][ox]) ==> s1.regs.v[15] == 1 && !is_set(s1.display[oy][ox])
            &&& !is_set(s.display[oy][ox]) ==> s1.regs.v[15] == 0 && is_set(s1.display[oy][ox])
        }),
{
    let f = fields(a, b);
    let ox = origin_x(s, f.1);
    let oy = origin_y(s, f.2);
    let mem = s.memory;
    let i = s.regs.i;
    assert forall|k: u8| k < 8 implies (bit_set(0x80u8, k) <==> k == 7) by {
        assert(k < 8 ==> (((0x80u8 >> k) & 1u8 == 1u8) <==> k == 7)) by (bit_vector);
    }
    assert((i + 0) % 4096 == i % 4096);
    assert(row_offset(oy, oy) == 0);
    assert(col_offset(ox, ox) == 0);
    assert(sprite_bit(mem, i, 0, 0));
    assert(flips(mem, i, ox, oy, 1, 0, oy, ox));
    assert forall|r: int, c: int|
        0 <= r < 32 && 0 <= c < 64 && #[trigger] flips(mem, i, ox, oy, 1, 0, r, c) implies r == oy && c == ox by {
        let dr = row_offset(oy, r);
        let dc = col_offset(ox, c);
        assert(dr == 0);
        assert(sprite_bit(mem, i, 0, dc));
        assert(bit_set(0x80u8, (7 - dc) as u8));
        assert(dc == 0);
        assert(r == oy) by (nonlinear_arith)
            requires
                0 <= oy < 32,
                0 <= r < 32,
                (r - oy) % 32 == 0,
        ;
        assert(c == ox) by (nonlinear_arith)
            requires
                0 <= ox < 64,
                0 <= c < 64,
                (c - ox) % 64 == 0,
        ;
    }
}

/// An instruction whose fields match none of the operations the machine
/// carries out changes nothing but the two fetches of its cycle.
pub proof fn lemma_unknown_is_noop(s: MachineState)
    requires
        state_wf(s),
        !is_known(fields(fetch_byte(s), fetch_byte(fetched(s)))),
    ensures
        step_spec(s) == fetched(fetched(s)),
{
}

} // verus!
