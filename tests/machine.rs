use chip8_interp::machine::{Chip8I, RomError};
use chip8_interp::pixel::{blank_display, Display, Pixel};
use chip8_interp::registers::Registers;

const NO_KEYS: [bool; 16] = [false; 16];

fn machine_with(program: &[u8]) -> Chip8I {
    let mut m = Chip8I::new();
    assert_eq!(m.read_rom(program.to_vec()), Ok(()));
    m
}

fn run(m: &mut Chip8I, cycles: usize) -> Display {
    let mut d = m.display();
    for _ in 0..cycles {
        d = m.step(&NO_KEYS);
    }
    d
}

fn count_white(d: &Display) -> usize {
    d.iter().flatten().filter(|p| **p == Pixel::White).count()
}

#[test]
fn new_machine_is_zeroed() {
    let m = Chip8I::new();
    let r = m.registers();
    assert_eq!(r.pc(), 0x200);
    assert_eq!(r.i(), 0);
    assert_eq!(r.sp(), 0);
    assert_eq!(r.delay(), 0);
    assert_eq!(r.sound(), 0);
    for x in 0..16u8 {
        assert_eq!(r.vx(x), 0);
    }
    assert_eq!(m.memory_at(0), 0);
    assert_eq!(m.memory_at(4095), 0);
    assert_eq!(count_white(&m.display()), 0);
    assert_eq!(m.speed(), 50);
    assert!(!m.buzzer_active());
}

#[test]
fn load_places_bytes_from_0x200() {
    let m = machine_with(&[0x12, 0x34, 0x56]);
    assert_eq!(m.memory_at(0x1FF), 0);
    assert_eq!(m.memory_at(0x200), 0x12);
    assert_eq!(m.memory_at(0x201), 0x34);
    assert_eq!(m.memory_at(0x202), 0x56);
    assert_eq!(m.memory_at(0x203), 0);
    assert_eq!(m.registers().pc(), 0x200);
}

#[test]
fn load_largest_program_fills_memory() {
    let mut rom = vec![0u8; 3584];
    rom[3583] = 0xEE;
    rom[0] = 0x11;
    let m = machine_with(&rom);
    assert_eq!(m.memory_at(0x200), 0x11);
    assert_eq!(m.memory_at(4095), 0xEE);
}

#[test]
fn load_too_long_program_is_refused() {
    let mut m = Chip8I::new();
    let rom = vec![0xAAu8; 3585];
    assert_eq!(m.read_rom(rom), Err(RomError::TooBig));
    assert_eq!(m.memory_at(0x200), 0);
    assert_eq!(m.memory_at(4095), 0);
}

#[test]
fn empty_program_loads() {
    let mut m = Chip8I::new();
    assert_eq!(m.read_rom(Vec::new()), Ok(()));
    assert_eq!(m.memory_at(0x200), 0);
}

#[test]
fn fetch_reads_and_advances() {
    let mut m = machine_with(&[0xAB, 0xCD]);
    assert_eq!(m.fetch(), 0xAB);
    assert_eq!(m.registers().pc(), 0x201);
    assert_eq!(m.fetch(), 0xCD);
    assert_eq!(m.registers().pc(), 0x202);
}

#[test]
fn fetch_wraps_at_end_of_memory() {
    let mut rom = vec![0u8; 3584];
    rom[0] = 0x1F;
    rom[1] = 0xFF;
    rom[3583] = 0x5A;
    let mut m = machine_with(&rom);
    run(&mut m, 1);
    assert_eq!(m.registers().pc(), 4095);
    assert_eq!(m.fetch(), 0x5A);
    assert_eq!(m.registers().pc(), 0);
    assert_eq!(m.fetch(), 0);
    assert_eq!(m.registers().pc(), 1);
}

#[test]
fn clear_display_unsets_every_cell() {
    // V0 = 0, I = 0x300, draw 8 rows, then clear.
    let mut rom = vec![0x60, 0x00, 0xA3, 0x00, 0xD0, 0x08, 0x00, 0xE0];
    rom.resize(0x100, 0);
    rom.extend_from_slice(&[0xFF; 8]);
    let mut m = machine_with(&rom);
    let d = run(&mut m, 3);
    assert_eq!(count_white(&d), 64);
    let d = run(&mut m, 1);
    assert_eq!(count_white(&d), 0);
    assert_eq!(d, blank_display());
}

#[test]
fn jump_sets_program_counter() {
    let mut m = machine_with(&[0x1A, 0xBC]);
    run(&mut m, 1);
    assert_eq!(m.registers().pc(), 0xABC);
}

#[test]
fn jump_to_zero_ignores_previous_counter() {
    let mut m = machine_with(&[0x00, 0x00, 0x10, 0x00]);
    run(&mut m, 2);
    assert_eq!(m.registers().pc(), 0);
}

#[test]
fn load_immediate_sets_register() {
    let mut m = machine_with(&[0x63, 0x7F, 0x63, 0x05]);
    run(&mut m, 1);
    assert_eq!(m.registers().vx(3), 0x7F);
    run(&mut m, 1);
    assert_eq!(m.registers().vx(3), 0x05);
}

#[test]
fn add_immediate_wraps() {
    // V2 = 250; V2 += 10 gives 4.
    let mut m = machine_with(&[0x62, 250, 0x72, 10]);
    run(&mut m, 2);
    assert_eq!(m.registers().vx(2), 4);
    assert_eq!(m.registers().vx(15), 0);
}

#[test]
fn add_twice_sums_modulo_256() {
    let mut m = machine_with(&[0x74, 200, 0x74, 100]);
    run(&mut m, 2);
    assert_eq!(m.registers().vx(4), 44);
}

#[test]
fn load_index_sets_index_register() {
    let mut m = machine_with(&[0xA1, 0x23]);
    run(&mut m, 1);
    assert_eq!(m.registers().i(), 0x123);
    assert_eq!(m.registers().pc(), 0x202);
}

#[test]
fn draw_twice_restores_display() {
    // V0 = 10, V1 = 5, I = 0x300, draw 2 rows twice.
    let mut rom = vec![0x60, 10, 0x61, 5, 0xA3, 0x00, 0xD0, 0x12, 0xD0, 0x12];
    rom.resize(0x100, 0);
    rom.extend_from_slice(&[0b1010_0001, 0b0100_0000]);
    let mut m = machine_with(&rom);
    let d = run(&mut m, 4);
    assert_eq!(count_white(&d), 4);
    assert_eq!(d[5][10], Pixel::White);
    assert_eq!(d[5][12], Pixel::White);
    assert_eq!(d[5][17], Pixel::White);
    assert_eq!(d[6][11], Pixel::White);
    assert_eq!(m.registers().vx(15), 0);
    let d = run(&mut m, 1);
    assert_eq!(d, blank_display());
    assert_eq!(m.registers().vx(15), 1);
}

#[test]
fn draw_twice_empty_sprite_reports_no_collision() {
    let mut rom = vec![0xA3, 0x00, 0xD0, 0x03, 0xD0, 0x03];
    rom.resize(0x100, 0);
    let mut m = machine_with(&rom);
    let d = run(&mut m, 3);
    assert_eq!(d, blank_display());
    assert_eq!(m.registers().vx(15), 0);
}

#[test]
fn single_bit_onto_unset_cell_sets_it() {
    // V0 = 3, V1 = 7, I = 0x300 holding 0x80; VF preset to 9.
    let mut rom = vec![0x60, 3, 0x61, 7, 0x6F, 9, 0xA3, 0x00, 0xD0, 0x11];
    rom.resize(0x100, 0);
    rom.push(0x80);
    let mut m = machine_with(&rom);
    let d = run(&mut m, 5);
    assert_eq!(d[7][3], Pixel::White);
    assert_eq!(count_white(&d), 1);
    assert_eq!(m.registers().vx(15), 0);
}

#[test]
fn single_bit_onto_set_cell_clears_it() {
    let mut rom = vec![0x60, 3, 0x61, 7, 0xA3, 0x00, 0xD0, 0x11, 0xD0, 0x11];
    rom.resize(0x100, 0);
    rom.push(0x80);
    let mut m = machine_with(&rom);
    run(&mut m, 4);
    assert_eq!(m.registers().vx(15), 0);
    let d = run(&mut m, 1);
    assert_eq!(d[7][3], Pixel::Black);
    assert_eq!(m.registers().vx(15), 1);
}

#[test]
fn draw_wraps_at_right_and_bottom_edges() {
    // V0 = 63, V1 = 31, I = 0x300, draw 8-wide sprite of 1 row.
    let mut rom = vec![0x60, 63, 0x61, 31, 0xA3, 0x00, 0xD0, 0x11];
    rom.resize(0x100, 0);
    rom.push(0xFF);
    let mut m = machine_with(&rom);
    let d = run(&mut m, 4);
    assert_eq!(d[31][63], Pixel::White);
    for c in 0..7 {
        assert_eq!(d[31][c], Pixel::White);
    }
    assert_eq!(d[31][7], Pixel::Black);
    assert_eq!(count_white(&d), 8);
    assert_eq!(m.registers().vx(15), 0);
}

#[test]
fn draw_second_row_wraps_to_top() {
    let mut rom = vec![0x60, 63, 0x61, 31, 0xA3, 0x00, 0xD0, 0x12];
    rom.resize(0x100, 0);
    rom.extend_from_slice(&[0xFF, 0x81]);
    let mut m = machine_with(&rom);
    let d = run(&mut m, 4);
    assert_eq!(d[0][63], Pixel::White);
    assert_eq!(d[0][6], Pixel::White);
    assert_eq!(d[0][0], Pixel::Black);
    assert_eq!(count_white(&d), 10);
}

#[test]
fn draw_origin_is_taken_modulo_screen_size() {
    // V0 = 64 + 2, V1 = 32 + 1: origin (2, 1).
    let mut rom = vec![0x60, 66, 0x61, 33, 0xA3, 0x00, 0xD0, 0x11];
    rom.resize(0x100, 0);
    rom.push(0x80);
    let mut m = machine_with(&rom);
    let d = run(&mut m, 4);
    assert_eq!(d[1][2], Pixel::White);
    assert_eq!(count_white(&d), 1);
}

#[test]
fn draw_sprite_reads_wrap_around_memory() {
    // I = 0xFFF; the second sprite row is read from address 0, which is zero.
    let mut rom = vec![0xAF, 0xFF, 0xD0, 0x02];
    rom.resize(3584, 0);
    rom[3583] = 0x80;
    let mut m = machine_with(&rom);
    let d = run(&mut m, 2);
    assert_eq!(d[0][0], Pixel::White);
    assert_eq!(count_white(&d), 1);
}

#[test]
fn unknown_opcodes_change_nothing_but_the_counter() {
    let mut rom = vec![0x65, 0x42, 0xA2, 0x34, 0x60, 0x00, 0xA3, 0x00, 0xD0, 0x01, 0xA2, 0x34];
    rom.extend_from_slice(&[0x51, 0x23, 0xF1, 0x23, 0x00, 0x12, 0x00, 0xEE, 0x8A, 0xBC, 0xB1, 0x11]);
    rom.resize(0x100, 0);
    rom.push(0xF0);
    let mut m = machine_with(&rom);
    let before = run(&mut m, 6);
    assert_eq!(count_white(&before), 4);
    let regs: Vec<u8> = (0..16u8).map(|x| m.registers().vx(x)).collect();
    let index = m.registers().i();
    for k in 0..6u16 {
        let pc = m.registers().pc();
        assert_eq!(pc, 0x20C + 2 * k);
        let d = run(&mut m, 1);
        assert_eq!(d, before);
        assert_eq!(m.registers().pc(), pc + 2);
        assert_eq!(m.registers().i(), index);
        for x in 0..16u8 {
            assert_eq!(m.registers().vx(x), regs[x as usize]);
        }
    }
}

#[test]
fn null_operation_changes_nothing_but_the_counter() {
    let mut m = machine_with(&[0x00, 0x00]);
    let d = run(&mut m, 1);
    assert_eq!(d, blank_display());
    assert_eq!(m.registers().pc(), 0x202);
    assert_eq!(m.registers().i(), 0);
}

#[test]
fn execute_does_not_fetch() {
    let mut m = Chip8I::new();
    m.execute(0x6A, 0x11);
    assert_eq!(m.registers().vx(10), 0x11);
    assert_eq!(m.registers().pc(), 0x200);
}

#[test]
fn register_file_write_and_add() {
    let mut r = Registers::new();
    assert_eq!(r.wvx(7, 200), 200);
    assert_eq!(r.vx(7), 200);
    assert_eq!(r.avx(7, 100), 44);
    assert_eq!(r.vx(7), 44);
    assert_eq!(r.vx(6), 0);
    assert_eq!(r.vx(8), 0);
}

#[test]
fn register_file_counter_and_index() {
    let mut r = Registers::new();
    r.set_pc(4095);
    r.advance_pc();
    assert_eq!(r.pc(), 0);
    r.advance_pc();
    assert_eq!(r.pc(), 1);
    r.set_i(0xFFF);
    assert_eq!(r.i(), 0xFFF);
}

#[test]
fn pixel_xor_and_bits() {
    assert_eq!(Pixel::White.xor(Pixel::White), Pixel::Black);
    assert_eq!(Pixel::White.xor(Pixel::Black), Pixel::White);
    assert_eq!(Pixel::Black.xor(Pixel::White), Pixel::White);
    assert_eq!(Pixel::Black.xor(Pixel::Black), Pixel::Black);
    assert_eq!(Pixel::from_bit(1), Pixel::White);
    assert_eq!(Pixel::from_bit(0), Pixel::Black);
    assert!(Pixel::White.is_white());
    assert!(!Pixel::Black.is_white());
}
