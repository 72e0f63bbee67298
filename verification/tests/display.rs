use chip8::cpu::CPU;
use chip8::machine::{Fault, Outcome};
use chip8::nibble::Nibble;

fn machine_with(program: &[u16]) -> CPU {
    let mut rom = Vec::new();
    for word in program {
        rom.push((word >> 8) as u8);
        rom.push((word & 0xFF) as u8);
    }
    let mut cpu = CPU::new();
    assert_eq!(cpu.load(&rom), Ok(()));
    cpu
}

fn run(cpu: &mut CPU, steps: usize) {
    for _ in 0..steps {
        assert_eq!(cpu.step_with(0), Ok(Outcome::Executed));
    }
}

fn lit(cpu: &CPU) -> Vec<(usize, usize)> {
    let mut cells = Vec::new();
    for y in 0..32 {
        for x in 0..64 {
            if cpu.screen()[y][x] {
                cells.push((x, y));
            }
        }
    }
    cells
}

#[test]
fn draw_full_row_on_unlit_and_on_lit_pixels() {
    // I := 0x208; draw twice at (0, 0); the sprite is one row of 0xFF.
    let mut cpu = machine_with(&[0xA208, 0xD011, 0xD011, 0x1206, 0xFF00]);
    run(&mut cpu, 2);
    assert_eq!(cpu.register(Nibble::NF), 0);
    assert_eq!(lit(&cpu), (0..8).map(|x| (x, 0)).collect::<Vec<_>>());
    run(&mut cpu, 1);
    assert_eq!(cpu.register(Nibble::NF), 1);
    assert_eq!(lit(&cpu), vec![]);
}

#[test]
fn draw_wraps_at_the_right_edge() {
    // V0 := 60; I := 0x206; draw one row of 0xFF at (60, 0).
    let mut cpu = machine_with(&[0x603C, 0xA206, 0xD011, 0xFF00]);
    run(&mut cpu, 3);
    assert_eq!(
        lit(&cpu),
        vec![(0, 0), (1, 0), (2, 0), (3, 0), (60, 0), (61, 0), (62, 0), (63, 0)]
    );
    assert_eq!(cpu.register(Nibble::NF), 0);
}

#[test]
fn draw_wraps_at_the_bottom_edge() {
    // V1 := 31; I := 0x206; draw two rows, 0x80 and 0x01, at (0, 31).
    let mut cpu = machine_with(&[0x611F, 0xA206, 0xD012, 0x8001]);
    run(&mut cpu, 3);
    assert_eq!(lit(&cpu), vec![(7, 0), (0, 31)]);
}

#[test]
fn draw_takes_the_corner_modulo_the_screen() {
    // V0 := 70; V1 := 33; I := 0x208; draw 0xC0 at (70, 33).
    let mut cpu = machine_with(&[0x6046, 0x6121, 0xA208, 0xD011, 0xC000]);
    run(&mut cpu, 4);
    assert_eq!(lit(&cpu), vec![(6, 1), (7, 1)]);
    // V0 := 255; V1 := 255: column 63, row 31, and on to column 0.
    let mut cpu = machine_with(&[0x60FF, 0x61FF, 0xA208, 0xD011, 0xC000]);
    run(&mut cpu, 4);
    assert_eq!(lit(&cpu), vec![(0, 31), (63, 31)]);
}

#[test]
fn draw_reads_the_most_significant_bit_first() {
    // I := 0x204; draw 0b1010_0001 at (0, 0).
    let mut cpu = machine_with(&[0xA204, 0xD011, 0xA100]);
    run(&mut cpu, 2);
    assert_eq!(lit(&cpu), vec![(0, 0), (2, 0), (7, 0)]);
}

#[test]
fn draw_glyph_from_the_font() {
    // V2 := 4; I := glyph of V2; draw five rows at (0, 0). The glyph of 4 is
    // 0x90, 0x90, 0xF0, 0x10, 0x10.
    let mut cpu = machine_with(&[0x6204, 0xF229, 0xD005]);
    run(&mut cpu, 3);
    assert_eq!(
        lit(&cpu),
        vec![(0, 0), (3, 0), (0, 1), (3, 1), (0, 2), (1, 2), (2, 2), (3, 2), (3, 3), (3, 4)]
    );
}

#[test]
fn draw_twice_restores_the_screen() {
    // Glyph 8 at (3, 2) as background, then glyph A twice at (5, 4).
    let mut cpu = machine_with(&[
        0x6003, 0x6102, 0x6208, 0xF229, 0xD015, 0x6005, 0x6104, 0x620A, 0xF229, 0xD015, 0xD015,
    ]);
    run(&mut cpu, 5);
    let background = lit(&cpu);
    assert!(!background.is_empty());
    run(&mut cpu, 5);
    assert_ne!(lit(&cpu), background);
    assert_eq!(cpu.register(Nibble::NF), 1);
    run(&mut cpu, 1);
    assert_eq!(lit(&cpu), background);
    assert_eq!(cpu.register(Nibble::NF), 1);
}

#[test]
fn draw_flips_overlapping_pixels() {
    // 0xF0 at (0, 0), then 0xFF at (2, 0): columns 2 and 3 go out.
    let mut cpu = machine_with(&[0xA20C, 0xD011, 0x6002, 0xA20D, 0xD011, 0x120A, 0xF0FF]);
    run(&mut cpu, 5);
    assert_eq!(lit(&cpu), vec![(0, 0), (1, 0), (4, 0), (5, 0), (6, 0), (7, 0), (8, 0), (9, 0)]);
    assert_eq!(cpu.register(Nibble::NF), 1);
}

#[test]
fn draw_collision_flag_is_reset_by_the_next_draw() {
    // Collide at (0, 0), then draw at (0, 8) where nothing is lit.
    let mut cpu = machine_with(&[0xA20C, 0xD011, 0xD011, 0xD011, 0x6108, 0xD011, 0x80FF]);
    run(&mut cpu, 3);
    assert_eq!(cpu.register(Nibble::NF), 1);
    run(&mut cpu, 3);
    assert_eq!(cpu.register(Nibble::NF), 0);
}

#[test]
fn draw_reads_the_flag_register_as_zero() {
    // VF := 5; I := 0x206; draw 0x80 at (VF, V0): the flag is reset first.
    let mut cpu = machine_with(&[0x6F05, 0xA206, 0xDF01, 0x8000]);
    run(&mut cpu, 3);
    assert_eq!(lit(&cpu), vec![(0, 0)]);
    assert_eq!(cpu.register(Nibble::NF), 0);
}

#[test]
fn draw_of_no_rows_resets_the_flag() {
    let mut cpu = machine_with(&[0x6F05, 0xAFFF, 0xF01E, 0xD010]);
    run(&mut cpu, 4);
    assert_eq!(lit(&cpu), vec![]);
    assert_eq!(cpu.register(Nibble::NF), 0);
}

#[test]
fn draw_beyond_memory_is_a_fault() {
    // VF := 1; I := 0xFFF; draw two rows.
    let mut cpu = machine_with(&[0x6F01, 0xAFFF, 0xD002]);
    run(&mut cpu, 2);
    assert_eq!(cpu.step_with(0), Err(Fault::OutOfBounds { pc: 0x204, address: 4096 }));
    assert_eq!(lit(&cpu), vec![]);
    assert_eq!(cpu.register(Nibble::NF), 1);
    // One row at the last byte is in memory.
    let mut cpu = machine_with(&[0xAFFF, 0xD001]);
    run(&mut cpu, 2);
    assert_eq!(lit(&cpu), vec![]);
}

#[test]
fn clear_blanks_the_screen() {
    let mut cpu = machine_with(&[0x6204, 0xF229, 0xD005, 0x00E0]);
    run(&mut cpu, 3);
    assert!(!lit(&cpu).is_empty());
    run(&mut cpu, 1);
    assert_eq!(lit(&cpu), vec![]);
}

#[test]
fn wait_repeats_until_a_key_is_down() {
    let mut cpu = machine_with(&[0xF50A, 0x6001]);
    for _ in 0..10 {
        assert_eq!(cpu.step(), Ok(Outcome::Executed));
        assert_eq!(cpu.pc(), 0x200);
        assert_eq!(cpu.register(Nibble::N5), 0);
    }
    cpu.update_key(Nibble::N7, true);
    cpu.update_key(Nibble::N3, true);
    cpu.update_key(Nibble::NC, true);
    assert_eq!(cpu.step(), Ok(Outcome::Executed));
    assert_eq!(cpu.register(Nibble::N5), 3);
    assert_eq!(cpu.pc(), 0x202);
    assert_eq!(cpu.step(), Ok(Outcome::Executed));
    assert_eq!(cpu.register(Nibble::N0), 1);
}

#[test]
fn wait_sees_key_0_and_key_e() {
    let mut cpu = machine_with(&[0xF50A, 0xF60A]);
    cpu.update_key(Nibble::NE, true);
    run(&mut cpu, 1);
    assert_eq!(cpu.register(Nibble::N5), 14);
    cpu.update_key(Nibble::N0, true);
    run(&mut cpu, 1);
    assert_eq!(cpu.register(Nibble::N6), 0);
    assert_eq!(cpu.pc(), 0x204);
}

#[test]
fn wait_sees_key_f_alone() {
    let mut cpu = machine_with(&[0x1202, 0xF30A]);
    run(&mut cpu, 1);
    assert_eq!(cpu.pc(), 0x202);
    run(&mut cpu, 2);
    assert_eq!(cpu.pc(), 0x202);
    cpu.update_key(Nibble::NF, true);
    run(&mut cpu, 1);
    assert_eq!(cpu.register(Nibble::N3), 15);
    assert_eq!(cpu.pc(), 0x204);
}

#[test]
fn wait_takes_the_lowest_of_all_sixteen_keys() {
    for lowest in 0..16u8 {
        let mut cpu = machine_with(&[0xF50A]);
        for key in lowest..16 {
            cpu.update_key(Nibble::new(key).unwrap(), true);
        }
        run(&mut cpu, 1);
        assert_eq!(cpu.register(Nibble::N5), lowest);
        assert_eq!(cpu.pc(), 0x202);
    }
}

#[test]
fn wait_ends_when_the_key_is_released_and_pressed_again() {
    let mut cpu = machine_with(&[0xF50A]);
    cpu.update_key(Nibble::N9, true);
    cpu.update_key(Nibble::N9, false);
    run(&mut cpu, 2);
    assert_eq!(cpu.pc(), 0x200);
    cpu.update_key(Nibble::N9, true);
    run(&mut cpu, 1);
    assert_eq!(cpu.pc(), 0x202);
    assert_eq!(cpu.register(Nibble::N5), 9);
}

#[test]
fn skip_on_key_state() {
    // V0 := 15; skip if key V0 down; VE += 1; skip if key V0 up; VE += 1
    let program = [0x600F, 0xE09E, 0x7E01, 0xE0A1, 0x7E01];
    let mut cpu = machine_with(&program);
    run(&mut cpu, 3);
    assert_eq!(cpu.register(Nibble::NE), 1);
    assert_eq!(cpu.pc(), 0x206);
    run(&mut cpu, 1);
    assert_eq!(cpu.register(Nibble::NE), 1);
    assert_eq!(cpu.pc(), 0x20A);
    let mut cpu = machine_with(&program);
    cpu.update_key(Nibble::NF, true);
    assert!(cpu.key(Nibble::NF));
    run(&mut cpu, 3);
    assert_eq!(cpu.register(Nibble::NE), 0);
    assert_eq!(cpu.pc(), 0x208);
    run(&mut cpu, 1);
    assert_eq!(cpu.register(Nibble::NE), 1);
    assert_eq!(cpu.pc(), 0x20A);
}

#[test]
fn skip_on_a_key_that_does_not_exist_is_a_fault() {
    let mut cpu = machine_with(&[0x6010, 0xE09E]);
    run(&mut cpu, 1);
    assert_eq!(cpu.step_with(0), Err(Fault::InvalidKey { pc: 0x202, key: 16 }));
    assert_eq!(cpu.pc(), 0x204);
    let mut cpu = machine_with(&[0x60FF, 0xE0A1]);
    run(&mut cpu, 1);
    assert_eq!(cpu.step_with(0), Err(Fault::InvalidKey { pc: 0x202, key: 255 }));
}
