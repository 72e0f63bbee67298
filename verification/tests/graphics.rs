use chip8::cpu::CPU;
use chip8::graphics::{Event, Key, Pacing, Rect, WindowsSDL2};
use chip8::machine::{Fault, Outcome};
use chip8::nibble::Nibble;

fn machine_with(program: &[u16]) -> CPU {
    let mut rom = Vec::new();
    for word in program {
        rom.push((word >> 8) as u8);
        rom.push((word & 0xFF) as u8);
    }
    let mut cpu = CPU::new();
    assert_eq!(cpu.load(&rom), Ok(()));
    cpu
}

#[test]
fn new_front_end_runs_ten_cycles_per_frame() {
    assert_eq!(WindowsSDL2::new().cycles_per_frame(), 10);
}

#[test]
fn quit_and_escape_end_the_front_end() {
    let mut front = WindowsSDL2::new();
    let mut cpu = CPU::new();
    assert!(!front.handle_event(&mut cpu, Event::Quit));
    assert!(!front.handle_event(&mut cpu, Event::KeyDown(Key::Escape)));
    assert!(front.handle_event(&mut cpu, Event::KeyUp(Key::Escape)));
    assert!(front.handle_event(&mut cpu, Event::Other));
    assert!(front.handle_event(&mut cpu, Event::KeyDown(Key::Other)));
    assert_eq!(front.cycles_per_frame(), 10);
}

#[test]
fn minus_and_plus_change_the_speed() {
    let mut front = WindowsSDL2::new();
    let mut cpu = CPU::new();
    assert!(front.handle_event(&mut cpu, Event::KeyDown(Key::Minus)));
    assert_eq!(front.cycles_per_frame(), 9);
    assert!(front.handle_event(&mut cpu, Event::KeyDown(Key::Plus)));
    assert!(front.handle_event(&mut cpu, Event::KeyDown(Key::Equals)));
    assert_eq!(front.cycles_per_frame(), 11);
    assert!(front.handle_event(&mut cpu, Event::KeyUp(Key::Minus)));
    assert!(front.handle_event(&mut cpu, Event::KeyUp(Key::Plus)));
    assert_eq!(front.cycles_per_frame(), 11);
}

#[test]
fn speed_stays_between_0_and_255() {
    let mut front = WindowsSDL2::new();
    let mut cpu = CPU::new();
    for _ in 0..12 {
        front.handle_event(&mut cpu, Event::KeyDown(Key::Minus));
    }
    assert_eq!(front.cycles_per_frame(), 0);
    for _ in 0..300 {
        front.handle_event(&mut cpu, Event::KeyDown(Key::Plus));
    }
    assert_eq!(front.cycles_per_frame(), 255);
}

#[test]
fn keypad_layout() {
    let layout = [
        (Key::Num1, Nibble::N1),
        (Key::Num2, Nibble::N2),
        (Key::Num3, Nibble::N3),
        (Key::Num4, Nibble::NC),
        (Key::Q, Nibble::N4),
        (Key::W, Nibble::N5),
        (Key::E, Nibble::N6),
        (Key::R, Nibble::ND),
        (Key::A, Nibble::N7),
        (Key::S, Nibble::N8),
        (Key::D, Nibble::N9),
        (Key::F, Nibble::NE),
        (Key::Z, Nibble::NA),
        (Key::X, Nibble::N0),
        (Key::C, Nibble::NB),
        (Key::V, Nibble::NF),
    ];
    for (key, index) in layout {
        let mut front = WindowsSDL2::new();
        let mut cpu = CPU::new();
        assert!(front.handle_event(&mut cpu, Event::KeyDown(key)));
        for other in 0..16u8 {
            let other = Nibble::new(other).unwrap();
            assert_eq!(cpu.key(other), other == index);
        }
        assert!(front.handle_event(&mut cpu, Event::KeyUp(key)));
        assert!(!cpu.key(index));
        front.handle_key(&mut cpu, key, true);
        assert!(cpu.key(index));
    }
}

#[test]
fn other_keys_do_not_reach_the_keypad() {
    let mut front = WindowsSDL2::new();
    let mut cpu = CPU::new();
    for key in [Key::Escape, Key::Minus, Key::Plus, Key::Equals, Key::Other] {
        front.handle_event(&mut cpu, Event::KeyDown(key));
        front.handle_key(&mut cpu, key, true);
    }
    for index in 0..16u8 {
        assert!(!cpu.key(Nibble::new(index).unwrap()));
    }
}

#[test]
fn tone_follows_the_sound_timer() {
    let front = WindowsSDL2::new();
    let mut cpu = machine_with(&[0x6002, 0xF018]);
    assert!(!front.play_tone(&cpu));
    assert_eq!(cpu.step(), Ok(Outcome::Executed));
    assert_eq!(cpu.step(), Ok(Outcome::Executed));
    assert!(front.play_tone(&cpu));
    cpu.tick();
    assert!(front.play_tone(&cpu));
    cpu.tick();
    assert!(!front.play_tone(&cpu));
}

#[test]
fn run_cycles_runs_the_cycles_of_a_frame() {
    // V0 += 1, eleven times over.
    let front = WindowsSDL2::new();
    let mut cpu = machine_with(&[0x7001; 11]);
    let results = front.run_cycles(&mut cpu);
    assert_eq!(results, vec![Ok(Outcome::Executed); 10]);
    assert_eq!(cpu.register(Nibble::N0), 10);
    assert_eq!(cpu.pc(), 0x214);
}

#[test]
fn run_cycles_with_no_cycles_does_nothing() {
    let mut front = WindowsSDL2::new();
    let mut cpu = machine_with(&[0x7001]);
    for _ in 0..10 {
        front.handle_event(&mut cpu, Event::KeyDown(Key::Minus));
    }
    assert_eq!(front.run_cycles(&mut cpu), vec![]);
    assert_eq!(cpu.pc(), 0x200);
}

#[test]
fn run_cycles_reports_and_passes_over_what_is_no_instruction() {
    let front = WindowsSDL2::new();
    let mut program = vec![0x7001, 0x0123, 0xFFFF];
    program.extend([0x7001; 7]);
    let mut cpu = machine_with(&program);
    let results = front.run_cycles(&mut cpu);
    let mut expected = vec![Ok(Outcome::Executed); 10];
    expected[1] = Err(Fault::IllegalInstruction { pc: 0x202, word: 0x0123 });
    expected[2] = Ok(Outcome::Halted);
    assert_eq!(results, expected);
    assert_eq!(cpu.register(Nibble::N0), 8);
}

#[test]
fn run_cycles_ends_at_a_fatal_fault() {
    let front = WindowsSDL2::new();
    let mut cpu = machine_with(&[0x7001, 0x00EE, 0x7001]);
    let results = front.run_cycles(&mut cpu);
    assert_eq!(
        results,
        vec![Ok(Outcome::Executed), Err(Fault::StackUnderflow { pc: 0x202 })]
    );
    assert_eq!(cpu.register(Nibble::N0), 1);
    assert_eq!(cpu.pc(), 0x204);
}

#[test]
fn draw_frame_of_a_blank_screen_is_empty() {
    assert_eq!(WindowsSDL2::new().draw_frame(&CPU::new()), vec![]);
}

#[test]
fn draw_frame_goes_column_by_column() {
    // Glyph 7 (0xF0, 0x10, 0x20, 0x40, 0x40) at (2, 1).
    let front = WindowsSDL2::new();
    let mut cpu = machine_with(&[0x6002, 0x6101, 0x6207, 0xF229, 0xD015]);
    assert_eq!(front.run_cycles(&mut cpu).len(), 10);
    let cells = [(2, 1), (3, 1), (3, 4), (3, 5), (4, 1), (4, 3), (5, 1), (5, 2)];
    let expected: Vec<Rect> =
        cells.iter().map(|&(x, y)| Rect { x: x * 20, y: y * 20, width: 20, height: 20 }).collect();
    assert_eq!(front.draw_frame(&cpu), expected);
}

#[test]
fn draw_frame_reaches_the_last_pixel() {
    // 0x80 at (63, 31).
    let front = WindowsSDL2::new();
    let mut cpu = machine_with(&[0x603F, 0x611F, 0xA208, 0xD011, 0x8000]);
    front.run_cycles(&mut cpu);
    assert_eq!(
        front.draw_frame(&cpu),
        vec![Rect { x: 1260, y: 620, width: 20, height: 20 }]
    );
}

#[test]
fn pace_waits_for_the_rest_of_the_frame() {
    let front = WindowsSDL2::new();
    assert_eq!(front.pace(1000, 1000), Pacing::Wait { ms: 16 });
    assert_eq!(front.pace(1000, 1005), Pacing::Wait { ms: 11 });
    assert_eq!(front.pace(1000, 1015), Pacing::Wait { ms: 1 });
    assert_eq!(front.pace(1000, 1016), Pacing::Proceed);
    assert_eq!(front.pace(1000, 5000), Pacing::Proceed);
}

#[test]
fn pace_follows_the_clock_round() {
    let front = WindowsSDL2::new();
    assert_eq!(front.pace(u32::MAX - 3, 2), Pacing::Wait { ms: 10 });
    assert_eq!(front.pace(u32::MAX - 3, 12), Pacing::Proceed);
    assert_eq!(front.pace(1, 0), Pacing::Proceed);
}

#[test]
fn frame_ticks_then_runs_then_paints() {
    // V0 := 2; sound := V0; delay := V0; I := glyph of V1 (0); draw at (0, 0); wait
    let front = WindowsSDL2::new();
    let mut cpu = machine_with(&[0x6002, 0xF018, 0xF015, 0xF129, 0xD115, 0x120A]);
    let (sounding, results, rects) = front.frame(&mut cpu);
    // The timers were still 0 when the frame began.
    assert!(!sounding);
    assert_eq!(results, vec![Ok(Outcome::Executed); 10]);
    assert_eq!(cpu.st(), 2);
    assert_eq!(cpu.dt(), 2);
    assert_eq!(rects, front.draw_frame(&cpu));
    assert_eq!(rects.len(), 14);
    let (sounding, results, _) = front.frame(&mut cpu);
    assert!(sounding);
    assert_eq!(results.len(), 10);
    assert_eq!(cpu.st(), 1);
    let (sounding, _, _) = front.frame(&mut cpu);
    assert!(!sounding);
    assert_eq!(cpu.st(), 0);
    assert_eq!(cpu.dt(), 0);
}

#[test]
fn frame_ends_its_cycles_at_a_fatal_fault() {
    let front = WindowsSDL2::new();
    let mut cpu = machine_with(&[0x7001, 0x00EE]);
    let (sounding, results, rects) = front.frame(&mut cpu);
    assert!(!sounding);
    assert_eq!(results, vec![Ok(Outcome::Executed), Err(Fault::StackUnderflow { pc: 0x202 })]);
    assert_eq!(rects, vec![]);
}
