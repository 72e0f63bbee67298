//! The decisions of the front end: which host key is which key of the
//! keypad, how many cycles a frame runs, what is painted and when. The
//! window, the sound device and the clock are the caller's.

use vstd::prelude::*;
use crate::cpu::CPU;
use crate::machine::{Fault, Machine, Outcome};
use crate::nibble::Nibble;

verus! {

/// The side of one painted pixel, in points of the window.
pub const PIXEL_SIZE: i32 = 20;

/// Cycles per frame of a new front end: at 60 frames per second, 600
/// instructions per second.
pub const DEFAULT_CYCLES_PER_FRAME: u8 = 10;

/// The keys of the host keyboard that mean something to the front end.
#[derive(Clone, Copy, Debug, PartialEq, Eq)]
pub enum Key {
    Escape,
    Minus,
    Plus,
    Equals,
    Num1,
    Num2,
    Num3,
    Num4,
    Q,
    W,
    E,
    R,
    A,
    S,
    D,
    F,
    Z,
    X,
    C,
    V,
    /// Any other key.
    Other,
}

/// What the window reports.
#[derive(Clone, Copy, Debug, PartialEq, Eq)]
pub enum Event {
    /// The window was closed.
    Quit,
    /// A key went down.
    KeyDown(Key),
    /// A key went up.
    KeyUp(Key),
    /// Anything else.
    Other,
}

/// The key of the keypad that a host key stands for. The keypad is laid out
/// on the left of the keyboard:
///
/// ```text
/// 1 2 3 4      1 2 3 C
/// Q W E R  for 4 5 6 D
/// A S D F      7 8 9 E
/// Z X C V      A 0 B F
/// ```
pub open spec fn keypad(key: Key) -> Option<Nibble> {
    match key {
        Key::Num1 => Some(Nibble::N1),
        Key::Num2 => Some(Nibble::N2),
        Key::Num3 => Some(Nibble::N3),
        Key::Num4 => Some(Nibble::NC),
        Key::Q => Some(Nibble::N4),
        Key::W => Some(Nibble::N5),
        Key::E => Some(Nibble::N6),
        Key::R => Some(Nibble::ND),
        Key::A => Some(Nibble::N7),
        Key::S => Some(Nibble::N8),
        Key::D => Some(Nibble::N9),
        Key::F => Some(Nibble::NE),
        Key::Z => Some(Nibble::NA),
        Key::X => Some(Nibble::N0),
        Key::C => Some(Nibble::NB),
        Key::V => Some(Nibble::NF),
        _ => None,
    }
}

/// The machine after host key `key` went down (`state`) or up.
pub open spec fn key_change(m: Machine, key: Key, state: bool) -> Machine {
    match keypad(key) {
        Some(index) => m.update_key(index, state),
        None => m,
    }
}

/// Milliseconds that a frame lasts at least: a sixtieth of a second,
/// rounded down.
pub const FRAME_INTERVAL: u32 = 16;

/// A square of the window to fill: its corner, its width and its height.
#[derive(Clone, Copy, Debug, PartialEq, Eq)]
pub struct Rect {
    pub x: i32,
    pub y: i32,
    pub width: u32,
    pub height: u32,
}

/// What to do at the end of a frame.
#[derive(Clone, Copy, Debug, PartialEq, Eq)]
pub enum Pacing {
    /// The frame was drawn early: wait `ms` milliseconds, and keep the time
    /// of the last frame as it is.
    Wait { ms: u32 },
    /// The frame took its time: its time becomes the time of the last frame.
    Proceed,
}

/// Whether a step ended in a fault after which the machine cannot go on: any
/// fault but a word that encodes no instruction, which is reported and
/// passed over.
pub open spec fn is_fatal(result: Result<Outcome, Fault>) -> bool {
    match result {
        Ok(_) => false,
        Err(Fault::IllegalInstruction { .. }) => false,
        Err(_) => true,
    }
}

/// Whether a run with these results has ended in a fatal fault.
pub open spec fn stopped(results: Seq<Result<Outcome, Fault>>) -> bool {
    results.len() > 0 && is_fatal(results.last())
}

/// A run of cycles, one for each of `randoms`, the byte that the cycle may
/// draw: the machine it ends in and how each cycle ended, where a fatal
/// fault ends the run.
pub open spec fn run(m: Machine, randoms: Seq<u8>) -> (Machine, Seq<Result<Outcome, Fault>>)
    decreases randoms.len(),
{
    if randoms.len() == 0 {
        (m, Seq::empty())
    } else {
        let (before, results) = run(m, randoms.drop_last());
        if stopped(results) {
            (before, results)
        } else {
            let (after, result) = before.step(randoms.last());
            (after, results.push(result))
        }
    }
}

/// The square of the window for the pixel in column `column` of row `row`.
pub open spec fn pixel_rect(column: int, row: int) -> Rect {
    Rect {
        x: (column * PIXEL_SIZE) as i32,
        y: (row * PIXEL_SIZE) as i32,
        width: PIXEL_SIZE as u32,
        height: PIXEL_SIZE as u32,
    }
}

/// The first `cells` pixels in the order in which they are painted: column
/// by column, each from the top; a pixel is given as (column, row).
pub open spec fn painting_order(cells: nat) -> Seq<(int, int)> {
    Seq::new(cells, |k: int| (k / 32, k % 32))
}

/// The squares to fill for the first `cells` pixels of `screen`: those of
/// the lit ones, in painting order.
pub open spec fn painted(screen: Seq<Seq<bool>>, cells: nat) -> Seq<Rect> {
    painting_order(cells).filter(|cell: (int, int)| screen[cell.1][cell.0]).map_values(
        |cell: (int, int)| pixel_rect(cell.0, cell.1),
    )
}

/// The time that passed between two readings of a millisecond clock that
/// wraps at 2^32.
pub open spec fn elapsed(last: u32, current: u32) -> int {
    (current - last) % 0x1_0000_0000
}

/// Painting one more pixel adds its square if it is lit, and nothing else.
pub proof fn lemma_painted_next(screen: Seq<Seq<bool>>, cells: nat)
    ensures
        painted(screen, cells + 1) == if screen[cells as int % 32][cells as int / 32] {
            painted(screen, cells).push(pixel_rect(cells as int / 32, cells as int % 32))
        } else {
            painted(screen, cells)
        },
        painted(screen, 0) == Seq::<Rect>::empty(),
{
    reveal(Seq::filter);
    let lit = |cell: (int, int)| screen[cell.1][cell.0];
    let rect = |cell: (int, int)| pixel_rect(cell.0, cell.1);
    let more = painting_order(cells + 1);
    let fewer = painting_order(cells);
    assert(more.drop_last() =~= fewer);
    assert(more.last() == (cells as int / 32, cells as int % 32));
    if lit(more.last()) {
        assert(more.filter(lit).map_values(rect) =~= fewer.filter(lit).map_values(rect).push(
            rect(more.last()),
        ));
    }
    assert(painting_order(0).filter(lit) =~= Seq::empty());
    assert(painted(screen, 0) =~= Seq::empty());
}

/// A run that has ended in a fatal fault stays as it is, however many
/// cycles are asked of it.
pub proof fn lemma_run_stopped(m: Machine, randoms: Seq<u8>, more: Seq<u8>)
    requires
        stopped(run(m, randoms).1),
    ensures
        run(m, randoms + more) == run(m, randoms),
    decreases more.len(),
{
    if more.len() == 0 {
        assert(randoms + more =~= randoms);
    } else {
        lemma_run_stopped(m, randoms, more.drop_last());
        assert((randoms + more).drop_last() =~= randoms + more.drop_last());
    }
}

/// The front end's own state: how many cycles it runs per frame.
pub struct WindowsSDL2 {
    cycles_per_frame: u8,
}

impl WindowsSDL2 {
    /// The cycles that are run per frame.
    pub closed spec fn cycles(self) -> u8 {
        self.cycles_per_frame
    }

    /// The cycles per frame after `event`: the minus key takes one away,
    /// down to none; the plus and the equals key add one, up to 255.
    pub open spec fn cycles_after(cycles: u8, event: Event) -> u8 {
        match event {
            Event::KeyDown(Key::Minus) => if cycles > 0 {
                (cycles - 1) as u8
            } else {
                0
            },
            Event::KeyDown(Key::Plus) | Event::KeyDown(Key::Equals) => if cycles < 255 {
                (cycles + 1) as u8
            } else {
                255
            },
            _ => cycles,
        }
    }

    /// The machine after `event`: a key of the keypad that goes down or up
    /// is recorded, but not while it serves the front end itself.
    pub open spec fn machine_after(m: Machine, event: Event) -> Machine {
        match event {
            Event::KeyDown(Key::Escape) | Event::KeyDown(Key::Minus) | Event::KeyDown(Key::Plus)
            | Event::KeyDown(Key::Equals) => m,
            Event::KeyDown(key) => key_change(m, key, true),
            Event::KeyUp(key) => key_change(m, key, false),
            _ => m,
        }
    }

    /// Whether the front end goes on after `event`: it ends when the window
    /// is closed or the escape key goes down.
    pub open spec fn goes_on(event: Event) -> bool {
        !(event == Event::Quit || event == Event::KeyDown(Key::Escape))
    }

    /// A front end that runs 10 cycles per frame.
    pub fn new() -> (front: Self)
        ensures
            front.cycles() == DEFAULT_CYCLES_PER_FRAME,
    {
        WindowsSDL2 { cycles_per_frame: 10 }
    }

    /// The cycles that are run per frame.
    pub fn cycles_per_frame(&self) -> (cycles: u8)
        ensures
            cycles == self.cycles(),
    {
        self.cycles_per_frame
    }

    /// Handles one event of the window, and says whether the front end goes
    /// on.
    pub fn handle_event(&mut self, cpu: &mut CPU, event: Event) -> (running: bool)
        ensures
            running == Self::goes_on(event),
            final(self).cycles() == Self::cycles_after(old(self).cycles(), event),
            final(cpu)@ == Self::machine_after(old(cpu)@, event),
    {
        match event {
            Event::Quit => false,
            Event::KeyDown(Key::Escape) => false,
            Event::KeyDown(Key::Minus) => {
                if self.cycles_per_frame > 0 {
                    self.cycles_per_frame -= 1;
                }
                true
            },
            Event::KeyDown(Key::Plus) | Event::KeyDown(Key::Equals) => {
                self.cycles_per_frame = self.cycles_per_frame.saturating_add(1);
                true
            },
            Event::KeyDown(key) => {
                self.handle_key(cpu, key, true);
                true
            },
            Event::KeyUp(key) => {
                self.handle_key(cpu, key, false);
                true
            },
            Event::Other => true,
        }
    }

    /// Handles a key that went down (`state`) or up: a key of the keypad is
    /// passed on to the interpreter, any other key is ignored.
    pub fn handle_key(&mut self, cpu: &mut CPU, key: Key, state: bool)
        ensures
            final(self).cycles() == old(self).cycles(),
            final(cpu)@ == key_change(old(cpu)@, key, state),
    {
        match key {
            Key::Num1 => cpu.update_key(Nibble::N1, state),
            Key::Num2 => cpu.update_key(Nibble::N2, state),
            Key::Num3 => cpu.update_key(Nibble::N3, state),
            Key::Num4 => cpu.update_key(Nibble::NC, state),
            Key::Q => cpu.update_key(Nibble::N4, state),
            Key::W => cpu.update_key(Nibble::N5, state),
            Key::E => cpu.update_key(Nibble::N6, state),
            Key::R => cpu.update_key(Nibble::ND, state),
            Key::A => cpu.update_key(Nibble::N7, state),
            Key::S => cpu.update_key(Nibble::N8, state),
            Key::D => cpu.update_key(Nibble::N9, state),
            Key::F => cpu.update_key(Nibble::NE, state),
            Key::Z => cpu.update_key(Nibble::NA, state),
            Key::X => cpu.update_key(Nibble::N0, state),
            Key::C => cpu.update_key(Nibble::NB, state),
            Key::V => cpu.update_key(Nibble::NF, state),
            _ => {},
        }
    }

    /// Runs the cycles of one frame and says how each of them ended, in
    /// order. A fatal fault ends the run: it is then the last entry.
    pub fn run_cycles(&self, cpu: &mut CPU) -> (results: Vec<Result<Outcome, Fault>>)
        ensures
            exists|randoms: Seq<u8>|
                randoms.len() == self.cycles() && (final(cpu)@, results@) == #[trigger] run(
                    old(cpu)@,
                    randoms,
                ),
    {
        let mut results: Vec<Result<Outcome, Fault>> = Vec::new();
        let ghost randoms: Seq<u8> = Seq::empty();
        let mut count: u8 = 0;
        while count < self.cycles_per_frame
            invariant_except_break
                !stopped(results@),
            invariant
                count <= self.cycles_per_frame,
                randoms.len() == count,
                (cpu@, results@) == run(old(cpu)@, randoms),
            ensures
                randoms.len() <= self.cycles_per_frame,
                (cpu@, results@) == run(old(cpu)@, randoms),
                randoms.len() == self.cycles_per_frame || stopped(results@),
            decreases self.cycles_per_frame - count,
        {
            let ghost before = cpu@;
            let result = cpu.step();
            let ghost random = choose|random: u8| (cpu@, result) == #[trigger] before.step(random);
            results.push(result);
            count += 1;
            proof {
                assert(randoms.push(random).drop_last() =~= randoms);
                randoms = randoms.push(random);
            }
            let fatal = match result {
                Ok(_) => false,
                Err(Fault::IllegalInstruction { .. }) => false,
                Err(_) => true,
            };
            if fatal {
                break ;
            }
        }
        proof {
            let rest = Seq::new((self.cycles_per_frame - randoms.len()) as nat, |k: int| 0u8);
            if stopped(results@) {
                lemma_run_stopped(old(cpu)@, randoms, rest);
            } else {
                assert(randoms + rest =~= randoms);
            }
            assert((randoms + rest).len() == self.cycles());
            assert((cpu@, results@) == run(old(cpu)@, randoms + rest));
        }
        results
    }

    /// The squares to fill for the next frame, on a window that was blanked:
    /// one for each lit pixel, column by column.
    pub fn draw_frame(&self, cpu: &CPU) -> (rects: Vec<Rect>)
        ensures
            rects@ == painted(cpu@.screen, 2048),
    {
        let screen = cpu.screen();
        let mut rects: Vec<Rect> = Vec::new();
        proof {
            lemma_painted_next(cpu@.screen, 0);
        }
        let mut x: usize = 0;
        while x < 64
            invariant
                x <= 64,
                rects@ == painted(cpu@.screen, (x * 32) as nat),
                forall|r: int, c: int|
                    0 <= r < 32 && 0 <= c < 64 ==> screen@[r]@[c] == #[trigger] cpu@.screen[r][c],
            decreases 64 - x,
        {
            let mut y: usize = 0;
            while y < 32
                invariant
                    x < 64,
                    y <= 32,
                    rects@ == painted(cpu@.screen, (x * 32 + y) as nat),
                    forall|r: int, c: int|
                        0 <= r < 32 && 0 <= c < 64 ==> screen@[r]@[c]
                            == #[trigger] cpu@.screen[r][c],
                decreases 32 - y,
            {
                proof {
                    lemma_painted_next(cpu@.screen, (x * 32 + y) as nat);
                    assert((x * 32 + y) / 32 == x && (x * 32 + y) % 32 == y);
                    assert(screen@[y as int]@[x as int] == cpu@.screen[y as int][x as int]);
                }
                if screen[y][x] {
                    rects.push(
                        Rect {
                            x: x as i32 * PIXEL_SIZE,
                            y: y as i32 * PIXEL_SIZE,
                            width: PIXEL_SIZE as u32,
                            height: PIXEL_SIZE as u32,
                        },
                    );
                }
                y += 1;
            }
            x += 1;
        }
        rects
    }

    /// Holds the front end to 60 frames per second. The two times are
    /// readings of a millisecond clock: that of the last frame that was on
    /// time, and that of the frame just drawn.
    pub fn pace(&self, last_frame_time: u32, current_frame_time: u32) -> (pacing: Pacing)
        ensures
            elapsed(last_frame_time, current_frame_time) < FRAME_INTERVAL ==> pacing == (
            Pacing::Wait {
                ms: (FRAME_INTERVAL - elapsed(last_frame_time, current_frame_time)) as u32,
            }),
            elapsed(last_frame_time, current_frame_time) >= FRAME_INTERVAL ==> pacing
                == Pacing::Proceed,
    {
        let delta = current_frame_time.wrapping_sub(last_frame_time);
        if delta < FRAME_INTERVAL {
            Pacing::Wait { ms: FRAME_INTERVAL - delta }
        } else {
            Pacing::Proceed
        }
    }

    /// The work of one frame, in its order: the timers tick once, the
    /// buzzer is set by the sound timer as it then stands, the cycles of the
    /// frame are run, and the screen they leave is what is painted. Gives
    /// whether the buzzer sounds, how each cycle ended, and the squares to
    /// fill.
    pub fn frame(&self, cpu: &mut CPU) -> (out: (bool, Vec<Result<Outcome, Fault>>, Vec<Rect>))
        ensures
            out.0 == (old(cpu)@.tick().sound > 0),
            exists|randoms: Seq<u8>|
                randoms.len() == self.cycles() && (final(cpu)@, out.1@) == #[trigger] run(
                    old(cpu)@.tick(),
                    randoms,
                ),
            out.2@ == painted(final(cpu)@.screen, 2048),
    {
        cpu.tick();
        let sounding = self.play_tone(cpu);
        let results = self.run_cycles(cpu);
        let rects = self.draw_frame(cpu);
        (sounding, results, rects)
    }

    /// Whether the buzzer sounds: it does while the sound timer is not zero.
    pub fn play_tone(&self, cpu: &CPU) -> (sounding: bool)
        ensures
            sounding == (cpu@.sound > 0),
    {
        cpu.st() > 0
    }
}

} // verus!
