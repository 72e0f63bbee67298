//! What holds of the instruction set, whatever the state it is used in.

use vstd::prelude::*;
use crate::instruction::Instruction;
use crate::graphics::run;
use crate::machine::{polled_key, Fault, Machine, Outcome};
use crate::nibble::Nibble;

verus! {

/// Register addition: the destination gets the sum modulo 256, and VF is 1
/// if the sum is 256 or more, else 0. Where the destination is VF itself,
/// the carry is what it holds afterwards.
pub proof fn lemma_add_registers(m: Machine, x: Nibble, y: Nibble)
    requires
        m.wf(),
    ensures
        x != Nibble::NF ==> m.add_registers(x, y).reg(x) == (m.reg(x) + m.reg(y)) % 256,
        m.add_registers(x, y).flag() == 0 || m.add_registers(x, y).flag() == 1,
        m.add_registers(x, y).flag() == 1 <==> m.reg(x) + m.reg(y) >= 256,
{
}

/// Register subtraction: the destination gets the difference modulo 256,
/// and VF is 1 if the minuend was at least the subtrahend, else 0. Where
/// the destination is VF itself, that flag is what it holds afterwards.
pub proof fn lemma_subtract_registers(m: Machine, x: Nibble, y: Nibble)
    requires
        m.wf(),
    ensures
        x != Nibble::NF ==> m.subtract_registers(x, y).reg(x) == (m.reg(x) - m.reg(y)) % 256,
        m.subtract_registers(x, y).flag() == 0 || m.subtract_registers(x, y).flag() == 1,
        m.subtract_registers(x, y).flag() == 1 <==> m.reg(x) >= m.reg(y),
        x != Nibble::NF ==> m.subtract_numeric_registers(x, y).reg(x) == (m.reg(y) - m.reg(x))
            % 256,
        m.subtract_numeric_registers(x, y).flag() == 1 <==> m.reg(y) >= m.reg(x),
        m.subtract_numeric_registers(x, y).flag() == 0 <==> m.reg(y) < m.reg(x),
{
}

/// The shifts put the bit that falls out into VF, whichever register is
/// shifted and whatever its other bits are: bit 0 for a shift to the right,
/// bit 7 for a shift to the left.
pub proof fn lemma_shift_flag(m: Machine, x: Nibble)
    requires
        m.wf(),
    ensures
        m.right_shift_register(x).flag() == m.reg(x) & 1,
        m.left_shift_register(x).flag() == (m.reg(x) >> 7) & 1,
        x != Nibble::NF ==> m.right_shift_register(x).reg(x) == m.reg(x) >> 1,
        x != Nibble::NF ==> m.left_shift_register(x).reg(x) == m.reg(x) << 1,
{
    let a = m.reg(x);
    assert(a % 2 == a & 1) by (bit_vector);
    assert(a / 128 == (a >> 7) & 1) by (bit_vector);
    assert(a / 2 == a >> 1) by (bit_vector);
    assert((2 * a) % 256 == a << 1) by (bit_vector);
}

/// Drawing the same sprite at the same place twice in succession gives the
/// screen back as it was.
pub proof fn lemma_draw_twice(m: Machine, x: Nibble, y: Nibble, n: Nibble)
    requires
        m.wf(),
    ensures
        m.draw(x, y, n).draw(x, y, n).screen == m.screen,
{
    let once = m.draw(x, y, n);
    let twice = once.draw(x, y, n);
    let (ox, oy) = m.origin(x, y);
    assert(once.set_flag(0).registers =~= m.set_flag(0).registers);
    assert(once.origin(x, y) == (ox, oy));
    assert forall|r: int, c: int| 0 <= r < 32 && 0 <= c < 64 implies once.sprite_covers(
        ox,
        oy,
        n.as_int(),
        r,
        c,
    ) == m.sprite_covers(ox, oy, n.as_int(), r, c) by {}
    assert(twice.screen =~~= m.screen);
}

/// A sprite drawn on a screen collides exactly where it is drawn over again:
/// the second of two equal draws reports a collision if and only if the
/// sprite has a pixel at all.
pub proof fn lemma_draw_twice_collides(m: Machine, x: Nibble, y: Nibble, n: Nibble)
    requires
        m.wf(),
        forall|r: int, c: int| 0 <= r < 32 && 0 <= c < 64 ==> !m.screen[r][c],
    ensures
        m.draw(x, y, n).flag() == 0,
        m.draw(x, y, n).draw(x, y, n).flag() == 1 <==> exists|r: int, c: int|
            0 <= r < 32 && 0 <= c < 64 && #[trigger] m.sprite_covers(
                m.origin(x, y).0,
                m.origin(x, y).1,
                n.as_int(),
                r,
                c,
            ),
{
    let once = m.draw(x, y, n);
    let (ox, oy) = m.origin(x, y);
    let count = n.as_int();
    assert(once.set_flag(0).registers =~= m.set_flag(0).registers);
    assert(once.origin(x, y) == (ox, oy));
    assert(!m.sprite_collides(ox, oy, count));
    if once.sprite_collides(ox, oy, count) {
        let (r, c) = choose|r: int, c: int|
            0 <= r < 32 && 0 <= c < 64 && once.screen[r][c] && #[trigger] once.sprite_covers(
                ox,
                oy,
                count,
                r,
                c,
            );
        assert(m.sprite_covers(ox, oy, count, r, c));
    }
    if exists|r: int, c: int|
        0 <= r < 32 && 0 <= c < 64 && #[trigger] m.sprite_covers(ox, oy, count, r, c) {
        let (r, c) = choose|r: int, c: int|
            0 <= r < 32 && 0 <= c < 64 && #[trigger] m.sprite_covers(ox, oy, count, r, c);
        assert(once.screen[r][c]);
        assert(once.sprite_covers(ox, oy, count, r, c));
    }
}

/// The key that the wait instruction reports is the lowest of the sixteen
/// keys that is down; it reports none if and only if no key is down.
pub proof fn lemma_polled_key_is_lowest(keys: Seq<bool>)
    ensures
        match polled_key(keys) {
            Some(key) => key < 16 && keys[key as int] && forall|k: int| 0 <= k < key ==> !keys[k],
            None => forall|k: int| 0 <= k < 16 ==> !keys[k],
        },
{
}

/// A cycle whose instruction waits for a key, with no key down, changes
/// nothing: the program counter is where it was, so the cycle after it is
/// the same one again.
pub proof fn lemma_wait_repeats(m: Machine, x: Nibble, random: u8)
    requires
        m.wf(),
        m.next_instruction() == Some(Instruction::WaitForKeyPress { x }),
        forall|k: int| 0 <= k < 16 ==> !m.keys[k],
    ensures
        m.step(random) == (m, Ok::<Outcome, Fault>(Outcome::Executed)),
{
    let fetched = Machine { pc: (m.pc + 2) as u16, ..m };
    assert(m.step(random) == fetched.execute(
        m.pc,
        Instruction::WaitForKeyPress { x },
        random,
    ));
    assert(polled_key(m.keys) is None);
}

/// However many cycles are run while a machine waits for a key and no key
/// is down, the machine stays as it is, and every cycle ends without a
/// fault.
pub proof fn lemma_wait_repeats_forever(m: Machine, x: Nibble, randoms: Seq<u8>)
    requires
        m.wf(),
        m.next_instruction() == Some(Instruction::WaitForKeyPress { x }),
        forall|k: int| 0 <= k < 16 ==> !m.keys[k],
    ensures
        run(m, randoms).0 == m,
        run(m, randoms).1.len() == randoms.len(),
        forall|i: int|
            0 <= i < randoms.len() ==> #[trigger] run(m, randoms).1[i] == Ok::<Outcome, Fault>(
                Outcome::Executed,
            ),
    decreases randoms.len(),
{
    if randoms.len() > 0 {
        lemma_wait_repeats_forever(m, x, randoms.drop_last());
        lemma_wait_repeats(m, x, randoms.last());
        let results = run(m, randoms.drop_last()).1;
        if results.len() > 0 {
            assert(results.last() == results[results.len() - 1]);
        }
    }
}

/// A cycle whose instruction waits for a key, with a key down, writes the
/// lowest key that is down to the destination register and goes on to the
/// next instruction; nothing else changes.
pub proof fn lemma_wait_ends(m: Machine, x: Nibble, key: int, random: u8)
    requires
        m.wf(),
        m.next_instruction() == Some(Instruction::WaitForKeyPress { x }),
        0 <= key < 16,
        m.keys[key],
        forall|k: int| 0 <= k < key ==> !m.keys[k],
    ensures
        m.step(random).1 == Ok::<Outcome, Fault>(Outcome::Executed),
        m.step(random).0 == (Machine {
            pc: (m.pc + 2) as u16,
            registers: m.registers.update(x.as_int(), key as u8),
            ..m
        }),
        m.step(random).0.reg(x) == key,
        m.step(random).0.pc == m.pc + 2,
{
    lemma_polled_key_is_lowest(m.keys);
    assert(polled_key(m.keys) == Some(key as u8));
}

/// Only a `Cxkk` instruction depends on the random byte.
pub proof fn lemma_step_ignores_random(m: Machine, first: u8, second: u8)
    requires
        !m.draws_random(),
    ensures
        m.step(first) == m.step(second),
{
}

} // verus!
