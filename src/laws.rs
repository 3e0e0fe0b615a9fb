use vstd::prelude::*;

use crate::cpu::{
    advanced, blank_display, collides, drawn, exec_spec, fetch_spec, lowest_pressed,
    lowest_pressed_from, set_reg, sprite_bit, sprite_byte_bit, step_spec, ticked, MachineState,
    StepResult, DELAY_PERIOD_MS, MEMORY_SIZE,
    SCREEN_HEIGHT, SCREEN_WIDTH,
};
use crate::error::Chip8Error;
use crate::instruction::Instruction;

verus! {

/// A framebuffer of the screen's size.
pub open spec fn display_wf(d: Seq<Seq<bool>>) -> bool {
    d.len() == SCREEN_HEIGHT && forall|r: int| 0 <= r < SCREEN_HEIGHT ==> (#[trigger] d[r]).len()
        == SCREEN_WIDTH
}

/// A call to the address that is executing is reported as a self-loop, and
/// nothing is pushed: the machine is left as it was.
pub proof fn lemma_call_self_loops(s: MachineState, rnd: u8)
    ensures
        exec_spec(s, Instruction::Call(s.pc), rnd) == (s, Ok::<StepResult, Chip8Error>(
            StepResult::Loop,
        )),
{
}

/// A return with an empty call stack is an error and changes nothing.
pub proof fn lemma_return_on_empty_stack(s: MachineState, rnd: u8)
    requires
        s.stack.len() == 0,
    ensures
        exec_spec(s, Instruction::Rts, rnd) == (s, Err::<StepResult, Chip8Error>(
            Chip8Error::EmptyStack,
        )),
{
}

/// After a clear every pixel of the framebuffer is off.
pub proof fn lemma_clear_blanks(s: MachineState, rnd: u8)
    ensures
        display_wf(exec_spec(s, Instruction::Clr, rnd).0.display),
        forall|r: int, c: int|
            0 <= r < SCREEN_HEIGHT && 0 <= c < SCREEN_WIDTH ==> !exec_spec(
                s,
                Instruction::Clr,
                rnd,
            ).0.display[r][c],
{
    assert(exec_spec(s, Instruction::Clr, rnd).0.display == blank_display());
}

/// Whether any of the `n` sprite bytes at `i` has a bit set.
pub open spec fn sprite_has_bit(mem: Seq<u8>, i: int, n: int) -> bool {
    exists|j: int, k: int| 0 <= j < n && 0 <= k < 8 && #[trigger] sprite_byte_bit(mem[i + j], k)
}

/// Drawing the same sprite twice at the same place gives back the
/// framebuffer, and the second draw reports a collision exactly when a set
/// sprite bit fell on a pixel that was off before the first; so on a blank
/// screen it reports one whenever the sprite has a set bit. The coordinate
/// registers are not the flag register, so the second draw reads the same
/// operands.
pub proof fn lemma_draw_twice_restores(s: MachineState, x: u8, y: u8, n: u8, rnd: u8)
    requires
        x < 15,
        y < 15,
        n < 16,
        s.i + n <= MEMORY_SIZE,
        s.v.len() == 16,
        display_wf(s.display),
    ensures
        ({
            let instr = Instruction::Draw(x, y, n);
            let (s1, r1) = exec_spec(s, instr, rnd);
            let (s2, r2) = exec_spec(s1, instr, rnd);
            let (i, x0, y0) = (s.i as int, s.v[x as int] as int, s.v[y as int] as int);
            &&& r1 == Ok::<StepResult, Chip8Error>(StepResult::Continue(true))
            &&& r2 == Ok::<StepResult, Chip8Error>(StepResult::Continue(true))
            &&& s2.display == s.display
            &&& s2.v[15] == 1 <==> exists|r: int, c: int|
                0 <= r < SCREEN_HEIGHT && 0 <= c < SCREEN_WIDTH && #[trigger] sprite_bit(
                    s.memory,
                    i,
                    n as int,
                    x0,
                    y0,
                    r,
                    c,
                ) && !s.display[r][c]
            &&& s.display == blank_display() && sprite_has_bit(s.memory, i, n as int) ==> s2.v[15]
                == 1
        }),
{
    let instr = Instruction::Draw(x, y, n);
    let (s1, r1) = exec_spec(s, instr, rnd);
    let (i, x0, y0) = (s.i as int, s.v[x as int] as int, s.v[y as int] as int);
    assert(s1.v[x as int] == s.v[x as int] && s1.v[y as int] == s.v[y as int]);
    let d1 = drawn(s.display, s.memory, i, n as int, x0, y0);
    assert(s1.display == d1);
    let (s2, r2) = exec_spec(s1, instr, rnd);
    assert(s2.display =~~= s.display);
    assert(collides(d1, s.memory, i, n as int, x0, y0) == exists|r: int, c: int|
        0 <= r < SCREEN_HEIGHT && 0 <= c < SCREEN_WIDTH && #[trigger] sprite_bit(
            s.memory,
            i,
            n as int,
            x0,
            y0,
            r,
            c,
        ) && !s.display[r][c]);
    if s.display == blank_display() && sprite_has_bit(s.memory, i, n as int) {
        let (j, k) = choose|j: int, k: int|
            0 <= j < n && 0 <= k < 8 && #[trigger] sprite_byte_bit(s.memory[i + j], k);
        let r = (y0 + j) % (SCREEN_HEIGHT as int);
        let c = (x0 + k) % (SCREEN_WIDTH as int);
        crate::cpu::lemma_wrap_offset(y0, j, r, SCREEN_HEIGHT as int);
        crate::cpu::lemma_wrap_offset(x0, k, c, SCREEN_WIDTH as int);
        assert(sprite_bit(s.memory, i, n as int, x0, y0, r, c) && !s.display[r][c]);
    }
}

proof fn lemma_lowest_is(keys: Seq<bool>, m: int, k: int)
    requires
        0 <= m <= k < 16,
        keys[k],
        forall|j: int| m <= j < k ==> !keys[j],
    ensures
        lowest_pressed_from(keys, m) == Some(k as u8),
    decreases k - m,
{
    if m < k {
        lemma_lowest_is(keys, m + 1, k);
    }
}

proof fn lemma_none_pressed(keys: Seq<bool>, m: int)
    requires
        0 <= m <= 16,
        forall|j: int| m <= j < 16 ==> !keys[j],
    ensures
        lowest_pressed_from(keys, m) is None,
    decreases 16 - m,
{
    if m < 16 {
        lemma_none_pressed(keys, m + 1);
    }
}

/// Waiting for a key leaves the machine as it is, program counter included,
/// while no key is pressed; once keys are pressed it stores the lowest
/// pressed key and moves on to the next instruction.
pub proof fn lemma_wait_for_key(s: MachineState, x: u8, rnd: u8)
    requires
        x < 16,
        s.keys.len() == 16,
    ensures
        (forall|k: int| 0 <= k < 16 ==> !s.keys[k]) ==> exec_spec(s, Instruction::Keyd(x), rnd) == (
        s, Ok::<StepResult, Chip8Error>(StepResult::Continue(false))),
        forall|k: int|
            0 <= k < 16 && #[trigger] s.keys[k] && (forall|j: int| 0 <= j < k ==> !s.keys[j])
                ==> exec_spec(s, Instruction::Keyd(x), rnd) == (advanced(set_reg(s, x, k as u8), 2), Ok::<
                StepResult,
                Chip8Error,
            >(StepResult::Continue(false))),
{
    if forall|k: int| 0 <= k < 16 ==> !s.keys[k] {
        lemma_none_pressed(s.keys, 0);
    }
    assert forall|k: int|
        0 <= k < 16 && #[trigger] s.keys[k] && (forall|j: int| 0 <= j < k ==> !s.keys[j]) implies
        lowest_pressed(s.keys) == Some(k as u8) by {
        lemma_lowest_is(s.keys, 0, k);
    }
}

/// Whether the instruction at the program counter loads the delay counter.
pub open spec fn loads_delay(s: MachineState) -> bool {
    fetch_spec(s.memory, s.pc) matches Ok(Instruction::LoadD(_))
}

/// Apart from an instruction that loads it, only the timer changes the delay
/// counter in a step.
pub proof fn lemma_step_delay_is_timer(s: MachineState, tick: u64, now: u64, rnd: u8)
    requires
        !loads_delay(s),
    ensures
        step_spec(s, tick, false, now, rnd).0.delay == ticked(s.delay, tick, now).0,
        step_spec(s, tick, false, now, rnd).1 == ticked(s.delay, tick, now).1,
{
    let (delay, t) = ticked(s.delay, tick, now);
    let s1 = MachineState { delay, ..s };
    assert(fetch_spec(s1.memory, s1.pc) == fetch_spec(s.memory, s.pc));
}

/// The state and tick time after running steps at each of `times` in turn.
pub open spec fn run_steps(s: MachineState, tick: u64, times: Seq<u64>, rnd: u8) -> (
    MachineState,
    u64,
)
    decreases times.len(),
{
    if times.len() == 0 {
        (s, tick)
    } else {
        let (s1, t1, _) = step_spec(s, tick, false, times[0], rnd);
        run_steps(s1, t1, times.drop_first(), rnd)
    }
}

/// No step of the run executes an instruction that loads the delay counter.
pub open spec fn run_keeps_delay(s: MachineState, tick: u64, times: Seq<u64>, rnd: u8) -> bool
    decreases times.len(),
{
    if times.len() == 0 {
        true
    } else {
        let (s1, t1, _) = step_spec(s, tick, false, times[0], rnd);
        !loads_delay(s) && run_keeps_delay(s1, t1, times.drop_first(), rnd)
    }
}

proof fn lemma_run_without_tick(s: MachineState, tick: u64, times: Seq<u64>, rnd: u8, w: u64)
    requires
        tick >= w,
        forall|k: int| 0 <= k < times.len() ==> #[trigger] times[k] < w + DELAY_PERIOD_MS,
        run_keeps_delay(s, tick, times, rnd),
    ensures
        run_steps(s, tick, times, rnd).0.delay == s.delay,
    decreases times.len(),
{
    if times.len() > 0 {
        lemma_step_delay_is_timer(s, tick, times[0], rnd);
        let (s1, t1, _) = step_spec(s, tick, false, times[0], rnd);
        let rest = times.drop_first();
        assert forall|k: int| 0 <= k < rest.len() implies #[trigger] rest[k] < w + DELAY_PERIOD_MS by {
            assert(rest[k] == times[k + 1]);
        }
        lemma_run_without_tick(s1, t1, rest, rnd, w);
    }
}

/// However many steps run within less than one period of the delay counter
/// (all at times from `w` up to, but not including, `w` plus the period), the
/// counter goes down by at most one over them, as long as none of them loads
/// the counter. `run_steps` is the state that `step_at` leaves after each of
/// the steps in turn, since its result is `step_spec`.
pub proof fn lemma_steps_tick_once_per_period(
    s: MachineState,
    tick: u64,
    times: Seq<u64>,
    rnd: u8,
    w: u64,
)
    requires
        forall|k: int| 0 <= k < times.len() ==> w <= #[trigger] times[k] < w + DELAY_PERIOD_MS,
        run_keeps_delay(s, tick, times, rnd),
    ensures
        s.delay - 1 <= run_steps(s, tick, times, rnd).0.delay <= s.delay,
    decreases times.len(),
{
    if times.len() > 0 {
        lemma_step_delay_is_timer(s, tick, times[0], rnd);
        let (s1, t1, _) = step_spec(s, tick, false, times[0], rnd);
        let rest = times.drop_first();
        assert forall|k: int| 0 <= k < rest.len() implies w <= #[trigger] rest[k] < w + DELAY_PERIOD_MS by {
            assert(rest[k] == times[k + 1]);
        }
        if t1 == tick {
            lemma_steps_tick_once_per_period(s1, t1, rest, rnd, w);
        } else {
            lemma_run_without_tick(s1, t1, rest, rnd, w);
        }
    }
}

} // verus!
