use vstd::prelude::*;

use crate::error::Chip8Error;
use crate::instruction::{decode, decode_spec, Instruction};
use crate::host::{millis_since, random_below};
use vstd::arithmetic::div_mod::{lemma_fundamental_div_mod, lemma_mod_multiples_vanish, lemma_small_mod};
use crate::register::Registers;

verus! {

pub const SCREEN_WIDTH: usize = 64;

pub const SCREEN_HEIGHT: usize = 32;

pub const MEMORY_SIZE: usize = 4096;

/// Where a program is loaded and where execution starts.
pub const PROGRAM_START: u16 = 0x200;

/// How often, in milliseconds, the delay counter goes down by one.
pub const DELAY_PERIOD_MS: u64 = 16;

/// Outcome of one step of execution.
#[derive(Debug, Clone, Copy, PartialEq, Eq, Structural)]
pub enum StepResult {
    /// Program continues. The flag says whether the display was drawn on.
    Continue(bool),
    /// The instruction jumps to itself: the program spins forever.
    Loop,
    /// Program ends.
    End,
}

/// The machine state that instructions read and write, as mathematical values.
pub struct MachineState {
    pub stack: Seq<u16>,
    pub pc: u16,
    pub v: Seq<u8>,
    pub i: u16,
    pub delay: u8,
    pub memory: Seq<u8>,
    pub display: Seq<Seq<bool>>,
    pub keys: Seq<bool>,
}

pub type Outcome = Result<StepResult, Chip8Error>;

/// Every register operand names one of the sixteen registers and a sprite is
/// at most fifteen rows high: true of every decoded instruction.
pub open spec fn operands_in_range(instr: Instruction) -> bool {
    match instr {
        Instruction::Draw(x, y, n) => x < 16 && y < 16 && n < 16,
        Instruction::Ske(r, _) | Instruction::Skne(r, _) | Instruction::Load(r, _)
        | Instruction::Add(r, _) | Instruction::Rand(r, _) => r < 16,
        Instruction::Skre(a, b) | Instruction::Skrne(a, b) | Instruction::Move(a, b)
        | Instruction::Or(a, b) | Instruction::And(a, b) | Instruction::Xor(a, b)
        | Instruction::Addr(a, b) | Instruction::Sub(a, b) | Instruction::Shr(a, b)
        | Instruction::Shl(a, b) => a < 16 && b < 16,
        Instruction::Skpr(r) | Instruction::Skup(r) | Instruction::Moved(r)
        | Instruction::Keyd(r) | Instruction::LoadD(r) | Instruction::LoadS(r)
        | Instruction::AddI(r) | Instruction::Ldspr(r) | Instruction::Bcd(r)
        | Instruction::Stor(r) | Instruction::Read(r) => r < 16,
        _ => true,
    }
}

/// Every decoded instruction names registers 0 to F and a sprite height
/// below 16.
pub proof fn lemma_decoded_in_range(w: u16)
    requires
        decode_spec(w) is Some,
    ensures
        operands_in_range(decode_spec(w).unwrap()),
{
    assert(((w & 0x0F00) >> 8) < 16) by (bit_vector);
    assert(((w & 0x00F0) >> 4) < 16) by (bit_vector);
    assert((w & 0x000F) < 16) by (bit_vector);
}

/// A framebuffer of the screen's size with every pixel off.
pub open spec fn blank_display() -> Seq<Seq<bool>> {
    Seq::new(SCREEN_HEIGHT as nat, |r: int| Seq::new(SCREEN_WIDTH as nat, |c: int| false))
}

/// Bit `k` of a sprite byte, counted from the most significant bit.
pub open spec fn sprite_byte_bit(b: u8, k: int) -> bool {
    b & (1u8 << ((7 - k) as u8)) != 0
}

/// Whether a sprite of `n` rows read from `mem` at `i` and drawn at (`x0`,
/// `y0`), wrapping around the screen edges, has a set bit on pixel (`r`, `c`).
pub open spec fn sprite_bit(mem: Seq<u8>, i: int, n: int, x0: int, y0: int, r: int, c: int) -> bool {
    let j = (r - y0) % (SCREEN_HEIGHT as int);
    let k = (c - x0) % (SCREEN_WIDTH as int);
    j < n && k < 8 && sprite_byte_bit(mem[i + j], k)
}

/// The framebuffer after the sprite has been XORed onto it.
pub open spec fn drawn(d: Seq<Seq<bool>>, mem: Seq<u8>, i: int, n: int, x0: int, y0: int) -> Seq<
    Seq<bool>,
> {
    Seq::new(
        SCREEN_HEIGHT as nat,
        |r: int|
            Seq::new(SCREEN_WIDTH as nat, |c: int| d[r][c] ^ sprite_bit(mem, i, n, x0, y0, r, c)),
    )
}

/// Whether drawing the sprite clears a pixel that was set.
pub open spec fn collides(d: Seq<Seq<bool>>, mem: Seq<u8>, i: int, n: int, x0: int, y0: int) -> bool {
    exists|r: int, c: int|
        0 <= r < SCREEN_HEIGHT && 0 <= c < SCREEN_WIDTH && #[trigger] sprite_bit(
            mem,
            i,
            n,
            x0,
            y0,
            r,
            c,
        ) && d[r][c]
}

/// The lowest pressed key at index `k` or above.
pub open spec fn lowest_pressed_from(keys: Seq<bool>, k: int) -> Option<u8>
    decreases 16 - k,
{
    if k >= 16 || k < 0 {
        None
    } else if keys[k] {
        Some(k as u8)
    } else {
        lowest_pressed_from(keys, k + 1)
    }
}

pub open spec fn lowest_pressed(keys: Seq<bool>) -> Option<u8> {
    lowest_pressed_from(keys, 0)
}

pub open spec fn is_pressed(keys: Seq<bool>, key: u8) -> bool {
    key < 16 && keys[key as int]
}

pub open spec fn advanced(s: MachineState, k: u16) -> MachineState {
    MachineState { pc: s.pc.wrapping_add(k), ..s }
}

pub open spec fn cont(s: MachineState, k: u16) -> (MachineState, Outcome) {
    (advanced(s, k), Ok(StepResult::Continue(false)))
}

pub open spec fn set_reg(s: MachineState, x: u8, val: u8) -> MachineState {
    MachineState { v: s.v.update(x as int, val), ..s }
}

/// Skips the next instruction when `cond` holds.
pub open spec fn skip_if(s: MachineState, cond: bool) -> (MachineState, Outcome) {
    cont(s, if cond { 4 } else { 2 })
}

/// A jump to `target`, or the self-loop outcome when it is the current address.
pub open spec fn jump_to(s: MachineState, target: u16) -> (MachineState, Outcome) {
    if target == s.pc {
        (s, Ok(StepResult::Loop))
    } else {
        (MachineState { pc: target, ..s }, Ok(StepResult::Continue(false)))
    }
}

/// Whether `len` bytes from the address register lie in memory.
pub open spec fn in_memory(s: MachineState, len: int) -> bool {
    s.i as int + len <= MEMORY_SIZE as int
}

pub open spec fn fail(s: MachineState, e: Chip8Error) -> (MachineState, Outcome) {
    (s, Err(e))
}

/// The effect of one instruction on the machine; `rnd` is the value that
/// `RAND` stores.
pub open spec fn exec_spec(s: MachineState, instr: Instruction, rnd: u8) -> (MachineState, Outcome) {
    match instr {
        Instruction::Move(x, y) => cont(set_reg(s, x, s.v[y as int]), 2),
        Instruction::Or(x, y) => cont(set_reg(s, x, s.v[x as int] | s.v[y as int]), 2),
        Instruction::And(x, y) => cont(set_reg(s, x, s.v[x as int] & s.v[y as int]), 2),
        Instruction::Xor(x, y) => cont(set_reg(s, x, s.v[x as int] ^ s.v[y as int]), 2),
        Instruction::Addr(x, y) => {
            let sum = s.v[x as int] + s.v[y as int];
            let flag: u8 = if sum > 0xFF { 1 } else { 0 };
            cont(set_reg(set_reg(s, x, (sum % 0x100) as u8), 0xF, flag), 2)
        },
        Instruction::Sub(x, y) => cont(set_reg(s, x, s.v[x as int].wrapping_sub(s.v[y as int])), 2),
        Instruction::Shr(x, y) => {
            let s1 = set_reg(s, 0xF, s.v[y as int] & 1);
            cont(set_reg(s1, y, s1.v[x as int] >> 1), 2)
        },
        Instruction::Shl(x, y) => {
            let s1 = set_reg(s, 0xF, s.v[y as int] >> 7);
            cont(set_reg(s1, y, s1.v[x as int].wrapping_mul(2)), 2)
        },
        Instruction::Load(x, n) => cont(set_reg(s, x, n), 2),
        Instruction::Add(x, n) => cont(set_reg(s, x, s.v[x as int].wrapping_add(n)), 2),
        Instruction::Call(a) => {
            if a == s.pc {
                (s, Ok(StepResult::Loop))
            } else {
                (
                    MachineState { stack: s.stack.push(s.pc), pc: a, ..s },
                    Ok(StepResult::Continue(false)),
                )
            }
        },
        Instruction::Rts => {
            if s.stack.len() == 0 {
                fail(s, Chip8Error::EmptyStack)
            } else {
                let ret = s.stack.last();
                cont(MachineState { stack: s.stack.drop_last(), pc: ret, ..s }, 2)
            }
        },
        Instruction::Jump(ofs) => jump_to(s, (s.pc & 0xF000) | (ofs & 0x0FFF)),
        Instruction::JumpI(a) => jump_to(s, a.wrapping_add(s.v[0] as u16)),
        Instruction::Ske(x, n) => skip_if(s, s.v[x as int] == n),
        Instruction::Skne(x, n) => skip_if(s, s.v[x as int] != n),
        Instruction::Skre(x, y) => skip_if(s, s.v[x as int] == s.v[y as int]),
        Instruction::Skrne(x, y) => skip_if(s, s.v[x as int] != s.v[y as int]),
        Instruction::Stor(x) => {
            if !in_memory(s, x + 1) {
                fail(s, Chip8Error::MemoryOutOfRange(s.i))
            } else {
                let mem = Seq::new(
                    MEMORY_SIZE as nat,
                    |a: int|
                        if s.i <= a <= s.i + x {
                            s.v[a - s.i]
                        } else {
                            s.memory[a]
                        },
                );
                cont(MachineState { memory: mem, i: (s.i + x + 1) as u16, ..s }, 2)
            }
        },
        Instruction::Read(x) => {
            if !in_memory(s, x + 1) {
                fail(s, Chip8Error::MemoryOutOfRange(s.i))
            } else {
                let regs = Seq::new(
                    16,
                    |r: int|
                        if r <= x {
                            s.memory[s.i + r]
                        } else {
                            s.v[r]
                        },
                );
                cont(MachineState { v: regs, i: (s.i + x + 1) as u16, ..s }, 2)
            }
        },
        Instruction::Skpr(x) => skip_if(s, is_pressed(s.keys, s.v[x as int])),
        Instruction::Skup(x) => skip_if(s, !is_pressed(s.keys, s.v[x as int])),
        Instruction::Keyd(x) => match lowest_pressed(s.keys) {
            Some(k) => cont(set_reg(s, x, k), 2),
            None => (s, Ok(StepResult::Continue(false))),
        },
        Instruction::LoadS(_) => cont(s, 2),
        Instruction::Moved(x) => cont(set_reg(s, x, s.delay), 2),
        Instruction::LoadD(x) => cont(MachineState { delay: s.v[x as int], ..s }, 2),
        Instruction::AddI(x) => cont(MachineState { i: s.i.wrapping_add(s.v[x as int] as u16), ..s }, 2),
        Instruction::LoadI(a) => cont(MachineState { i: a, ..s }, 2),
        Instruction::Draw(x, y, n) => {
            if !in_memory(s, n as int) {
                fail(s, Chip8Error::MemoryOutOfRange(s.i))
            } else {
                let (i, x0, y0) = (s.i as int, s.v[x as int] as int, s.v[y as int] as int);
                let flag: u8 = if collides(s.display, s.memory, i, n as int, x0, y0) { 1 } else { 0 };
                let s1 = MachineState {
                    display: drawn(s.display, s.memory, i, n as int, x0, y0),
                    ..set_reg(s, 0xF, flag)
                };
                (advanced(s1, 2), Ok(StepResult::Continue(true)))
            }
        },
        Instruction::Clr => cont(MachineState { display: blank_display(), ..s }, 2),
        Instruction::Ldspr(x) => {
            let val = s.v[x as int];
            if val > 15 {
                fail(s, Chip8Error::SpriteOutOfRange(val))
            } else {
                cont(MachineState { i: (val * 5) as u16, ..s }, 2)
            }
        },
        Instruction::Bcd(x) => {
            if !in_memory(s, 3) {
                fail(s, Chip8Error::MemoryOutOfRange(s.i))
            } else {
                let val = s.v[x as int];
                let mem = s.memory.update(s.i as int, val / 100).update(
                    s.i + 1,
                    (val % 100) / 10,
                ).update(s.i + 2, val % 10);
                cont(MachineState { memory: mem, ..s }, 2)
            }
        },
        Instruction::Rand(x, _) => cont(set_reg(s, x, rnd), 2),
        Instruction::Sys(a) => {
            if a == 0 {
                (s, Ok(StepResult::End))
            } else {
                fail(s, Chip8Error::UnimplementedSys(a))
            }
        },
    }
}

/// The delay counter and tick time after a step at time `now`: one
/// decrement, floored at zero, once at least a period has passed since the
/// last tick.
pub open spec fn ticked(delay: u8, tick: u64, now: u64) -> (u8, u64) {
    if now >= tick && now - tick >= DELAY_PERIOD_MS {
        (if delay == 0 { 0 } else { (delay - 1) as u8 }, now)
    } else {
        (delay, tick)
    }
}

/// The instruction word at the program counter, high byte first.
pub open spec fn fetch_word(memory: Seq<u8>, pc: u16) -> u16 {
    (memory[pc as int] as int * 256 + memory[pc + 1] as int) as u16
}

/// The instruction at the program counter, or why there is none.
pub open spec fn fetch_spec(memory: Seq<u8>, pc: u16) -> Result<Instruction, Chip8Error> {
    if pc as int + 1 >= MEMORY_SIZE {
        Err(Chip8Error::MemoryOutOfRange(pc))
    } else {
        match decode_spec(fetch_word(memory, pc)) {
            Some(instr) => Ok(instr),
            None => Err(Chip8Error::InvalidInstruction(fetch_word(memory, pc))),
        }
    }
}

/// Whether `rnd` can be what `RAND` stores for the instruction at the program
/// counter: a value below its bound, or 0 when the bound is 0.
pub open spec fn random_fits(s: MachineState, rnd: u8) -> bool {
    match fetch_spec(s.memory, s.pc) {
        Ok(Instruction::Rand(_, n)) => if n == 0 {
            rnd == 0
        } else {
            rnd < n
        },
        _ => true,
    }
}

/// One step at time `now`: nothing while paused; otherwise the delay counter
/// ticks, then the instruction at the program counter runs. The result holds
/// the new state, the new tick time and the outcome.
pub open spec fn step_spec(s: MachineState, tick: u64, paused: bool, now: u64, rnd: u8) -> (
    MachineState,
    u64,
    Outcome,
) {
    if paused {
        (s, tick, Ok(StepResult::Continue(false)))
    } else {
        let (delay, t) = ticked(s.delay, tick, now);
        let s1 = MachineState { delay, ..s };
        match fetch_spec(s1.memory, s1.pc) {
            Err(e) => (s1, t, Err(e)),
            Ok(instr) => {
                let (s2, out) = exec_spec(s1, instr, rnd);
                (s2, t, out)
            },
        }
    }
}

/// The built-in glyphs 0 to F, five bytes each, loaded at address 0.
pub const FONT: [u8; 80] = [
    0xF0, 0x90, 0x90, 0x90, 0xF0,  // 0
    0x20, 0x60, 0x20, 0x20, 0x70,  // 1
    0xF0, 0x10, 0xF0, 0x80, 0xF0,  // 2
    0xF0, 0x10, 0xF0, 0x10, 0xF0,  // 3
    0x90, 0x90, 0xF0, 0x10, 0x10,  // 4
    0xF0, 0x80, 0xF0, 0x10, 0xF0,  // 5
    0xF0, 0x80, 0xF0, 0x90, 0xF0,  // 6
    0xF0, 0x10, 0x20, 0x40, 0x40,  // 7
    0xF0, 0x90, 0xF0, 0x90, 0xF0,  // 8
    0xF0, 0x90, 0xF0, 0x10, 0xF0,  // 9
    0xF0, 0x90, 0xF0, 0x90, 0x90,  // A
    0xE0, 0x90, 0xE0, 0x90, 0xE0,  // B
    0xF0, 0x80, 0x80, 0x80, 0xF0,  // C
    0xE0, 0x90, 0x90, 0x90, 0xE0,  // D
    0xF0, 0x80, 0xF0, 0x80, 0xF0,  // E
    0xF0, 0x80, 0xF0, 0x80, 0x80,  // F
];

/// Memory with the font at address 0, `rom` at the program start and zero
/// everywhere else.
pub open spec fn loaded_memory(rom: Seq<u8>) -> Seq<u8> {
    Seq::new(
        MEMORY_SIZE as nat,
        |a: int|
            if a < FONT@.len() {
                FONT@[a]
            } else if PROGRAM_START <= a < PROGRAM_START + rom.len() {
                rom[a - PROGRAM_START]
            } else {
                0
            },
    )
}

/// The pad key that a key of a QWERTY keyboard stands for: the four rows
/// `1234`, `QWER`, `ASDF`, `ZXCV` lie where the pad's rows `123C`, `456D`,
/// `789E`, `A0BF` do. Letters match in either case.
pub open spec fn qwerty_key_spec(c: char) -> Option<u8> {
    match c {
        '1' => Some(0x1u8),
        '2' => Some(0x2u8),
        '3' => Some(0x3u8),
        '4' => Some(0xCu8),
        'q' | 'Q' => Some(0x4u8),
        'w' | 'W' => Some(0x5u8),
        'e' | 'E' => Some(0x6u8),
        'r' | 'R' => Some(0xDu8),
        'a' | 'A' => Some(0x7u8),
        's' | 'S' => Some(0x8u8),
        'd' | 'D' => Some(0x9u8),
        'f' | 'F' => Some(0xEu8),
        'z' | 'Z' => Some(0xAu8),
        'x' | 'X' => Some(0x0u8),
        'c' | 'C' => Some(0xBu8),
        'v' | 'V' => Some(0xFu8),
        _ => None,
    }
}

/// The pad key for a keyboard character, if it stands for one.
pub fn qwerty_key(c: char) -> (r: Option<u8>)
    ensures
        r == qwerty_key_spec(c),
        r matches Some(k) ==> k < 16,
{
    match c {
        '1' => Some(0x1),
        '2' => Some(0x2),
        '3' => Some(0x3),
        '4' => Some(0xC),
        'q' | 'Q' => Some(0x4),
        'w' | 'W' => Some(0x5),
        'e' | 'E' => Some(0x6),
        'r' | 'R' => Some(0xD),
        'a' | 'A' => Some(0x7),
        's' | 'S' => Some(0x8),
        'd' | 'D' => Some(0x9),
        'f' | 'F' => Some(0xE),
        'z' | 'Z' => Some(0xA),
        'x' | 'X' => Some(0x0),
        'c' | 'C' => Some(0xB),
        'v' | 'V' => Some(0xF),
        _ => None,
    }
}

/// The state shared with the presentation layer: the key pad, written by the
/// input side, and the framebuffer, written by the engine.
#[derive(Debug, Clone, Copy)]
pub struct Chip8IO {
    pub keystate: [bool; 16],
    pub display: [[bool; SCREEN_WIDTH]; SCREEN_HEIGHT],
}

pub open spec fn display_view(d: [[bool; SCREEN_WIDTH]; SCREEN_HEIGHT]) -> Seq<Seq<bool>> {
    d@.map_values(|row: [bool; SCREEN_WIDTH]| row@)
}

pub open spec fn no_keys() -> Seq<bool> {
    Seq::new(16, |k: int| false)
}

impl Chip8IO {
    /// No key pressed and a blank screen.
    pub fn new() -> (r: Chip8IO)
        ensures
            r.keystate@ == no_keys(),
            display_view(r.display) == blank_display(),
    {
        let r = Chip8IO {
            keystate: [false; 16],
            display: [[false; SCREEN_WIDTH]; SCREEN_HEIGHT],
        };
        assert(r.keystate@ =~= no_keys());
        assert(display_view(r.display) =~~= blank_display());
        r
    }

    /// Holds down exactly the pad keys that the typed characters stand for
    /// and releases the others; the screen stays.
    pub fn hold_keys(&mut self, typed: &Vec<char>)
        ensures
            forall|k: int|
                0 <= k < 16 ==> final(self).keystate[k] == exists|t: int|
                    0 <= t < typed@.len() && #[trigger] qwerty_key_spec(typed@[t]) == Some(k as u8),
            final(self).display == old(self).display,
    {
        self.keystate = [false; 16];
        let mut t: usize = 0;
        while t < typed.len()
            invariant
                t <= typed@.len(),
                self.display == old(self).display,
                forall|k: int|
                    0 <= k < 16 ==> self.keystate[k] == exists|u: int|
                        0 <= u < t && #[trigger] qwerty_key_spec(typed@[u]) == Some(k as u8),
            decreases typed@.len() - t,
        {
            if let Some(k) = qwerty_key(typed[t]) {
                self.keystate[k as usize] = true;
            }
            proof {
                assert forall|k: int| 0 <= k < 16 implies self.keystate[k] == exists|u: int|
                    0 <= u < t + 1 && #[trigger] qwerty_key_spec(typed@[u]) == Some(k as u8) by {
                    if qwerty_key_spec(typed@[t as int]) == Some(k as u8) {
                        assert(0 <= t < t + 1);
                    }
                }
            }
            t += 1;
        }
    }

    /// Back to no key pressed and a blank screen.
    pub fn reset(&mut self)
        ensures
            final(self).keystate@ == no_keys(),
            display_view(final(self).display) == blank_display(),
    {
        *self = Self::new();
    }
}

impl Default for Chip8IO {
    fn default() -> (r: Chip8IO)
        ensures
            r.keystate@ == no_keys(),
            display_view(r.display) == blank_display(),
    {
        Self::new()
    }
}

/// The machine: call stack, program counter, registers, delay counter and
/// memory. The shared I/O surface is handed to the operations that use it.
#[derive(Debug)]
pub struct Chip8 {
    pub stack: Vec<u16>,
    pub pc: u16,
    pub reg: Registers,
    pub delay: u8,
    /// Milliseconds from `epoch` to the last decrement of the delay counter.
    pub tick: u64,
    /// The clock reading that `tick` counts from.
    pub epoch: std::time::Instant,
    pub memory: [u8; MEMORY_SIZE],
    pub paused: bool,
}

/// The part of the machine and of the I/O surface that instructions act on.
pub open spec fn state_of(m: &Chip8, io: &Chip8IO) -> MachineState {
    MachineState {
        stack: m.stack@,
        pc: m.pc,
        v: m.reg.v@,
        i: m.reg.i,
        delay: m.delay,
        memory: m.memory@,
        display: display_view(io.display),
        keys: io.keystate@,
    }
}

/// The state that a machine starts in: empty stack, zero registers and delay,
/// the program counter at the program start.
pub open spec fn is_reset(m: &Chip8) -> bool {
    &&& m.stack@.len() == 0
    &&& m.pc == PROGRAM_START
    &&& m.reg.v@ == Seq::new(16, |k: int| 0u8)
    &&& m.reg.i == 0
    &&& m.delay == 0
}

fn font_memory() -> (mem: [u8; MEMORY_SIZE])
    ensures
        mem@ == loaded_memory(Seq::empty()),
{
    let mut mem = [0u8; MEMORY_SIZE];
    let mut a: usize = 0;
    while a < 80
        invariant
            a <= 80,
            forall|b: int| 0 <= b < MEMORY_SIZE ==> mem[b] == if b < a { FONT@[b] } else { 0u8 },
        decreases 80 - a,
    {
        mem[a] = FONT[a];
        a += 1;
    }
    assert(mem@ =~= loaded_memory(Seq::empty()));
    mem
}

/// On a ring of `m` cells, the cell `j` steps after `y0` is the one whose
/// offset from `y0` is `j`.
pub proof fn lemma_wrap_offset(y0: int, j: int, r: int, m: int)
    requires
        0 <= y0,
        0 <= j < m,
        0 <= r < m,
    ensures
        ((r - y0) % m == j) == (r == (y0 + j) % m),
{
    lemma_fundamental_div_mod(y0 + j, m);
    lemma_fundamental_div_mod(r - y0, m);
    let q = (y0 + j) / m;
    let p = (r - y0) / m;
    assert(m * (-q) == -(m * q)) by (nonlinear_arith);
    assert(m * (-p) == -(m * p)) by (nonlinear_arith);
    lemma_small_mod(j as nat, m as nat);
    lemma_small_mod(r as nat, m as nat);
    if r == (y0 + j) % m {
        assert(r - y0 == m * (-q) + j);
        lemma_mod_multiples_vanish(-q, j, m);
    }
    if (r - y0) % m == j {
        assert(y0 + j == m * (-p) + r);
        lemma_mod_multiples_vanish(-p, r, m);
    }
}

/// Pixel (`r`, `c`) has had its turn once the row offset is below `j`, or
/// is `j` with the column offset below `k`.
pub open spec fn visited(x0: int, y0: int, j: int, k: int, r: int, c: int) -> bool {
    let jr = (r - y0) % (SCREEN_HEIGHT as int);
    let kc = (c - x0) % (SCREEN_WIDTH as int);
    jr < j || (jr == j && kc < k)
}

pub open spec fn collides_within(
    d: Seq<Seq<bool>>,
    mem: Seq<u8>,
    i: int,
    n: int,
    x0: int,
    y0: int,
    j: int,
    k: int,
) -> bool {
    exists|r: int, c: int|
        0 <= r < SCREEN_HEIGHT && 0 <= c < SCREEN_WIDTH && #[trigger] sprite_bit(
            mem,
            i,
            n,
            x0,
            y0,
            r,
            c,
        ) && d[r][c] && visited(x0, y0, j, k, r, c)
}

/// XORs the sprite of `n` rows at `i` onto the framebuffer at (`x0`, `y0`)
/// and says whether a set pixel was cleared.
fn draw_sprite(
    display: &mut [[bool; SCREEN_WIDTH]; SCREEN_HEIGHT],
    memory: &[u8; MEMORY_SIZE],
    i: usize,
    n: usize,
    x0: u8,
    y0: u8,
) -> (hit: bool)
    requires
        n < 16,
        i + n <= MEMORY_SIZE,
    ensures
        display_view(*final(display)) == drawn(
            display_view(*old(display)),
            memory@,
            i as int,
            n as int,
            x0 as int,
            y0 as int,
        ),
        hit == collides(display_view(*old(display)), memory@, i as int, n as int, x0 as int, y0 as int),
{
    let ghost d0 = display_view(*display);
    let ghost mem = memory@;
    let ghost (gi, gn, gx, gy) = (i as int, n as int, x0 as int, y0 as int);
    let mut hit = false;
    let mut j: usize = 0;
    while j < n
        invariant
            j <= n < 16,
            i + n <= MEMORY_SIZE,
            mem == memory@,
            forall|r: int, c: int|
                0 <= r < SCREEN_HEIGHT && 0 <= c < SCREEN_WIDTH ==> #[trigger] display[r][c] == (
                d0[r][c] ^ (sprite_bit(mem, gi, gn, gx, gy, r, c) && visited(gx, gy, j as int, 0, r, c))),
            hit == collides_within(d0, mem, gi, gn, gx, gy, j as int, 0),
            gi == i && gn == n && gx == x0 && gy == y0,
        decreases n - j,
    {
        let row = (y0 as usize + j) % SCREEN_HEIGHT;
        let byte = memory[i + j];
        let mut k: usize = 0;
        while k < 8
            invariant
                j < n < 16,
                i + n <= MEMORY_SIZE,
                mem == memory@,
                row == (y0 as int + j) % (SCREEN_HEIGHT as int),
                byte == mem[i + j],
                k <= 8,
                forall|r: int, c: int|
                    0 <= r < SCREEN_HEIGHT && 0 <= c < SCREEN_WIDTH ==> #[trigger] display[r][c] == (
                    d0[r][c] ^ (sprite_bit(mem, gi, gn, gx, gy, r, c) && visited(gx, gy, j as int, k as int, r, c))),
                hit == collides_within(d0, mem, gi, gn, gx, gy, j as int, k as int),
                gi == i && gn == n && gx == x0 && gy == y0,
            decreases 8 - k,
        {
            let col = (x0 as usize + k) % SCREEN_WIDTH;
            let bit = byte & (1u8 << (7 - k as u8)) != 0;
            proof {
                lemma_wrap_offset(gy, j as int, row as int, SCREEN_HEIGHT as int);
                lemma_wrap_offset(gx, k as int, col as int, SCREEN_WIDTH as int);
                assert(sprite_bit(mem, gi, gn, gx, gy, row as int, col as int) == bit);
                assert forall|r: int, c: int|
                    0 <= r < SCREEN_HEIGHT && 0 <= c < SCREEN_WIDTH implies visited(gx, gy, j as int, k + 1, r, c)
                        == (visited(gx, gy, j as int, k as int, r, c) || (r == row && c == col)) by {
                    lemma_wrap_offset(gy, j as int, r, SCREEN_HEIGHT as int);
                    lemma_wrap_offset(gx, k as int, c, SCREEN_WIDTH as int);
                }
            }
            let px = display[row][col];
            if px && bit {
                hit = true;
            }
            display[row][col] = px ^ bit;
            k += 1;
            proof {
                assert(!visited(gx, gy, j as int, (k - 1) as int, row as int, col as int));
                if hit {
                    if !collides_within(d0, mem, gi, gn, gx, gy, j as int, (k - 1) as int) {
                        assert(sprite_bit(mem, gi, gn, gx, gy, row as int, col as int) && d0[row as int][col as int]
                            && visited(gx, gy, j as int, k as int, row as int, col as int));
                    }
                } else {
                    assert(!collides_within(d0, mem, gi, gn, gx, gy, j as int, k as int));
                }
            }
        }
        proof {
            assert forall|r: int, c: int|
                0 <= r < SCREEN_HEIGHT && 0 <= c < SCREEN_WIDTH implies (sprite_bit(mem, gi, gn, gx, gy, r, c)
                    && visited(gx, gy, j + 1, 0, r, c)) == (sprite_bit(mem, gi, gn, gx, gy, r, c) && visited(
                    gx,
                    gy,
                    j as int,
                    8,
                    r,
                    c,
                )) by {}
            assert(collides_within(d0, mem, gi, gn, gx, gy, j + 1, 0) == collides_within(d0, mem, gi, gn, gx, gy, j as int, 8));
        }
        j += 1;
    }
    proof {
        assert forall|r: int, c: int|
            0 <= r < SCREEN_HEIGHT && 0 <= c < SCREEN_WIDTH && sprite_bit(mem, gi, gn, gx, gy, r, c) implies
            visited(gx, gy, gn, 0, r, c) by {}
        assert(display_view(*display) =~~= drawn(d0, mem, gi, gn, gx, gy));
        assert(hit == collides(d0, mem, gi, gn, gx, gy));
    }
    hit
}

impl Chip8 {
    /// A machine in its reset state with `rom` loaded at the program start.
    pub fn new(rom: &[u8], paused: bool) -> (r: Chip8)
        requires
            rom@.len() <= MEMORY_SIZE - PROGRAM_START,
        ensures
            is_reset(&r),
            r.memory@ == loaded_memory(rom@),
            r.tick == 0,
            r.paused == paused,
    {
        let mut m = Chip8 {
            reg: Registers::new(),
            pc: PROGRAM_START,
            stack: Vec::new(),
            delay: 0,
            tick: 0,
            epoch: std::time::Instant::now(),
            memory: font_memory(),
            paused,
        };
        m.load_rom(rom);
        m
    }

    /// Back to the reset state: the program is gone from memory, only the font
    /// stays, and the I/O surface is cleared.
    pub fn reset(&mut self, io: &mut Chip8IO)
        ensures
            is_reset(final(self)),
            final(self).memory@ == loaded_memory(Seq::empty()),
            final(self).paused == old(self).paused,
            final(self).epoch == old(self).epoch,
            final(io).keystate@ == no_keys(),
            display_view(final(io).display) == blank_display(),
    {
        self.reg = Registers::new();
        self.pc = PROGRAM_START;
        self.stack = Vec::new();
        self.delay = 0;
        self.tick = millis_since(&self.epoch);
        self.memory = font_memory();
        io.reset();
    }

    /// Copies `rom` into memory at the program start; the rest stays.
    pub fn load_rom(&mut self, rom: &[u8])
        requires
            rom@.len() <= MEMORY_SIZE - PROGRAM_START,
        ensures
            final(self).memory@ == Seq::new(
                MEMORY_SIZE as nat,
                |a: int|
                    if PROGRAM_START <= a < PROGRAM_START + rom@.len() {
                        rom@[a - PROGRAM_START]
                    } else {
                        old(self).memory@[a]
                    },
            ),
            final(self).stack@ == old(self).stack@,
            final(self).pc == old(self).pc,
            final(self).reg == old(self).reg,
            final(self).delay == old(self).delay,
            final(self).tick == old(self).tick,
            final(self).paused == old(self).paused,
            final(self).epoch == old(self).epoch,
    {
        let start = PROGRAM_START as usize;
        let mut k: usize = 0;
        while k < rom.len()
            invariant
                k <= rom@.len() <= MEMORY_SIZE - PROGRAM_START,
                start == PROGRAM_START,
                forall|a: int|
                    0 <= a < MEMORY_SIZE ==> self.memory[a] == if start <= a < start + k {
                        rom@[a - start]
                    } else {
                        old(self).memory@[a]
                    },
                self.stack@ == old(self).stack@,
                self.pc == old(self).pc,
                self.reg == old(self).reg,
                self.delay == old(self).delay,
                self.tick == old(self).tick,
                self.paused == old(self).paused,
                self.epoch == old(self).epoch,
            decreases rom@.len() - k,
        {
            self.memory[start + k] = rom[k];
            k += 1;
        }
        assert(self.memory@ =~= Seq::new(
            MEMORY_SIZE as nat,
            |a: int|
                if PROGRAM_START <= a < PROGRAM_START + rom@.len() {
                    rom@[a - PROGRAM_START]
                } else {
                    old(self).memory@[a]
                },
        ));
    }

    fn advance(&mut self, amount: u16) -> (r: Outcome)
        ensures
            final(self).pc == old(self).pc.wrapping_add(amount),
            final(self).stack == old(self).stack,
            final(self).reg == old(self).reg,
            final(self).delay == old(self).delay,
            final(self).tick == old(self).tick,
            final(self).memory == old(self).memory,
            final(self).paused == old(self).paused,
            final(self).epoch == old(self).epoch,
            r == Ok::<StepResult, Chip8Error>(StepResult::Continue(false)),
    {
        self.pc = self.pc.wrapping_add(amount);
        Ok(StepResult::Continue(false))
    }

    /// The lowest pressed key, if any.
    fn lowest_key(keys: &[bool; 16]) -> (r: Option<u8>)
        ensures
            r == lowest_pressed(keys@),
    {
        let mut k: usize = 16;
        let mut found: Option<u8> = None;
        while k > 0
            invariant
                k <= 16,
                found == lowest_pressed_from(keys@, k as int),
            decreases k,
        {
            k -= 1;
            if keys[k] {
                found = Some(k as u8);
            }
        }
        found
    }

    /// Whether `key` names a key and that key is pressed.
    fn key_down(keys: &[bool; 16], key: u8) -> (r: bool)
        ensures
            r == is_pressed(keys@, key),
    {
        key < 16 && keys[key as usize]
    }

    /// Runs one decoded instruction; `rnd` is the value that `RAND` stores.
    pub fn execute(&mut self, io: &mut Chip8IO, instr: Instruction, rnd: u8) -> (r: Outcome)
        requires
            operands_in_range(instr),
        ensures
            state_of(final(self), final(io)) == exec_spec(state_of(old(self), old(io)), instr, rnd).0,
            r == exec_spec(state_of(old(self), old(io)), instr, rnd).1,
            final(self).tick == old(self).tick,
            final(self).paused == old(self).paused,
            final(self).reg.sp == old(self).reg.sp,
            final(self).epoch == old(self).epoch,
    {
        let ghost s0 = state_of(self, io);
        let ghost (tick0, paused0, sp0, epoch0) = (self.tick, self.paused, self.reg.sp, self.epoch);
        match instr {
            Instruction::Move(x, y) => {
                self.reg.v[x as usize] = self.reg.v[y as usize];
                self.advance(2)
            },
            Instruction::Or(x, y) => {
                self.reg.v[x as usize] = self.reg.v[x as usize] | self.reg.v[y as usize];
                self.advance(2)
            },
            Instruction::And(x, y) => {
                self.reg.v[x as usize] = self.reg.v[x as usize] & self.reg.v[y as usize];
                self.advance(2)
            },
            Instruction::Xor(x, y) => {
                self.reg.v[x as usize] = self.reg.v[x as usize] ^ self.reg.v[y as usize];
                self.advance(2)
            },
            Instruction::Addr(x, y) => {
                let a = self.reg.v[x as usize];
                let b = self.reg.v[y as usize];
                match a.checked_add(b) {
                    Some(val) => {
                        self.reg.v[x as usize] = val;
                        self.reg.v[0xF] = 0;
                    },
                    None => {
                        self.reg.v[x as usize] = a.wrapping_add(b);
                        self.reg.v[0xF] = 1;
                    },
                }
                self.advance(2)
            },
            Instruction::Sub(x, y) => {
                self.reg.v[x as usize] = self.reg.v[x as usize].wrapping_sub(self.reg.v[y as usize]);
                self.advance(2)
            },
            Instruction::Shr(x, y) => {
                self.reg.v[0xF] = self.reg.v[y as usize] & 1;
                self.reg.v[y as usize] = self.reg.v[x as usize] >> 1;
                self.advance(2)
            },
            Instruction::Shl(x, y) => {
                self.reg.v[0xF] = self.reg.v[y as usize] >> 7;
                self.reg.v[y as usize] = self.reg.v[x as usize].wrapping_mul(2);
                self.advance(2)
            },
            Instruction::Load(x, n) => {
                self.reg.v[x as usize] = n;
                self.advance(2)
            },
            Instruction::Add(x, n) => {
                self.reg.v[x as usize] = self.reg.v[x as usize].wrapping_add(n);
                self.advance(2)
            },
            Instruction::Call(a) => {
                if a == self.pc {
                    Ok(StepResult::Loop)
                } else {
                    self.stack.push(self.pc);
                    self.pc = a;
                    Ok(StepResult::Continue(false))
                }
            },
            Instruction::Rts => {
                match self.stack.pop() {
                    Some(ret) => {
                        self.pc = ret;
                        self.advance(2)
                    },
                    None => Err(Chip8Error::EmptyStack),
                }
            },
            Instruction::Jump(ofs) => {
                let next = (self.pc & 0xF000) | (ofs & 0x0FFF);
                if next == self.pc {
                    Ok(StepResult::Loop)
                } else {
                    self.pc = next;
                    Ok(StepResult::Continue(false))
                }
            },
            Instruction::JumpI(a) => {
                let next = a.wrapping_add(self.reg.v[0] as u16);
                if next == self.pc {
                    Ok(StepResult::Loop)
                } else {
                    self.pc = next;
                    Ok(StepResult::Continue(false))
                }
            },
            Instruction::Ske(x, n) => {
                let skip = self.reg.v[x as usize] == n;
                self.advance(if skip { 4 } else { 2 })
            },
            Instruction::Skne(x, n) => {
                let skip = self.reg.v[x as usize] != n;
                self.advance(if skip { 4 } else { 2 })
            },
            Instruction::Skre(x, y) => {
                let skip = self.reg.v[x as usize] == self.reg.v[y as usize];
                self.advance(if skip { 4 } else { 2 })
            },
            Instruction::Skrne(x, y) => {
                let skip = self.reg.v[x as usize] != self.reg.v[y as usize];
                self.advance(if skip { 4 } else { 2 })
            },
            Instruction::Stor(x) => {
                let base = self.reg.i as usize;
                if base + x as usize + 1 > MEMORY_SIZE {
                    return Err(Chip8Error::MemoryOutOfRange(self.reg.i));
                }
                let ghost m0 = self.memory@;
                let mut r: usize = 0;
                while r <= x as usize
                    invariant
                        x < 16,
                        base == s0.i,
                        base + x + 1 <= MEMORY_SIZE,
                        r <= x + 1,
                        self.reg.v@ == s0.v,
                        self.stack@ == s0.stack && self.pc == s0.pc && self.reg.i == s0.i,
                        self.delay == s0.delay && self.tick == tick0 && self.paused == paused0,
                        self.epoch == epoch0,
                        self.reg.sp == sp0 && state_of(self, io).display == s0.display,
                        io.keystate@ == s0.keys,
                        forall|a: int|
                            0 <= a < MEMORY_SIZE ==> self.memory[a] == if base <= a < base + r {
                                s0.v[a - base]
                            } else {
                                m0[a]
                            },
                    decreases x + 1 - r,
                {
                    self.memory[base + r] = self.reg.v[r];
                    r += 1;
                }
                self.reg.i = (base + x as usize + 1) as u16;
                proof {
                    let (s1, _) = exec_spec(s0, instr, rnd);
                    assert(self.memory@ =~= s1.memory);
                }
                self.advance(2)
            },
            Instruction::Read(x) => {
                let base = self.reg.i as usize;
                if base + x as usize + 1 > MEMORY_SIZE {
                    return Err(Chip8Error::MemoryOutOfRange(self.reg.i));
                }
                let mut r: usize = 0;
                while r <= x as usize
                    invariant
                        x < 16,
                        base == s0.i,
                        base + x + 1 <= MEMORY_SIZE,
                        r <= x + 1,
                        self.memory@ == s0.memory,
                        self.stack@ == s0.stack && self.pc == s0.pc && self.reg.i == s0.i,
                        self.delay == s0.delay && self.tick == tick0 && self.paused == paused0,
                        self.epoch == epoch0,
                        self.reg.sp == sp0 && state_of(self, io).display == s0.display,
                        io.keystate@ == s0.keys,
                        forall|k: int|
                            0 <= k < 16 ==> self.reg.v[k] == if k < r {
                                s0.memory[base + k]
                            } else {
                                s0.v[k]
                            },
                    decreases x + 1 - r,
                {
                    self.reg.v[r] = self.memory[base + r];
                    r += 1;
                }
                self.reg.i = (base + x as usize + 1) as u16;
                proof {
                    let (s1, _) = exec_spec(s0, instr, rnd);
                    assert(self.reg.v@ =~= s1.v);
                }
                self.advance(2)
            },
            Instruction::Skpr(x) => {
                let skip = Self::key_down(&io.keystate, self.reg.v[x as usize]);
                self.advance(if skip { 4 } else { 2 })
            },
            Instruction::Skup(x) => {
                let skip = !Self::key_down(&io.keystate, self.reg.v[x as usize]);
                self.advance(if skip { 4 } else { 2 })
            },
            Instruction::Keyd(x) => {
                match Self::lowest_key(&io.keystate) {
                    Some(k) => {
                        self.reg.v[x as usize] = k;
                        self.advance(2)
                    },
                    None => Ok(StepResult::Continue(false)),
                }
            },
            Instruction::LoadS(_) => self.advance(2),
            Instruction::Moved(x) => {
                self.reg.v[x as usize] = self.delay;
                self.advance(2)
            },
            Instruction::LoadD(x) => {
                self.delay = self.reg.v[x as usize];
                self.advance(2)
            },
            Instruction::AddI(x) => {
                self.reg.i = self.reg.i.wrapping_add(self.reg.v[x as usize] as u16);
                self.advance(2)
            },
            Instruction::LoadI(a) => {
                self.reg.i = a;
                self.advance(2)
            },
            Instruction::Draw(x, y, n) => {
                let base = self.reg.i as usize;
                if base + n as usize > MEMORY_SIZE {
                    return Err(Chip8Error::MemoryOutOfRange(self.reg.i));
                }
                let x0 = self.reg.v[x as usize];
                let y0 = self.reg.v[y as usize];
                let hit = draw_sprite(&mut io.display, &self.memory, base, n as usize, x0, y0);
                self.reg.v[0xF] = if hit { 1 } else { 0 };
                let _ = self.advance(2);
                Ok(StepResult::Continue(true))
            },
            Instruction::Clr => {
                io.display = [[false; SCREEN_WIDTH]; SCREEN_HEIGHT];
                proof {
                    assert(display_view(io.display) =~~= blank_display());
                }
                self.advance(2)
            },
            Instruction::Ldspr(x) => {
                let val = self.reg.v[x as usize];
                if val > 15 {
                    Err(Chip8Error::SpriteOutOfRange(val))
                } else {
                    self.reg.i = val as u16 * 5;
                    self.advance(2)
                }
            },
            Instruction::Bcd(x) => {
                let base = self.reg.i as usize;
                if base + 3 > MEMORY_SIZE {
                    return Err(Chip8Error::MemoryOutOfRange(self.reg.i));
                }
                let val = self.reg.v[x as usize];
                self.memory[base] = val / 100;
                self.memory[base + 1] = (val % 100) / 10;
                self.memory[base + 2] = val % 10;
                self.advance(2)
            },
            Instruction::Rand(x, _) => {
                self.reg.v[x as usize] = rnd;
                self.advance(2)
            },
            Instruction::Sys(a) => {
                if a == 0 {
                    Ok(StepResult::End)
                } else {
                    Err(Chip8Error::UnimplementedSys(a))
                }
            },
        }
    }

    /// Decodes the instruction at the program counter.
    pub fn current_instruction(&self) -> (r: Result<Instruction, Chip8Error>)
        ensures
            r == fetch_spec(self.memory@, self.pc),
            r is Ok ==> operands_in_range(r.unwrap()),
    {
        let pc = self.pc as usize;
        if pc + 1 >= MEMORY_SIZE {
            return Err(Chip8Error::MemoryOutOfRange(self.pc));
        }
        let word = self.memory[pc] as u16 * 256 + self.memory[pc + 1] as u16;
        proof {
            if decode_spec(word) is Some {
                lemma_decoded_in_range(word);
            }
        }
        decode(word)
    }

    /// One step at time `now`, in milliseconds from `epoch`; `rnd` is the value
    /// that a `RAND` instruction stores.
    pub fn step_at(&mut self, io: &mut Chip8IO, now: u64, rnd: u8) -> (r: Outcome)
        ensures
            (state_of(final(self), final(io)), final(self).tick, r) == step_spec(
                state_of(old(self), old(io)),
                old(self).tick,
                old(self).paused,
                now,
                rnd,
            ),
            final(self).paused == old(self).paused,
            final(self).reg.sp == old(self).reg.sp,
            final(self).epoch == old(self).epoch,
    {
        if self.paused {
            return Ok(StepResult::Continue(false));
        }
        if now >= self.tick && now - self.tick >= DELAY_PERIOD_MS {
            self.delay = self.delay.saturating_sub(1);
            self.tick = now;
        }
        let instr = match self.current_instruction() {
            Ok(instr) => instr,
            Err(e) => return Err(e),
        };
        self.execute(io, instr, rnd)
    }

    /// One step at the current time, drawing the value of a `RAND` instruction
    /// at random.
    pub fn step(&mut self, io: &mut Chip8IO) -> (r: Outcome)
        ensures
            exists|now: u64, rnd: u8|
                random_fits(state_of(old(self), old(io)), rnd) && (#[trigger] step_spec(
                    state_of(old(self), old(io)),
                    old(self).tick,
                    old(self).paused,
                    now,
                    rnd,
                )) == (state_of(final(self), final(io)), final(self).tick, r),
            final(self).paused == old(self).paused,
            final(self).reg.sp == old(self).reg.sp,
            final(self).epoch == old(self).epoch,
    {
        let now = millis_since(&self.epoch);
        let rnd = match self.current_instruction() {
            Ok(Instruction::Rand(_, n)) => if n > 0 {
                random_below(n)
            } else {
                0
            },
            _ => 0,
        };
        let ghost s0 = state_of(self, io);
        let ghost (tick0, paused0) = (self.tick, self.paused);
        let r = self.step_at(io, now, rnd);
        assert(random_fits(s0, rnd));
        assert(step_spec(s0, tick0, paused0, now, rnd) == (state_of(self, io), self.tick, r));
        r
    }
}

} // verus!
