use vstd::prelude::*;

use crate::cpu::{display_view, fetch_spec, Chip8, Chip8IO, SCREEN_HEIGHT, SCREEN_WIDTH};
use crate::error::Chip8Error;
use crate::instruction::Instruction;
use vstd::string::StringSliceAdditionalSpecFns;
use vstd::utf8::{is_ascii_chars, is_ascii_chars_encode_utf8};

verus! {

/// The hexadecimal digit for `d` below 16, in upper or lower case.
pub open spec fn hex_char(d: nat, upper: bool) -> char {
    if d < 10 {
        ('0' as nat + d) as char
    } else if upper {
        ('A' as nat + d - 10) as char
    } else {
        ('a' as nat + d - 10) as char
    }
}

/// `v` in hexadecimal, without leading zeros.
pub open spec fn hex_text(v: nat, upper: bool) -> Seq<char>
    decreases v,
{
    if v < 16 {
        seq![hex_char(v, upper)]
    } else {
        hex_text(v / 16, upper).push(hex_char(v % 16, upper))
    }
}

/// A register operand: `v` and its number in upper-case hexadecimal.
pub open spec fn reg_text(r: u8) -> Seq<char> {
    seq!['v'] + hex_text(r as nat, true)
}

/// A value operand: `0x` and the value in lower-case hexadecimal.
pub open spec fn val_text(v: u16) -> Seq<char> {
    seq!['0', 'x'] + hex_text(v as nat, false)
}

pub open spec fn sep() -> Seq<char> {
    seq![',', ' ']
}

/// The assembly text of an instruction: its mnemonic padded to six columns,
/// then its operands separated by commas.
pub open spec fn instr_text(instr: Instruction) -> Seq<char> {
    match instr {
        Instruction::Clr => "CLR"@,
        Instruction::Rts => "RTS"@,
        Instruction::Draw(x, y, n) => "DRAW  "@ + reg_text(x) + sep() + reg_text(y) + sep()
            + val_text(n as u16),
        Instruction::Sys(a) => "SYS   "@ + val_text(a),
        Instruction::Jump(a) => "JUMP  "@ + val_text(a),
        Instruction::Call(a) => "CALL  "@ + val_text(a),
        Instruction::LoadI(a) => "LOADI "@ + val_text(a),
        Instruction::JumpI(a) => "JUMPI "@ + val_text(a),
        Instruction::Ske(x, n) => "SKE   "@ + reg_text(x) + sep() + val_text(n as u16),
        Instruction::Skne(x, n) => "SKNE  "@ + reg_text(x) + sep() + val_text(n as u16),
        Instruction::Load(x, n) => "LOAD  "@ + reg_text(x) + sep() + val_text(n as u16),
        Instruction::Add(x, n) => "ADD   "@ + reg_text(x) + sep() + val_text(n as u16),
        Instruction::Rand(x, n) => "RAND  "@ + reg_text(x) + sep() + val_text(n as u16),
        Instruction::Skre(x, y) => "SKRE  "@ + reg_text(x) + sep() + reg_text(y),
        Instruction::Skrne(x, y) => "SKRNE "@ + reg_text(x) + sep() + reg_text(y),
        Instruction::Move(x, y) => "MOVE  "@ + reg_text(x) + sep() + reg_text(y),
        Instruction::Or(x, y) => "OR    "@ + reg_text(x) + sep() + reg_text(y),
        Instruction::And(x, y) => "AND   "@ + reg_text(x) + sep() + reg_text(y),
        Instruction::Xor(x, y) => "XOR   "@ + reg_text(x) + sep() + reg_text(y),
        Instruction::Addr(x, y) => "ADDR  "@ + reg_text(x) + sep() + reg_text(y),
        Instruction::Sub(x, y) => "SUB   "@ + reg_text(x) + sep() + reg_text(y),
        Instruction::Shr(x, y) => "SHR   "@ + reg_text(x) + sep() + reg_text(y),
        Instruction::Shl(x, y) => "SHL   "@ + reg_text(x) + sep() + reg_text(y),
        Instruction::Skpr(x) => "SKPR  "@ + reg_text(x),
        Instruction::Skup(x) => "SKUP  "@ + reg_text(x),
        Instruction::Moved(x) => "MOVED "@ + reg_text(x),
        Instruction::Keyd(x) => "KEYD  "@ + reg_text(x),
        Instruction::LoadD(x) => "LOADD "@ + reg_text(x),
        Instruction::LoadS(x) => "LOADS "@ + reg_text(x),
        Instruction::AddI(x) => "ADDI  "@ + reg_text(x),
        Instruction::Ldspr(x) => "LDSPR "@ + reg_text(x),
        Instruction::Bcd(x) => "BCD   "@ + reg_text(x),
        Instruction::Stor(x) => "STOR  "@ + reg_text(x),
        Instruction::Read(x) => "READ  "@ + reg_text(x),
    }
}

fn digit_str(d: u16, upper: bool) -> (r: &'static str)
    requires
        d < 16,
    ensures
        r@ == seq![hex_char(d as nat, upper)],
{
    proof {
        reveal_strlit("0");
        reveal_strlit("1");
        reveal_strlit("2");
        reveal_strlit("3");
        reveal_strlit("4");
        reveal_strlit("5");
        reveal_strlit("6");
        reveal_strlit("7");
        reveal_strlit("8");
        reveal_strlit("9");
        reveal_strlit("A");
        reveal_strlit("B");
        reveal_strlit("C");
        reveal_strlit("D");
        reveal_strlit("E");
        reveal_strlit("F");
        reveal_strlit("a");
        reveal_strlit("b");
        reveal_strlit("c");
        reveal_strlit("d");
        reveal_strlit("e");
        reveal_strlit("f");
    }
    let r = match d {
        0 => "0",
        1 => "1",
        2 => "2",
        3 => "3",
        4 => "4",
        5 => "5",
        6 => "6",
        7 => "7",
        8 => "8",
        9 => "9",
        10 => if upper { "A" } else { "a" },
        11 => if upper { "B" } else { "b" },
        12 => if upper { "C" } else { "c" },
        13 => if upper { "D" } else { "d" },
        14 => if upper { "E" } else { "e" },
        _ => if upper { "F" } else { "f" },
    };
    assert(r@ =~= seq![hex_char(d as nat, upper)]);
    r
}

/// Appends `v` in hexadecimal without leading zeros.
fn push_hex(s: &mut String, v: u16, upper: bool)
    ensures
        final(s)@ == old(s)@ + hex_text(v as nat, upper),
    decreases v,
{
    if v >= 16 {
        push_hex(s, v / 16, upper);
    }
    s.append(digit_str(v % 16, upper));
    assert(final(s)@ =~= old(s)@ + hex_text(v as nat, upper));
}

fn push_reg(s: &mut String, r: u8)
    ensures
        final(s)@ == old(s)@ + reg_text(r),
{
    s.append("v");
    proof {
        reveal_strlit("v");
    }
    push_hex(s, r as u16, true);
    assert(final(s)@ =~= old(s)@ + reg_text(r));
}

fn push_val(s: &mut String, v: u16)
    ensures
        final(s)@ == old(s)@ + val_text(v),
{
    s.append("0x");
    proof {
        reveal_strlit("0x");
    }
    push_hex(s, v, false);
    assert(final(s)@ =~= old(s)@ + val_text(v));
}

fn push_sep(s: &mut String)
    ensures
        final(s)@ == old(s)@ + sep(),
{
    s.append(", ");
    proof {
        reveal_strlit(", ");
    }
}

fn push_rr(s: &mut String, x: u8, y: u8)
    ensures
        final(s)@ == old(s)@ + reg_text(x) + sep() + reg_text(y),
{
    push_reg(s, x);
    push_sep(s);
    push_reg(s, y);
    assert(final(s)@ =~= old(s)@ + reg_text(x) + sep() + reg_text(y));
}

fn push_rv(s: &mut String, x: u8, v: u8)
    ensures
        final(s)@ == old(s)@ + reg_text(x) + sep() + val_text(v as u16),
{
    push_reg(s, x);
    push_sep(s);
    push_val(s, v as u16);
    assert(final(s)@ =~= old(s)@ + reg_text(x) + sep() + val_text(v as u16));
}

impl Instruction {
    /// The instruction in assembly notation, e.g. `LOAD  v3, 0x42`.
    pub fn to_text(&self) -> (r: String)
        ensures
            r@ == instr_text(*self),
    {
        let mut s = String::new();
        match *self {
            Instruction::Clr => s.append("CLR"),
            Instruction::Rts => s.append("RTS"),
            Instruction::Draw(x, y, n) => {
                s.append("DRAW  ");
                push_rr(&mut s, x, y);
                push_sep(&mut s);
                push_val(&mut s, n as u16);
            },
            Instruction::Sys(a) => {
                s.append("SYS   ");
                push_val(&mut s, a);
            },
            Instruction::Jump(a) => {
                s.append("JUMP  ");
                push_val(&mut s, a);
            },
            Instruction::Call(a) => {
                s.append("CALL  ");
                push_val(&mut s, a);
            },
            Instruction::LoadI(a) => {
                s.append("LOADI ");
                push_val(&mut s, a);
            },
            Instruction::JumpI(a) => {
                s.append("JUMPI ");
                push_val(&mut s, a);
            },
            Instruction::Ske(x, n) => {
                s.append("SKE   ");
                push_rv(&mut s, x, n);
            },
            Instruction::Skne(x, n) => {
                s.append("SKNE  ");
                push_rv(&mut s, x, n);
            },
            Instruction::Load(x, n) => {
                s.append("LOAD  ");
                push_rv(&mut s, x, n);
            },
            Instruction::Add(x, n) => {
                s.append("ADD   ");
                push_rv(&mut s, x, n);
            },
            Instruction::Rand(x, n) => {
                s.append("RAND  ");
                push_rv(&mut s, x, n);
            },
            Instruction::Skre(x, y) => {
                s.append("SKRE  ");
                push_rr(&mut s, x, y);
            },
            Instruction::Skrne(x, y) => {
                s.append("SKRNE ");
                push_rr(&mut s, x, y);
            },
            Instruction::Move(x, y) => {
                s.append("MOVE  ");
                push_rr(&mut s, x, y);
            },
            Instruction::Or(x, y) => {
                s.append("OR    ");
                push_rr(&mut s, x, y);
            },
            Instruction::And(x, y) => {
                s.append("AND   ");
                push_rr(&mut s, x, y);
            },
            Instruction::Xor(x, y) => {
                s.append("XOR   ");
                push_rr(&mut s, x, y);
            },
            Instruction::Addr(x, y) => {
                s.append("ADDR  ");
                push_rr(&mut s, x, y);
            },
            Instruction::Sub(x, y) => {
                s.append("SUB   ");
                push_rr(&mut s, x, y);
            },
            Instruction::Shr(x, y) => {
                s.append("SHR   ");
                push_rr(&mut s, x, y);
            },
            Instruction::Shl(x, y) => {
                s.append("SHL   ");
                push_rr(&mut s, x, y);
            },
            Instruction::Skpr(x) => {
                s.append("SKPR  ");
                push_reg(&mut s, x);
            },
            Instruction::Skup(x) => {
                s.append("SKUP  ");
                push_reg(&mut s, x);
            },
            Instruction::Moved(x) => {
                s.append("MOVED ");
                push_reg(&mut s, x);
            },
            Instruction::Keyd(x) => {
                s.append("KEYD  ");
                push_reg(&mut s, x);
            },
            Instruction::LoadD(x) => {
                s.append("LOADD ");
                push_reg(&mut s, x);
            },
            Instruction::LoadS(x) => {
                s.append("LOADS ");
                push_reg(&mut s, x);
            },
            Instruction::AddI(x) => {
                s.append("ADDI  ");
                push_reg(&mut s, x);
            },
            Instruction::Ldspr(x) => {
                s.append("LDSPR ");
                push_reg(&mut s, x);
            },
            Instruction::Bcd(x) => {
                s.append("BCD   ");
                push_reg(&mut s, x);
            },
            Instruction::Stor(x) => {
                s.append("STOR  ");
                push_reg(&mut s, x);
            },
            Instruction::Read(x) => {
                s.append("READ  ");
                push_reg(&mut s, x);
            },
        }
        assert(s@ =~= instr_text(*self));
        s
    }
}

/// The keys in the order of the physical pad, row by row.
pub const KEYPAD_ORDER: [u8; 16] = [0x1, 0x2, 0x3, 0xC, 0x4, 0x5, 0x6, 0xD, 0x7, 0x8, 0x9, 0xE, 0xA, 0x0, 0xB, 0xF];

/// A key of the pad: its digit when pressed, a full block otherwise.
pub open spec fn key_cell(keys: Seq<bool>, k: u8) -> Seq<char> {
    if keys[k as int] {
        seq![hex_char(k as nat, true)]
    } else {
        seq!['█']
    }
}

/// The first `n` keys of the pad, with a line break after each row of four.
pub open spec fn keypad_text(keys: Seq<bool>, n: int) -> Seq<char>
    decreases n,
{
    if n <= 0 {
        Seq::empty()
    } else {
        let prev = keypad_text(keys, n - 1) + key_cell(keys, KEYPAD_ORDER@[n - 1]);
        if n % 4 == 0 {
            prev.push('\n')
        } else {
            prev
        }
    }
}

pub open spec fn pixel_char(p: bool) -> char {
    if p {
        '█'
    } else {
        '·'
    }
}

/// The first `n` pixels of a row.
pub open spec fn pixels_text(row: Seq<bool>, n: int) -> Seq<char> {
    Seq::new(n as nat, |c: int| pixel_char(row[c]))
}

/// One row of the screen between two vertical bars.
pub open spec fn row_text(row: Seq<bool>) -> Seq<char> {
    seq!['│'] + pixels_text(row, SCREEN_WIDTH as int) + seq!['│', '\n']
}

/// The first `n` rows of the screen.
pub open spec fn rows_text(d: Seq<Seq<bool>>, n: int) -> Seq<char>
    decreases n,
{
    if n <= 0 {
        Seq::empty()
    } else {
        rows_text(d, n - 1) + row_text(d[n - 1])
    }
}

/// A horizontal edge of the frame between two corners.
pub open spec fn edge_text(left: char, right: char) -> Seq<char> {
    seq![left] + Seq::new(SCREEN_WIDTH as nat, |c: int| '─') + seq![right, '\n']
}

/// The key pad, a blank line, then the screen in a frame.
pub open spec fn io_text(keys: Seq<bool>, d: Seq<Seq<bool>>) -> Seq<char> {
    keypad_text(keys, 16) + seq!['\n'] + edge_text('┌', '┐') + rows_text(d, SCREEN_HEIGHT as int)
        + edge_text('└', '┘')
}

fn push_edge(s: &mut String, left: &str, right: &str)
    requires
        left@.len() == 1,
        right@.len() == 1,
    ensures
        final(s)@ == old(s)@ + edge_text(left@[0], right@[0]),
{
    proof {
        reveal_strlit("─");
        reveal_strlit("\n");
    }
    s.append(left);
    let mut c: usize = 0;
    while c < SCREEN_WIDTH
        invariant
            c <= SCREEN_WIDTH,
            s@ == old(s)@ + left@ + Seq::new(c as nat, |k: int| '─'),
        decreases SCREEN_WIDTH - c,
    {
        s.append("─");
        proof {
            reveal_strlit("─");
        }
        c += 1;
        assert(s@ =~= old(s)@ + left@ + Seq::new(c as nat, |k: int| '─'));
    }
    s.append(right);
    s.append("\n");
    assert(s@ =~= old(s)@ + edge_text(left@[0], right@[0]));
}

fn push_row(s: &mut String, row: &[bool; SCREEN_WIDTH])
    ensures
        final(s)@ == old(s)@ + row_text(row@),
{
    proof {
        reveal_strlit("│");
        reveal_strlit("│\n");
        reveal_strlit("█");
        reveal_strlit("·");
    }
    s.append("│");
    let mut c: usize = 0;
    while c < SCREEN_WIDTH
        invariant
            c <= SCREEN_WIDTH,
            s@ == old(s)@ + seq!['│'] + pixels_text(row@, c as int),
        decreases SCREEN_WIDTH - c,
    {
        if row[c] {
            s.append("█");
        } else {
            s.append("·");
        }
        proof {
            reveal_strlit("█");
            reveal_strlit("·");
        }
        c += 1;
        assert(s@ =~= old(s)@ + seq!['│'] + pixels_text(row@, c as int));
    }
    s.append("│\n");
    assert(s@ =~= old(s)@ + row_text(row@));
}

impl Chip8IO {
    /// The key pad and the screen as text: pressed keys show their digit, lit
    /// pixels a full block.
    pub fn to_text(&self) -> (r: String)
        ensures
            r@ == io_text(self.keystate@, display_view(self.display)),
    {
        proof {
            reveal_strlit("█");
            reveal_strlit("\n");
            reveal_strlit("┌");
            reveal_strlit("┐");
            reveal_strlit("└");
            reveal_strlit("┘");
        }
        let mut s = String::new();
        let mut n: usize = 0;
        while n < 16
            invariant
                n <= 16,
                s@ == keypad_text(self.keystate@, n as int),
            decreases 16 - n,
        {
            let key = KEYPAD_ORDER[n];
            if self.keystate[key as usize] {
                s.append(digit_str(key as u16, true));
            } else {
                s.append("█");
            }
            if (n + 1) % 4 == 0 {
                s.append("\n");
            }
            proof {
                reveal_strlit("█");
                reveal_strlit("\n");
            }
            n += 1;
            assert(s@ =~= keypad_text(self.keystate@, n as int));
        }
        s.append("\n");
        push_edge(&mut s, "┌", "┐");
        let ghost top = s@;
        let mut r: usize = 0;
        while r < SCREEN_HEIGHT
            invariant
                r <= SCREEN_HEIGHT,
                s@ == top + rows_text(display_view(self.display), r as int),
            decreases SCREEN_HEIGHT - r,
        {
            push_row(&mut s, &self.display[r]);
            r += 1;
            assert(s@ =~= top + rows_text(display_view(self.display), r as int));
        }
        push_edge(&mut s, "└", "┘");
        assert(s@ =~= io_text(self.keystate@, display_view(self.display)));
        s
    }
}

/// `v` in decimal, without leading zeros.
pub open spec fn dec_text(v: nat) -> Seq<char>
    decreases v,
{
    if v < 10 {
        seq![hex_char(v, true)]
    } else {
        dec_text(v / 10).push(hex_char(v % 10, true))
    }
}

/// What went wrong, in words.
pub open spec fn error_text(e: Chip8Error) -> Seq<char> {
    match e {
        Chip8Error::InvalidInstruction(w) => "Invalid Instruction: "@ + val_text(w),
        Chip8Error::EmptyStack => "Return from empty stack"@,
        Chip8Error::SpriteOutOfRange(v) => "LDSPR for "@ + dec_text(v as nat) + " > 15"@,
        Chip8Error::UnimplementedSys(_) => "SYS"@,
        Chip8Error::MemoryOutOfRange(a) => "Memory access out of range at "@ + val_text(a),
    }
}

/// The first `n` registers as a comma-separated list of decimal values.
pub open spec fn regs_list(v: Seq<u8>, n: int) -> Seq<char>
    decreases n,
{
    if n <= 0 {
        Seq::empty()
    } else if n == 1 {
        dec_text(v[0] as nat)
    } else {
        regs_list(v, n - 1) + sep() + dec_text(v[n - 1] as nat)
    }
}

/// `t` followed by spaces up to `width` characters.
pub open spec fn pad_right(t: Seq<char>, width: nat) -> Seq<char> {
    if t.len() >= width {
        t
    } else {
        t + spaces((width - t.len()) as nat)
    }
}

/// `t` after spaces up to `width` characters.
pub open spec fn pad_left(t: Seq<char>, width: nat) -> Seq<char> {
    if t.len() >= width {
        t
    } else {
        spaces((width - t.len()) as nat) + t
    }
}

pub open spec fn spaces(count: nat) -> Seq<char> {
    Seq::new(count, |k: int| ' ')
}

/// Joining two ASCII texts gives an ASCII text.
pub broadcast proof fn lemma_ascii_add(a: Seq<char>, b: Seq<char>)
    requires
        is_ascii_chars(a),
        is_ascii_chars(b),
    ensures
        #[trigger] is_ascii_chars(a + b),
{
    assert forall|k: int| 0 <= k < (a + b).len() implies '\0' <= #[trigger] (a + b)[k] <= '\u{7f}' by {
        if k < a.len() {
            assert((a + b)[k] == a[k]);
        } else {
            assert((a + b)[k] == b[k - a.len()]);
        }
    }
}

pub proof fn lemma_hex_ascii(v: nat, upper: bool)
    ensures
        is_ascii_chars(hex_text(v, upper)),
        hex_text(v, upper).len() <= v + 1,
    decreases v,
{
    broadcast use lemma_ascii_add;

    if v >= 16 {
        lemma_hex_ascii(v / 16, upper);
        assert(is_ascii_chars(seq![hex_char(v % 16, upper)]));
        assert(hex_text(v, upper) == hex_text(v / 16, upper) + seq![hex_char(v % 16, upper)]);
    }
}

pub proof fn lemma_dec_ascii(v: nat)
    ensures
        is_ascii_chars(dec_text(v)),
        dec_text(v).len() <= v + 1,
    decreases v,
{
    broadcast use lemma_ascii_add;

    if v >= 10 {
        lemma_dec_ascii(v / 10);
        assert(is_ascii_chars(seq![hex_char(v % 10, true)]));
        assert(dec_text(v) == dec_text(v / 10) + seq![hex_char(v % 10, true)]);
    }
}

proof fn lemma_reg_text(r: u8)
    ensures
        is_ascii_chars(reg_text(r)),
        reg_text(r).len() <= 0x200,
{
    broadcast use lemma_ascii_add;

    lemma_hex_ascii(r as nat, true);
    assert(is_ascii_chars(seq!['v']));
}

proof fn lemma_val_text(v: u16)
    ensures
        is_ascii_chars(val_text(v)),
        val_text(v).len() <= 0x20000,
{
    broadcast use lemma_ascii_add;

    lemma_hex_ascii(v as nat, false);
    assert(is_ascii_chars(seq!['0', 'x']));
}

/// The text of an instruction is ASCII, and short.
#[verifier::rlimit(50)]
pub proof fn lemma_instr_text_ascii(instr: Instruction)
    ensures
        is_ascii_chars(instr_text(instr)),
        instr_text(instr).len() <= 0x30000,
{
    broadcast use lemma_ascii_add;

    assert(is_ascii_chars(sep()));
    match instr {
        Instruction::Clr => reveal_strlit("CLR"),
        Instruction::Rts => reveal_strlit("RTS"),
        Instruction::Draw(x, y, n) => {
            reveal_strlit("DRAW  ");
            lemma_reg_text(x);
            lemma_reg_text(y);
            lemma_val_text(n as u16);
        },
        Instruction::Sys(a) => {
            reveal_strlit("SYS   ");
            lemma_val_text(a);
        },
        Instruction::Jump(a) => {
            reveal_strlit("JUMP  ");
            lemma_val_text(a);
        },
        Instruction::Call(a) => {
            reveal_strlit("CALL  ");
            lemma_val_text(a);
        },
        Instruction::LoadI(a) => {
            reveal_strlit("LOADI ");
            lemma_val_text(a);
        },
        Instruction::JumpI(a) => {
            reveal_strlit("JUMPI ");
            lemma_val_text(a);
        },
        Instruction::Ske(x, n) | Instruction::Skne(x, n) | Instruction::Load(x, n)
        | Instruction::Add(x, n) | Instruction::Rand(x, n) => {
            reveal_strlit("SKE   ");
            reveal_strlit("SKNE  ");
            reveal_strlit("LOAD  ");
            reveal_strlit("ADD   ");
            reveal_strlit("RAND  ");
            lemma_reg_text(x);
            lemma_val_text(n as u16);
        },
        Instruction::Skre(x, y) | Instruction::Skrne(x, y) | Instruction::Move(x, y)
        | Instruction::Or(x, y) | Instruction::And(x, y) | Instruction::Xor(x, y) => {
            reveal_strlit("SKRE  ");
            reveal_strlit("SKRNE ");
            reveal_strlit("MOVE  ");
            reveal_strlit("OR    ");
            reveal_strlit("AND   ");
            reveal_strlit("XOR   ");
            lemma_reg_text(x);
            lemma_reg_text(y);
        },
        Instruction::Addr(x, y) | Instruction::Sub(x, y) | Instruction::Shr(x, y)
        | Instruction::Shl(x, y) => {
            reveal_strlit("ADDR  ");
            reveal_strlit("SUB   ");
            reveal_strlit("SHR   ");
            reveal_strlit("SHL   ");
            lemma_reg_text(x);
            lemma_reg_text(y);
        },
        Instruction::Skpr(x) | Instruction::Skup(x) | Instruction::Moved(x)
        | Instruction::Keyd(x) | Instruction::LoadD(x) | Instruction::LoadS(x) => {
            reveal_strlit("SKPR  ");
            reveal_strlit("SKUP  ");
            reveal_strlit("MOVED ");
            reveal_strlit("KEYD  ");
            reveal_strlit("LOADD ");
            reveal_strlit("LOADS ");
            lemma_reg_text(x);
        },
        Instruction::AddI(x) | Instruction::Ldspr(x) | Instruction::Bcd(x)
        | Instruction::Stor(x) | Instruction::Read(x) => {
            reveal_strlit("ADDI  ");
            reveal_strlit("LDSPR ");
            reveal_strlit("BCD   ");
            reveal_strlit("STOR  ");
            reveal_strlit("READ  ");
            lemma_reg_text(x);
        },
    }
}

/// The text of an error is ASCII, and short.
pub proof fn lemma_error_text_ascii(e: Chip8Error)
    ensures
        is_ascii_chars(error_text(e)),
        error_text(e).len() <= 0x30000,
{
    broadcast use lemma_ascii_add;

    reveal_strlit("Invalid Instruction: ");
    reveal_strlit("Return from empty stack");
    reveal_strlit("LDSPR for ");
    reveal_strlit(" > 15");
    reveal_strlit("SYS");
    reveal_strlit("Memory access out of range at ");
    assert(is_ascii_chars(seq!['0', 'x']));
    match e {
        Chip8Error::InvalidInstruction(w) => lemma_val_text(w),
        Chip8Error::SpriteOutOfRange(v) => lemma_dec_ascii(v as nat),
        Chip8Error::MemoryOutOfRange(a) => lemma_val_text(a),
        _ => {},
    }
}

/// The number of characters of an ASCII text.
fn ascii_len(t: &String) -> (n: usize)
    requires
        is_ascii_chars(t@),
        t@.len() <= 0x30000,
    ensures
        n == t@.len(),
{
    let ts = t.as_str();
    proof {
        is_ascii_chars_encode_utf8(t@);
        assert(ts@ == t@);
        assert(ts.spec_bytes().len() == t@.len());
    }
    ts.len()
}

/// Appends `count` spaces.
fn push_spaces(s: &mut String, count: usize)
    ensures
        final(s)@ == old(s)@ + spaces(count as nat),
{
    let mut c: usize = 0;
    while c < count
        invariant
            c <= count,
            s@ == old(s)@ + spaces(c as nat),
        decreases count - c,
    {
        s.append(" ");
        proof {
            reveal_strlit(" ");
        }
        c += 1;
        assert(s@ =~= old(s)@ + spaces(c as nat));
    }
}

/// The machine in one line: program counter, the instruction there (or why
/// there is none), address register, registers and depth of the call stack.
pub open spec fn machine_text(m: &Chip8) -> Seq<char> {
    let at_pc = match fetch_spec(m.memory@, m.pc) {
        Ok(instr) => instr_text(instr),
        Err(e) => error_text(e),
    };
    "CHIP8 | pc: 0x"@ + hex_text(m.pc as nat, true) + " | "@ + pad_right(at_pc, 20) + " | idx: "@
        + pad_left(hex_text(m.reg.i as nat, true), 3) + " | reg: Registers { v: ["@ + regs_list(
        m.reg.v@,
        16,
    ) + "], i: "@ + dec_text(m.reg.i as nat) + ", sp: "@ + dec_text(m.reg.sp as nat)
        + " }"@ + " | stack: "@ + dec_text(m.stack@.len())
}

/// Appends `v` in decimal without leading zeros.
fn push_dec(s: &mut String, v: u64)
    ensures
        final(s)@ == old(s)@ + dec_text(v as nat),
    decreases v,
{
    if v >= 10 {
        push_dec(s, v / 10);
    }
    s.append(digit_str((v % 10) as u16, true));
    assert(final(s)@ =~= old(s)@ + dec_text(v as nat));
}

impl Chip8Error {
    /// What went wrong, in words.
    pub fn message(&self) -> (r: String)
        ensures
            r@ == error_text(*self),
    {
        let mut s = String::new();
        match *self {
            Chip8Error::InvalidInstruction(w) => {
                s.append("Invalid Instruction: ");
                push_val(&mut s, w);
            },
            Chip8Error::EmptyStack => s.append("Return from empty stack"),
            Chip8Error::SpriteOutOfRange(v) => {
                s.append("LDSPR for ");
                push_dec(&mut s, v as u64);
                s.append(" > 15");
            },
            Chip8Error::UnimplementedSys(_) => s.append("SYS"),
            Chip8Error::MemoryOutOfRange(a) => {
                s.append("Memory access out of range at ");
                push_val(&mut s, a);
            },
        }
        assert(s@ =~= error_text(*self));
        s
    }
}

fn push_regs(s: &mut String, v: &[u8; 16])
    ensures
        final(s)@ == old(s)@ + regs_list(v@, 16),
{
    push_dec(s, v[0] as u64);
    let mut n: usize = 1;
    while n < 16
        invariant
            1 <= n <= 16,
            s@ == old(s)@ + regs_list(v@, n as int),
        decreases 16 - n,
    {
        push_sep(s);
        push_dec(s, v[n] as u64);
        n += 1;
        assert(s@ =~= old(s)@ + regs_list(v@, n as int));
    }
}

impl Chip8 {
    /// The machine in one line, for inspection.
    pub fn to_text(&self) -> (r: String)
        ensures
            r@ == machine_text(self),
    {
        let mut s = String::new();
        s.append("CHIP8 | pc: 0x");
        push_hex(&mut s, self.pc, true);
        s.append(" | ");
        let at_pc = match self.current_instruction() {
            Ok(instr) => {
                proof {
                    lemma_instr_text_ascii(instr);
                }
                instr.to_text()
            },
            Err(e) => {
                proof {
                    lemma_error_text_ascii(e);
                }
                e.message()
            },
        };
        s.append(at_pc.as_str());
        let n = ascii_len(&at_pc);
        if n < 20 {
            push_spaces(&mut s, 20 - n);
        }
        s.append(" | idx: ");
        let mut idx = String::new();
        push_hex(&mut idx, self.reg.i, true);
        proof {
            lemma_hex_ascii(self.reg.i as nat, true);
            assert(idx@ =~= hex_text(self.reg.i as nat, true));
        }
        let n = ascii_len(&idx);
        if n < 3 {
            push_spaces(&mut s, 3 - n);
        }
        s.append(idx.as_str());
        s.append(" | reg: Registers { v: [");
        push_regs(&mut s, &self.reg.v);
        s.append("], i: ");
        push_dec(&mut s, self.reg.i as u64);
        s.append(", sp: ");
        push_dec(&mut s, self.reg.sp as u64);
        s.append(" }");
        s.append(" | stack: ");
        push_dec(&mut s, self.stack.len() as u64);
        assert(s@ =~= machine_text(self));
        s
    }
}

} // verus!
