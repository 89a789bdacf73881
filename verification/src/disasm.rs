//! A 6502 disassembler for the debugger: one instruction, or a window of
//! instructions around the program counter, rendered as text.

use vstd::prelude::*;
use crate::bus::{word, make_word};

verus! {

/// Addressing modes whose operand the disassembler spells out.
#[derive(Clone, Copy, Debug, PartialEq, Eq, Structural)]
pub enum AddrMode {
    Immediate,
    ZeroPage,
    ZeroPageX,
    ZeroPageY,
    Absolute,
    AbsoluteX,
    AbsoluteY,
    IndirectX,
    IndirectY,
    /// Implied, accumulator, relative and indirect: no operand text of its own.
    Other,
}

/// What the disassembler needs to know of an opcode.
pub struct OpcodeInfo {
    /// Mnemonic, possibly followed by `_` and a variant suffix.
    pub name: String,
    /// Instruction length in bytes.
    pub size: u16,
    pub mode: AddrMode,
}

/// One disassembled instruction.
pub struct DisasmLine {
    pub addr: u16,
    pub bytes: [u8; 3],
    pub byte_count: u8,
    pub text: String,
    /// The effective address and the value there, when registers were given.
    pub operand_detail: Option<String>,
}

/// The index registers used to resolve indexed operands.
pub struct CpuRegs {
    pub x: u8,
    pub y: u8,
}

/// Upper-case hexadecimal digit `d`.
pub open spec fn hex_digit(d: nat) -> char {
    if d == 0 {
        '0'
    } else if d == 1 {
        '1'
    } else if d == 2 {
        '2'
    } else if d == 3 {
        '3'
    } else if d == 4 {
        '4'
    } else if d == 5 {
        '5'
    } else if d == 6 {
        '6'
    } else if d == 7 {
        '7'
    } else if d == 8 {
        '8'
    } else if d == 9 {
        '9'
    } else if d == 10 {
        'A'
    } else if d == 11 {
        'B'
    } else if d == 12 {
        'C'
    } else if d == 13 {
        'D'
    } else if d == 14 {
        'E'
    } else {
        'F'
    }
}

/// A byte as two upper-case hexadecimal digits.
pub open spec fn hex2(v: u8) -> Seq<char> {
    seq![hex_digit((v / 16) as nat), hex_digit((v % 16) as nat)]
}

/// A word as four upper-case hexadecimal digits.
pub open spec fn hex4(v: u16) -> Seq<char> {
    seq![
        hex_digit((v / 4096) as nat),
        hex_digit((v / 256 % 16) as nat),
        hex_digit((v / 16 % 16) as nat),
        hex_digit((v % 16) as nat),
    ]
}

/// A lookup table that the disassembler can use: an entry for every opcode,
/// ASCII mnemonics, instructions of at most three bytes.
pub open spec fn table_ok(lookup: Seq<OpcodeInfo>) -> bool {
    &&& lookup.len() == 256
    &&& forall|i: int| 0 <= i < 256 ==> #[trigger] lookup[i].size <= 3 && lookup[i].name.is_ascii()
}

/// The part of a mnemonic before the first `_`.
pub open spec fn mnemonic_of(name: Seq<char>) -> Seq<char>
    decreases name.len(),
{
    if name.len() == 0 {
        name
    } else if name[0] == '_' {
        Seq::empty()
    } else {
        seq![name[0]] + mnemonic_of(name.drop_first())
    }
}

pub open spec fn is_branch_op(opcode: u8) -> bool {
    opcode == 0x10 || opcode == 0x30 || opcode == 0x50 || opcode == 0x70 || opcode == 0x90 || opcode
        == 0xB0 || opcode == 0xD0 || opcode == 0xF0
}

pub open spec fn is_store_op(opcode: u8) -> bool {
    opcode == 0x85 || opcode == 0x95 || opcode == 0x8D || opcode == 0x9D || opcode == 0x99 || opcode
        == 0x81 || opcode == 0x91 || opcode == 0x86 || opcode == 0x96 || opcode == 0x8E || opcode
        == 0x84 || opcode == 0x94 || opcode == 0x8C
}

/// The operand as the assembler writes it.
pub open spec fn operand_text(mode: AddrMode, lo: u8, hi: u8) -> Seq<char> {
    match mode {
        AddrMode::Immediate => "#$"@ + hex2(lo),
        AddrMode::ZeroPage => "$"@ + hex2(lo),
        AddrMode::ZeroPageX => "$"@ + hex2(lo) + ",X"@,
        AddrMode::ZeroPageY => "$"@ + hex2(lo) + ",Y"@,
        AddrMode::Absolute => "$"@ + hex4(word(lo, hi)),
        AddrMode::AbsoluteX => "$"@ + hex4(word(lo, hi)) + ",X"@,
        AddrMode::AbsoluteY => "$"@ + hex4(word(lo, hi)) + ",Y"@,
        AddrMode::IndirectX => "($"@ + hex2(lo) + ",X)"@,
        AddrMode::IndirectY => "($"@ + hex2(lo) + "),Y"@,
        AddrMode::Other => Seq::empty(),
    }
}

/// Where a branch at `addr` with offset byte `lo` goes.
pub open spec fn branch_target(addr: u16, lo: u8) -> u16 {
    ((addr as int + 2 + (if lo >= 128 {
        lo as int - 256
    } else {
        lo as int
    })) % 65536) as u16
}

/// The text of an instruction.
pub open spec fn line_text(base: Seq<char>, size: u8, opcode: u8, mode: AddrMode, addr: u16, lo: u8, hi: u8) -> Seq<char> {
    if size == 1 {
        base
    } else if is_branch_op(opcode) {
        base + " $"@ + hex4(branch_target(addr, lo))
    } else if opcode == 0x6C {
        base + " ($"@ + hex4(word(lo, hi)) + ")"@
    } else {
        base + " "@ + operand_text(mode, lo, hi)
    }
}

/// The effective address of an operand and whether the debugger shows it.
pub open spec fn effective(mem: Seq<u8>, mode: AddrMode, lo: u8, hi: u8, x: u8, y: u8) -> Option<(u16, bool)> {
    match mode {
        AddrMode::ZeroPage => Some((lo as u16, true)),
        AddrMode::ZeroPageX => Some((((lo + x) % 256) as u16, true)),
        AddrMode::ZeroPageY => Some((((lo + y) % 256) as u16, true)),
        AddrMode::Absolute => Some((word(lo, hi), false)),
        AddrMode::AbsoluteX => Some((((word(lo, hi) + x) % 65536) as u16, true)),
        AddrMode::AbsoluteY => Some((((word(lo, hi) + y) % 65536) as u16, true)),
        AddrMode::IndirectX => {
            let ptr = (lo + x) % 256;
            Some((word(mem[ptr], mem[(ptr + 1) % 256]), true))
        },
        AddrMode::IndirectY => Some(
            (((word(mem[lo as int], mem[(lo + 1) % 256]) + y) % 65536) as u16, true),
        ),
        _ => None,
    }
}

/// The operand detail: the effective address and, unless the instruction
/// stores there, the value it holds.
pub open spec fn detail_text(mem: Seq<u8>, mode: AddrMode, lo: u8, hi: u8, opcode: u8, regs: Option<(u8, u8)>) -> Option<Seq<char>> {
    match regs {
        None => None,
        Some((x, y)) => match effective(mem, mode, lo, hi, x, y) {
            None => None,
            Some((eff, show)) => if is_store_op(opcode) {
                if show {
                    Some("@ "@ + hex4(eff))
                } else {
                    None
                }
            } else if show {
                Some("@ "@ + hex4(eff) + " = "@ + hex2(mem[eff as int]))
            } else {
                Some("= "@ + hex2(mem[eff as int]))
            },
        },
    }
}

pub open spec fn regs_view(regs: Option<&CpuRegs>) -> Option<(u8, u8)> {
    match regs {
        Some(r) => Some((r.x, r.y)),
        None => None,
    }
}

/// `line` disassembles the instruction at `addr`.
pub open spec fn line_at(line: DisasmLine, mem: Seq<u8>, lookup: Seq<OpcodeInfo>, addr: u16, regs: Option<(u8, u8)>) -> bool {
    let opcode = mem[addr as int];
    let info = lookup[opcode as int];
    let size = info.size as u8;
    let lo = if size >= 2 {
        mem[(addr + 1) % 65536]
    } else {
        0
    };
    let hi = if size >= 3 {
        mem[(addr + 2) % 65536]
    } else {
        0
    };
    &&& line.addr == addr
    &&& line.bytes@ == seq![opcode, lo, hi]
    &&& line.byte_count == size
    &&& line.text@ == line_text(mnemonic_of(info.name@), size, opcode, info.mode, addr, lo, hi)
    &&& match (line.operand_detail, detail_text(mem, info.mode, lo, hi, opcode, regs)) {
        (Some(t), Some(s)) => t@ == s,
        (None, None) => true,
        _ => false,
    }
}

fn hex_digit_str(d: u16) -> (r: &'static str)
    requires
        d < 16,
    ensures
        r@ == seq![hex_digit(d as nat)],
{
    if d == 0 {
        proof {
            reveal_strlit("0");
        }
        "0"
    } else if d == 1 {
        proof {
            reveal_strlit("1");
        }
        "1"
    } else if d == 2 {
        proof {
            reveal_strlit("2");
        }
        "2"
    } else if d == 3 {
        proof {
            reveal_strlit("3");
        }
        "3"
    } else if d == 4 {
        proof {
            reveal_strlit("4");
        }
        "4"
    } else if d == 5 {
        proof {
            reveal_strlit("5");
        }
        "5"
    } else if d == 6 {
        proof {
            reveal_strlit("6");
        }
        "6"
    } else if d == 7 {
        proof {
            reveal_strlit("7");
        }
        "7"
    } else if d == 8 {
        proof {
            reveal_strlit("8");
        }
        "8"
    } else if d == 9 {
        proof {
            reveal_strlit("9");
        }
        "9"
    } else if d == 10 {
        proof {
            reveal_strlit("A");
        }
        "A"
    } else if d == 11 {
        proof {
            reveal_strlit("B");
        }
        "B"
    } else if d == 12 {
        proof {
            reveal_strlit("C");
        }
        "C"
    } else if d == 13 {
        proof {
            reveal_strlit("D");
        }
        "D"
    } else if d == 14 {
        proof {
            reveal_strlit("E");
        }
        "E"
    } else {
        proof {
            reveal_strlit("F");
        }
        "F"
    }
}

/// `v` as two upper-case hexadecimal digits.
pub fn hex2_string(v: u8) -> (r: String)
    ensures
        r@ == hex2(v),
{
    let s = String::from_str(hex_digit_str((v / 16) as u16));
    let r = s.concat(hex_digit_str((v % 16) as u16));
    assert(r@ =~= hex2(v));
    r
}

/// `v` as four upper-case hexadecimal digits.
pub fn hex4_string(v: u16) -> (r: String)
    ensures
        r@ == hex4(v),
{
    let s = String::from_str(hex_digit_str(v / 4096));
    let s = s.concat(hex_digit_str(v / 256 % 16));
    let s = s.concat(hex_digit_str(v / 16 % 16));
    let r = s.concat(hex_digit_str(v % 16));
    assert(r@ =~= hex4(v));
    r
}

fn lit(s: &str) -> (r: String)
    ensures
        r@ == s@,
{
    String::from_str(s)
}

fn format_operand(mode: AddrMode, lo: u8, hi: u8) -> (r: String)
    ensures
        r@ == operand_text(mode, lo, hi),
{
    match mode {
        AddrMode::Immediate => lit("#$").concat(hex2_string(lo).as_str()),
        AddrMode::ZeroPage => lit("$").concat(hex2_string(lo).as_str()),
        AddrMode::ZeroPageX => lit("$").concat(hex2_string(lo).as_str()).concat(",X"),
        AddrMode::ZeroPageY => lit("$").concat(hex2_string(lo).as_str()).concat(",Y"),
        AddrMode::Absolute => lit("$").concat(hex4_string(make_word(lo, hi)).as_str()),
        AddrMode::AbsoluteX => lit("$").concat(hex4_string(make_word(lo, hi)).as_str()).concat(",X"),
        AddrMode::AbsoluteY => lit("$").concat(hex4_string(make_word(lo, hi)).as_str()).concat(",Y"),
        AddrMode::IndirectX => lit("($").concat(hex2_string(lo).as_str()).concat(",X)"),
        AddrMode::IndirectY => lit("($").concat(hex2_string(lo).as_str()).concat("),Y"),
        AddrMode::Other => {
            let r = String::new();
            assert(r@ =~= Seq::<char>::empty());
            r
        },
    }
}

/// The part of an ASCII mnemonic before the first `_`.
fn mnemonic_base(name: &str) -> (r: String)
    requires
        name.is_ascii(),
    ensures
        r@ == mnemonic_of(name@),
{
    let n = name.unicode_len();
    let mut i: usize = 0;
    while i < n && name.get_char(i) != '_'
        invariant
            n == name@.len(),
            name.is_ascii(),
            i <= n,
            forall|j: int| 0 <= j < i ==> name@[j] != '_',
        decreases n - i,
    {
        i = i + 1;
    }
    proof {
        lemma_mnemonic_prefix(name@, i as nat);
    }
    String::from_str(name.substring_ascii(0, i))
}

proof fn lemma_mnemonic_prefix(s: Seq<char>, i: nat)
    requires
        i <= s.len(),
        forall|j: int| 0 <= j < i ==> s[j] != '_',
        i < s.len() ==> s[i as int] == '_',
    ensures
        mnemonic_of(s) == s.subrange(0, i as int),
    decreases s.len(),
{
    if s.len() == 0 {
        assert(s.subrange(0, 0) =~= s);
    } else if i == 0 {
        assert(s.subrange(0, 0) =~= Seq::<char>::empty());
    } else {
        let t = s.drop_first();
        assert forall|j: int| 0 <= j < i - 1 implies t[j] != '_' by {
            assert(t[j] == s[j + 1]);
        }
        if i < s.len() {
            assert(t[i - 1] == s[i as int]);
        }
        lemma_mnemonic_prefix(t, (i - 1) as nat);
        assert(s.subrange(0, i as int) =~= seq![s[0]] + t.subrange(0, i - 1));
    }
}

fn is_branch(opcode: u8) -> (r: bool)
    ensures
        r == is_branch_op(opcode),
{
    opcode == 0x10 || opcode == 0x30 || opcode == 0x50 || opcode == 0x70 || opcode == 0x90 || opcode
        == 0xB0 || opcode == 0xD0 || opcode == 0xF0
}

fn is_jmp_indirect(opcode: u8) -> (r: bool)
    ensures
        r == (opcode == 0x6C),
{
    opcode == 0x6C
}

fn is_relative(opcode: u8) -> (r: bool)
    ensures
        r == is_branch_op(opcode),
{
    is_branch(opcode)
}

fn is_store(opcode: u8) -> (r: bool)
    ensures
        r == is_store_op(opcode),
{
    opcode == 0x85 || opcode == 0x95 || opcode == 0x8D || opcode == 0x9D || opcode == 0x99 || opcode
        == 0x81 || opcode == 0x91 || opcode == 0x86 || opcode == 0x96 || opcode == 0x8E || opcode
        == 0x84 || opcode == 0x94 || opcode == 0x8C
}

fn resolve_operand(mode: AddrMode, lo: u8, hi: u8, opcode: u8, regs: Option<&CpuRegs>, mem: &[u8]) -> (r: Option<String>)
    requires
        mem@.len() == 0x10000,
    ensures
        match (r, detail_text(mem@, mode, lo, hi, opcode, regs_view(regs))) {
            (Some(t), Some(s)) => t@ == s,
            (None, None) => true,
            _ => false,
        },
{
    let regs = match regs {
        Some(r) => r,
        None => return None,
    };
    let (eff_addr, show_addr) = match effective_addr(mode, lo, hi, regs.x, regs.y, mem) {
        Some(e) => e,
        None => return None,
    };
    describe_operand(eff_addr, show_addr, opcode, mem)
}

fn describe_operand(eff_addr: u16, show_addr: bool, opcode: u8, mem: &[u8]) -> (r: Option<String>)
    requires
        mem@.len() == 0x10000,
    ensures
        match r {
            Some(t) => if is_store_op(opcode) {
                show_addr && t@ == "@ "@ + hex4(eff_addr)
            } else if show_addr {
                t@ == "@ "@ + hex4(eff_addr) + " = "@ + hex2(mem@[eff_addr as int])
            } else {
                t@ == "= "@ + hex2(mem@[eff_addr as int])
            },
            None => is_store_op(opcode) && !show_addr,
        },
{
    if is_store(opcode) {
        if show_addr {
            Some(lit("@ ").concat(hex4_string(eff_addr).as_str()))
        } else {
            None
        }
    } else {
        let val = mem[eff_addr as usize];
        if show_addr {
            Some(lit("@ ").concat(hex4_string(eff_addr).as_str()).concat(" = ").concat(hex2_string(val).as_str()))
        } else {
            Some(lit("= ").concat(hex2_string(val).as_str()))
        }
    }
}

fn effective_addr(mode: AddrMode, lo: u8, hi: u8, x: u8, y: u8, mem: &[u8]) -> (r: Option<(u16, bool)>)
    requires
        mem@.len() == 0x10000,
    ensures
        r == effective(mem@, mode, lo, hi, x, y),
{
    match mode {
        AddrMode::ZeroPage => Some((lo as u16, true)),
        AddrMode::ZeroPageX => Some((((lo as u32 + x as u32) % 256) as u16, true)),
        AddrMode::ZeroPageY => Some((((lo as u32 + y as u32) % 256) as u16, true)),
        AddrMode::Absolute => Some((make_word(lo, hi), false)),
        AddrMode::AbsoluteX => Some((((make_word(lo, hi) as u32 + x as u32) % 65536) as u16, true)),
        AddrMode::AbsoluteY => Some((((make_word(lo, hi) as u32 + y as u32) % 65536) as u16, true)),
        AddrMode::IndirectX => {
            let ptr = ((lo as u32 + x as u32) % 256) as usize;
            let lo_byte = mem[ptr];
            let hi_byte = mem[(ptr + 1) % 256];
            Some((make_word(lo_byte, hi_byte), true))
        },
        AddrMode::IndirectY => {
            let lo_byte = mem[lo as usize];
            let hi_byte = mem[(lo as usize + 1) % 256];
            Some((((make_word(lo_byte, hi_byte) as u32 + y as u32) % 65536) as u16, true))
        },
        _ => None,
    }
}

fn instruction_text(base: String, size: u8, opcode: u8, mode: AddrMode, addr: u16, lo: u8, hi: u8) -> (r: String)
    ensures
        r@ == line_text(base@, size, opcode, mode, addr, lo, hi),
{
    if size == 1 {
        base
    } else if is_relative(opcode) {
        let back: u32 = if lo >= 128 {
            256
        } else {
            0
        };
        let target = ((addr as u32 + 2 + 65536 + lo as u32 - back) % 65536) as u16;
        assert(target == branch_target(addr, lo));
        base.concat(" $").concat(hex4_string(target).as_str())
    } else if is_jmp_indirect(opcode) {
        base.concat(" ($").concat(hex4_string(make_word(lo, hi)).as_str()).concat(")")
    } else {
        base.concat(" ").concat(format_operand(mode, lo, hi).as_str())
    }
}

/// Disassembles the instruction at `addr` of the CPU address space `mem`;
/// with registers, also resolves its operand.
pub fn disassemble_one(addr: u16, mem: &[u8], lookup: &Vec<OpcodeInfo>, regs: Option<&CpuRegs>) -> (line: DisasmLine)
    requires
        mem@.len() == 0x10000,
        table_ok(lookup@),
    ensures
        line_at(line, mem@, lookup@, addr, regs_view(regs)),
{
    let opcode = mem[addr as usize];
    let info = &lookup[opcode as usize];
    assert(info.size <= 3 && info.name.is_ascii());
    let size = info.size as u8;
    let mode = info.mode;
    let base = mnemonic_base(info.name.as_str());
    let lo = if size >= 2 {
        mem[(addr as usize + 1) % 0x10000]
    } else {
        0
    };
    let hi = if size >= 3 {
        mem[(addr as usize + 2) % 0x10000]
    } else {
        0
    };
    let text = instruction_text(base, size, opcode, mode, addr, lo, hi);
    let operand_detail = resolve_operand(mode, lo, hi, opcode, regs, mem);
    DisasmLine { addr, bytes: [opcode, lo, hi], byte_count: size, text, operand_detail }
}

/// How far the disassembler moves past the instruction at `a`: its length,
/// or one byte for a zero-length entry.
pub open spec fn step_len(mem: Seq<u8>, lookup: Seq<OpcodeInfo>, a: int) -> int {
    let size = lookup[mem[a] as int].size;
    if size == 0 {
        1
    } else {
        size as int
    }
}

/// The instruction after the one at `a`, wrapping around the address space.
pub open spec fn next_addr(mem: Seq<u8>, lookup: Seq<OpcodeInfo>, a: u16) -> u16 {
    ((a + step_len(mem, lookup, a as int)) % 65536) as u16
}

/// The `j`-th instruction after the one at `pc`.
pub open spec fn after_addr(mem: Seq<u8>, lookup: Seq<OpcodeInfo>, pc: u16, j: nat) -> u16
    decreases j,
{
    if j == 0 {
        next_addr(mem, lookup, pc)
    } else {
        next_addr(mem, lookup, after_addr(mem, lookup, pc, (j - 1) as nat))
    }
}

/// The instruction starts met walking forward from `a` while below `pc`.
pub open spec fn scan_from(mem: Seq<u8>, lookup: Seq<OpcodeInfo>, a: int, pc: int) -> Seq<u16>
    decreases (if a < pc {
        pc - a
    } else {
        0int
    }),
{
    if a < pc && step_len(mem, lookup, a) >= 1 {
        seq![a as u16] + scan_from(mem, lookup, a + step_len(mem, lookup, a), pc)
    } else {
        Seq::empty()
    }
}

/// Where that walk stops.
pub open spec fn scan_end(mem: Seq<u8>, lookup: Seq<OpcodeInfo>, a: int, pc: int) -> int
    decreases (if a < pc {
        pc - a
    } else {
        0int
    }),
{
    if a < pc && step_len(mem, lookup, a) >= 1 {
        scan_end(mem, lookup, a + step_len(mem, lookup, a), pc)
    } else {
        a
    }
}

/// At most `n` instruction starts walking forward from `a` while below `pc`.
pub open spec fn walk_from(mem: Seq<u8>, lookup: Seq<OpcodeInfo>, a: int, pc: int, n: nat) -> Seq<u16>
    decreases n,
{
    if n == 0 || a >= pc {
        Seq::empty()
    } else {
        seq![a as u16] + walk_from(mem, lookup, a + step_len(mem, lookup, a), pc, (n - 1) as nat)
    }
}

/// The instructions shown before `pc`: the last `n` found by walking from
/// up to `3n + 6` bytes back when that walk lands on `pc`, otherwise up to
/// `n` found walking from `n` bytes back.
pub open spec fn before_addrs(mem: Seq<u8>, lookup: Seq<OpcodeInfo>, pc: u16, n: nat) -> Seq<u16> {
    if n == 0 {
        Seq::empty()
    } else {
        let back = (n * 3 + 6) % 65536;
        let start = if pc >= back {
            pc - back
        } else {
            0
        };
        let c = scan_from(mem, lookup, start, pc as int);
        if scan_end(mem, lookup, start, pc as int) == pc {
            let skip = if c.len() >= n {
                c.len() - n
            } else {
                0
            };
            c.subrange(skip, c.len() as int)
        } else {
            let lin = (pc - n % 65536) % 65536;
            walk_from(mem, lookup, lin, pc as int, n)
        }
    }
}

fn step_of(mem: &[u8], lookup: &Vec<OpcodeInfo>, a: u16) -> (r: u16)
    requires
        mem@.len() == 0x10000,
        table_ok(lookup@),
    ensures
        r as int == step_len(mem@, lookup@, a as int),
        1 <= r <= 3,
{
    let size = lookup[mem[a as usize] as usize].size;
    if size == 0 {
        1
    } else {
        size
    }
}

/// Disassembles the instruction at `pc` with `lines_before` instructions
/// before it and `lines_after` after it; also answers where `pc`'s line is.
pub fn disassemble_around(
    pc: u16,
    lines_before: usize,
    lines_after: usize,
    mem: &[u8],
    lookup: &Vec<OpcodeInfo>,
    regs: Option<&CpuRegs>,
) -> (r: (Vec<DisasmLine>, usize))
    requires
        lines_before > 0 ==> pc <= 0xFFFC,
        lines_before * 3 + 6 <= usize::MAX,
        mem@.len() == 0x10000,
        table_ok(lookup@),
    ensures
        r.1 == before_addrs(mem@, lookup@, pc, lines_before as nat).len(),
        r.0@.len() == r.1 + 1 + lines_after,
        forall|k: int|
            0 <= k < r.1 ==> line_at(
                #[trigger] r.0@[k],
                mem@,
                lookup@,
                before_addrs(mem@, lookup@, pc, lines_before as nat)[k],
                None,
            ),
        line_at(r.0@[r.1 as int], mem@, lookup@, pc, regs_view(regs)),
        forall|j: int|
            0 <= j < lines_after ==> line_at(
                #[trigger] r.0@[r.1 + 1 + j],
                mem@,
                lookup@,
                after_addr(mem@, lookup@, pc, j as nat),
                None,
            ),
{
    let ghost want = before_addrs(mem@, lookup@, pc, lines_before as nat);
    let before = if lines_before == 0 {
        assert(want =~= Seq::<u16>::empty());
        Vec::new()
    } else {
        lines_before_pc(pc, lines_before, mem, lookup)
    };
    let pc_idx = before.len();
    let mut result = before;
    result.push(disassemble_one(pc, mem, lookup, regs));
    let mut addr = ((pc as u32 + step_of(mem, lookup, pc) as u32) % 65536) as u16;
    let mut j: usize = 0;
    while j < lines_after
        invariant
            mem@.len() == 0x10000,
            table_ok(lookup@),
            pc_idx == want.len(),
            j <= lines_after,
            result@.len() == pc_idx + 1 + j,
            addr == after_addr(mem@, lookup@, pc, j as nat),
            forall|k: int| 0 <= k < pc_idx ==> line_at(#[trigger] result@[k], mem@, lookup@, want[k], None),
            line_at(result@[pc_idx as int], mem@, lookup@, pc, regs_view(regs)),
            forall|i: int|
                0 <= i < j ==> line_at(
                    #[trigger] result@[pc_idx + 1 + i],
                    mem@,
                    lookup@,
                    after_addr(mem@, lookup@, pc, i as nat),
                    None,
                ),
        decreases lines_after - j,
    {
        let ghost prev = result@;
        result.push(disassemble_one(addr, mem, lookup, None));
        assert forall|k: int| 0 <= k < pc_idx implies line_at(#[trigger] result@[k], mem@, lookup@, want[k], None) by {
            assert(result@[k] == prev[k]);
        }
        assert(result@[pc_idx as int] == prev[pc_idx as int]);
        assert forall|i: int|
            0 <= i < j + 1 implies line_at(
                #[trigger] result@[pc_idx + 1 + i],
                mem@,
                lookup@,
                after_addr(mem@, lookup@, pc, i as nat),
                None,
            ) by {
            if i < j {
                assert(result@[pc_idx + 1 + i] == prev[pc_idx + 1 + i]);
            }
        }
        addr = ((addr as u32 + step_of(mem, lookup, addr) as u32) % 65536) as u16;
        j = j + 1;
    }
    (result, pc_idx)
}

/// The lines shown before `pc`.
fn lines_before_pc(pc: u16, lines_before: usize, mem: &[u8], lookup: &Vec<OpcodeInfo>) -> (before: Vec<DisasmLine>)
    requires
        pc <= 0xFFFC,
        lines_before * 3 + 6 <= usize::MAX,
        mem@.len() == 0x10000,
        table_ok(lookup@),
    ensures
        before@.len() == before_addrs(mem@, lookup@, pc, lines_before as nat).len(),
        forall|k: int|
            0 <= k < before@.len() ==> line_at(
                #[trigger] before@[k],
                mem@,
                lookup@,
                before_addrs(mem@, lookup@, pc, lines_before as nat)[k],
                None,
            ),
{
    let mut before: Vec<DisasmLine> = Vec::new();
    if lines_before == 0 {
        return before;
    }
    let back = ((lines_before * 3 + 6) % 65536) as u16;
    let scan_start = if pc >= back {
        pc - back
    } else {
        0
    };
    let mut scan_addr = scan_start;
    let mut candidates: Vec<u16> = Vec::new();
    while scan_addr < pc
        invariant
            pc <= 0xFFFC,
            mem@.len() == 0x10000,
            table_ok(lookup@),
            scan_addr <= pc + 2,
            candidates@ + scan_from(mem@, lookup@, scan_addr as int, pc as int) == scan_from(
                mem@,
                lookup@,
                scan_start as int,
                pc as int,
            ),
            scan_end(mem@, lookup@, scan_addr as int, pc as int) == scan_end(
                mem@,
                lookup@,
                scan_start as int,
                pc as int,
            ),
        decreases pc + 3 - scan_addr,
    {
        let ghost old_c = candidates@;
        let step = step_of(mem, lookup, scan_addr);
        let ghost rest = scan_from(mem@, lookup@, scan_addr + step, pc as int);
        assert(scan_from(mem@, lookup@, scan_addr as int, pc as int) == seq![scan_addr] + rest);
        candidates.push(scan_addr);
        assert(candidates@ + rest =~= old_c + (seq![scan_addr] + rest));
        scan_addr = scan_addr + step;
    }
    assert(scan_from(mem@, lookup@, scan_addr as int, pc as int) =~= Seq::<u16>::empty());
    assert(candidates@ == scan_from(mem@, lookup@, scan_start as int, pc as int));
    if scan_addr == pc {
        let skip = if candidates.len() >= lines_before {
            candidates.len() - lines_before
        } else {
            0
        };
        let ghost want = candidates@.subrange(skip as int, candidates@.len() as int);
        let mut i = skip;
        while i < candidates.len()
            invariant
                mem@.len() == 0x10000,
                table_ok(lookup@),
                skip <= i <= candidates@.len(),
                want == candidates@.subrange(skip as int, candidates@.len() as int),
                before@.len() == i - skip,
                forall|k: int| 0 <= k < before@.len() ==> line_at(#[trigger] before@[k], mem@, lookup@, want[k], None),
            decreases candidates@.len() - i,
        {
            let ghost prev = before@;
            before.push(disassemble_one(candidates[i], mem, lookup, None));
            assert forall|k: int| 0 <= k < before@.len() implies line_at(#[trigger] before@[k], mem@, lookup@, want[k], None) by {
                if k < prev.len() {
                    assert(before@[k] == prev[k]);
                }
            }
            i = i + 1;
        }
    } else {
        let ghost n = lines_before as nat;
        let ghost lin_start = ((pc - n % 65536) % 65536) as int;
        let ghost want = walk_from(mem@, lookup@, lin_start, pc as int, n);
        let mut addr = ((pc as u32 + 65536 - (lines_before % 65536) as u32) % 65536) as u16;
        assert(addr as int == lin_start);
        let ghost mut done: Seq<u16> = Seq::empty();
        let mut k: usize = 0;
        while k < lines_before && addr < pc
            invariant
                pc <= 0xFFFC,
                mem@.len() == 0x10000,
                table_ok(lookup@),
                k <= lines_before,
                done + walk_from(mem@, lookup@, addr as int, pc as int, (lines_before - k) as nat) == want,
                before@.len() == done.len(),
                forall|i: int| 0 <= i < before@.len() ==> line_at(#[trigger] before@[i], mem@, lookup@, done[i], None),
            decreases lines_before - k,
        {
            let ghost prev = before@;
            before.push(disassemble_one(addr, mem, lookup, None));
            let step = step_of(mem, lookup, addr);
            proof {
                let rest = walk_from(mem@, lookup@, addr + step, pc as int, (lines_before - k - 1) as nat);
                assert(walk_from(mem@, lookup@, addr as int, pc as int, (lines_before - k) as nat) == seq![addr] + rest);
                assert(done.push(addr) + rest =~= done + (seq![addr] + rest));
                done = done.push(addr);
                assert forall|i: int| 0 <= i < before@.len() implies line_at(#[trigger] before@[i], mem@, lookup@, done[i], None) by {
                    if i < prev.len() {
                        assert(before@[i] == prev[i]);
                    }
                }
            }
            addr = addr + step;
            k = k + 1;
        }
        assert(walk_from(mem@, lookup@, addr as int, pc as int, (lines_before - k) as nat) =~= Seq::<u16>::empty());
        assert(done =~= want);
    }
    before
}

/// The value of an upper-case hexadecimal digit character.
pub open spec fn digit_value(c: char) -> int {
    if '0' <= c && c <= '9' {
        c as int - '0' as int
    } else if 'A' <= c && c <= 'F' {
        c as int - 'A' as int + 10
    } else {
        -1
    }
}

/// The number two hexadecimal digits spell.
pub open spec fn hex2_value(s: Seq<char>) -> int {
    digit_value(s[0]) * 16 + digit_value(s[1])
}

/// The number four hexadecimal digits spell.
pub open spec fn hex4_value(s: Seq<char>) -> int {
    digit_value(s[0]) * 4096 + digit_value(s[1]) * 256 + digit_value(s[2]) * 16 + digit_value(s[3])
}

proof fn lemma_digit_roundtrip(d: nat)
    requires
        d < 16,
    ensures
        digit_value(hex_digit(d)) == d,
{
}

/// Reading back the digits written for a byte or a word gives its value.
pub proof fn lemma_hex_roundtrip(b: u8, w: u16)
    ensures
        hex2(b).len() == 2,
        hex2_value(hex2(b)) == b as int,
        hex4(w).len() == 4,
        hex4_value(hex4(w)) == w as int,
{
    lemma_digit_roundtrip((b / 16) as nat);
    lemma_digit_roundtrip((b % 16) as nat);
    lemma_digit_roundtrip((w / 4096) as nat);
    lemma_digit_roundtrip((w / 256 % 16) as nat);
    lemma_digit_roundtrip((w / 16 % 16) as nat);
    lemma_digit_roundtrip((w % 16) as nat);
    assert(w as int == (w / 4096) as int * 4096 + (w / 256 % 16) as int * 256 + (w / 16 % 16) as int * 16
        + (w % 16) as int) by (nonlinear_arith);
}

/// How each addressing mode writes its operand: a `$` and the operand's
/// value in hexadecimal (two digits for a byte, four for the little-endian
/// word `lo`, `hi`), `#` before an immediate, brackets around an indirect
/// pointer, and `,X` or `,Y` after it for the index register the mode adds.
pub proof fn lemma_operand_text_shape(mode: AddrMode, lo: u8, hi: u8)
    ensures
        ({
            let t = operand_text(mode, lo, hi);
            let w = lo as int + 256 * hi as int;
            match mode {
                AddrMode::Immediate => t.len() == 4 && t[0] == '#' && t[1] == '$' && hex2_value(t.subrange(2, 4)) == lo,
                AddrMode::ZeroPage => t.len() == 3 && t[0] == '$' && hex2_value(t.subrange(1, 3)) == lo,
                AddrMode::ZeroPageX => t.len() == 5 && t[0] == '$' && hex2_value(t.subrange(1, 3)) == lo
                    && t[3] == ',' && t[4] == 'X',
                AddrMode::ZeroPageY => t.len() == 5 && t[0] == '$' && hex2_value(t.subrange(1, 3)) == lo
                    && t[3] == ',' && t[4] == 'Y',
                AddrMode::Absolute => t.len() == 5 && t[0] == '$' && hex4_value(t.subrange(1, 5)) == w,
                AddrMode::AbsoluteX => t.len() == 7 && t[0] == '$' && hex4_value(t.subrange(1, 5)) == w
                    && t[5] == ',' && t[6] == 'X',
                AddrMode::AbsoluteY => t.len() == 7 && t[0] == '$' && hex4_value(t.subrange(1, 5)) == w
                    && t[5] == ',' && t[6] == 'Y',
                AddrMode::IndirectX => t.len() == 7 && t[0] == '(' && t[1] == '$' && hex2_value(t.subrange(2, 4))
                    == lo && t[4] == ',' && t[5] == 'X' && t[6] == ')',
                AddrMode::IndirectY => t.len() == 7 && t[0] == '(' && t[1] == '$' && hex2_value(t.subrange(2, 4))
                    == lo && t[4] == ')' && t[5] == ',' && t[6] == 'Y',
                AddrMode::Other => t.len() == 0,
            }
        }),
{
    reveal_strlit("#$");
    reveal_strlit("$");
    reveal_strlit(",X");
    reveal_strlit(",Y");
    reveal_strlit("($");
    reveal_strlit(",X)");
    reveal_strlit("),Y");
    lemma_hex_roundtrip(lo, word(lo, hi));
    assert(word(lo, hi) as int == lo as int + 256 * hi as int);
    let t = operand_text(mode, lo, hi);
    match mode {
        AddrMode::Immediate => assert(t.subrange(2, 4) =~= hex2(lo)),
        AddrMode::ZeroPage => assert(t.subrange(1, 3) =~= hex2(lo)),
        AddrMode::ZeroPageX => assert(t.subrange(1, 3) =~= hex2(lo)),
        AddrMode::ZeroPageY => assert(t.subrange(1, 3) =~= hex2(lo)),
        AddrMode::Absolute => assert(t.subrange(1, 5) =~= hex4(word(lo, hi))),
        AddrMode::AbsoluteX => assert(t.subrange(1, 5) =~= hex4(word(lo, hi))),
        AddrMode::AbsoluteY => assert(t.subrange(1, 5) =~= hex4(word(lo, hi))),
        AddrMode::IndirectX => assert(t.subrange(2, 4) =~= hex2(lo)),
        AddrMode::IndirectY => assert(t.subrange(2, 4) =~= hex2(lo)),
        AddrMode::Other => {},
    }
}

} // verus!
