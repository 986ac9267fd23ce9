//! The mathematical model of the interpreter: an abstract machine state and
//! the transition that one fetch-decode-execute cycle performs on it.
//!
//! Every executable function of the interpreter is specified against the
//! functions in this module; `spec_cycle` is the single source of truth for
//! what a cycle does.

use vstd::prelude::*;

use crate::decode::{spec_decode, Instr};

verus! {

/// The abstract machine state: the view of the executable `Chip8` struct.
#[verifier::ext_equal]
pub struct Machine {
    /// The 4096-byte address space.
    pub mem: Seq<u8>,
    /// The 16 general-purpose registers V0..VF.
    pub v: Seq<u8>,
    /// The 16-bit index register I.
    pub i: u16,
    /// The program counter.
    pub pc: u16,
    /// The stack pointer: the number of return addresses on the call stack.
    pub sp: u16,
    /// The 16-slot call stack.
    pub stack: Seq<u16>,
    /// The delay timer.
    pub delay: u8,
    /// The sound timer.
    pub sound: u8,
    /// The 64x32 framebuffer, row-major, cell index = x + y*64.
    pub gfx: Seq<u8>,
    /// The 16 key latches, written by the input collaborator.
    pub key: Seq<bool>,
    /// True exactly when the last cycle modified the framebuffer.
    pub draw: bool,
}

/// The dimensions every machine state has: fixed sizes of the address space,
/// register file, call stack, framebuffer and key vector.
pub open spec fn m_wf(m: Machine) -> bool {
    &&& m.mem.len() == 4096
    &&& m.v.len() == 16
    &&& m.stack.len() == 16
    &&& m.gfx.len() == 2048
    &&& m.key.len() == 16
}

/// The 80-byte font table: 16 glyphs of 5 bytes, one per hexadecimal digit.
pub open spec fn font_data() -> Seq<u8> {
    seq![
        0xF0u8, 0x90, 0x90, 0x90, 0xF0,  // 0
        0x20, 0x60, 0x20, 0x20, 0x70,  // 1
        0xF0, 0x10, 0xF0, 0x80, 0xF0,  // 2
        0xF0, 0x10, 0xF0, 0x10, 0xF0,  // 3
        0x90, 0x90, 0xF0, 0x10, 0x10,  // 4
        0xF0, 0x80, 0xF0, 0x10, 0xF0,  // 5
        0xF0, 0x80, 0xF0, 0x90, 0xF0,  // 6
        0xF0, 0x10, 0x20, 0x40, 0x40,  // 7
        0xF0, 0x90, 0xF0, 0x90, 0xF0,  // 8
        0xF0, 0x90, 0xF0, 0x10, 0xF0,  // 9
        0xF0, 0x90, 0xF0, 0x90, 0x90,  // A
        0xE0, 0x90, 0xE0, 0x90, 0xE0,  // B
        0xF0, 0x80, 0x80, 0x80, 0xF0,  // C
        0xE0, 0x90, 0x90, 0x90, 0xE0,  // D
        0xF0, 0x80, 0xF0, 0x80, 0xF0,  // E
        0xF0, 0x80, 0xF0, 0x80, 0x80,  // F
    ]
}

/// Memory as construction leaves it: the font table at offset 0, zero
/// everywhere else.
pub open spec fn initial_mem() -> Seq<u8> {
    Seq::new(4096, |j: int| if j < 80 { font_data()[j] } else { 0u8 })
}

/// An all-off framebuffer.
pub open spec fn blank_gfx() -> Seq<u8> {
    Seq::new(2048, |j: int| 0u8)
}

/// The machine as construction leaves it: font loaded, program counter at
/// 0x200, everything else zero or off.
pub open spec fn initial_machine() -> Machine {
    Machine {
        mem: initial_mem(),
        v: Seq::new(16, |j: int| 0u8),
        i: 0,
        pc: 0x200,
        sp: 0,
        stack: Seq::new(16, |j: int| 0u16),
        delay: 0,
        sound: 0,
        gfx: blank_gfx(),
        key: Seq::new(16, |j: int| false),
        draw: false,
    }
}

/// The big-endian 16-bit opcode word at the program counter.
pub open spec fn fetch_word(m: Machine) -> u16 {
    ((m.mem[m.pc as int] as u16) << 8) | (m.mem[m.pc as int + 1] as u16)
}

/// 8-bit addition with wraparound, the arithmetic of 7XNN and 8XY4.
pub open spec fn wrap_add(a: u8, b: u8) -> u8 {
    ((a + b) % 256) as u8
}

/// 8-bit subtraction with wraparound, the arithmetic of 8XY5 and 8XY7.
pub open spec fn wrap_sub(a: u8, b: u8) -> u8 {
    ((a + 256 - b) % 256) as u8
}

/// Whether sprite row `row` has its pixel at column offset `k` set, MSB
/// first: column 0 is bit 7.
pub open spec fn row_bit(row: u8, k: int) -> bool {
    (row as u16) & (0x80u16 >> (k as u16)) != 0
}

/// The framebuffer cell a sprite pixel lands on: column (vx + k) wrapped to
/// the 64-wide screen, on the already-wrapped row `y`.
pub open spec fn cell_index(vx: u8, y: int, k: int) -> int {
    (vx + k) % 64 + y * 64
}

/// XOR-blit of the first `cols` pixels of one sprite row onto the
/// framebuffer. Returns the updated framebuffer and the collision bits
/// accumulated by OR: each set pixel contributes the low bit of the cell it
/// lands on, read before the flip.
pub open spec fn spec_draw_row(gfx: Seq<u8>, row: u8, vx: u8, y: int, cols: int) -> (Seq<u8>, u8)
    decreases cols,
{
    if cols <= 0 {
        (gfx, 0u8)
    } else {
        let prev = spec_draw_row(gfx, row, vx, y, cols - 1);
        let k = cols - 1;
        if row_bit(row, k) {
            let idx = cell_index(vx, y, k);
            (prev.0.update(idx, prev.0[idx] ^ 1), prev.1 | (1u8 & prev.0[idx]))
        } else {
            prev
        }
    }
}

/// XOR-blit of the first `rows` rows of a sprite read from memory at `i`,
/// drawn at (vx, vy) with each row wrapped to the 32-tall screen. Returns
/// the updated framebuffer and the accumulated collision bits.
pub open spec fn spec_draw(gfx: Seq<u8>, mem: Seq<u8>, i: u16, vx: u8, vy: u8, rows: int) -> (
    Seq<u8>,
    u8,
)
    decreases rows,
{
    if rows <= 0 {
        (gfx, 0u8)
    } else {
        let prev = spec_draw(gfx, mem, i, vx, vy, rows - 1);
        let r = rows - 1;
        let rowres = spec_draw_row(prev.0, mem[i + r], vx, (vy + r) % 32, 8);
        (rowres.0, prev.1 | rowres.1)
    }
}

/// The highest pressed key with index below `n`, or -1 if none is pressed
/// there. FX0A stores the highest pressed index over the whole vector.
pub open spec fn highest_key(key: Seq<bool>, n: int) -> int
    decreases n,
{
    if n <= 0 {
        -1
    } else if key[n - 1] {
        n - 1
    } else {
        highest_key(key, n - 1)
    }
}

/// Whether any of the 16 keys is pressed.
pub open spec fn any_key(key: Seq<bool>) -> bool {
    exists|k: int| 0 <= k < 16 && key[k]
}

/// `highest_key` finds an index exactly when a pressed key exists below `n`,
/// and what it finds is a pressed key below `n`.
pub proof fn lemma_highest_key(key: Seq<bool>, n: int)
    requires
        0 <= n,
    ensures
        (highest_key(key, n) >= 0) <==> (exists|k: int| 0 <= k < n && key[k]),
        highest_key(key, n) >= 0 ==> 0 <= highest_key(key, n) < n && key[highest_key(key, n)],
    decreases n,
{
    if n > 0 {
        lemma_highest_key(key, n - 1);
        if key[n - 1] {
            assert(0 <= n - 1 < n && key[n - 1]);
        }
    }
}

/// The flag FX1E leaves in VF: 1 when I + VX exceeds the 12-bit address
/// space, else 0.
pub open spec fn add_index_flag(m: Machine, x: u8) -> u8 {
    if m.i + m.v[x as int] > 0xFFF {
        1u8
    } else {
        0u8
    }
}

/// The value FX1E adds to I. The flag is written to VF before I is updated,
/// so when X is 0xF the addend is the freshly written flag, not the old VX —
/// a sharp edge of the instruction set, reproduced deliberately.
pub open spec fn add_index_addend(m: Machine, x: u8) -> u8 {
    if x == 0xF {
        add_index_flag(m, x)
    } else {
        m.v[x as int]
    }
}

/// What one instruction does to the machine. `rnd` is the byte the random
/// source supplied for this cycle; only CXNN reads it. The flag-writing ALU
/// instructions write VF first and read their operands afterwards, so an
/// operand that is VF itself sees the flag — the reference platform's
/// behavior, reproduced deliberately.
pub open spec fn spec_exec(m: Machine, ins: Instr, rnd: u8) -> Machine {
    match ins {
        Instr::ClearScreen => Machine {
            gfx: blank_gfx(),
            draw: true,
            pc: (m.pc + 2) as u16,
            ..m
        },
        Instr::Return => Machine {
            sp: (m.sp - 1) as u16,
            pc: (m.stack[m.sp - 1] + 2) as u16,
            ..m
        },
        Instr::Jump(nnn) => Machine { pc: nnn, ..m },
        Instr::Call(nnn) => Machine {
            stack: m.stack.update(m.sp as int, m.pc),
            sp: (m.sp + 1) as u16,
            pc: nnn,
            ..m
        },
        Instr::SkipEqImm(x, nn) => Machine {
            pc: if m.v[x as int] == nn {
                (m.pc + 4) as u16
            } else {
                (m.pc + 2) as u16
            },
            ..m
        },
        Instr::SkipNeImm(x, nn) => Machine {
            pc: if m.v[x as int] != nn {
                (m.pc + 4) as u16
            } else {
                (m.pc + 2) as u16
            },
            ..m
        },
        Instr::SkipEqReg(x, y) => Machine {
            pc: if m.v[x as int] == m.v[y as int] {
                (m.pc + 4) as u16
            } else {
                (m.pc + 2) as u16
            },
            ..m
        },
        Instr::SetImm(x, nn) => Machine {
            v: m.v.update(x as int, nn),
            pc: (m.pc + 2) as u16,
            ..m
        },
        Instr::AddImm(x, nn) => Machine {
            v: m.v.update(x as int, wrap_add(m.v[x as int], nn)),
            pc: (m.pc + 2) as u16,
            ..m
        },
        Instr::Assign(x, y) => Machine {
            v: m.v.update(x as int, m.v[y as int]),
            pc: (m.pc + 2) as u16,
            ..m
        },
        Instr::Or(x, y) => Machine {
            v: m.v.update(x as int, m.v[x as int] | m.v[y as int]),
            pc: (m.pc + 2) as u16,
            ..m
        },
        Instr::And(x, y) => Machine {
            v: m.v.update(x as int, m.v[x as int] & m.v[y as int]),
            pc: (m.pc + 2) as u16,
            ..m
        },
        Instr::Xor(x, y) => Machine {
            v: m.v.update(x as int, m.v[x as int] ^ m.v[y as int]),
            pc: (m.pc + 2) as u16,
            ..m
        },
        Instr::AddReg(x, y) => {
            let carry: u8 = if m.v[y as int] > 0xFF - m.v[x as int] {
                1u8
            } else {
                0u8
            };
            let v1 = m.v.update(0xF, carry);
            Machine {
                v: v1.update(x as int, wrap_add(v1[x as int], v1[y as int])),
                pc: (m.pc + 2) as u16,
                ..m
            }
        },
        Instr::SubReg(x, y) => {
            let noborrow: u8 = if m.v[y as int] > m.v[x as int] {
                0u8
            } else {
                1u8
            };
            let v1 = m.v.update(0xF, noborrow);
            Machine {
                v: v1.update(x as int, wrap_sub(v1[x as int], v1[y as int])),
                pc: (m.pc + 2) as u16,
                ..m
            }
        },
        Instr::Shr(x) => {
            let v1 = m.v.update(0xF, m.v[x as int] & 1);
            Machine {
                v: v1.update(x as int, v1[x as int] >> 1u8),
                pc: (m.pc + 2) as u16,
                ..m
            }
        },
        Instr::SubFrom(x, y) => {
            let noborrow: u8 = if m.v[x as int] > m.v[y as int] {
                0u8
            } else {
                1u8
            };
            let v1 = m.v.update(0xF, noborrow);
            Machine {
                v: v1.update(x as int, wrap_sub(v1[y as int], v1[x as int])),
                pc: (m.pc + 2) as u16,
                ..m
            }
        },
        Instr::Shl(x) => {
            let v1 = m.v.update(0xF, m.v[x as int] >> 7u8);
            Machine {
                v: v1.update(x as int, v1[x as int] << 1u8),
                pc: (m.pc + 2) as u16,
                ..m
            }
        },
        Instr::SkipNeReg(x, y) => Machine {
            pc: if m.v[x as int] != m.v[y as int] {
                (m.pc + 4) as u16
            } else {
                (m.pc + 2) as u16
            },
            ..m
        },
        Instr::SetIndex(nnn) => Machine { i: nnn, pc: (m.pc + 2) as u16, ..m },
        Instr::JumpPlus(nnn) => Machine { pc: (nnn + m.v[0]) as u16, ..m },
        Instr::Random(x, nn) => Machine {
            v: m.v.update(x as int, rnd & nn),
            pc: (m.pc + 2) as u16,
            ..m
        },
        Instr::Draw(x, y, n) => {
            let d = spec_draw(m.gfx, m.mem, m.i, m.v[x as int], m.v[y as int], n as int);
            Machine {
                gfx: d.0,
                v: m.v.update(0xF, d.1),
                draw: true,
                pc: (m.pc + 2) as u16,
                ..m
            }
        },
        Instr::SkipKey(x) => Machine {
            pc: if m.key[m.v[x as int] as int] {
                (m.pc + 4) as u16
            } else {
                (m.pc + 2) as u16
            },
            ..m
        },
        Instr::SkipNoKey(x) => Machine {
            pc: if !m.key[m.v[x as int] as int] {
                (m.pc + 4) as u16
            } else {
                (m.pc + 2) as u16
            },
            ..m
        },
        Instr::GetDelay(x) => Machine {
            v: m.v.update(x as int, m.delay),
            pc: (m.pc + 2) as u16,
            ..m
        },
        Instr::WaitKey(x) => {
            if any_key(m.key) {
                Machine {
                    v: m.v.update(x as int, highest_key(m.key, 16) as u8),
                    pc: (m.pc + 2) as u16,
                    ..m
                }
            } else {
                m
            }
        },
        Instr::SetDelay(x) => Machine {
            delay: m.v[x as int],
            pc: (m.pc + 2) as u16,
            ..m
        },
        Instr::SetSound(x) => Machine {
            sound: m.v[x as int],
            pc: (m.pc + 2) as u16,
            ..m
        },
        Instr::AddIndex(x) => {
            let v1 = m.v.update(0xF, add_index_flag(m, x));
            Machine {
                v: v1,
                i: (m.i + v1[x as int]) as u16,
                pc: (m.pc + 2) as u16,
                ..m
            }
        },
        Instr::FontAddr(x) => Machine {
            i: (m.v[x as int] * 5) as u16,
            pc: (m.pc + 2) as u16,
            ..m
        },
        Instr::StoreBcd(x) => {
            let val = m.v[x as int];
            Machine {
                mem: m.mem.update(m.i as int, (val / 100) as u8).update(
                    m.i as int + 1,
                    ((val / 10) % 10) as u8,
                ).update(m.i as int + 2, ((val % 100) % 10) as u8),
                pc: (m.pc + 2) as u16,
                ..m
            }
        },
        Instr::StoreRegs(x) => Machine {
            mem: Seq::new(
                4096,
                |j: int|
                    if m.i <= j <= m.i + x {
                        m.v[j - m.i]
                    } else {
                        m.mem[j]
                    },
            ),
            pc: (m.pc + 2) as u16,
            ..m
        },
        Instr::LoadRegs(x) => Machine {
            v: Seq::new(
                16,
                |r: int|
                    if 0 <= r <= x {
                        m.mem[m.i + r]
                    } else {
                        m.v[r]
                    },
            ),
            pc: (m.pc + 2) as u16,
            ..m
        },
        Instr::Unknown(_) => m,
    }
}

/// The unconditional end-of-cycle timer tick: each nonzero timer goes down
/// by one; a zero timer stays at zero.
pub open spec fn spec_tick(m: Machine) -> Machine {
    Machine {
        delay: if m.delay > 0 {
            (m.delay - 1) as u8
        } else {
            0u8
        },
        sound: if m.sound > 0 {
            (m.sound - 1) as u8
        } else {
            0u8
        },
        ..m
    }
}

/// One full interpreter cycle: reset the redraw flag, fetch and decode the
/// word at the program counter, execute it, then tick both timers.
pub open spec fn spec_cycle(m: Machine, rnd: u8) -> Machine {
    spec_tick(spec_exec(Machine { draw: false, ..m }, spec_decode(fetch_word(m)), rnd))
}

/// The side conditions under which `ins` executes without stepping outside
/// the machine: stack, memory and key indices in bounds, and the one 16-bit
/// sum FX1E forms not overflowing. The reference platform leaves these
/// unguarded; a cycle may only be run on states that satisfy them.
pub open spec fn instr_ok(m: Machine, ins: Instr) -> bool {
    match ins {
        Instr::Return => 1 <= m.sp <= 16 && m.stack[m.sp - 1] + 2 <= u16::MAX,
        Instr::Call(_) => m.sp < 16,
        Instr::Draw(_, _, n) => n > 0 ==> m.i + n <= 4096,
        Instr::SkipKey(x) => m.v[x as int] < 16,
        Instr::SkipNoKey(x) => m.v[x as int] < 16,
        Instr::AddIndex(x) => m.i + add_index_addend(m, x) <= u16::MAX,
        Instr::StoreBcd(_) => m.i + 3 <= 4096,
        Instr::StoreRegs(x) => m.i + x < 4096,
        Instr::LoadRegs(x) => m.i + x < 4096,
        _ => true,
    }
}

/// Whether a cycle may be run on `m`: the opcode word lies inside memory and
/// the decoded instruction's own side conditions hold.
pub open spec fn cycle_ok(m: Machine) -> bool {
    &&& m.pc + 1 < 4096
    &&& instr_ok(m, spec_decode(fetch_word(m)))
}

} // verus!
