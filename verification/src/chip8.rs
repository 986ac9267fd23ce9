//! The executable interpreter: machine state, construction, program loading,
//! and the fetch-decode-execute cycle, each verified against the model in
//! `machine`.

use vstd::prelude::*;

use rand::Rng;

use crate::decode::{decode, lemma_fields_in_range, Instr};
use crate::machine::{
    any_key, blank_gfx, cycle_ok, fetch_word, font_data, highest_key, initial_machine,
    initial_mem, lemma_highest_key, spec_cycle, spec_draw, spec_draw_row, Machine,
};

verus! {

broadcast use vstd::array::group_array_axioms;

/// Why the loader refused an image.
#[derive(Clone, Copy, PartialEq, Eq, Structural, Debug)]
pub enum LoadError {
    /// The image is longer than the 3584 bytes available from 0x200 to the
    /// end of memory.
    ImageTooLarge,
}

/// The interpreter state. All fields are plain data; the `view` maps them to
/// the abstract `Machine` that every contract speaks of.
pub struct Chip8 {
    /// The 16 key latches, written by the input collaborator between cycles.
    pub key: [bool; 16],
    /// The 64x32 framebuffer, row-major, index = x + y*64; cells 0 or 1.
    pub gfx: [u8; 2048],
    /// True exactly when the last cycle modified the framebuffer.
    pub draw_flag: bool,
    /// The sound timer: nonzero means a tone should be audible.
    pub sound_timer: u8,
    /// The program counter.
    pub pc: u16,
    /// The index register I.
    pub i: u16,
    /// The stack pointer: the number of return addresses on the stack.
    pub sp: u16,
    /// The registers V0..VF.
    pub v: [u8; 16],
    /// The call stack.
    pub stack: [u16; 16],
    /// The 4096-byte address space.
    pub memory: [u8; 4096],
    /// The delay timer.
    pub delay_timer: u8,
}

impl View for Chip8 {
    type V = Machine;

    open spec fn view(&self) -> Machine {
        Machine {
            mem: self.memory@,
            v: self.v@,
            i: self.i,
            pc: self.pc,
            sp: self.sp,
            stack: self.stack@,
            delay: self.delay_timer,
            sound: self.sound_timer,
            gfx: self.gfx@,
            key: self.key@,
            draw: self.draw_flag,
        }
    }
}

impl Chip8 {
    /// A fresh machine: font table at offset 0, program counter at 0x200,
    /// everything else zeroed.
    pub fn new() -> (c: Chip8)
        ensures
            c@ == initial_machine(),
    {
        let font: [u8; 80] = [
            0xF0, 0x90, 0x90, 0x90, 0xF0,  // 0
            0x20, 0x60, 0x20, 0x20, 0x70,  // 1
            0xF0, 0x10, 0xF0, 0x80, 0xF0,  // 2
            0xF0, 0x10, 0xF0, 0x10, 0xF0,  // 3
            0x90, 0x90, 0xF0, 0x10, 0x10,  // 4
            0xF0, 0x80, 0xF0, 0x10, 0xF0,  // 5
            0xF0, 0x80, 0xF0, 0x90, 0xF0,  // 6
            0xF0, 0x10, 0x20, 0x40, 0x40,  // 7
            0xF0, 0x90, 0xF0, 0x90, 0xF0,  // 8
            0xF0, 0x90, 0xF0, 0x10, 0xF0,  // 9
            0xF0, 0x90, 0xF0, 0x90, 0x90,  // A
            0xE0, 0x90, 0xE0, 0x90, 0xE0,  // B
            0xF0, 0x80, 0x80, 0x80, 0xF0,  // C
            0xE0, 0x90, 0x90, 0x90, 0xE0,  // D
            0xF0, 0x80, 0xF0, 0x80, 0xF0,  // E
            0xF0, 0x80, 0xF0, 0x80, 0x80,  // F
        ];
        proof {
            assert(font@ =~= font_data());
        }
        let mut memory = [0u8; 4096];
        let mut j: usize = 0;
        while j < 80
            invariant
                j <= 80,
                font@ == font_data(),
                forall|k: int| 0 <= k < j ==> memory@[k] == font_data()[k],
                forall|k: int| j <= k < 4096 ==> memory@[k] == 0u8,
            decreases 80 - j,
        {
            memory[j] = font[j];
            j += 1;
        }
        let c = Chip8 {
            key: [false; 16],
            gfx: [0u8; 2048],
            draw_flag: false,
            sound_timer: 0,
            pc: 0x200,
            i: 0,
            sp: 0,
            v: [0u8; 16],
            stack: [0u16; 16],
            memory,
            delay_timer: 0,
        };
        proof {
            assert(c@.mem =~= initial_mem());
            assert(c@.v =~= initial_machine().v);
            assert(c@.stack =~= initial_machine().stack);
            assert(c@.gfx =~= blank_gfx());
            assert(c@.key =~= initial_machine().key);
            assert(c@ =~= initial_machine());
        }
        c
    }

    /// Copy a program image into memory at the fixed entry offset 0x200.
    /// An image longer than the 3584 bytes available there is refused whole,
    /// leaving the machine untouched; registers, timers and the program
    /// counter are never altered.
    pub fn load_application(&mut self, image: &[u8]) -> (r: Result<(), LoadError>)
        ensures
            r is Ok <==> image@.len() <= 3584,
            r is Ok ==> final(self)@ == (Machine {
                mem: Seq::new(
                    4096,
                    |j: int|
                        if 0x200 <= j < 0x200 + image@.len() {
                            image@[j - 0x200]
                        } else {
                            old(self)@.mem[j]
                        },
                ),
                ..old(self)@
            }),
            r is Err ==> *final(self) == *old(self),
    {
        if image.len() > 3584 {
            return Err(LoadError::ImageTooLarge);
        }
        let ghost mem0 = self.memory@;
        let mut j: usize = 0;
        while j < image.len()
            invariant
                j <= image@.len() <= 3584,
                self@ == (Machine { mem: self@.mem, ..old(self)@ }),
                forall|k: int| 0x200 <= k < 0x200 + j ==> self@.mem[k] == image@[k - 0x200],
                forall|k: int|
                    (0 <= k < 0x200 || 0x200 + j <= k < 4096) ==> self@.mem[k] == mem0[k],
            decreases image@.len() - j,
        {
            self.memory[0x200 + j] = image[j];
            j += 1;
        }
        proof {
            assert(self@.mem =~= Seq::new(
                4096,
                |j: int|
                    if 0x200 <= j < 0x200 + image@.len() {
                        image@[j - 0x200]
                    } else {
                        old(self)@.mem[j]
                    },
            ));
            assert(self@ =~= (Machine {
                mem: Seq::new(
                    4096,
                    |j: int|
                        if 0x200 <= j < 0x200 + image@.len() {
                            image@[j - 0x200]
                        } else {
                            old(self)@.mem[j]
                        },
                ),
                ..old(self)@
            }));
        }
        Ok(())
    }

    /// Whether one cycle may be run on the current state: the opcode word at
    /// the program counter lies inside memory and the decoded instruction's
    /// side conditions hold. The reference platform leaves these unguarded
    /// and an interpreter that ignores them steps outside the machine; a
    /// caller tests this before each cycle and treats a failure as fatal.
    pub fn cycle_ok_now(&self) -> (b: bool)
        ensures
            b == cycle_ok(self@),
    {
        if self.pc >= 4095 {
            return false;
        }
        let w = ((self.memory[self.pc as usize] as u16) << 8) | (self.memory[self.pc as usize
            + 1] as u16);
        let ins = decode(w);
        proof {
            lemma_fields_in_range(w);
        }
        match ins {
            Instr::Return => 1 <= self.sp && self.sp <= 16 && (self.stack[(self.sp
                - 1) as usize] as u32) + 2 <= 0xFFFF,
            Instr::Call(_) => self.sp < 16,
            Instr::Draw(_, _, n) => n == 0 || (self.i as u32) + (n as u32) <= 4096,
            Instr::SkipKey(x) => self.v[x as usize] < 16,
            Instr::SkipNoKey(x) => self.v[x as usize] < 16,
            Instr::AddIndex(x) => {
                let f: u16 = if (self.i as u32) + (self.v[x as usize] as u32) > 0xFFF {
                    1
                } else {
                    0
                };
                let addend: u16 = if x == 0xF {
                    f
                } else {
                    self.v[x as usize] as u16
                };
                (self.i as u32) + (addend as u32) <= 0xFFFF
            },
            Instr::StoreBcd(_) => (self.i as u32) + 3 <= 4096,
            Instr::StoreRegs(x) => (self.i as u32) + (x as u32) < 4096,
            Instr::LoadRegs(x) => (self.i as u32) + (x as u32) < 4096,
            _ => true,
        }
    }

    /// DXYN: XOR-blit an 8-wide, `n`-tall sprite read from memory at I onto
    /// the framebuffer at (VX, VY), wrapping each pixel's coordinates to the
    /// screen, accumulating the collision flag into VF, marking redraw.
    fn exec_draw(&mut self, x: u8, y: u8, n: u8)
        requires
            x < 16,
            y < 16,
            n < 16,
            n > 0 ==> old(self)@.i + n <= 4096,
            old(self)@.pc + 2 <= u16::MAX,
        ensures
            ({
                let d = spec_draw(
                    old(self)@.gfx,
                    old(self)@.mem,
                    old(self)@.i,
                    old(self)@.v[x as int],
                    old(self)@.v[y as int],
                    n as int,
                );
                final(self)@ == (Machine {
                    gfx: d.0,
                    v: old(self)@.v.update(0xF, d.1),
                    draw: true,
                    pc: (old(self)@.pc + 2) as u16,
                    ..old(self)@
                })
            }),
    {
        let vx = self.v[x as usize];
        let vy = self.v[y as usize];
        self.v[0xF] = 0;
        let mut vf: u8 = 0;
        let mut r: u16 = 0;
        while r < n as u16
            invariant
                r <= n,
                x < 16,
                y < 16,
                n < 16,
                n > 0 ==> self.i + n <= 4096,
                vx == old(self)@.v[x as int],
                vy == old(self)@.v[y as int],
                self.i == old(self)@.i,
                self.pc == old(self)@.pc,
                self.sp == old(self)@.sp,
                self.memory@ == old(self)@.mem,
                self.v@ == old(self)@.v.update(0xF, 0u8),
                self.stack@ == old(self)@.stack,
                self.key@ == old(self)@.key,
                self.delay_timer == old(self)@.delay,
                self.sound_timer == old(self)@.sound,
                self.draw_flag == old(self)@.draw,
                self.gfx@ == spec_draw(
                    old(self)@.gfx,
                    old(self)@.mem,
                    old(self)@.i,
                    vx,
                    vy,
                    r as int,
                ).0,
                vf == spec_draw(old(self)@.gfx, old(self)@.mem, old(self)@.i, vx, vy, r as int).1,
            decreases n - r,
        {
            let row = self.memory[(self.i + r) as usize];
            let py = ((vy as u16 + r) % 32) as usize;
            let ghost gfx_row = self.gfx@;
            let ghost vf_row = vf;
            proof {
                let z = spec_draw_row(gfx_row, row, vx, py as int, 0).1;
                assert(z == 0u8);
                assert(vf_row | 0u8 == vf_row) by (bit_vector);
            }
            let mut k: u16 = 0;
            while k < 8
                invariant
                    k <= 8,
                    x < 16,
                    y < 16,
                    n < 16,
                    r < n,
                    n > 0 ==> self.i + n <= 4096,
                    py < 32,
                    py == (vy + r) % 32,
                    row == old(self)@.mem[old(self)@.i + r],
                    vx == old(self)@.v[x as int],
                    vy == old(self)@.v[y as int],
                    self.i == old(self)@.i,
                    self.pc == old(self)@.pc,
                    self.sp == old(self)@.sp,
                    self.memory@ == old(self)@.mem,
                    self.v@ == old(self)@.v.update(0xF, 0u8),
                    self.stack@ == old(self)@.stack,
                    self.key@ == old(self)@.key,
                    self.delay_timer == old(self)@.delay,
                    self.sound_timer == old(self)@.sound,
                    self.draw_flag == old(self)@.draw,
                    gfx_row == spec_draw(
                        old(self)@.gfx,
                        old(self)@.mem,
                        old(self)@.i,
                        vx,
                        vy,
                        r as int,
                    ).0,
                    vf_row == spec_draw(
                        old(self)@.gfx,
                        old(self)@.mem,
                        old(self)@.i,
                        vx,
                        vy,
                        r as int,
                    ).1,
                    gfx_row.len() == 2048,
                    self.gfx@ == spec_draw_row(gfx_row, row, vx, py as int, k as int).0,
                    vf == vf_row | spec_draw_row(gfx_row, row, vx, py as int, k as int).1,
                decreases 8 - k,
            {
                if (row as u16) & (0x80u16 >> k) != 0 {
                    let px = ((vx as u16 + k) % 64) as usize;
                    let idx = px + py * 64;
                    let cell = self.gfx[idx];
                    proof {
                        let s = spec_draw_row(gfx_row, row, vx, py as int, k as int).1;
                        let c = 1u8 & cell;
                        assert((vf_row | s) | c == vf_row | (s | c)) by (bit_vector);
                    }
                    vf = vf | (1u8 & cell);
                    self.gfx[idx] = cell ^ 1;
                }
                k += 1;
            }
            r += 1;
        }
        self.v[0xF] = vf;
        self.draw_flag = true;
        self.pc += 2;
        proof {
            let d = spec_draw(
                old(self)@.gfx,
                old(self)@.mem,
                old(self)@.i,
                old(self)@.v[x as int],
                old(self)@.v[y as int],
                n as int,
            );
            assert(self.v@ =~= old(self)@.v.update(0xF, d.1));
            assert(self@ =~= (Machine {
                gfx: d.0,
                v: old(self)@.v.update(0xF, d.1),
                draw: true,
                pc: (old(self)@.pc + 2) as u16,
                ..old(self)@
            }));
        }
    }

    /// FX0A: scan the 16 keys; if any is pressed, store the highest pressed
    /// index in VX and advance; otherwise change nothing, so that repeated
    /// cycles stall on this instruction until a key is observed down.
    fn exec_wait_key(&mut self, x: u8)
        requires
            x < 16,
            old(self)@.pc + 2 <= u16::MAX,
        ensures
            any_key(old(self)@.key) ==> final(self)@ == (Machine {
                v: old(self)@.v.update(x as int, highest_key(old(self)@.key, 16) as u8),
                pc: (old(self)@.pc + 2) as u16,
                ..old(self)@
            }),
            !any_key(old(self)@.key) ==> final(self)@ == old(self)@,
    {
        let mut pressed = false;
        let mut idx: usize = 0;
        while idx < 16
            invariant
                idx <= 16,
                x < 16,
                self.memory@ == old(self)@.mem,
                self.i == old(self)@.i,
                self.pc == old(self)@.pc,
                self.sp == old(self)@.sp,
                self.stack@ == old(self)@.stack,
                self.key@ == old(self)@.key,
                self.delay_timer == old(self)@.delay,
                self.sound_timer == old(self)@.sound,
                self.draw_flag == old(self)@.draw,
                self.gfx@ == old(self)@.gfx,
                pressed <==> highest_key(old(self)@.key, idx as int) >= 0,
                pressed ==> self.v@ == old(self)@.v.update(
                    x as int,
                    highest_key(old(self)@.key, idx as int) as u8,
                ),
                !pressed ==> self.v@ == old(self)@.v,
            decreases 16 - idx,
        {
            proof {
                lemma_highest_key(old(self)@.key, idx as int);
                lemma_highest_key(old(self)@.key, idx as int + 1);
            }
            if self.key[idx] {
                self.v[x as usize] = idx as u8;
                pressed = true;
            }
            idx += 1;
        }
        proof {
            lemma_highest_key(old(self)@.key, 16);
        }
        if pressed {
            self.pc += 2;
        }
    }

    /// FX55: copy V0..=VX into memory starting at I.
    fn exec_store_regs(&mut self, x: u8)
        requires
            x < 16,
            old(self)@.i + x < 4096,
            old(self)@.pc + 2 <= u16::MAX,
        ensures
            final(self)@ == (Machine {
                mem: Seq::new(
                    4096,
                    |j: int|
                        if old(self)@.i <= j <= old(self)@.i + x {
                            old(self)@.v[j - old(self)@.i]
                        } else {
                            old(self)@.mem[j]
                        },
                ),
                pc: (old(self)@.pc + 2) as u16,
                ..old(self)@
            }),
    {
        let mut k: usize = 0;
        while k < x as usize + 1
            invariant
                k <= x + 1,
                x < 16,
                self.i + x < 4096,
                self.v@ == old(self)@.v,
                self.i == old(self)@.i,
                self.pc == old(self)@.pc,
                self.sp == old(self)@.sp,
                self.stack@ == old(self)@.stack,
                self.key@ == old(self)@.key,
                self.delay_timer == old(self)@.delay,
                self.sound_timer == old(self)@.sound,
                self.draw_flag == old(self)@.draw,
                self.gfx@ == old(self)@.gfx,
                forall|j: int|
                    old(self)@.i <= j < old(self)@.i + k ==> self.memory@[j] == old(
                        self,
                    )@.v[j - old(self)@.i],
                forall|j: int|
                    (0 <= j < old(self)@.i || old(self)@.i + k <= j < 4096) ==> self.memory@[j]
                        == old(self)@.mem[j],
            decreases x + 1 - k,
        {
            self.memory[self.i as usize + k] = self.v[k];
            k += 1;
        }
        self.pc += 2;
        proof {
            assert(self@.mem =~= Seq::new(
                4096,
                |j: int|
                    if old(self)@.i <= j <= old(self)@.i + x {
                        old(self)@.v[j - old(self)@.i]
                    } else {
                        old(self)@.mem[j]
                    },
            ));
        }
    }

    /// FX65: copy memory starting at I into V0..=VX.
    fn exec_load_regs(&mut self, x: u8)
        requires
            x < 16,
            old(self)@.i + x < 4096,
            old(self)@.pc + 2 <= u16::MAX,
        ensures
            final(self)@ == (Machine {
                v: Seq::new(
                    16,
                    |r: int|
                        if 0 <= r <= x {
                            old(self)@.mem[old(self)@.i + r]
                        } else {
                            old(self)@.v[r]
                        },
                ),
                pc: (old(self)@.pc + 2) as u16,
                ..old(self)@
            }),
    {
        let mut k: usize = 0;
        while k < x as usize + 1
            invariant
                k <= x + 1,
                x < 16,
                self.i + x < 4096,
                self.memory@ == old(self)@.mem,
                self.i == old(self)@.i,
                self.pc == old(self)@.pc,
                self.sp == old(self)@.sp,
                self.stack@ == old(self)@.stack,
                self.key@ == old(self)@.key,
                self.delay_timer == old(self)@.delay,
                self.sound_timer == old(self)@.sound,
                self.draw_flag == old(self)@.draw,
                self.gfx@ == old(self)@.gfx,
                forall|r: int| 0 <= r < k ==> self.v@[r] == old(self)@.mem[old(self)@.i + r],
                forall|r: int| k <= r < 16 ==> self.v@[r] == old(self)@.v[r],
            decreases x + 1 - k,
        {
            self.v[k] = self.memory[self.i as usize + k];
            k += 1;
        }
        self.pc += 2;
        proof {
            assert(self@.v =~= Seq::new(
                16,
                |r: int|
                    if 0 <= r <= x {
                        old(self)@.mem[old(self)@.i + r]
                    } else {
                        old(self)@.v[r]
                    },
            ));
        }
    }

    /// One fetch-decode-execute cycle with the random byte supplied by the
    /// caller: the cycle is a deterministic function of the state, the key
    /// snapshot and that byte. CXNN is the only instruction that reads it.
    pub fn cycle_with_random(&mut self, rnd: u8)
        requires
            cycle_ok(old(self)@),
        ensures
            final(self)@ == spec_cycle(old(self)@, rnd),
    {
        self.draw_flag = false;
        let w = ((self.memory[self.pc as usize] as u16) << 8) | (self.memory[self.pc as usize
            + 1] as u16);
        proof {
            lemma_fields_in_range(w);
            assert(w == fetch_word(old(self)@));
        }
        let ins = decode(w);
        match ins {
            Instr::ClearScreen => {
                self.gfx = [0u8; 2048];
                self.draw_flag = true;
                self.pc += 2;
                proof {
                    assert(self.gfx@ =~= blank_gfx());
                }
            },
            Instr::Return => {
                self.sp -= 1;
                self.pc = self.stack[self.sp as usize];
                self.pc += 2;
            },
            Instr::Jump(nnn) => {
                self.pc = nnn;
            },
            Instr::Call(nnn) => {
                self.stack[self.sp as usize] = self.pc;
                self.sp += 1;
                self.pc = nnn;
            },
            Instr::SkipEqImm(x, nn) => {
                if self.v[x as usize] == nn {
                    self.pc += 4;
                } else {
                    self.pc += 2;
                }
            },
            Instr::SkipNeImm(x, nn) => {
                if self.v[x as usize] != nn {
                    self.pc += 4;
                } else {
                    self.pc += 2;
                }
            },
            Instr::SkipEqReg(x, y) => {
                if self.v[x as usize] == self.v[y as usize] {
                    self.pc += 4;
                } else {
                    self.pc += 2;
                }
            },
            Instr::SetImm(x, nn) => {
                self.v[x as usize] = nn;
                self.pc += 2;
            },
            Instr::AddImm(x, nn) => {
                let sum = (self.v[x as usize] as u16 + nn as u16) % 256;
                self.v[x as usize] = sum as u8;
                self.pc += 2;
            },
            Instr::Assign(x, y) => {
                self.v[x as usize] = self.v[y as usize];
                self.pc += 2;
            },
            Instr::Or(x, y) => {
                self.v[x as usize] = self.v[x as usize] | self.v[y as usize];
                self.pc += 2;
            },
            Instr::And(x, y) => {
                self.v[x as usize] = self.v[x as usize] & self.v[y as usize];
                self.pc += 2;
            },
            Instr::Xor(x, y) => {
                self.v[x as usize] = self.v[x as usize] ^ self.v[y as usize];
                self.pc += 2;
            },
            Instr::AddReg(x, y) => {
                let carry: u8 = if self.v[y as usize] > 0xFF - self.v[x as usize] {
                    1
                } else {
                    0
                };
                self.v[0xF] = carry;
                let sum = (self.v[x as usize] as u16 + self.v[y as usize] as u16) % 256;
                self.v[x as usize] = sum as u8;
                self.pc += 2;
            },
            Instr::SubReg(x, y) => {
                let noborrow: u8 = if self.v[y as usize] > self.v[x as usize] {
                    0
                } else {
                    1
                };
                self.v[0xF] = noborrow;
                let diff = (self.v[x as usize] as u16 + 256 - self.v[y as usize] as u16) % 256;
                self.v[x as usize] = diff as u8;
                self.pc += 2;
            },
            Instr::Shr(x) => {
                self.v[0xF] = self.v[x as usize] & 1;
                let xv = self.v[x as usize];
                self.v[x as usize] = xv >> 1u8;
                self.pc += 2;
            },
            Instr::SubFrom(x, y) => {
                let noborrow: u8 = if self.v[x as usize] > self.v[y as usize] {
                    0
                } else {
                    1
                };
                self.v[0xF] = noborrow;
                let diff = (self.v[y as usize] as u16 + 256 - self.v[x as usize] as u16) % 256;
                self.v[x as usize] = diff as u8;
                self.pc += 2;
            },
            Instr::Shl(x) => {
                self.v[0xF] = self.v[x as usize] >> 7u8;
                let xv = self.v[x as usize];
                self.v[x as usize] = xv << 1u8;
                self.pc += 2;
            },
            Instr::SkipNeReg(x, y) => {
                if self.v[x as usize] != self.v[y as usize] {
                    self.pc += 4;
                } else {
                    self.pc += 2;
                }
            },
            Instr::SetIndex(nnn) => {
                self.i = nnn;
                self.pc += 2;
            },
            Instr::JumpPlus(nnn) => {
                self.pc = nnn + self.v[0] as u16;
            },
            Instr::Random(x, nn) => {
                self.v[x as usize] = rnd & nn;
                self.pc += 2;
            },
            Instr::Draw(x, y, n) => {
                self.exec_draw(x, y, n);
            },
            Instr::SkipKey(x) => {
                if self.key[self.v[x as usize] as usize] {
                    self.pc += 4;
                } else {
                    self.pc += 2;
                }
            },
            Instr::SkipNoKey(x) => {
                if !self.key[self.v[x as usize] as usize] {
                    self.pc += 4;
                } else {
                    self.pc += 2;
                }
            },
            Instr::GetDelay(x) => {
                self.v[x as usize] = self.delay_timer;
                self.pc += 2;
            },
            Instr::WaitKey(x) => {
                self.exec_wait_key(x);
            },
            Instr::SetDelay(x) => {
                self.delay_timer = self.v[x as usize];
                self.pc += 2;
            },
            Instr::SetSound(x) => {
                self.sound_timer = self.v[x as usize];
                self.pc += 2;
            },
            Instr::AddIndex(x) => {
                let f: u8 = if (self.i as u32) + (self.v[x as usize] as u32) > 0xFFF {
                    1
                } else {
                    0
                };
                self.v[0xF] = f;
                self.i += self.v[x as usize] as u16;
                self.pc += 2;
            },
            Instr::FontAddr(x) => {
                self.i = self.v[x as usize] as u16 * 5;
                self.pc += 2;
            },
            Instr::StoreBcd(x) => {
                let val = self.v[x as usize];
                let ii = self.i as usize;
                self.memory[ii] = val / 100;
                self.memory[ii + 1] = (val / 10) % 10;
                self.memory[ii + 2] = (val % 100) % 10;
                self.pc += 2;
            },
            Instr::StoreRegs(x) => {
                self.exec_store_regs(x);
            },
            Instr::LoadRegs(x) => {
                self.exec_load_regs(x);
            },
            Instr::Unknown(_) => {},
        }
        if self.delay_timer > 0 {
            self.delay_timer -= 1;
        }
        if self.sound_timer > 0 {
            self.sound_timer -= 1;
        }
    }

    /// One fetch-decode-execute cycle, drawing this cycle's byte from the
    /// thread's random source: the resulting state is `spec_cycle` of the old
    /// state for some byte.
    pub fn emulate_cycle(&mut self)
        requires
            cycle_ok(old(self)@),
        ensures
            exists|r: u8| final(self)@ == spec_cycle(old(self)@, r),
    {
        let r = random_byte();
        self.cycle_with_random(r);
    }
}

/// Relies on rand::thread_rng and rand::Rng::gen: one byte sampled from the
/// thread-local generator. Nothing is promised of its value: every caller
/// states what holds whatever byte comes back.
#[verifier::external_body]
fn random_byte() -> u8 {
    rand::thread_rng().gen()
}

} // verus!
