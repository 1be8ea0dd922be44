//! The machine as mathematics: its whole state as one value, and what one
//! instruction, one cycle and one timer tick make of it.
//!
//! The interpreter's contracts are stated over these functions.

use vstd::prelude::*;
use crate::error::Chip8Error;
use crate::font::{font_byte, FONTSET_LEN, GLYPH_HEIGHT, SUPER_GLYPH_HEIGHT};
use crate::bits::{bit8, lemma_end_bits};
use crate::instruction::{decode_spec, lemma_decode_wf, Instruction};
use crate::keypad::{all_released, lowest_pressed};
use crate::screen::{sprite_for, sprite_len, DrawMode, ScreenMode, ScreenView, Sprite};

verus! {

/// Bytes of memory.
pub const MEMORY_SIZE: usize = 4096;

/// Return addresses that the call stack holds at most.
pub const STACK_SIZE: usize = 16;

/// Number of general registers; the last one is the flag register.
pub const REGISTER_COUNT: usize = 16;

/// Address at which programs are loaded and started.
pub const PROGRAM_START: u16 = 0x200;

/// Number of persistent flag bytes.
pub const RPL_FLAG_COUNT: usize = 8;

/// The state of the machine.
#[verifier::ext_equal]
pub struct Machine {
    /// The 4096 bytes of memory.
    pub memory: Seq<u8>,
    /// The sixteen general registers `V0` to `VF`.
    pub registers: Seq<u8>,
    /// The index register.
    pub index: u16,
    /// The program counter.
    pub pc: u16,
    /// The return addresses of the calls in progress, the latest last.
    pub stack: Seq<u16>,
    /// The delay timer.
    pub delay_timer: u8,
    /// The sound timer.
    pub sound_timer: u8,
    /// The sixteen keys, `true` where pressed.
    pub keys: Seq<bool>,
    /// The eight persistent flag bytes.
    pub flags: Seq<u8>,
    /// The display.
    pub screen: ScreenView,
    /// Whether the last cycle executed an instruction of the display.
    pub should_draw: bool,
    /// Whether the last timer tick brought the sound timer to zero.
    pub should_beep: bool,
    /// Whether the machine has not been halted.
    pub running: bool,
    /// What becomes of sprite pixels that land outside the picture.
    pub draw_mode: DrawMode,
}

/// A sequence of `len` zero bytes.
pub open spec fn zeros(len: nat) -> Seq<u8> {
    Seq::new(len, |i: int| 0u8)
}

/// The number that stands for a flag in a register.
pub open spec fn flag(b: bool) -> u8 {
    if b {
        1
    } else {
        0
    }
}

/// Where the standard font keeps the glyph of the hexadecimal digit in the low
/// nibble of `value`: glyphs are five bytes high and start at address 0.
pub open spec fn glyph_address(value: u8) -> u16 {
    ((value % 16) * GLYPH_HEIGHT) as u16
}

/// Where the super font keeps the glyph of the hexadecimal digit in the low
/// nibble of `value`: glyphs are ten bytes high and start behind the standard
/// font.
pub open spec fn super_glyph_address(value: u8) -> u16 {
    ((value % 16) * SUPER_GLYPH_HEIGHT + FONTSET_LEN) as u16
}

impl Machine {
    /// Every part has its fixed size, and the stack is within its capacity.
    pub open spec fn wf(self) -> bool {
        &&& self.memory.len() == 4096
        &&& self.registers.len() == 16
        &&& self.stack.len() <= 16
        &&& self.keys.len() == 16
        &&& self.flags.len() == 8
        &&& self.screen.wf()
    }

    /// The machine that has never been loaded: everything zero, the display
    /// blank, running, wrapping sprites.
    pub open spec fn blank() -> Machine {
        Machine {
            memory: zeros(4096),
            registers: zeros(16),
            index: 0,
            pc: 0,
            stack: Seq::empty(),
            delay_timer: 0,
            sound_timer: 0,
            keys: all_released(),
            flags: zeros(8),
            screen: ScreenView::blank(),
            should_draw: false,
            should_beep: false,
            running: true,
            draw_mode: DrawMode::Wrap,
        }
    }

    /// The machine right after `rom` was loaded: the fonts at the bottom of
    /// memory, the program from address 0x200 on, the program counter at the
    /// program's start, everything else reset, and a redraw asked for.
    pub open spec fn loaded(rom: Seq<u8>, should_wrap: bool) -> Machine {
        Machine {
            memory: Seq::new(
                4096,
                |i: int|
                    if 0x200 <= i < 0x200 + rom.len() {
                        rom[i - 0x200]
                    } else {
                        font_byte(i)
                    },
            ),
            pc: 0x200,
            should_draw: true,
            draw_mode: if should_wrap {
                DrawMode::Wrap
            } else {
                DrawMode::Clip
            },
            ..Machine::blank()
        }
    }

    /// The value of register `Vx`.
    pub open spec fn v(self, x: u8) -> u8 {
        self.registers[x as int]
    }

    /// The machine with `value` in register `Vx`.
    pub open spec fn set_v(self, x: u8, value: u8) -> Machine {
        Machine { registers: self.registers.update(x as int, value), ..self }
    }

    /// The machine with the program counter moved past one more instruction
    /// if `condition` holds.
    pub open spec fn skip_if(self, condition: bool) -> Machine {
        if condition {
            Machine { pc: (self.pc + 2) as u16, ..self }
        } else {
            self
        }
    }

    /// Whether the key numbered `key` is pressed; a number that names no key
    /// is never pressed.
    pub open spec fn key_down(self, key: u8) -> bool {
        key < 16 && self.keys[key as int]
    }

    /// The word at the program counter, high byte first.
    pub open spec fn opcode(self) -> u16 {
        (self.memory[self.pc as int] * 256 + self.memory[self.pc + 1]) as u16
    }

    /// The sprite that `Dxyn` draws: `n` rows, or sixteen double rows, read
    /// from memory at the index register and placed at column `Vx` and row
    /// `Vy`.
    pub open spec fn sprite(self, x: u8, y: u8, n: u8) -> Sprite {
        sprite_for(
            self.screen.mode,
            self.v(x) as int,
            self.v(y) as int,
            n as int,
            self.memory.subrange(self.index as int, self.index + sprite_len(self.screen.mode, n as int)),
            self.draw_mode,
        )
    }

    /// The error that executing `instruction` raises in this state, if it
    /// raises one.
    pub open spec fn fault(self, instruction: Instruction) -> Option<Chip8Error> {
        match instruction {
            Instruction::Return => if self.stack.len() == 0 {
                Some(Chip8Error::StackUnderflow)
            } else {
                None
            },
            Instruction::Call(_) => if self.stack.len() >= 16 {
                Some(Chip8Error::StackOverflow)
            } else {
                None
            },
            Instruction::Draw(_, _, n) => if sprite_len(self.screen.mode, n as int) > 0 && self.index
                + sprite_len(self.screen.mode, n as int) > 4096 {
                Some(Chip8Error::OutOfBoundsAccess)
            } else {
                None
            },
            Instruction::AddIndex(x) => if self.index + self.v(x) >= 4096 {
                Some(Chip8Error::OutOfBoundsAccess)
            } else {
                None
            },
            Instruction::Bcd(_) => if self.index + 2 >= 4096 {
                Some(Chip8Error::OutOfBoundsAccess)
            } else {
                None
            },
            Instruction::Store(x) | Instruction::Fill(x) => if self.index + x >= 4096 {
                Some(Chip8Error::OutOfBoundsAccess)
            } else {
                None
            },
            _ => None,
        }
    }

    /// The machine after the fetch of an instruction: the program counter
    /// past it, and no redraw asked for yet.
    pub open spec fn fetched(self) -> Machine {
        Machine { pc: (self.pc + 2) as u16, should_draw: false, ..self }
    }

    /// What `instruction` makes of the machine once it has been fetched and
    /// raises no error. `random` is the byte that the random source gives.
    pub open spec fn apply(self, instruction: Instruction, random: u8) -> Machine {
        match instruction {
            Instruction::ScrollDown(n) => Machine {
                screen: self.screen.scrolled_down(n as int),
                should_draw: true,
                ..self
            },
            Instruction::Clear => Machine { screen: self.screen.cleared(), should_draw: true, ..self },
            Instruction::Return => Machine {
                pc: self.stack.last(),
                stack: self.stack.drop_last(),
                ..self
            },
            Instruction::ScrollRight => Machine {
                screen: self.screen.scrolled_right(),
                should_draw: true,
                ..self
            },
            Instruction::ScrollLeft => Machine {
                screen: self.screen.scrolled_left(),
                should_draw: true,
                ..self
            },
            Instruction::Exit => Machine { running: false, ..self },
            Instruction::StandardMode => Machine {
                screen: self.screen.with_mode(ScreenMode::Standard),
                should_draw: true,
                ..self
            },
            Instruction::SuperMode => Machine {
                screen: self.screen.with_mode(ScreenMode::Super),
                should_draw: true,
                ..self
            },
            Instruction::Jump(nnn) => Machine { pc: nnn, ..self },
            Instruction::Call(nnn) => Machine { pc: nnn, stack: self.stack.push(self.pc), ..self },
            Instruction::SkipEqual(x, kk) => self.skip_if(self.v(x) == kk),
            Instruction::SkipNotEqual(x, kk) => self.skip_if(self.v(x) != kk),
            Instruction::SkipRegEqual(x, y) => self.skip_if(self.v(x) == self.v(y)),
            Instruction::LoadByte(x, kk) => self.set_v(x, kk),
            Instruction::AddByte(x, kk) => self.set_v(x, ((self.v(x) + kk) % 256) as u8),
            Instruction::Move(x, y) => self.set_v(x, self.v(y)),
            Instruction::Or(x, y) => self.set_v(x, self.v(x) | self.v(y)),
            Instruction::And(x, y) => self.set_v(x, self.v(x) & self.v(y)),
            Instruction::Xor(x, y) => self.set_v(x, self.v(x) ^ self.v(y)),
            Instruction::Add(x, y) => self.set_v(x, ((self.v(x) + self.v(y)) % 256) as u8).set_v(
                15,
                flag(self.v(x) + self.v(y) > 255),
            ),
            Instruction::Sub(x, y) => self.set_v(x, ((self.v(x) - self.v(y)) % 256) as u8).set_v(
                15,
                flag(self.v(x) >= self.v(y)),
            ),
            Instruction::ShiftRight(x) => {
                let flagged = self.set_v(15, self.v(x) % 2);
                flagged.set_v(x, flagged.v(x) / 2)
            },
            Instruction::SubFrom(x, y) => self.set_v(x, ((self.v(y) - self.v(x)) % 256) as u8).set_v(
                15,
                flag(self.v(y) >= self.v(x)),
            ),
            Instruction::ShiftLeft(x) => {
                let flagged = self.set_v(15, self.v(x) / 128);
                flagged.set_v(x, ((flagged.v(x) * 2) % 256) as u8)
            },
            Instruction::SkipRegNotEqual(x, y) => self.skip_if(self.v(x) != self.v(y)),
            Instruction::LoadIndex(nnn) => Machine { index: nnn, ..self },
            Instruction::JumpOffset(nnn) => Machine { pc: (self.v(0) + nnn) as u16, ..self },
            Instruction::Random(x, kk) => self.set_v(x, random & kk),
            Instruction::Draw(x, y, n) => Machine {
                screen: self.screen.drawn(self.sprite(x, y, n)),
                registers: self.registers.update(15, flag(self.screen.collides(self.sprite(x, y, n)))),
                should_draw: true,
                ..self
            },
            Instruction::SkipKey(x) => self.skip_if(self.key_down(self.v(x))),
            Instruction::SkipNotKey(x) => self.skip_if(!self.key_down(self.v(x))),
            Instruction::ReadDelay(x) => self.set_v(x, self.delay_timer),
            Instruction::WaitKey(x) => match lowest_pressed(self.keys) {
                Some(key) => self.set_v(x, key as u8),
                None => Machine { pc: (self.pc - 2) as u16, ..self },
            },
            Instruction::SetDelay(x) => Machine { delay_timer: self.v(x), ..self },
            Instruction::SetSound(x) => Machine { sound_timer: self.v(x), ..self },
            Instruction::AddIndex(x) => Machine { index: (self.index + self.v(x)) as u16, ..self },
            Instruction::Glyph(x) => Machine { index: glyph_address(self.v(x)), ..self },
            Instruction::SuperGlyph(x) => Machine { index: super_glyph_address(self.v(x)), ..self },
            Instruction::Bcd(x) => Machine {
                memory: self.memory.update(self.index as int, self.v(x) / 100).update(
                    self.index + 1,
                    (self.v(x) / 10) % 10,
                ).update(self.index + 2, self.v(x) % 10),
                ..self
            },
            Instruction::Store(x) => Machine {
                memory: Seq::new(
                    4096,
                    |i: int|
                        if self.index <= i <= self.index + x {
                            self.registers[i - self.index]
                        } else {
                            self.memory[i]
                        },
                ),
                ..self
            },
            Instruction::Fill(x) => Machine {
                registers: Seq::new(
                    16,
                    |i: int|
                        if i <= x {
                            self.memory[self.index + i]
                        } else {
                            self.registers[i]
                        },
                ),
                ..self
            },
            Instruction::SaveFlags(x) => Machine {
                flags: Seq::new(
                    8,
                    |i: int|
                        if i <= x {
                            self.registers[i]
                        } else {
                            self.flags[i]
                        },
                ),
                ..self
            },
            Instruction::LoadFlags(x) => Machine {
                registers: Seq::new(
                    16,
                    |i: int|
                        if i <= x {
                            self.flags[i]
                        } else {
                            self.registers[i]
                        },
                ),
                ..self
            },
        }
    }

    /// What one cycle makes of the machine. A halted machine stays as it is.
    /// Otherwise the word at the program counter is fetched, the program
    /// counter moves past it, and the instruction is executed. An error
    /// comes in place of a new state where the fetch reaches past the end of
    /// memory, where the word is no instruction, or where the instruction
    /// raises one.
    pub open spec fn step(self, random: u8) -> Result<Machine, Chip8Error> {
        if !self.running {
            Ok(self)
        } else if self.pc + 1 >= 4096 {
            Err(Chip8Error::OutOfBoundsAccess)
        } else {
            match decode_spec(self.opcode()) {
                None => Err(Chip8Error::InvalidOpcode { opcode: self.opcode(), pc: self.pc }),
                Some(instruction) => match self.fault(instruction) {
                    Some(error) => Err(error),
                    None => Ok(self.fetched().apply(instruction, random)),
                },
            }
        }
    }

    /// Whether a cycle run with `random` ends in `result` and leaves the
    /// machine as `after`: on success the next state, on an error the state
    /// it started from.
    pub open spec fn steps_to(self, random: u8, result: Result<(), Chip8Error>, after: Machine) -> bool {
        match self.step(random) {
            Ok(next) => result is Ok && after == next,
            Err(error) => result == Err::<(), Chip8Error>(error) && after == self,
        }
    }

    /// The random byte matters to no cycle but one that executes the random
    /// instruction.
    pub proof fn lemma_random_unused(self, random: u8, other: u8)
        requires
            !self.draws_random(),
        ensures
            self.step(random) == self.step(other),
    {
    }

    /// Whether the next cycle consults the random source.
    pub open spec fn draws_random(self) -> bool {
        self.running && self.pc + 1 < 4096 && decode_spec(self.opcode()) matches Some(
            Instruction::Random(_, _),
        )
    }

    /// What one timer tick makes of the machine: each timer that is not zero
    /// goes down by one, and the beep is asked for exactly when the sound
    /// timer thereby reaches zero.
    pub open spec fn tick(self) -> Machine {
        Machine {
            delay_timer: if self.delay_timer > 0 {
                (self.delay_timer - 1) as u8
            } else {
                0
            },
            sound_timer: if self.sound_timer > 0 {
                (self.sound_timer - 1) as u8
            } else {
                0
            },
            should_beep: self.sound_timer == 1,
            ..self
        }
    }

    /// Whether the next cycle executes `instruction`: the machine runs, and
    /// the word at the program counter lies within memory and encodes it.
    pub open spec fn executes(self, instruction: Instruction) -> bool {
        &&& self.running
        &&& self.pc + 1 < 4096
        &&& decode_spec(self.opcode()) == Some(instruction)
    }

    /// `8xy4` leaves 1 in the flag register if the sum of `Vx` and `Vy`
    /// exceeds 255 and 0 if it does not, and leaves the sum modulo 256 in
    /// `Vx`, unless `Vx` is the flag register, which keeps the flag.
    pub proof fn lemma_add_sets_carry(self, x: u8, y: u8, random: u8)
        requires
            self.wf(),
            x < 16,
            y < 16,
            self.executes(Instruction::Add(x, y)),
        ensures
            self.step(random) is Ok,
            ({
                let after = self.step(random)->Ok_0;
                let sum = self.v(x) + self.v(y);
                &&& after.v(15) == flag(sum > 255)
                &&& x != 15 ==> after.v(x) == sum % 256
            }),
    {
    }

    /// `8xy5` leaves 1 in the flag register if `Vx` is at least `Vy`, so that
    /// nothing is borrowed, and 0 if it is less, and leaves the difference
    /// modulo 256 in `Vx`, unless `Vx` is the flag register, which keeps the
    /// flag.
    pub proof fn lemma_sub_sets_no_borrow(self, x: u8, y: u8, random: u8)
        requires
            self.wf(),
            x < 16,
            y < 16,
            self.executes(Instruction::Sub(x, y)),
        ensures
            self.step(random) is Ok,
            ({
                let after = self.step(random)->Ok_0;
                &&& after.v(15) == flag(self.v(x) >= self.v(y))
                &&& x != 15 ==> after.v(x) == (self.v(x) - self.v(y)) % 256
            }),
    {
    }

    /// `8xy7` leaves 1 in the flag register if `Vy` is at least `Vx` and 0 if
    /// it is less, and leaves `Vy - Vx` modulo 256 in `Vx`, unless `Vx` is the
    /// flag register, which keeps the flag.
    pub proof fn lemma_sub_from_sets_no_borrow(self, x: u8, y: u8, random: u8)
        requires
            self.wf(),
            x < 16,
            y < 16,
            self.executes(Instruction::SubFrom(x, y)),
        ensures
            self.step(random) is Ok,
            ({
                let after = self.step(random)->Ok_0;
                &&& after.v(15) == flag(self.v(y) >= self.v(x))
                &&& x != 15 ==> after.v(x) == (self.v(y) - self.v(x)) % 256
            }),
    {
    }

    /// `8xy6` leaves in the flag register the lowest bit that `Vx` had, and
    /// in `Vx` half of what it held. Where `Vx` is the flag register itself,
    /// it ends as zero.
    pub proof fn lemma_shift_right_keeps_low_bit(self, x: u8, random: u8)
        requires
            self.wf(),
            x < 16,
            self.executes(Instruction::ShiftRight(x)),
        ensures
            self.step(random) is Ok,
            ({
                let after = self.step(random)->Ok_0;
                &&& x != 15 ==> after.v(15) == flag(bit8(self.v(x), 0))
                &&& x != 15 ==> after.v(x) == self.v(x) / 2
                &&& x == 15 ==> after.v(15) == 0
            }),
    {
        lemma_end_bits(self.v(x));
    }

    /// `8xyE` leaves in the flag register the highest bit that `Vx` had, and
    /// in `Vx` twice what it held, modulo 256. Where `Vx` is the flag
    /// register itself, it ends as twice its highest bit.
    pub proof fn lemma_shift_left_keeps_high_bit(self, x: u8, random: u8)
        requires
            self.wf(),
            x < 16,
            self.executes(Instruction::ShiftLeft(x)),
        ensures
            self.step(random) is Ok,
            ({
                let after = self.step(random)->Ok_0;
                &&& x != 15 ==> after.v(15) == flag(bit8(self.v(x), 7))
                &&& x != 15 ==> after.v(x) == (self.v(x) * 2) % 256
                &&& x == 15 ==> after.v(15) == 2 * flag(bit8(self.v(x), 7))
            }),
    {
        lemma_end_bits(self.v(x));
    }

    /// `00E0` leaves every pixel of the picture off and asks for a redraw.
    pub proof fn lemma_clear_blanks(self, random: u8)
        requires
            self.wf(),
            self.executes(Instruction::Clear),
        ensures
            self.step(random) is Ok,
            ({
                let after = self.step(random)->Ok_0;
                &&& after.should_draw
                &&& after.screen.mode == self.screen.mode
                &&& forall|p: int| 0 <= p < after.screen.active() ==> !after.screen.bits[p]
            }),
    {
    }

    /// `Fx29` leaves in the index register five times the digit in the low
    /// nibble of `Vx`, which is where the standard font keeps that digit's
    /// glyph.
    pub proof fn lemma_glyph_address(self, x: u8, random: u8)
        requires
            self.wf(),
            x < 16,
            self.executes(Instruction::Glyph(x)),
        ensures
            self.step(random) is Ok,
            self.step(random)->Ok_0.index == 5 * (self.v(x) % 16),
    {
    }

    /// `3xkk` moves the program counter by four where `Vx` equals `kk`, two
    /// for the fetch and two for the skip, and by two where it does not.
    pub proof fn lemma_skip_equal(self, x: u8, kk: u8, random: u8)
        requires
            self.wf(),
            x < 16,
            self.executes(Instruction::SkipEqual(x, kk)),
        ensures
            self.step(random) is Ok,
            self.step(random)->Ok_0.pc == self.pc + (if self.v(x) == kk {
                4int
            } else {
                2int
            }),
    {
    }

    /// A sound timer at one is brought to zero by the next tick, which asks
    /// for the beep; the tick after that leaves it at zero and asks for none.
    pub proof fn lemma_beep_once(self)
        requires
            self.sound_timer == 1,
        ensures
            self.tick().sound_timer == 0,
            self.tick().should_beep,
            self.tick().tick().sound_timer == 0,
            !self.tick().tick().should_beep,
    {
    }

    /// A cycle that succeeds leaves every part of the machine at its size
    /// and the stack within its capacity.
    pub proof fn lemma_step_wf(self, random: u8)
        requires
            self.wf(),
            self.step(random) is Ok,
        ensures
            self.step(random)->Ok_0.wf(),
    {
        if self.running {
            lemma_decode_wf(self.opcode());
        }
    }

    /// The program counter moves by exactly two in every cycle that executes
    /// an instruction other than a jump, a call, a return, a skip whose
    /// condition holds, or the wait for a key while none is pressed.
    pub proof fn lemma_step_advances(self, instruction: Instruction, random: u8)
        requires
            self.wf(),
            self.executes(instruction),
            self.step(random) is Ok,
            !(instruction is Jump || instruction is Call || instruction is Return
                || instruction is JumpOffset),
            !(instruction is SkipEqual || instruction is SkipNotEqual || instruction is SkipRegEqual
                || instruction is SkipRegNotEqual || instruction is SkipKey
                || instruction is SkipNotKey || instruction is WaitKey),
        ensures
            self.step(random)->Ok_0.pc == self.pc + 2,
    {
    }

    /// No cycle touches a timer but the two that set one, and no cycle
    /// touches the beep flag.
    pub proof fn lemma_step_keeps_timers(self, random: u8)
        requires
            self.wf(),
            self.step(random) is Ok,
        ensures
            ({
                let after = self.step(random)->Ok_0;
                &&& after.should_beep == self.should_beep
                &&& !(exists|x: u8| self.executes(Instruction::SetDelay(x))) ==> after.delay_timer
                    == self.delay_timer
                &&& !(exists|x: u8| self.executes(Instruction::SetSound(x))) ==> after.sound_timer
                    == self.sound_timer
            }),
    {
        if self.running {
            let instruction = decode_spec(self.opcode())->0;
            if let Instruction::SetDelay(x) = instruction {
                assert(self.executes(Instruction::SetDelay(x)));
            }
            if let Instruction::SetSound(x) = instruction {
                assert(self.executes(Instruction::SetSound(x)));
            }
        }
    }

    /// Drawing the same sprite in the same place a second time brings the
    /// display back to what it was before the first draw, provided that the
    /// flag register, which the first draw sets, gives neither the column nor
    /// the row.
    pub proof fn lemma_draw_twice_restores(self, x: u8, y: u8, n: u8, random: u8)
        requires
            self.wf(),
            x < 15,
            y < 15,
            n < 16,
        ensures
            ({
                let once = self.apply(Instruction::Draw(x, y, n), random);
                let twice = once.apply(Instruction::Draw(x, y, n), random);
                &&& twice.screen == self.screen
                &&& twice.v(15) == flag(
                    exists|p: int|
                        0 <= p < self.screen.active() && !self.screen.bits[p] && self.screen.hit(
                            self.sprite(x, y, n),
                            p,
                        ),
                )
            }),
    {
        let once = self.apply(Instruction::Draw(x, y, n), random);
        assert(once.sprite(x, y, n) == self.sprite(x, y, n));
        self.screen.lemma_draw_twice(self.sprite(x, y, n));
    }

    /// A call followed at once by a return comes back to the instruction
    /// after the call, with the stack as it was.
    pub proof fn lemma_call_then_return(self, nnn: u16, random: u8)
        requires
            self.wf(),
            self.executes(Instruction::Call(nnn)),
            self.stack.len() < 16,
            self.step(random) is Ok ==> self.step(random)->Ok_0.executes(Instruction::Return),
        ensures
            self.step(random) is Ok,
            self.step(random)->Ok_0.step(random) is Ok,
            ({
                let back = self.step(random)->Ok_0.step(random)->Ok_0;
                &&& back.pc == self.pc + 2
                &&& back.stack == self.stack
            }),
    {
        let called = self.step(random)->Ok_0;
        assert(called.stack.drop_last() =~= self.stack);
    }
}

} // verus!
