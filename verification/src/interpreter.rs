//! The interpreter: memory, registers, call stack, timers, keypad and
//! display, and the cycle that fetches, decodes and executes one instruction.

use vstd::prelude::*;
use vstd::slice::slice_subrange;
use rand::Rng;
use crate::bits::{bit8, lemma_low_nibble, lemma_shift_one, lemma_word};
use crate::error::Chip8Error;
use crate::font::{font_byte, FONTSET, FONTSET_LEN, GLYPH_HEIGHT, SUPER_FONTSET, SUPER_FONTSET_LEN, SUPER_GLYPH_HEIGHT};
use crate::instruction::{decode, decode_spec, Instruction};
use crate::keypad::Keypad;
use crate::machine::{Machine, MEMORY_SIZE, PROGRAM_START, REGISTER_COUNT, RPL_FLAG_COUNT, STACK_SIZE};
use crate::screen::{sprite_len, DrawMode, Screen, ScreenMode};

verus! {

/// Asks the thread-local generator of the `rand` crate for one byte, by
/// `rand::thread_rng().gen()`. Nothing is claimed about the byte: the
/// generator is seeded by the operating system and every value can come.
/// The call panics if the operating system's entropy source fails while the
/// generator is seeded or reseeded, which nothing passed in here can rule
/// out.
#[verifier::external_body]
fn generate_u8() -> (byte: u8) {
    rand::thread_rng().gen()
}

/// Copies `count` bytes of `src`, from place `from` on, over those of `dst`
/// from place `at` on.
fn copy_bytes(dst: &mut [u8], at: usize, src: &[u8], from: usize, count: usize)
    requires
        at + count <= old(dst)@.len(),
        from + count <= src@.len(),
    ensures
        final(dst)@.len() == old(dst)@.len(),
        forall|i: int|
            0 <= i < old(dst)@.len() ==> final(dst)@[i] == (if at <= i < at + count {
                src@[from + i - at]
            } else {
                old(dst)@[i]
            }),
{
    let dst_len = dst.len();
    let src_len = src.len();
    let mut done: usize = 0;
    while done < count
        invariant
            done <= count,
            at + count <= dst_len,
            from + count <= src_len,
            src@.len() == src_len,
            dst@.len() == dst_len == old(dst)@.len(),
            forall|i: int|
                0 <= i < dst@.len() ==> dst@[i] == (if at <= i < at + done {
                    src@[from + i - at]
                } else {
                    old(dst)@[i]
                }),
        decreases count - done,
    {
        dst[at + done] = src[from + done];
        done += 1;
    }
}

/// The sum of two bytes modulo 256, and whether it was carried over.
fn add_carry(a: u8, b: u8) -> (r: (u8, bool))
    ensures
        r.0 == (a + b) % 256,
        r.1 == (a + b > 255),
{
    (a.wrapping_add(b), a as u16 + b as u16 > 255)
}

/// The difference of two bytes modulo 256, and whether it was borrowed for.
fn sub_borrow(a: u8, b: u8) -> (r: (u8, bool))
    ensures
        r.0 == (a - b) % 256,
        r.1 == (a < b),
{
    (a.wrapping_sub(b), a < b)
}

/// The low nibble of a byte.
fn low_nibble(a: u8) -> (nibble: u8)
    ensures
        nibble == a % 16,
{
    proof {
        lemma_low_nibble(a);
    }
    a & 0x0F
}

/// The low bit of a byte.
fn low_bit(a: u8) -> (bit: u8)
    ensures
        bit == a % 2,
{
    proof {
        lemma_shift_one(a);
    }
    a & 1
}

/// The high bit of a byte.
fn high_bit(a: u8) -> (bit: u8)
    ensures
        bit == a / 128,
{
    proof {
        lemma_shift_one(a);
    }
    a >> 7
}

/// Half of a byte, rounded down.
fn halved(a: u8) -> (half: u8)
    ensures
        half == a / 2,
{
    proof {
        lemma_shift_one(a);
    }
    a >> 1
}

/// Twice a byte, modulo 256.
fn doubled(a: u8) -> (double: u8)
    ensures
        double == (a * 2) % 256,
{
    proof {
        lemma_shift_one(a);
    }
    a << 1
}

/// A CHIP-8 and SUPER-CHIP machine.
pub struct Chip8 {
    screen: Screen,
    memory: [u8; MEMORY_SIZE],
    registers: [u8; REGISTER_COUNT],
    index: u16,
    pc: u16,
    delay_timer: u8,
    sound_timer: u8,
    stack: [u16; STACK_SIZE],
    sp: u16,
    keypad: Keypad,
    super_mode_rpl_flags: [u8; RPL_FLAG_COUNT],
    should_draw: bool,
    should_beep: bool,
    is_running: bool,
    draw_mode: DrawMode,
}

impl View for Chip8 {
    type V = Machine;

    /// The machine's state. Of the stack only the return addresses in use
    /// count.
    closed spec fn view(&self) -> Machine {
        Machine {
            memory: self.memory@,
            registers: self.registers@,
            index: self.index,
            pc: self.pc,
            stack: self.stack@.take(self.sp as int),
            delay_timer: self.delay_timer,
            sound_timer: self.sound_timer,
            keys: self.keypad@,
            flags: self.super_mode_rpl_flags@,
            screen: self.screen@,
            should_draw: self.should_draw,
            should_beep: self.should_beep,
            running: self.is_running,
            draw_mode: self.draw_mode,
        }
    }
}

impl Chip8 {
    /// The stack pointer is within the stack.
    pub closed spec fn wf(&self) -> bool {
        self.sp <= 16
    }

    /// The state of a well-formed machine is well-formed.
    pub proof fn lemma_view_wf(&self)
        requires
            self.wf(),
        ensures
            self@.wf(),
    {
    }

    /// Constructs a new `Chip8`: all memory and every register zero, the
    /// display blank, no program loaded.
    pub fn new() -> (chip8: Chip8)
        ensures
            chip8.wf(),
            chip8@ == Machine::blank(),
    {
        let chip8 = Chip8 {
            screen: Screen::new(),
            memory: [0;MEMORY_SIZE],
            registers: [0;REGISTER_COUNT],
            index: 0,
            pc: 0,
            delay_timer: 0,
            sound_timer: 0,
            stack: [0;STACK_SIZE],
            sp: 0,
            keypad: Keypad::new(),
            super_mode_rpl_flags: [0;RPL_FLAG_COUNT],
            should_draw: false,
            should_beep: false,
            is_running: true,
            draw_mode: DrawMode::Wrap,
        };
        assert(chip8@ =~~= Machine::blank());
        chip8
    }

    /// Resets everything but the drawing mode: the fonts go to the bottom of
    /// an otherwise zeroed memory, the program counter to the program's
    /// start, the whole display buffer is blanked and set to the standard
    /// resolution, and a redraw is asked for.
    fn initialize(&mut self)
        ensures
            final(self).wf(),
            final(self)@ == (Machine {
                draw_mode: old(self)@.draw_mode,
                ..Machine::loaded(Seq::empty(), true)
            }),
    {
        self.memory = [0;MEMORY_SIZE];
        copy_bytes(&mut self.memory, 0, &FONTSET, 0, FONTSET_LEN);
        copy_bytes(&mut self.memory, FONTSET_LEN, &SUPER_FONTSET, 0, SUPER_FONTSET_LEN);
        self.registers = [0;REGISTER_COUNT];
        self.index = 0;
        self.pc = PROGRAM_START;
        // The super picture spans the whole buffer, so clearing it blanks
        // what the standard picture leaves out as well.
        self.screen.set_mode(ScreenMode::Super);
        self.screen.clear_screen();
        self.screen.set_mode(ScreenMode::Standard);
        self.should_draw = true;
        self.should_beep = false;
        self.delay_timer = 0;
        self.sound_timer = 0;
        self.stack = [0;STACK_SIZE];
        self.sp = 0;
        self.keypad.clear();
        self.super_mode_rpl_flags = [0;RPL_FLAG_COUNT];
        self.is_running = true;
        assert(self@ =~~= (Machine {
            draw_mode: old(self)@.draw_mode,
            ..Machine::loaded(Seq::empty(), true)
        }));
    }

    /// Loads a rom and sets the drawing mode. The machine is reset, then the
    /// rom is copied to memory from address 0x200 on. If `should_wrap` is
    /// true, pixels drawn outside of the picture wrap to the other side, else
    /// they are dropped. A rom that does not fit below the end of memory is
    /// refused, and the machine stays as it was.
    pub fn load_rom(&mut self, rom: &[u8], should_wrap: bool) -> (result: Result<(), Chip8Error>)
        ensures
            rom@.len() > 4096 - 0x200 ==> result == Err::<(), Chip8Error>(Chip8Error::OversizeRom)
                && *final(self) == *old(self),
            rom@.len() <= 4096 - 0x200 ==> result is Ok && final(self).wf() && final(self)@
                == Machine::loaded(rom@, should_wrap),
            result is Ok ==> forall|i: int|
                0 <= i < rom@.len() ==> final(self)@.memory[0x200 + i] == rom@[i],
            result is Ok ==> forall|i: int| 0 <= i < 0x200 ==> final(self)@.memory[i] == font_byte(i),
    {
        if rom.len() > MEMORY_SIZE - PROGRAM_START as usize {
            return Err(Chip8Error::OversizeRom);
        }
        self.initialize();
        self.draw_mode = if should_wrap {
            DrawMode::Wrap
        } else {
            DrawMode::Clip
        };
        copy_bytes(&mut self.memory, PROGRAM_START as usize, rom, 0, rom.len());
        assert(self@ =~~= Machine::loaded(rom@, should_wrap));
        Ok(())
    }

    /// The word at the program counter, high byte first.
    fn fetch_opcode(&self) -> (opcode: u16)
        requires
            self.pc + 1 < 4096,
        ensures
            opcode == self@.opcode(),
    {
        let hi = self.memory[self.pc as usize];
        let lo = self.memory[(self.pc + 1) as usize];
        proof {
            lemma_word(hi, lo);
        }
        (u16::from(hi) << 8) | u16::from(lo)
    }

    /// The error that executing `instruction` would raise now, if any.
    fn fault(&self, instruction: Instruction) -> (fault: Option<Chip8Error>)
        requires
            self.wf(),
            instruction.wf(),
        ensures
            fault == self@.fault(instruction),
    {
        match instruction {
            Instruction::Return => if self.sp == 0 {
                Some(Chip8Error::StackUnderflow)
            } else {
                None
            },
            Instruction::Call(_) => if self.sp as usize >= STACK_SIZE {
                Some(Chip8Error::StackOverflow)
            } else {
                None
            },
            Instruction::Draw(_, _, n) => {
                let len = self.sprite_len(n);
                if len > 0 && self.index as usize + len > MEMORY_SIZE {
                    Some(Chip8Error::OutOfBoundsAccess)
                } else {
                    None
                }
            },
            Instruction::AddIndex(x) => if self.index as usize + self.registers[x as usize] as usize
                >= MEMORY_SIZE {
                Some(Chip8Error::OutOfBoundsAccess)
            } else {
                None
            },
            Instruction::Bcd(_) => if self.index as usize + 2 >= MEMORY_SIZE {
                Some(Chip8Error::OutOfBoundsAccess)
            } else {
                None
            },
            Instruction::Store(x) | Instruction::Fill(x) => if self.index as usize + x as usize
                >= MEMORY_SIZE {
                Some(Chip8Error::OutOfBoundsAccess)
            } else {
                None
            },
            _ => None,
        }
    }

    /// Bytes of sprite data that a draw of height `n` reads now.
    fn sprite_len(&self, n: u8) -> (len: usize)
        requires
            n < 16,
        ensures
            len == sprite_len(self@.screen.mode, n as int),
            len <= 32,
    {
        if self.screen.mode == ScreenMode::Super && n == 0 {
            32
        } else {
            n as usize
        }
    }

    /// Draws the sprite at the index register at column `Vx` and row `Vy`,
    /// and records in the flag register whether a pixel was turned off.
    fn draw(&mut self, x: u8, y: u8, n: u8)
        requires
            old(self).wf(),
            x < 16,
            y < 16,
            n < 16,
            old(self)@.fault(Instruction::Draw(x, y, n)) is None,
        ensures
            final(self).wf(),
            forall|random: u8| final(self)@ == old(self)@.apply(Instruction::Draw(x, y, n), random),
    {
        let len = self.sprite_len(n);
        let column = self.registers[x as usize];
        let row = self.registers[y as usize];
        let mut collision = false;
        if len > 0 {
            let start = self.index as usize;
            let sprite = slice_subrange(&self.memory, start, start + len);
            collision = self.screen.draw_sprite(column, row, n, sprite, self.draw_mode);
        } else {
            proof {
                self@.screen.lemma_draw_nothing(self@.sprite(x, y, n));
            }
        }
        self.registers[15] = if collision {
            1
        } else {
            0
        };
        self.should_draw = true;
        assert(self@ =~~= old(self)@.apply(Instruction::Draw(x, y, n), 0));
        assert forall|random: u8| self@ == old(self)@.apply(Instruction::Draw(x, y, n), random) by {}
    }

    /// Whether `instruction` belongs to the group that `execute_screen` handles.
    spec fn is_screen(instruction: Instruction) -> bool {
        match instruction {
            Instruction::ScrollDown(_)
            | Instruction::Clear
            | Instruction::ScrollRight
            | Instruction::ScrollLeft
            | Instruction::StandardMode
            | Instruction::SuperMode
            | Instruction::Draw(_, _, _) => true,
            _ => false,
        }
    }

    /// Executes an instruction of the display.
    fn execute_screen(&mut self, instruction: Instruction, random: u8)
        requires
            old(self).wf(),
            instruction.wf(),
            Self::is_screen(instruction),
            old(self)@.fault(instruction) is None,
            2 <= old(self).pc <= 4096,
        ensures
            final(self).wf(),
            final(self)@ == old(self)@.apply(instruction, random),
    {
        match instruction {
            Instruction::ScrollDown(n) => {
                self.screen.scroll_down(n as usize);
                self.should_draw = true;
            },
            Instruction::Clear => {
                self.screen.clear_screen();
                self.should_draw = true;
            },
            Instruction::ScrollRight => {
                self.screen.scroll_right();
                self.should_draw = true;
            },
            Instruction::ScrollLeft => {
                self.screen.scroll_left();
                self.should_draw = true;
            },
            Instruction::StandardMode => {
                self.screen.set_mode(ScreenMode::Standard);
                self.should_draw = true;
            },
            Instruction::SuperMode => {
                self.screen.set_mode(ScreenMode::Super);
                self.should_draw = true;
            },
            Instruction::Draw(x, y, n) => {
                self.draw(x, y, n);
            },
            _ => {},
        }
        assert(self@ =~~= old(self)@.apply(instruction, random));
    }

    /// Whether `instruction` belongs to the group that `execute_control` handles.
    spec fn is_control(instruction: Instruction) -> bool {
        match instruction {
            Instruction::Return
            | Instruction::Exit
            | Instruction::Jump(_)
            | Instruction::Call(_)
            | Instruction::JumpOffset(_)
            | Instruction::SkipEqual(_, _)
            | Instruction::SkipNotEqual(_, _)
            | Instruction::SkipRegEqual(_, _)
            | Instruction::SkipRegNotEqual(_, _)
            | Instruction::SkipKey(_)
            | Instruction::SkipNotKey(_)
            | Instruction::WaitKey(_) => true,
            _ => false,
        }
    }

    /// Executes an instruction that moves the program counter or halts.
    fn execute_control(&mut self, instruction: Instruction, random: u8)
        requires
            old(self).wf(),
            instruction.wf(),
            Self::is_control(instruction),
            old(self)@.fault(instruction) is None,
            2 <= old(self).pc <= 4096,
        ensures
            final(self).wf(),
            final(self)@ == old(self)@.apply(instruction, random),
    {
        match instruction {
            Instruction::Return => {
                self.sp -= 1;
                self.pc = self.stack[self.sp as usize];
            },
            Instruction::Exit => {
                self.is_running = false;
            },
            Instruction::Jump(nnn) => {
                self.pc = nnn;
            },
            Instruction::Call(nnn) => {
                self.stack[self.sp as usize] = self.pc;
                self.sp += 1;
                self.pc = nnn;
            },
            Instruction::JumpOffset(nnn) => {
                self.pc = u16::from(self.registers[0]) + nnn;
            },
            Instruction::SkipEqual(x, kk) => {
                if self.registers[x as usize] == kk {
                    self.pc += 2;
                }
            },
            Instruction::SkipNotEqual(x, kk) => {
                if self.registers[x as usize] != kk {
                    self.pc += 2;
                }
            },
            Instruction::SkipRegEqual(x, y) => {
                if self.registers[x as usize] == self.registers[y as usize] {
                    self.pc += 2;
                }
            },
            Instruction::SkipRegNotEqual(x, y) => {
                if self.registers[x as usize] != self.registers[y as usize] {
                    self.pc += 2;
                }
            },
            Instruction::SkipKey(x) => {
                if self.keypad.is_pressed(self.registers[x as usize] as usize) {
                    self.pc += 2;
                }
            },
            Instruction::SkipNotKey(x) => {
                if !self.keypad.is_pressed(self.registers[x as usize] as usize) {
                    self.pc += 2;
                }
            },
            Instruction::WaitKey(x) => {
                self.pc -= 2;
                if let Some(index) = self.keypad.poll_key() {
                    self.registers[x as usize] = index as u8;
                    self.pc += 2;
                }
            },
            _ => {},
        }
        assert(self@ =~~= old(self)@.apply(instruction, random));
    }

    /// Whether `instruction` belongs to the group that `execute_arithmetic` handles.
    spec fn is_arithmetic(instruction: Instruction) -> bool {
        match instruction {
            Instruction::LoadByte(_, _)
            | Instruction::AddByte(_, _)
            | Instruction::Move(_, _)
            | Instruction::Or(_, _)
            | Instruction::And(_, _)
            | Instruction::Xor(_, _)
            | Instruction::Add(_, _)
            | Instruction::Sub(_, _)
            | Instruction::ShiftRight(_)
            | Instruction::SubFrom(_, _)
            | Instruction::ShiftLeft(_)
            | Instruction::Random(_, _)
            | Instruction::ReadDelay(_) => true,
            _ => false,
        }
    }

    /// Executes an instruction that computes a register.
    fn execute_arithmetic(&mut self, instruction: Instruction, random: u8)
        requires
            old(self).wf(),
            instruction.wf(),
            Self::is_arithmetic(instruction),
            old(self)@.fault(instruction) is None,
            2 <= old(self).pc <= 4096,
        ensures
            final(self).wf(),
            final(self)@ == old(self)@.apply(instruction, random),
    {
        match instruction {
            Instruction::LoadByte(x, kk) => {
                self.registers[x as usize] = kk;
            },
            Instruction::AddByte(x, kk) => {
                let (sum, _) = add_carry(self.registers[x as usize], kk);
                self.registers[x as usize] = sum;
            },
            Instruction::Move(x, y) => {
                self.registers[x as usize] = self.registers[y as usize];
            },
            Instruction::Or(x, y) => {
                self.registers[x as usize] |= self.registers[y as usize];
            },
            Instruction::And(x, y) => {
                self.registers[x as usize] &= self.registers[y as usize];
            },
            Instruction::Xor(x, y) => {
                self.registers[x as usize] ^= self.registers[y as usize];
            },
            Instruction::Add(x, y) => {
                let (res, overflow) = add_carry(self.registers[x as usize], self.registers[y as usize]);
                self.registers[x as usize] = res;
                if overflow {
                    self.registers[15] = 1;
                } else {
                    self.registers[15] = 0;
                }
            },
            Instruction::Sub(x, y) => {
                let (res, underflow) = sub_borrow(self.registers[x as usize], self.registers[y as usize]);
                self.registers[x as usize] = res;
                if underflow {
                    self.registers[15] = 0;
                } else {
                    self.registers[15] = 1;
                }
            },
            Instruction::ShiftRight(x) => {
                self.registers[15] = low_bit(self.registers[x as usize]);
                self.registers[x as usize] = halved(self.registers[x as usize]);
            },
            Instruction::SubFrom(x, y) => {
                let (res, underflow) = sub_borrow(self.registers[y as usize], self.registers[x as usize]);
                self.registers[x as usize] = res;
                if underflow {
                    self.registers[15] = 0;
                } else {
                    self.registers[15] = 1;
                }
            },
            Instruction::ShiftLeft(x) => {
                self.registers[15] = high_bit(self.registers[x as usize]);
                self.registers[x as usize] = doubled(self.registers[x as usize]);
            },
            Instruction::Random(x, kk) => {
                self.registers[x as usize] = random & kk;
            },
            Instruction::ReadDelay(x) => {
                self.registers[x as usize] = self.delay_timer;
            },
            _ => {},
        }
        assert(self@ =~~= old(self)@.apply(instruction, random));
    }

    /// Whether `instruction` belongs to the group that `execute_setting` handles.
    spec fn is_setting(instruction: Instruction) -> bool {
        match instruction {
            Instruction::SetDelay(_)
            | Instruction::SetSound(_)
            | Instruction::LoadIndex(_)
            | Instruction::AddIndex(_)
            | Instruction::Glyph(_)
            | Instruction::SuperGlyph(_) => true,
            _ => false,
        }
    }

    /// Executes an instruction that sets a timer or the index register.
    fn execute_setting(&mut self, instruction: Instruction, random: u8)
        requires
            old(self).wf(),
            instruction.wf(),
            Self::is_setting(instruction),
            old(self)@.fault(instruction) is None,
            2 <= old(self).pc <= 4096,
        ensures
            final(self).wf(),
            final(self)@ == old(self)@.apply(instruction, random),
    {
        match instruction {
            Instruction::SetDelay(x) => {
                self.delay_timer = self.registers[x as usize];
            },
            Instruction::SetSound(x) => {
                self.sound_timer = self.registers[x as usize];
            },
            Instruction::LoadIndex(nnn) => {
                self.index = nnn;
            },
            Instruction::AddIndex(x) => {
                self.index += u16::from(self.registers[x as usize]);
            },
            Instruction::Glyph(x) => {
                self.index = u16::from(low_nibble(self.registers[x as usize])) * GLYPH_HEIGHT;
            },
            Instruction::SuperGlyph(x) => {
                self.index = u16::from(low_nibble(self.registers[x as usize])) * SUPER_GLYPH_HEIGHT
                    + FONTSET_LEN as u16;
            },
            _ => {},
        }
        assert(self@ =~~= old(self)@.apply(instruction, random));
    }

    /// Whether `instruction` belongs to the group that `execute_transfer` handles.
    spec fn is_transfer(instruction: Instruction) -> bool {
        match instruction {
            Instruction::Bcd(_)
            | Instruction::Store(_)
            | Instruction::Fill(_)
            | Instruction::SaveFlags(_)
            | Instruction::LoadFlags(_) => true,
            _ => false,
        }
    }

    /// Executes an instruction that moves bytes between the registers and
    /// memory or the persistent flags.
    fn execute_transfer(&mut self, instruction: Instruction, random: u8)
        requires
            old(self).wf(),
            instruction.wf(),
            Self::is_transfer(instruction),
            old(self)@.fault(instruction) is None,
            2 <= old(self).pc <= 4096,
        ensures
            final(self).wf(),
            final(self)@ == old(self)@.apply(instruction, random),
    {
        match instruction {
            Instruction::Bcd(x) => {
                let value = self.registers[x as usize];
                self.memory[self.index as usize] = value / 100;
                self.memory[self.index as usize + 1] = (value / 10) % 10;
                self.memory[self.index as usize + 2] = value % 10;
            },
            Instruction::Store(x) => {
                copy_bytes(&mut self.memory, self.index as usize, &self.registers, 0, x as usize + 1);
            },
            Instruction::Fill(x) => {
                copy_bytes(&mut self.registers, 0, &self.memory, self.index as usize, x as usize + 1);
            },
            Instruction::SaveFlags(x) => {
                copy_bytes(&mut self.super_mode_rpl_flags, 0, &self.registers, 0, x as usize + 1);
            },
            Instruction::LoadFlags(x) => {
                copy_bytes(&mut self.registers, 0, &self.super_mode_rpl_flags, 0, x as usize + 1);
            },
            _ => {},
        }
        assert(self@ =~~= old(self)@.apply(instruction, random));
    }

    /// Executes an instruction that has been fetched and raises no error.
    fn execute(&mut self, instruction: Instruction, random: u8)
        requires
            old(self).wf(),
            instruction.wf(),
            old(self)@.fault(instruction) is None,
            2 <= old(self).pc <= 4096,
        ensures
            final(self).wf(),
            final(self)@ == old(self)@.apply(instruction, random),
    {
        match instruction {
            Instruction::ScrollDown(_)
            | Instruction::Clear
            | Instruction::ScrollRight
            | Instruction::ScrollLeft
            | Instruction::StandardMode
            | Instruction::SuperMode
            | Instruction::Draw(_, _, _) => self.execute_screen(instruction, random),
            Instruction::Return
            | Instruction::Exit
            | Instruction::Jump(_)
            | Instruction::Call(_)
            | Instruction::JumpOffset(_)
            | Instruction::SkipEqual(_, _)
            | Instruction::SkipNotEqual(_, _)
            | Instruction::SkipRegEqual(_, _)
            | Instruction::SkipRegNotEqual(_, _)
            | Instruction::SkipKey(_)
            | Instruction::SkipNotKey(_)
            | Instruction::WaitKey(_) => self.execute_control(instruction, random),
            Instruction::LoadByte(_, _)
            | Instruction::AddByte(_, _)
            | Instruction::Move(_, _)
            | Instruction::Or(_, _)
            | Instruction::And(_, _)
            | Instruction::Xor(_, _)
            | Instruction::Add(_, _)
            | Instruction::Sub(_, _)
            | Instruction::ShiftRight(_)
            | Instruction::SubFrom(_, _)
            | Instruction::ShiftLeft(_)
            | Instruction::Random(_, _)
            | Instruction::ReadDelay(_) => self.execute_arithmetic(instruction, random),
            Instruction::SetDelay(_)
            | Instruction::SetSound(_)
            | Instruction::LoadIndex(_)
            | Instruction::AddIndex(_)
            | Instruction::Glyph(_)
            | Instruction::SuperGlyph(_) => self.execute_setting(instruction, random),
            Instruction::Bcd(_)
            | Instruction::Store(_)
            | Instruction::Fill(_)
            | Instruction::SaveFlags(_)
            | Instruction::LoadFlags(_) => self.execute_transfer(instruction, random),
        }
    }

    /// Decodes `opcode`, the word just read at the program counter, and
    /// executes it. The program counter moves past the instruction before
    /// the instruction takes effect. Where the word is no instruction or the
    /// instruction raises an error, nothing changes.
    fn process_opcode(&mut self, opcode: u16, random: u8) -> (result: Result<(), Chip8Error>)
        requires
            old(self).wf(),
            old(self).pc + 1 < 4096,
        ensures
            final(self).wf(),
            match decode_spec(opcode) {
                None => result == Err::<(), Chip8Error>(
                    Chip8Error::InvalidOpcode { opcode, pc: old(self)@.pc },
                ) && final(self)@ == old(self)@,
                Some(instruction) => match old(self)@.fault(instruction) {
                    Some(error) => result == Err::<(), Chip8Error>(error) && final(self)@ == old(
                        self,
                    )@,
                    None => result is Ok && final(self)@ == old(self)@.fetched().apply(
                        instruction,
                        random,
                    ),
                },
            },
    {
        let instruction = match decode(opcode) {
            Some(instruction) => instruction,
            None => {
                return Err(Chip8Error::InvalidOpcode { opcode, pc: self.pc });
            },
        };
        if let Some(error) = self.fault(instruction) {
            return Err(error);
        }
        self.pc += 2;
        self.should_draw = false;
        assert(self@ =~~= old(self)@.fetched());
        self.execute(instruction, random);
        Ok(())
    }

    /// Whether the next cycle will consult the random source.
    fn draws_random(&self) -> (wanted: bool)
        ensures
            wanted == self@.draws_random(),
    {
        if !self.is_running || self.pc as usize + 1 >= MEMORY_SIZE {
            return false;
        }
        match decode(self.fetch_opcode()) {
            Some(Instruction::Random(_, _)) => true,
            _ => false,
        }
    }

    /// Runs one fetch-decode-execute cycle with `random` as the byte that the
    /// random source would give. A halted machine is left as it is. On an
    /// error the machine is left as it is, too: calling again gives the same
    /// error.
    pub fn execute_cycle_with(&mut self, random: u8) -> (result: Result<(), Chip8Error>)
        requires
            old(self).wf(),
        ensures
            final(self).wf(),
            old(self)@.steps_to(random, result, final(self)@),
    {
        if !self.is_running {
            return Ok(());
        }
        if self.pc as usize + 1 >= MEMORY_SIZE {
            return Err(Chip8Error::OutOfBoundsAccess);
        }
        let opcode = self.fetch_opcode();
        self.process_opcode(opcode, random)
    }

    /// Runs one fetch-decode-execute cycle. Where the instruction asks for a
    /// random byte, the byte comes from the `rand` crate's thread-local
    /// generator, so the outcome is that of `execute_cycle_with` for some
    /// byte; every other instruction has the one outcome that
    /// `execute_cycle_with` gives it whatever the byte.
    pub fn execute_cycle(&mut self) -> (result: Result<(), Chip8Error>)
        requires
            old(self).wf(),
        ensures
            final(self).wf(),
            exists|random: u8| old(self)@.steps_to(random, result, final(self)@),
            !old(self)@.draws_random() ==> forall|random: u8|
                old(self)@.steps_to(random, result, final(self)@),
    {
        let random = if self.draws_random() {
            generate_u8()
        } else {
            0
        };
        let result = self.execute_cycle_with(random);
        proof {
            assert(old(self)@.steps_to(random, result, self@));
            if !old(self)@.draws_random() {
                assert forall|other: u8| old(self)@.steps_to(other, result, self@) by {
                    old(self)@.lemma_random_unused(random, other);
                }
            }
        }
        result
    }

    /// Decrements the delay and the sound timer by one tick, each unless it
    /// is zero already. A beep is asked for if this tick brought the sound
    /// timer to zero, and not otherwise.
    pub fn decrement_timers(&mut self)
        ensures
            final(self)@ == old(self)@.tick(),
            final(self).wf() == old(self).wf(),
    {
        if self.delay_timer > 0 {
            self.delay_timer -= 1;
        }
        self.should_beep = false;
        if self.sound_timer > 0 {
            self.sound_timer -= 1;
            if self.sound_timer == 0 {
                self.should_beep = true;
            }
        }
    }

    /// The bytes of the picture on display, `screen_width * screen_height /
    /// 8` of them in row-major order, eight pixels to a byte with the
    /// leftmost in the lowest bit. A set bit is a lit pixel.
    pub fn screen(&self) -> (bytes: &[u8])
        ensures
            bytes@.len() * 8 == self@.screen.active(),
            forall|i: int|
                0 <= i < self@.screen.active() ==> self@.screen.bits[i] == bit8(
                    bytes@[i / 8],
                    (i % 8) as u8,
                ),
    {
        self.screen.pixels()
    }

    /// Returns the width of the screen in pixels.
    pub fn screen_width(&self) -> (width: usize)
        ensures
            width == self@.screen.width(),
    {
        self.screen.width()
    }

    /// Returns the height of the screen in pixels.
    pub fn screen_height(&self) -> (height: usize)
        ensures
            height == self@.screen.height(),
    {
        self.screen.height()
    }

    /// Sets the state of a key to be pressed. `index` is the index of the key
    /// in row-major order.
    pub fn press_key(&mut self, index: usize)
        requires
            index < 16,
        ensures
            final(self)@ == (Machine { keys: old(self)@.keys.update(index as int, true), ..old(self)@ }),
            final(self).wf() == old(self).wf(),
    {
        self.keypad.press_key(index);
    }

    /// Sets the state of a key to be released. `index` is the index of the
    /// key in row-major order.
    pub fn release_key(&mut self, index: usize)
        requires
            index < 16,
        ensures
            final(self)@ == (Machine { keys: old(self)@.keys.update(index as int, false), ..old(self)@ }),
            final(self).wf() == old(self).wf(),
    {
        self.keypad.release_key(index);
    }

    /// Returns `true` if the last cycle executed an instruction of the
    /// display, so that the screen should be redrawn.
    pub fn should_draw(&self) -> (draw: bool)
        ensures
            draw == self@.should_draw,
    {
        self.should_draw
    }

    /// Returns `true` if the last timer tick brought the sound timer to zero,
    /// so that a beep should be made.
    pub fn should_beep(&self) -> (beep: bool)
        ensures
            beep == self@.should_beep,
    {
        self.should_beep
    }

    /// Returns `true` until the machine is halted.
    pub fn is_running(&self) -> (running: bool)
        ensures
            running == self@.running,
    {
        self.is_running
    }

    /// Returns the value of the program counter register.
    pub fn program_counter(&self) -> (pc: u16)
        ensures
            pc == self@.pc,
    {
        self.pc
    }

    /// Returns the value of the index register.
    pub fn index(&self) -> (index: u16)
        ensures
            index == self@.index,
    {
        self.index
    }

    /// Returns the 16 data registers.
    pub fn registers(&self) -> (registers: &[u8])
        ensures
            registers@ == self@.registers,
            registers@.len() == 16,
    {
        &self.registers
    }

    /// Returns the 4096 bytes of memory.
    pub fn memory(&self) -> (memory: &[u8])
        ensures
            memory@ == self@.memory,
            memory@.len() == 4096,
    {
        &self.memory
    }

    /// Returns the value of the delay timer.
    pub fn delay_timer(&self) -> (ticks: u8)
        ensures
            ticks == self@.delay_timer,
    {
        self.delay_timer
    }

    /// Returns the value of the sound timer.
    pub fn sound_timer(&self) -> (ticks: u8)
        ensures
            ticks == self@.sound_timer,
    {
        self.sound_timer
    }
}

impl Default for Chip8 {
    /// The same machine as `Chip8::new` gives.
    fn default() -> (chip8: Chip8)
        ensures
            chip8.wf(),
            chip8@ == Machine::blank(),
    {
        Chip8::new()
    }
}

} // verus!
