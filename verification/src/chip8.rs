use crate::display::draw_sprite;
use crate::fault::Fault;
use crate::font::FONT;
use crate::font::FONT_SIZE;
use crate::instruction::decode;
use crate::instruction::Instruction;
use crate::machine::any_key_down;
use crate::machine::is_lowest_key_down;
use crate::machine::lemma_same_machine;
use crate::machine::lowest_key_down;
use crate::machine::outcome;
use crate::machine::Machine;
use crate::machine::FLAG;
use crate::machine::LAST_INSTRUCTION;
use crate::machine::MEMORY_SIZE;
use crate::machine::PROGRAM_START;
use crate::random::random_below_256;
use crate::stack::CallStack;
use crate::timer::Timer;
use crate::timer::TimerModel;
use vstd::prelude::*;

verus! {

/// The virtual machine: memory, registers, call stack, timers, framebuffer
/// and key latch. Its view is the `Machine` that the instructions are
/// defined on.
#[derive(Debug)]
pub struct Chip8 {
    /// The instruction word being processed.
    pub opcode: u16,
    /// Registers `V0` to `VF`; `VF` doubles as the flag register.
    pub v: [u8; 16],
    /// The index register, which addresses memory.
    pub index: u16,
    /// The address of the instruction to run next.
    pub pc: u16,
    /// The return addresses of the subroutines being run.
    pub stack: CallStack,
    /// Counts down at 60 Hz.
    pub delay_timer: Timer,
    /// Counts down at 60 Hz; a buzzer sounds while it is not zero.
    pub sound_timer: Timer,
    /// The font from address 0, the program from `PROGRAM_START`.
    pub memory: [u8; 4096],
    /// The 64 x 32 display, row by row; the top left pixel comes first.
    pub gfx: [bool; 2048],
    /// The state of each of the sixteen keys.
    pub keyboard: [bool; 16],
}

impl View for Chip8 {
    type V = Machine;

    open spec fn view(&self) -> Machine {
        Machine {
            opcode: self.opcode,
            v: self.v@,
            index: self.index,
            pc: self.pc,
            stack: self.stack@,
            delay: self.delay_timer@,
            sound: self.sound_timer@,
            memory: self.memory@,
            gfx: self.gfx@,
            keyboard: self.keyboard@,
        }
    }
}

/// The view of every machine is well formed.
pub proof fn lemma_view_well_formed(chip: Chip8)
    ensures
        chip@.well_formed(),
{
}

/// Memory as it is before any program is loaded: the font, then zeros.
pub open spec fn font_memory() -> Seq<u8> {
    Seq::new(
        MEMORY_SIZE as nat,
        |a: int|
            if a < FONT_SIZE {
                FONT@[a]
            } else {
                0u8
            },
    )
}

/// The machine as it is switched on: font loaded, everything else zero, and
/// the program counter at the program start.
pub open spec fn power_on() -> Machine {
    Machine {
        opcode: 0,
        v: Seq::new(16, |r: int| 0u8),
        index: 0,
        pc: PROGRAM_START as u16,
        stack: Seq::empty(),
        delay: TimerModel { value: 0, armed: false },
        sound: TimerModel { value: 0, armed: false },
        memory: font_memory(),
        gfx: Seq::new(2048, |p: int| false),
        keyboard: Seq::new(16, |k: int| false),
    }
}

/// The effect of copying a program image into memory at the program start.
/// An image that would run past the end of memory is refused.
pub open spec fn program_loaded(machine: Machine, image: Seq<u8>) -> Result<Machine, Fault> {
    if PROGRAM_START + image.len() > MEMORY_SIZE {
        Err(Fault::ProgramTooLarge)
    } else {
        Ok(
            Machine {
                memory: Seq::new(
                    machine.memory.len(),
                    |a: int|
                        if PROGRAM_START <= a < PROGRAM_START + image.len() {
                            image[a - PROGRAM_START]
                        } else {
                            machine.memory[a]
                        },
                ),
                ..machine
            },
        )
    }
}

/// The lowest key that is down, if any.
pub fn first_key_down(keys: &[bool; 16]) -> (key: Option<u8>)
    ensures
        match key {
            Some(k) => is_lowest_key_down(keys@, k as int) && k == lowest_key_down(keys@),
            None => !any_key_down(keys@),
        },
{
    let mut k: u8 = 0;
    while k < 16
        invariant
            k <= 16,
            forall|j: int| 0 <= j < k ==> !#[trigger] keys@[j],
        decreases 16 - k,
    {
        if keys[k as usize] {
            assert(is_lowest_key_down(keys@, k as int));
            let ghost chosen = lowest_key_down(keys@);
            assert(is_lowest_key_down(keys@, chosen));
            assert(chosen == k) by {
                if chosen < k {
                    assert(!keys@[chosen]);
                }
                if k < chosen {
                    assert(!keys@[k as int]);
                }
            }
            return Some(k);
        }
        k = k + 1;
    }
    None
}

/// Copies `registers[0..=last]` to `memory[start..=start + last]`.
fn store_registers(memory: &mut [u8; 4096], registers: &[u8; 16], start: usize, last: usize)
    requires
        last < 16,
        start + last < MEMORY_SIZE,
    ensures
        final(memory)@ == Seq::new(
            MEMORY_SIZE as nat,
            |a: int|
                if start <= a <= start + last {
                    registers@[a - start]
                } else {
                    old(memory)@[a]
                },
        ),
{
    let ghost before = memory@;
    let mut r: usize = 0;
    while r <= last
        invariant
            r <= last + 1,
            last < 16,
            start + last < MEMORY_SIZE,
            forall|a: int|
                0 <= a < MEMORY_SIZE ==> #[trigger] memory@[a] == if start <= a < start + r {
                    registers@[a - start]
                } else {
                    before[a]
                },
        decreases last + 1 - r,
    {
        memory[start + r] = registers[r];
        r = r + 1;
    }
    assert(memory@ =~= Seq::new(
        MEMORY_SIZE as nat,
        |a: int|
            if start <= a <= start + last {
                registers@[a - start]
            } else {
                before[a]
            },
    ));
}

/// Copies `memory[start..=start + last]` to `registers[0..=last]`.
fn load_registers(registers: &mut [u8; 16], memory: &[u8; 4096], start: usize, last: usize)
    requires
        last < 16,
        start + last < MEMORY_SIZE,
    ensures
        final(registers)@ == Seq::new(
            16,
            |r: int|
                if r <= last {
                    memory@[start + r]
                } else {
                    old(registers)@[r]
                },
        ),
{
    let ghost before = registers@;
    let mut r: usize = 0;
    while r <= last
        invariant
            r <= last + 1,
            last < 16,
            start + last < MEMORY_SIZE,
            forall|i: int|
                0 <= i < 16 ==> #[trigger] registers@[i] == if i < r {
                    memory@[start + i]
                } else {
                    before[i]
                },
        decreases last + 1 - r,
    {
        registers[r] = memory[start + r];
        r = r + 1;
    }
    assert(registers@ =~= Seq::new(
        16,
        |i: int|
            if i <= last {
                memory@[start + i]
            } else {
                before[i]
            },
    ));
}

impl Chip8 {
    /// A machine switched on with `program` loaded at the program start.
    pub fn load(program: Vec<u8>) -> (loaded: Result<Chip8, Fault>)
        ensures
            match program_loaded(power_on(), program@) {
                Ok(machine) => loaded is Ok && loaded->Ok_0@ == machine,
                Err(fault) => loaded is Err && loaded->Err_0 == fault,
            },
    {
        let mut chip = Chip8::new();
        match chip.load_instructions(program.as_slice()) {
            Ok(()) => Ok(chip),
            Err(fault) => Err(fault),
        }
    }

    /// A machine switched on, with no program.
    pub fn new() -> (chip: Chip8)
        ensures
            chip@ == power_on(),
    {
        let chip = Chip8 {
            opcode: 0,
            v: [0; 16],
            index: 0,
            pc: 0x200,
            stack: CallStack::new(),
            delay_timer: Timer::new(),
            sound_timer: Timer::new(),
            memory: Chip8::init_memory(),
            gfx: [false; 2048],
            keyboard: [false; 16],
        };
        proof {
            lemma_same_machine(chip@, power_on());
        }
        chip
    }

    /// Memory with the font loaded and zero everywhere else.
    pub fn init_memory() -> (memory: [u8; 4096])
        ensures
            memory@ == font_memory(),
    {
        let mut memory = [0u8; 4096];
        Chip8::load_digits(&mut memory);
        assert(memory@ =~= font_memory());
        memory
    }

    /// Writes the font to the start of `memory` and leaves the rest.
    pub fn load_digits(memory: &mut [u8; 4096])
        ensures
            final(memory)@ == Seq::new(
                MEMORY_SIZE as nat,
                |a: int|
                    if a < FONT_SIZE {
                        FONT@[a]
                    } else {
                        old(memory)@[a]
                    },
            ),
    {
        let ghost before = memory@;
        let font = FONT;
        let mut a: usize = 0;
        while a < 80
            invariant
                a <= FONT_SIZE,
                font == FONT,
                forall|i: int|
                    0 <= i < MEMORY_SIZE ==> #[trigger] memory@[i] == if i < a {
                        FONT@[i]
                    } else {
                        before[i]
                    },
            decreases FONT_SIZE - a,
        {
            memory[a] = font[a];
            a = a + 1;
        }
        assert(memory@ =~= Seq::new(
            MEMORY_SIZE as nat,
            |a: int|
                if a < FONT_SIZE {
                    FONT@[a]
                } else {
                    before[a]
                },
        ));
    }

    /// Copies a program image into memory at the program start. An image
    /// that does not fit is refused and nothing is copied.
    pub fn load_instructions(&mut self, instructions: &[u8]) -> (result: Result<(), Fault>)
        ensures
            outcome(
                old(self)@,
                result,
                final(self)@,
                program_loaded(old(self)@, instructions@),
            ),
            final(self).delay_timer == old(self).delay_timer,
            final(self).sound_timer == old(self).sound_timer,
    {
        let len = instructions.len();
        if len > 4096 - 0x200 {
            return Err(Fault::ProgramTooLarge);
        }
        let mut i: usize = 0;
        while i < len
            invariant
                i <= len == instructions@.len(),
                len <= MEMORY_SIZE - PROGRAM_START,
                forall|a: int|
                    0 <= a < MEMORY_SIZE ==> #[trigger] self.memory@[a] == if PROGRAM_START <= a
                        < PROGRAM_START + i {
                        instructions@[a - PROGRAM_START]
                    } else {
                        old(self).memory@[a]
                    },
                self.opcode == old(self).opcode,
                self.v == old(self).v,
                self.index == old(self).index,
                self.pc == old(self).pc,
                self.stack == old(self).stack,
                self.delay_timer == old(self).delay_timer,
                self.sound_timer == old(self).sound_timer,
                self.gfx == old(self).gfx,
                self.keyboard == old(self).keyboard,
            decreases len - i,
        {
            self.memory[0x200 + i] = instructions[i];
            i = i + 1;
        }
        proof {
            lemma_same_machine(self@, program_loaded(old(self)@, instructions@)->Ok_0);
        }
        Ok(())
    }

    /// The sound timer's current value: a reading of the clock decides it.
    pub fn get_sound_timer(&self) -> (reading: u8)
        ensures
            self@.sound.may_read(reading),
            reading <= self@.sound.value,
            !self@.sound.armed ==> reading == 0,
    {
        let elapsed_millis: u128 = self.sound_timer.elapsed_millis();
        self.sound_timer.remaining_after(elapsed_millis)
    }

    /// The delay timer's current value: a reading of the clock decides it.
    pub fn get_delay_timer(&self) -> (reading: u8)
        ensures
            self@.delay.may_read(reading),
            reading <= self@.delay.value,
            !self@.delay.armed ==> reading == 0,
    {
        let elapsed_millis: u128 = self.delay_timer.elapsed_millis();
        self.delay_timer.remaining_after(elapsed_millis)
    }

    /// Runs one cycle: fetches the word at the program counter and processes
    /// it. The host's random byte and clock enter here, so the result is
    /// that of `Machine::cycle` for some byte that the host may supply.
    pub fn cycle(&mut self) -> (result: Result<(), Fault>)
        ensures
            exists|host: u8|
                old(self)@.fetched().accepts(host) && outcome(
                    old(self)@,
                    result,
                    final(self)@,
                    #[trigger] old(self)@.cycle(host),
                ),
            !old(self)@.fetched().arms_delay() ==> final(self).delay_timer == old(
                self,
            ).delay_timer,
            !old(self)@.fetched().arms_sound() ==> final(self).sound_timer == old(
                self,
            ).sound_timer,
    {
        if self.pc > LAST_INSTRUCTION {
            proof {
                let host = self@.fetched().delay.remaining(0) as u8;
                assert(self@.fetched().accepts(host));
                assert(self@.cycle(host) == Err::<Machine, Fault>(Fault::AddressOutOfRange));
            }
            return Err(Fault::AddressOutOfRange);
        }
        let latched: u16 = self.opcode;
        let high: u16 = self.memory[self.pc as usize] as u16;
        let low: u16 = self.memory[self.pc as usize + 1] as u16;
        self.opcode = high * 256 + low;
        let ghost fetched = self@;
        proof {
            lemma_same_machine(fetched, old(self)@.fetched());
        }
        let result = self.process_opcode();
        let ghost processed = self@;
        if result.is_err() {
            self.opcode = latched;
        }
        proof {
            let host = choose|host: u8|
                fetched.accepts(host) && outcome(
                    fetched,
                    result,
                    processed,
                    #[trigger] fetched.step(host),
                );
            if result.is_err() {
                lemma_same_machine(self@, old(self)@);
            }
            assert(outcome(old(self)@, result, self@, old(self)@.cycle(host)));
        }
        result
    }

    /// Processes the word in `opcode` as the instruction at the program
    /// counter. Where the instruction asks for a random byte or for the
    /// delay timer, the host supplies it, so the result is that of
    /// `Machine::step` for some byte that the host may supply.
    pub fn process_opcode(&mut self) -> (result: Result<(), Fault>)
        ensures
            exists|host: u8|
                old(self)@.accepts(host) && outcome(
                    old(self)@,
                    result,
                    final(self)@,
                    #[trigger] old(self)@.step(host),
                ),
            !old(self)@.arms_delay() ==> final(self).delay_timer == old(self).delay_timer,
            !old(self)@.arms_sound() ==> final(self).sound_timer == old(self).sound_timer,
    {
        let host: u8 = match decode(self.opcode) {
            Instruction::Random { .. } => random_below_256() as u8,
            Instruction::LoadDelay { .. } => self.get_delay_timer(),
            _ => 0,
        };
        assert(self@.accepts(host));
        self.execute(host)
    }

    /// Processes the word in `opcode` as the instruction at the program
    /// counter, with `host` as the byte that the host supplies: the random
    /// byte for `Cxkk`, the delay timer's reading for `Fx07`.
    pub fn execute(&mut self, host: u8) -> (result: Result<(), Fault>)
        ensures
            outcome(old(self)@, result, final(self)@, old(self)@.step(host)),
            !old(self)@.arms_delay() ==> final(self).delay_timer == old(self).delay_timer,
            !old(self)@.arms_sound() ==> final(self).sound_timer == old(self).sound_timer,
    {
        if self.pc > LAST_INSTRUCTION {
            return Err(Fault::AddressOutOfRange);
        }
        let ins = decode(self.opcode);
        match ins {
            Instruction::ClearScreen
            | Instruction::Return
            | Instruction::System { .. }
            | Instruction::Jump { .. }
            | Instruction::Call { .. }
            | Instruction::JumpOffset { .. }
            | Instruction::NoOperation => self.flow(ins, host),
            Instruction::SkipIfEqual { .. }
            | Instruction::SkipIfNotEqual { .. }
            | Instruction::SkipIfRegistersEqual { .. }
            | Instruction::SkipIfRegistersDiffer { .. }
            | Instruction::SkipIfKey { .. }
            | Instruction::SkipIfNotKey { .. } => self.skip(ins, host),
            Instruction::Load { .. }
            | Instruction::AddByte { .. }
            | Instruction::Move { .. }
            | Instruction::Or { .. }
            | Instruction::And { .. }
            | Instruction::Xor { .. }
            | Instruction::Random { .. }
            | Instruction::LoadDelay { .. } => self.assign(ins, host),
            Instruction::AddRegister { .. }
            | Instruction::Subtract { .. }
            | Instruction::ShiftRight { .. }
            | Instruction::SubtractFrom { .. }
            | Instruction::ShiftLeft { .. } => self.arithmetic(ins, host),
            Instruction::Draw { .. } => self.draw(ins, host),
            Instruction::WaitKey { .. }
            | Instruction::SetDelay { .. }
            | Instruction::SetSound { .. } => self.attend(ins, host),
            Instruction::LoadIndex { .. }
            | Instruction::AddIndex { .. }
            | Instruction::LoadGlyph { .. } => self.point(ins, host),
            Instruction::StoreDecimal { .. }
            | Instruction::StoreRegisters { .. }
            | Instruction::LoadRegisters { .. } => self.transfer(ins, host),
        }
    }

    /// The instructions that only move the program counter or the stack, and
    /// the one that clears the screen.
    fn flow(&mut self, ins: Instruction, host: u8) -> (result: Result<(), Fault>)
        requires
            old(self).pc <= LAST_INSTRUCTION,
            ins.well_formed(),
            ins is ClearScreen || ins is Return || ins is System || ins is Jump || ins is Call
                || ins is JumpOffset || ins is NoOperation,
        ensures
            outcome(old(self)@, result, final(self)@, old(self)@.execute(ins, host)),
            !(ins is SetDelay) ==> final(self).delay_timer == old(self).delay_timer,
            !(ins is SetSound) ==> final(self).sound_timer == old(self).sound_timer,
    {
        reveal(Machine::execute);
        let next: u16 = self.pc + 2;
        match ins {
            Instruction::ClearScreen => {
                self.gfx = [false; 2048];
                self.pc = next;
            },
            Instruction::Return => {
                match self.stack.pop() {
                    Some(addr) => {
                        self.pc = addr;
                    },
                    None => {
                        return Err(Fault::StackUnderflow);
                    },
                }
            },
            Instruction::System { addr } => {
                self.pc = addr;
            },
            Instruction::Jump { addr } => {
                self.pc = addr;
            },
            Instruction::Call { addr } => {
                if !self.stack.push(next) {
                    return Err(Fault::StackOverflow);
                }
                self.pc = addr;
            },
            Instruction::JumpOffset { addr } => {
                self.pc = self.v[0] as u16 + addr;
            },
            _ => {
                self.pc = next;
            },
        }
        proof {
            lemma_same_machine(self@, old(self)@.execute(ins, host)->Ok_0);
        }
        Ok(())
    }

    /// The instructions that skip the next one on a condition.
    fn skip(&mut self, ins: Instruction, host: u8) -> (result: Result<(), Fault>)
        requires
            old(self).pc <= LAST_INSTRUCTION,
            ins.well_formed(),
            ins is SkipIfEqual || ins is SkipIfNotEqual || ins is SkipIfRegistersEqual
                || ins is SkipIfRegistersDiffer || ins is SkipIfKey || ins is SkipIfNotKey,
        ensures
            outcome(old(self)@, result, final(self)@, old(self)@.execute(ins, host)),
            !(ins is SetDelay) ==> final(self).delay_timer == old(self).delay_timer,
            !(ins is SetSound) ==> final(self).sound_timer == old(self).sound_timer,
    {
        reveal(Machine::execute);
        let skipped: bool = match ins {
            Instruction::SkipIfEqual { x, byte } => self.v[x as usize] == byte,
            Instruction::SkipIfNotEqual { x, byte } => self.v[x as usize] != byte,
            Instruction::SkipIfRegistersEqual { x, y } => self.v[x as usize] == self.v[y as usize],
            Instruction::SkipIfRegistersDiffer { x, y } => self.v[x as usize]
                != self.v[y as usize],
            Instruction::SkipIfKey { x } => {
                let key: u8 = self.v[x as usize];
                if key >= 16 {
                    return Err(Fault::KeyOutOfRange);
                }
                self.keyboard[key as usize]
            },
            Instruction::SkipIfNotKey { x } => {
                let key: u8 = self.v[x as usize];
                if key >= 16 {
                    return Err(Fault::KeyOutOfRange);
                }
                !self.keyboard[key as usize]
            },
            _ => false,
        };
        self.pc = if skipped {
            self.pc + 4
        } else {
            self.pc + 2
        };
        proof {
            lemma_same_machine(self@, old(self)@.execute(ins, host)->Ok_0);
        }
        Ok(())
    }

    /// The instructions that give one register a new value and touch nothing
    /// else.
    fn assign(&mut self, ins: Instruction, host: u8) -> (result: Result<(), Fault>)
        requires
            old(self).pc <= LAST_INSTRUCTION,
            ins.well_formed(),
            ins is Load || ins is AddByte || ins is Move || ins is Or || ins is And || ins is Xor
                || ins is Random || ins is LoadDelay,
        ensures
            outcome(old(self)@, result, final(self)@, old(self)@.execute(ins, host)),
            !(ins is SetDelay) ==> final(self).delay_timer == old(self).delay_timer,
            !(ins is SetSound) ==> final(self).sound_timer == old(self).sound_timer,
    {
        reveal(Machine::execute);
        match ins {
            Instruction::Load { x, byte } => {
                self.v[x as usize] = byte;
            },
            Instruction::AddByte { x, byte } => {
                self.v[x as usize] = self.v[x as usize].wrapping_add(byte);
            },
            Instruction::Move { x, y } => {
                self.v[x as usize] = self.v[y as usize];
            },
            Instruction::Or { x, y } => {
                self.v[x as usize] = self.v[x as usize] | self.v[y as usize];
            },
            Instruction::And { x, y } => {
                self.v[x as usize] = self.v[x as usize] & self.v[y as usize];
            },
            Instruction::Xor { x, y } => {
                self.v[x as usize] = self.v[x as usize] ^ self.v[y as usize];
            },
            Instruction::Random { x, byte } => {
                self.v[x as usize] = host & byte;
            },
            Instruction::LoadDelay { x } => {
                self.v[x as usize] = host;
            },
            _ => {},
        }
        self.pc = self.pc + 2;
        proof {
            lemma_same_machine(self@, old(self)@.execute(ins, host)->Ok_0);
        }
        Ok(())
    }

    /// The instructions that compute on registers and report in the flag.
    fn arithmetic(&mut self, ins: Instruction, host: u8) -> (result: Result<(), Fault>)
        requires
            old(self).pc <= LAST_INSTRUCTION,
            ins.well_formed(),
            ins is AddRegister || ins is Subtract || ins is ShiftRight || ins is SubtractFrom
                || ins is ShiftLeft,
        ensures
            outcome(old(self)@, result, final(self)@, old(self)@.execute(ins, host)),
            !(ins is SetDelay) ==> final(self).delay_timer == old(self).delay_timer,
            !(ins is SetSound) ==> final(self).sound_timer == old(self).sound_timer,
    {
        reveal(Machine::execute);
        match ins {
            Instruction::AddRegister { x, y } => {
                let sum: u16 = self.v[x as usize] as u16 + self.v[y as usize] as u16;
                self.v[x as usize] = (sum % 256) as u8;
                self.v[FLAG] = if sum > 255 {
                    1
                } else {
                    0
                };
            },
            Instruction::Subtract { x, y } => {
                self.v[FLAG] = if self.v[x as usize] >= self.v[y as usize] {
                    1
                } else {
                    0
                };
                self.v[x as usize] = self.v[x as usize].wrapping_sub(self.v[y as usize]);
            },
            Instruction::ShiftRight { x } => {
                let shifted_out: u8 = self.v[x as usize];
                let low: u8 = shifted_out & 1;
                assert(low == shifted_out % 2) by (bit_vector)
                    requires
                        low == shifted_out & 1,
                ;
                self.v[FLAG] = low;
                let value: u8 = self.v[x as usize];
                let halved: u8 = value >> 1;
                assert(halved == value / 2) by (bit_vector)
                    requires
                        halved == value >> 1,
                ;
                self.v[x as usize] = halved;
            },
            Instruction::SubtractFrom { x, y } => {
                self.v[FLAG] = if self.v[y as usize] > self.v[x as usize] {
                    1
                } else {
                    0
                };
                self.v[x as usize] = self.v[y as usize].wrapping_sub(self.v[x as usize]);
            },
            Instruction::ShiftLeft { x } => {
                let shifted_out: u8 = self.v[x as usize];
                let high: u8 = shifted_out & 0x80;
                assert((high != 0) == (shifted_out >= 128)) by (bit_vector)
                    requires
                        high == shifted_out & 0x80,
                ;
                self.v[FLAG] = if high != 0 {
                    1
                } else {
                    0
                };
                let value: u8 = self.v[x as usize];
                let doubled: u8 = value << 1;
                assert(doubled == (value * 2) % 256) by (bit_vector)
                    requires
                        doubled == value << 1,
                ;
                self.v[x as usize] = doubled;
            },
            _ => {},
        }
        self.pc = self.pc + 2;
        proof {
            lemma_same_machine(self@, old(self)@.execute(ins, host)->Ok_0);
        }
        Ok(())
    }

    /// The draw instruction.
    fn draw(&mut self, ins: Instruction, host: u8) -> (result: Result<(), Fault>)
        requires
            old(self).pc <= LAST_INSTRUCTION,
            ins.well_formed(),
            ins is Draw,
        ensures
            outcome(old(self)@, result, final(self)@, old(self)@.execute(ins, host)),
            !(ins is SetDelay) ==> final(self).delay_timer == old(self).delay_timer,
            !(ins is SetSound) ==> final(self).sound_timer == old(self).sound_timer,
    {
        reveal(Machine::execute);
        if let Instruction::Draw { x, y, rows } = ins {
            let start: usize = self.index as usize;
            if start + rows as usize > 4096 {
                return Err(Fault::AddressOutOfRange);
            }
            let left: u8 = self.v[x as usize];
            let top: u8 = self.v[y as usize];
            let collision = draw_sprite(
                &mut self.gfx,
                &self.memory,
                start,
                rows as usize,
                left,
                top,
            );
            self.v[FLAG] = if collision {
                1
            } else {
                0
            };
            self.pc = self.pc + 2;
        }
        proof {
            lemma_same_machine(self@, old(self)@.execute(ins, host)->Ok_0);
        }
        Ok(())
    }

    /// The instructions that wait on the keys or arm a timer.
    fn attend(&mut self, ins: Instruction, host: u8) -> (result: Result<(), Fault>)
        requires
            old(self).pc <= LAST_INSTRUCTION,
            ins.well_formed(),
            ins is WaitKey || ins is SetDelay || ins is SetSound,
        ensures
            outcome(old(self)@, result, final(self)@, old(self)@.execute(ins, host)),
            !(ins is SetDelay) ==> final(self).delay_timer == old(self).delay_timer,
            !(ins is SetSound) ==> final(self).sound_timer == old(self).sound_timer,
    {
        reveal(Machine::execute);
        match ins {
            Instruction::WaitKey { x } => {
                match first_key_down(&self.keyboard) {
                    Some(key) => {
                        self.v[x as usize] = key;
                        self.pc = self.pc + 2;
                    },
                    None => {},
                }
            },
            Instruction::SetDelay { x } => {
                self.delay_timer.arm(self.v[x as usize]);
                self.pc = self.pc + 2;
            },
            Instruction::SetSound { x } => {
                self.sound_timer.arm(self.v[x as usize]);
                self.pc = self.pc + 2;
            },
            _ => {},
        }
        proof {
            lemma_same_machine(self@, old(self)@.execute(ins, host)->Ok_0);
        }
        Ok(())
    }

    /// The instructions that set the index register.
    fn point(&mut self, ins: Instruction, host: u8) -> (result: Result<(), Fault>)
        requires
            old(self).pc <= LAST_INSTRUCTION,
            ins.well_formed(),
            ins is LoadIndex || ins is AddIndex || ins is LoadGlyph,
        ensures
            outcome(old(self)@, result, final(self)@, old(self)@.execute(ins, host)),
            !(ins is SetDelay) ==> final(self).delay_timer == old(self).delay_timer,
            !(ins is SetSound) ==> final(self).sound_timer == old(self).sound_timer,
    {
        reveal(Machine::execute);
        match ins {
            Instruction::LoadIndex { addr } => {
                self.index = addr;
            },
            Instruction::AddIndex { x } => {
                let offset: u16 = self.v[x as usize] as u16;
                if offset > u16::MAX - self.index {
                    return Err(Fault::AddressOutOfRange);
                }
                self.index = self.index + offset;
            },
            Instruction::LoadGlyph { x } => {
                self.index = self.v[x as usize] as u16 * 5;
            },
            _ => {},
        }
        self.pc = self.pc + 2;
        proof {
            lemma_same_machine(self@, old(self)@.execute(ins, host)->Ok_0);
        }
        Ok(())
    }

    /// The instructions that move bytes between registers and memory.
    fn transfer(&mut self, ins: Instruction, host: u8) -> (result: Result<(), Fault>)
        requires
            old(self).pc <= LAST_INSTRUCTION,
            ins.well_formed(),
            ins is StoreDecimal || ins is StoreRegisters || ins is LoadRegisters,
        ensures
            outcome(old(self)@, result, final(self)@, old(self)@.execute(ins, host)),
            !(ins is SetDelay) ==> final(self).delay_timer == old(self).delay_timer,
            !(ins is SetSound) ==> final(self).sound_timer == old(self).sound_timer,
    {
        reveal(Machine::execute);
        let at: usize = self.index as usize;
        match ins {
            Instruction::StoreDecimal { x } => {
                if at + 3 > 4096 {
                    return Err(Fault::AddressOutOfRange);
                }
                let value: u8 = self.v[x as usize];
                self.memory[at] = value / 100;
                self.memory[at + 1] = (value / 10) % 10;
                self.memory[at + 2] = value % 10;
            },
            Instruction::StoreRegisters { x } => {
                if at + x as usize >= 4096 {
                    return Err(Fault::AddressOutOfRange);
                }
                store_registers(&mut self.memory, &self.v, at, x as usize);
            },
            Instruction::LoadRegisters { x } => {
                if at + x as usize >= 4096 {
                    return Err(Fault::AddressOutOfRange);
                }
                load_registers(&mut self.v, &self.memory, at, x as usize);
            },
            _ => {},
        }
        self.pc = self.pc + 2;
        proof {
            lemma_same_machine(self@, old(self)@.execute(ins, host)->Ok_0);
        }
        Ok(())
    }

    /// Draws the sixteen glyphs of the font as a four by four sheet, by
    /// running for each digit the instruction that points the index register
    /// at its glyph and a draw instruction. The program counter moves on by
    /// two for each instruction, so this succeeds exactly when it starts low
    /// enough for all thirty-two of them.
    pub fn test_drawing(&mut self) -> (result: Result<(), Fault>)
        ensures
            (final(self)@, result) == old(self)@.sheet_from(0),
            result is Ok <==> old(self).pc <= LAST_INSTRUCTION - 62,
            final(self).delay_timer == old(self).delay_timer,
            final(self).sound_timer == old(self).sound_timer,
    {
        let mut digit: u8 = 0;
        while digit < 16
            invariant
                digit <= 16,
                old(self)@.sheet_from(0) == self@.sheet_from(digit as nat),
                self.pc == old(self).pc + 4 * digit,
                digit > 0 ==> self.pc <= LAST_INSTRUCTION + 2,
                self.delay_timer == old(self).delay_timer,
                self.sound_timer == old(self).sound_timer,
            decreases 16 - digit,
        {
            let ghost before = self@;
            self.opcode = 0xF029;
            self.v[0] = digit;
            proof {
                reveal(Machine::execute);
                lemma_same_machine(self@, before.glyph_pointed(digit as int));
            }
            match self.execute(0) {
                Ok(()) => {},
                Err(fault) => {
                    return Err(fault);
                },
            }
            let ghost ready = self@;
            self.opcode = 0xD015;
            self.v[0] = 3 + digit * 16;
            self.v[1] = 3 + digit / 4 * 6;
            proof {
                lemma_same_machine(self@, ready.glyph_placed(digit as int));
            }
            match self.execute(0) {
                Ok(()) => {},
                Err(fault) => {
                    return Err(fault);
                },
            }
            digit = digit + 1;
        }
        Ok(())
    }
}

} // verus!
