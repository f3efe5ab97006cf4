use crate::display::blit;
use crate::display::collides;
use crate::fault::Fault;
use crate::font::glyph_address;
use crate::instruction::decode_spec;
use crate::instruction::Instruction;
use crate::timer::TimerModel;
use vstd::prelude::*;

verus! {

/// Bytes of memory.
pub const MEMORY_SIZE: usize = 4096;

/// Where a loaded program starts.
pub const PROGRAM_START: usize = 0x200;

/// The highest address at which an instruction can be fetched: its second
/// byte is the last byte of memory.
pub const LAST_INSTRUCTION: u16 = 0xFFE;

/// The index of the flag register.
pub const FLAG: usize = 0xF;

/// The value `n` wrapped into eight bits.
pub open spec fn wrap8(n: int) -> u8 {
    (n % 256) as u8
}

/// Whether `k` is the lowest key that is down.
pub open spec fn is_lowest_key_down(keys: Seq<bool>, k: int) -> bool {
    &&& 0 <= k < keys.len()
    &&& keys[k]
    &&& forall|j: int| 0 <= j < k ==> !#[trigger] keys[j]
}

/// Whether any key is down.
pub open spec fn any_key_down(keys: Seq<bool>) -> bool {
    exists|k: int| 0 <= k < keys.len() && #[trigger] keys[k]
}

/// The lowest key that is down, where there is one.
pub open spec fn lowest_key_down(keys: Seq<bool>) -> int {
    choose|k: int| is_lowest_key_down(keys, k)
}

/// The state of the machine as plain values: what the instructions read and
/// change. Of each timer it holds the value it was armed with and whether it
/// is armed, not the time at which that happened.
pub struct Machine {
    /// The instruction word being processed.
    pub opcode: u16,
    /// The sixteen registers `V0` to `VF`.
    pub v: Seq<u8>,
    /// The index register.
    pub index: u16,
    /// The program counter.
    pub pc: u16,
    /// The live return addresses, the most recent last. Its length is the
    /// stack pointer.
    pub stack: Seq<u16>,
    /// The delay timer.
    pub delay: TimerModel,
    /// The sound timer.
    pub sound: TimerModel,
    /// The 4096 bytes of memory.
    pub memory: Seq<u8>,
    /// The 64 x 32 pixels, row by row.
    pub gfx: Seq<bool>,
    /// The sixteen keys: `true` for a key that is down.
    pub keyboard: Seq<bool>,
}

impl Machine {
    /// The registers, the memory, the framebuffer and the key latch have the
    /// sizes the machine gives them.
    pub open spec fn well_formed(self) -> bool {
        &&& self.v.len() == 16
        &&& self.memory.len() == MEMORY_SIZE
        &&& self.gfx.len() == 2048
        &&& self.keyboard.len() == 16
    }

    /// The big-endian word held at `addr` and `addr + 1`.
    pub open spec fn word_at(self, addr: int) -> u16 {
        (self.memory[addr] as int * 256 + self.memory[addr + 1] as int) as u16
    }

    /// The address of the instruction after the current one.
    pub open spec fn next(self) -> u16 {
        (self.pc + 2) as u16
    }

    /// The machine with the program counter at `pc`.
    pub open spec fn at(self, pc: u16) -> Machine {
        Machine { pc, ..self }
    }

    /// The machine gone on to the next instruction.
    pub open spec fn advanced(self) -> Machine {
        self.at(self.next())
    }

    /// The machine gone on to the next instruction, or to the one after it
    /// when `skip` holds.
    pub open spec fn skipping(self, skip: bool) -> Machine {
        if skip {
            self.at((self.pc + 4) as u16)
        } else {
            self.advanced()
        }
    }

    /// The machine with register `x` set to `value`.
    pub open spec fn with_register(self, x: int, value: u8) -> Machine {
        Machine { v: self.v.update(x, value), ..self }
    }

    /// The machine with the flag register set to 1 or 0.
    pub open spec fn with_flag(self, set: bool) -> Machine {
        self.with_register(
            FLAG as int,
            if set {
                1
            } else {
                0
            },
        )
    }

    /// The sprite of `rows` rows that the index register points at.
    pub open spec fn sprite(self, rows: int) -> Seq<u8> {
        self.memory.subrange(self.index as int, self.index + rows)
    }

    /// The effect of a subroutine return.
    pub open spec fn returned(self) -> Result<Machine, Fault> {
        if self.stack.len() == 0 {
            Err(Fault::StackUnderflow)
        } else {
            Ok(Machine { pc: self.stack.last(), stack: self.stack.drop_last(), ..self })
        }
    }

    /// The effect of a subroutine call to `addr`.
    pub open spec fn called(self, addr: u16) -> Result<Machine, Fault> {
        if self.stack.len() >= 16 {
            Err(Fault::StackOverflow)
        } else {
            Ok(Machine { pc: addr, stack: self.stack.push(self.next()), ..self })
        }
    }

    /// `V[x] := V[x] + V[y]`, then the flag is set to the carry.
    pub open spec fn added(self, x: int, y: int) -> Machine {
        let sum = self.v[x] + self.v[y];
        self.with_register(x, wrap8(sum)).with_flag(sum >= 256)
    }

    /// The flag is set when no borrow is needed, `V[x] >= V[y]`, then
    /// `V[x] := V[x] - V[y]`.
    pub open spec fn subtracted(self, x: int, y: int) -> Machine {
        let flagged = self.with_flag(self.v[x] >= self.v[y]);
        flagged.with_register(x, wrap8(flagged.v[x] - flagged.v[y]))
    }

    /// The flag is set to `V[y] > V[x]`, then `V[x] := V[y] - V[x]`.
    pub open spec fn subtracted_from(self, x: int, y: int) -> Machine {
        let flagged = self.with_flag(self.v[y] > self.v[x]);
        flagged.with_register(x, wrap8(flagged.v[y] - flagged.v[x]))
    }

    /// The flag is set to the low bit of `V[x]`, then `V[x]` is halved.
    pub open spec fn shifted_right(self, x: int) -> Machine {
        let flagged = self.with_flag(self.v[x] % 2 == 1);
        flagged.with_register(x, (flagged.v[x] / 2) as u8)
    }

    /// The flag is set to the high bit of `V[x]`, then `V[x]` is doubled,
    /// wrapping.
    pub open spec fn shifted_left(self, x: int) -> Machine {
        let flagged = self.with_flag(self.v[x] >= 128);
        flagged.with_register(x, wrap8(flagged.v[x] * 2))
    }

    /// The effect of drawing the `rows`-row sprite at the index register at
    /// `(V[x], V[y])`: the framebuffer is blitted and the flag says whether a
    /// lit pixel went dark.
    pub open spec fn drawn(self, x: int, y: int, rows: int) -> Result<Machine, Fault> {
        if self.index + rows > MEMORY_SIZE {
            Err(Fault::AddressOutOfRange)
        } else {
            let sprite = self.sprite(rows);
            let left = self.v[x] as int;
            let top = self.v[y] as int;
            Ok(
                Machine { gfx: blit(self.gfx, sprite, left, top), ..self }.with_flag(
                    collides(self.gfx, sprite, left, top),
                ).advanced(),
            )
        }
    }

    /// The effect of a key test: skip when key `V[x]` is down, if `when_down`
    /// holds, or when it is up, if not.
    pub open spec fn key_tested(self, x: int, when_down: bool) -> Result<Machine, Fault> {
        if self.v[x] >= 16 {
            Err(Fault::KeyOutOfRange)
        } else {
            Ok(self.skipping(self.keyboard[self.v[x] as int] == when_down))
        }
    }

    /// The effect of waiting for a key: with a key down, `V[x]` takes the
    /// lowest such key; with none, nothing changes, so that the same
    /// instruction is met again.
    pub open spec fn key_awaited(self, x: int) -> Machine {
        if any_key_down(self.keyboard) {
            self.with_register(x, lowest_key_down(self.keyboard) as u8).advanced()
        } else {
            self
        }
    }

    /// The effect of storing the decimal digits of `V[x]` at the index
    /// register: hundreds, tens, ones.
    pub open spec fn decimal_stored(self, x: int) -> Result<Machine, Fault> {
        if self.index + 3 > MEMORY_SIZE {
            Err(Fault::AddressOutOfRange)
        } else {
            let value = self.v[x] as int;
            let at = self.index as int;
            Ok(
                Machine {
                    memory: self.memory.update(at, (value / 100) as u8).update(
                        at + 1,
                        ((value / 10) % 10) as u8,
                    ).update(at + 2, (value % 10) as u8),
                    ..self
                }.advanced(),
            )
        }
    }

    /// The effect of storing `V[0..=x]` at the index register.
    pub open spec fn registers_stored(self, x: int) -> Result<Machine, Fault> {
        if self.index + x >= MEMORY_SIZE {
            Err(Fault::AddressOutOfRange)
        } else {
            let at = self.index as int;
            Ok(
                Machine {
                    memory: Seq::new(
                        self.memory.len(),
                        |a: int|
                            if at <= a <= at + x {
                                self.v[a - at]
                            } else {
                                self.memory[a]
                            },
                    ),
                    ..self
                }.advanced(),
            )
        }
    }

    /// The effect of loading `V[0..=x]` from the index register.
    pub open spec fn registers_loaded(self, x: int) -> Result<Machine, Fault> {
        if self.index + x >= MEMORY_SIZE {
            Err(Fault::AddressOutOfRange)
        } else {
            let at = self.index as int;
            Ok(
                Machine {
                    v: Seq::new(
                        self.v.len(),
                        |r: int|
                            if r <= x {
                                self.memory[at + r]
                            } else {
                                self.v[r]
                            },
                    ),
                    ..self
                }.advanced(),
            )
        }
    }

    /// The effect of adding `V[x]` to the index register.
    pub open spec fn index_added(self, x: int) -> Result<Machine, Fault> {
        if self.index + self.v[x] > u16::MAX {
            Err(Fault::AddressOutOfRange)
        } else {
            Ok(Machine { index: (self.index + self.v[x]) as u16, ..self }.advanced())
        }
    }

    /// The effect of the instruction `ins` on a machine whose program counter
    /// is at that instruction. `host` is the byte that the host supplies: the
    /// random byte for `Random`, the delay timer's reading for `LoadDelay`.
    /// No other instruction looks at it.
    #[verifier::opaque]
    pub open spec fn execute(self, ins: Instruction, host: u8) -> Result<Machine, Fault> {
        match ins {
            Instruction::ClearScreen => Ok(
                Machine { gfx: Seq::new(self.gfx.len(), |p: int| false), ..self }.advanced(),
            ),
            Instruction::Return => self.returned(),
            Instruction::System { addr } => Ok(self.at(addr)),
            Instruction::Jump { addr } => Ok(self.at(addr)),
            Instruction::Call { addr } => self.called(addr),
            Instruction::SkipIfEqual { x, byte } => Ok(self.skipping(self.v[x as int] == byte)),
            Instruction::SkipIfNotEqual { x, byte } => Ok(
                self.skipping(self.v[x as int] != byte),
            ),
            Instruction::SkipIfRegistersEqual { x, y } => Ok(
                self.skipping(self.v[x as int] == self.v[y as int]),
            ),
            Instruction::Load { x, byte } => Ok(self.with_register(x as int, byte).advanced()),
            Instruction::AddByte { x, byte } => Ok(
                self.with_register(x as int, wrap8(self.v[x as int] + byte)).advanced(),
            ),
            Instruction::Move { x, y } => Ok(
                self.with_register(x as int, self.v[y as int]).advanced(),
            ),
            Instruction::Or { x, y } => Ok(
                self.with_register(x as int, self.v[x as int] | self.v[y as int]).advanced(),
            ),
            Instruction::And { x, y } => Ok(
                self.with_register(x as int, self.v[x as int] & self.v[y as int]).advanced(),
            ),
            Instruction::Xor { x, y } => Ok(
                self.with_register(x as int, self.v[x as int] ^ self.v[y as int]).advanced(),
            ),
            Instruction::AddRegister { x, y } => Ok(self.added(x as int, y as int).advanced()),
            Instruction::Subtract { x, y } => Ok(self.subtracted(x as int, y as int).advanced()),
            Instruction::ShiftRight { x } => Ok(self.shifted_right(x as int).advanced()),
            Instruction::SubtractFrom { x, y } => Ok(
                self.subtracted_from(x as int, y as int).advanced(),
            ),
            Instruction::ShiftLeft { x } => Ok(self.shifted_left(x as int).advanced()),
            Instruction::SkipIfRegistersDiffer { x, y } => Ok(
                self.skipping(self.v[x as int] != self.v[y as int]),
            ),
            Instruction::LoadIndex { addr } => Ok(Machine { index: addr, ..self }.advanced()),
            Instruction::JumpOffset { addr } => Ok(self.at((self.v[0] + addr) as u16)),
            Instruction::Random { x, byte } => Ok(
                self.with_register(x as int, host & byte).advanced(),
            ),
            Instruction::Draw { x, y, rows } => self.drawn(x as int, y as int, rows as int),
            Instruction::SkipIfKey { x } => self.key_tested(x as int, true),
            Instruction::SkipIfNotKey { x } => self.key_tested(x as int, false),
            Instruction::LoadDelay { x } => Ok(self.with_register(x as int, host).advanced()),
            Instruction::WaitKey { x } => Ok(self.key_awaited(x as int)),
            Instruction::SetDelay { x } => Ok(
                Machine {
                    delay: TimerModel { value: self.v[x as int], armed: true },
                    ..self
                }.advanced(),
            ),
            Instruction::SetSound { x } => Ok(
                Machine {
                    sound: TimerModel { value: self.v[x as int], armed: true },
                    ..self
                }.advanced(),
            ),
            Instruction::AddIndex { x } => self.index_added(x as int),
            Instruction::LoadGlyph { x } => Ok(
                Machine { index: glyph_address(self.v[x as int] as int) as u16, ..self }.advanced(),
            ),
            Instruction::StoreDecimal { x } => self.decimal_stored(x as int),
            Instruction::StoreRegisters { x } => self.registers_stored(x as int),
            Instruction::LoadRegisters { x } => self.registers_loaded(x as int),
            Instruction::NoOperation => Ok(self.advanced()),
        }
    }

    /// The machine with the word at the program counter in the opcode latch.
    pub open spec fn fetched(self) -> Machine {
        Machine { opcode: self.word_at(self.pc as int), ..self }
    }

    /// The instruction in the opcode latch.
    pub open spec fn instruction(self) -> Instruction {
        decode_spec(self.opcode)
    }

    /// The bytes that the host can supply for the instruction in the opcode
    /// latch. For `LoadDelay` it is a reading of the delay timer; for every
    /// other instruction any byte will do.
    pub open spec fn accepts(self, host: u8) -> bool {
        self.instruction() is LoadDelay ==> self.delay.may_read(host)
    }

    /// Whether processing the word in the opcode latch arms the delay timer.
    pub open spec fn arms_delay(self) -> bool {
        self.pc <= LAST_INSTRUCTION && self.instruction() is SetDelay
    }

    /// Whether processing the word in the opcode latch arms the sound timer.
    pub open spec fn arms_sound(self) -> bool {
        self.pc <= LAST_INSTRUCTION && self.instruction() is SetSound
    }

    /// The effect of processing the word in the opcode latch as the
    /// instruction at the program counter.
    pub open spec fn step(self, host: u8) -> Result<Machine, Fault> {
        if self.pc > LAST_INSTRUCTION {
            Err(Fault::AddressOutOfRange)
        } else {
            self.execute(self.instruction(), host)
        }
    }

    /// The effect of one cycle: the word at the program counter is fetched
    /// into the opcode latch and processed.
    pub open spec fn cycle(self, host: u8) -> Result<Machine, Fault> {
        if self.pc > LAST_INSTRUCTION {
            Err(Fault::AddressOutOfRange)
        } else {
            self.fetched().step(host)
        }
    }

    /// The machine set up to point the index register at the glyph for
    /// `digit`: the instruction `F029` with `V0 = digit`.
    pub open spec fn glyph_pointed(self, digit: int) -> Machine {
        Machine { opcode: 0xF029, ..self }.with_register(0, digit as u8)
    }

    /// The machine set up to draw a glyph in cell `digit` of a four by four
    /// sheet: the instruction `D015` with `V0` and `V1` at the cell's corner.
    /// Cells are 16 pixels apart across and 6 down, 3 pixels in from the
    /// screen's corner.
    pub open spec fn glyph_placed(self, digit: int) -> Machine {
        Machine { opcode: 0xD015, ..self }.with_register(0, (3 + 16 * digit) as u8).with_register(
            1,
            (3 + 6 * (digit / 4)) as u8,
        )
    }

    /// The machine after the glyphs from `digit` to `F` have been drawn on
    /// the sheet, each by the two instructions above, and how that ended. At
    /// the first fault the drawing stops, with the machine as it was set up
    /// for the instruction that faulted.
    pub open spec fn sheet_from(self, digit: nat) -> (Machine, Result<(), Fault>)
        decreases 16 - digit,
    {
        if digit >= 16 {
            (self, Ok(()))
        } else {
            let pointed = self.glyph_pointed(digit as int);
            match pointed.step(0) {
                Err(fault) => (pointed, Err(fault)),
                Ok(ready) => {
                    let placed = ready.glyph_placed(digit as int);
                    match placed.step(0) {
                        Err(fault) => (placed, Err(fault)),
                        Ok(drawn) => drawn.sheet_from(digit + 1),
                    }
                },
            }
        }
    }
}

/// Two machines whose parts hold the same values are the same machine.
pub proof fn lemma_same_machine(a: Machine, b: Machine)
    requires
        a.opcode == b.opcode,
        a.v =~= b.v,
        a.index == b.index,
        a.pc == b.pc,
        a.stack =~= b.stack,
        a.delay == b.delay,
        a.sound == b.sound,
        a.memory =~= b.memory,
        a.gfx =~= b.gfx,
        a.keyboard =~= b.keyboard,
    ensures
        a == b,
{
}

/// How an operation that can fault relates the machine before and after it
/// to what was expected: on success the machine is the expected one, and a
/// fault is the expected fault and leaves the machine as it was.
pub open spec fn outcome(
    before: Machine,
    result: Result<(), Fault>,
    after: Machine,
    expected: Result<Machine, Fault>,
) -> bool {
    match expected {
        Ok(machine) => result is Ok && after == machine,
        Err(fault) => result == Err::<(), Fault>(fault) && after == before,
    }
}

} // verus!
