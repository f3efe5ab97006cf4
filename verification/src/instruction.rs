use vstd::prelude::*;

verus! {

/// One decoded instruction. `x` and `y` name registers, `addr` is a 12-bit
/// address, `byte` an 8-bit immediate.
#[derive(Clone, Copy, Debug, PartialEq, Eq, Structural)]
pub enum Instruction {
    /// `00E0`: blank the framebuffer.
    ClearScreen,
    /// `00EE`: return from a subroutine.
    Return,
    /// `0nnn`: jump to a machine routine, without touching the stack.
    System { addr: u16 },
    /// `1nnn`: jump.
    Jump { addr: u16 },
    /// `2nnn`: call a subroutine.
    Call { addr: u16 },
    /// `3xkk`: skip the next instruction if `V[x] == kk`.
    SkipIfEqual { x: u8, byte: u8 },
    /// `4xkk`: skip the next instruction if `V[x] != kk`.
    SkipIfNotEqual { x: u8, byte: u8 },
    /// `5xy_`: skip the next instruction if `V[x] == V[y]`.
    SkipIfRegistersEqual { x: u8, y: u8 },
    /// `6xkk`: `V[x] := kk`.
    Load { x: u8, byte: u8 },
    /// `7xkk`: `V[x] := V[x] + kk`, wrapping, flag untouched.
    AddByte { x: u8, byte: u8 },
    /// `8xy0`: `V[x] := V[y]`.
    Move { x: u8, y: u8 },
    /// `8xy1`: `V[x] := V[x] | V[y]`.
    Or { x: u8, y: u8 },
    /// `8xy2`: `V[x] := V[x] & V[y]`.
    And { x: u8, y: u8 },
    /// `8xy3`: `V[x] := V[x] ^ V[y]`.
    Xor { x: u8, y: u8 },
    /// `8xy4`: `V[x] := V[x] + V[y]`, then `V[F]` := carry.
    AddRegister { x: u8, y: u8 },
    /// `8xy5`: `V[F]` := `V[x] >= V[y]`, then `V[x] := V[x] - V[y]`.
    Subtract { x: u8, y: u8 },
    /// `8xy6`: `V[F]` := low bit of `V[x]`, then `V[x] := V[x] >> 1`.
    ShiftRight { x: u8 },
    /// `8xy7`: `V[F]` := `V[y] > V[x]`, then `V[x] := V[y] - V[x]`.
    SubtractFrom { x: u8, y: u8 },
    /// `8xyE`: `V[F]` := high bit of `V[x]`, then `V[x] := V[x] << 1`.
    ShiftLeft { x: u8 },
    /// `9xy_`: skip the next instruction if `V[x] != V[y]`.
    SkipIfRegistersDiffer { x: u8, y: u8 },
    /// `Annn`: `index := nnn`.
    LoadIndex { addr: u16 },
    /// `Bnnn`: jump to `V[0] + nnn`.
    JumpOffset { addr: u16 },
    /// `Cxkk`: `V[x] :=` a random byte masked by `kk`.
    Random { x: u8, byte: u8 },
    /// `Dxyn`: draw the `n`-row sprite at `index` at `(V[x], V[y])`.
    Draw { x: u8, y: u8, rows: u8 },
    /// `Ex9E`: skip the next instruction if key `V[x]` is down.
    SkipIfKey { x: u8 },
    /// `ExA1`: skip the next instruction if key `V[x]` is up.
    SkipIfNotKey { x: u8 },
    /// `Fx07`: `V[x] :=` the delay timer's current value.
    LoadDelay { x: u8 },
    /// `Fx0A`: wait until a key is down, then `V[x] :=` that key.
    WaitKey { x: u8 },
    /// `Fx15`: arm the delay timer with `V[x]`.
    SetDelay { x: u8 },
    /// `Fx18`: arm the sound timer with `V[x]`.
    SetSound { x: u8 },
    /// `Fx1E`: `index := index + V[x]`.
    AddIndex { x: u8 },
    /// `Fx29`: `index :=` the address of the glyph for digit `V[x]`.
    LoadGlyph { x: u8 },
    /// `Fx33`: store the three decimal digits of `V[x]` at `index`.
    StoreDecimal { x: u8 },
    /// `Fx55`: store `V[0..=x]` at `index`.
    StoreRegisters { x: u8 },
    /// `Fx65`: load `V[0..=x]` from `index`.
    LoadRegisters { x: u8 },
    /// A word of family `8`, `E` or `F` whose low part names no operation:
    /// it only advances the program counter.
    NoOperation,
}

impl Instruction {
    /// Every register number is below 16, every sprite height below 16 and
    /// every address below `0x1000`.
    pub open spec fn well_formed(self) -> bool {
        match self {
            Instruction::ClearScreen | Instruction::Return | Instruction::NoOperation => true,
            Instruction::System { addr }
            | Instruction::Jump { addr }
            | Instruction::Call { addr }
            | Instruction::LoadIndex { addr }
            | Instruction::JumpOffset { addr } => addr < 0x1000,
            Instruction::SkipIfEqual { x, .. }
            | Instruction::SkipIfNotEqual { x, .. }
            | Instruction::Load { x, .. }
            | Instruction::AddByte { x, .. }
            | Instruction::Random { x, .. }
            | Instruction::ShiftRight { x }
            | Instruction::ShiftLeft { x }
            | Instruction::SkipIfKey { x }
            | Instruction::SkipIfNotKey { x }
            | Instruction::LoadDelay { x }
            | Instruction::WaitKey { x }
            | Instruction::SetDelay { x }
            | Instruction::SetSound { x }
            | Instruction::AddIndex { x }
            | Instruction::LoadGlyph { x }
            | Instruction::StoreDecimal { x }
            | Instruction::StoreRegisters { x }
            | Instruction::LoadRegisters { x } => x < 16,
            Instruction::SkipIfRegistersEqual { x, y }
            | Instruction::Move { x, y }
            | Instruction::Or { x, y }
            | Instruction::And { x, y }
            | Instruction::Xor { x, y }
            | Instruction::AddRegister { x, y }
            | Instruction::Subtract { x, y }
            | Instruction::SubtractFrom { x, y }
            | Instruction::SkipIfRegistersDiffer { x, y } => x < 16 && y < 16,
            Instruction::Draw { x, y, rows } => x < 16 && y < 16 && rows < 16,
        }
    }
}

/// The family of an instruction word: its top hexadecimal digit.
pub open spec fn family_of(word: u16) -> int {
    word as int / 0x1000
}

/// The second hexadecimal digit of a word: the register `x`.
pub open spec fn x_of(word: u16) -> u8 {
    ((word as int / 0x100) % 0x10) as u8
}

/// The third hexadecimal digit of a word: the register `y`.
pub open spec fn y_of(word: u16) -> u8 {
    ((word as int / 0x10) % 0x10) as u8
}

/// The last hexadecimal digit of a word.
pub open spec fn low_digit_of(word: u16) -> u8 {
    (word as int % 0x10) as u8
}

/// The low byte of a word: the immediate `kk`.
pub open spec fn byte_of(word: u16) -> u8 {
    (word as int % 0x100) as u8
}

/// The low three hexadecimal digits of a word: the address `nnn`.
pub open spec fn addr_of(word: u16) -> u16 {
    (word as int % 0x1000) as u16
}

/// What a word of family `8` means, by its last digit.
pub open spec fn decode_arithmetic(word: u16) -> Instruction {
    let x = x_of(word);
    let y = y_of(word);
    let op = low_digit_of(word);
    if op == 0x0 {
        Instruction::Move { x, y }
    } else if op == 0x1 {
        Instruction::Or { x, y }
    } else if op == 0x2 {
        Instruction::And { x, y }
    } else if op == 0x3 {
        Instruction::Xor { x, y }
    } else if op == 0x4 {
        Instruction::AddRegister { x, y }
    } else if op == 0x5 {
        Instruction::Subtract { x, y }
    } else if op == 0x6 {
        Instruction::ShiftRight { x }
    } else if op == 0x7 {
        Instruction::SubtractFrom { x, y }
    } else if op == 0xE {
        Instruction::ShiftLeft { x }
    } else {
        Instruction::NoOperation
    }
}

/// What a word of family `E` means, by its low byte.
pub open spec fn decode_key(word: u16) -> Instruction {
    let x = x_of(word);
    let op = byte_of(word);
    if op == 0x9E {
        Instruction::SkipIfKey { x }
    } else if op == 0xA1 {
        Instruction::SkipIfNotKey { x }
    } else {
        Instruction::NoOperation
    }
}

/// What a word of family `F` means, by its low byte.
pub open spec fn decode_misc(word: u16) -> Instruction {
    let x = x_of(word);
    let op = byte_of(word);
    if op == 0x07 {
        Instruction::LoadDelay { x }
    } else if op == 0x0A {
        Instruction::WaitKey { x }
    } else if op == 0x15 {
        Instruction::SetDelay { x }
    } else if op == 0x18 {
        Instruction::SetSound { x }
    } else if op == 0x1E {
        Instruction::AddIndex { x }
    } else if op == 0x29 {
        Instruction::LoadGlyph { x }
    } else if op == 0x33 {
        Instruction::StoreDecimal { x }
    } else if op == 0x55 {
        Instruction::StoreRegisters { x }
    } else if op == 0x65 {
        Instruction::LoadRegisters { x }
    } else {
        Instruction::NoOperation
    }
}

/// The instruction that a 16-bit word stands for. Every word stands for one:
/// the family is the top digit, and only inside families `8`, `E` and `F` can
/// the rest of the word name nothing, which reads as `NoOperation`.
pub open spec fn decode_spec(word: u16) -> Instruction {
    let family = family_of(word);
    let x = x_of(word);
    let y = y_of(word);
    let byte = byte_of(word);
    let addr = addr_of(word);
    if family == 0x0 {
        if word == 0x00E0 {
            Instruction::ClearScreen
        } else if word == 0x00EE {
            Instruction::Return
        } else {
            Instruction::System { addr }
        }
    } else if family == 0x1 {
        Instruction::Jump { addr }
    } else if family == 0x2 {
        Instruction::Call { addr }
    } else if family == 0x3 {
        Instruction::SkipIfEqual { x, byte }
    } else if family == 0x4 {
        Instruction::SkipIfNotEqual { x, byte }
    } else if family == 0x5 {
        Instruction::SkipIfRegistersEqual { x, y }
    } else if family == 0x6 {
        Instruction::Load { x, byte }
    } else if family == 0x7 {
        Instruction::AddByte { x, byte }
    } else if family == 0x8 {
        decode_arithmetic(word)
    } else if family == 0x9 {
        Instruction::SkipIfRegistersDiffer { x, y }
    } else if family == 0xA {
        Instruction::LoadIndex { addr }
    } else if family == 0xB {
        Instruction::JumpOffset { addr }
    } else if family == 0xC {
        Instruction::Random { x, byte }
    } else if family == 0xD {
        Instruction::Draw { x, y, rows: low_digit_of(word) }
    } else if family == 0xE {
        decode_key(word)
    } else {
        decode_misc(word)
    }
}

/// The fields of a word, cut out with shifts and masks, are its hexadecimal
/// digits.
proof fn lemma_fields(word: u16)
    ensures
        (word >> 12) == word as int / 0x1000,
        (word >> 12) < 16,
        ((word >> 8) & 0xF) == (word as int / 0x100) % 0x10,
        ((word >> 4) & 0xF) == (word as int / 0x10) % 0x10,
        (word & 0xF) == word as int % 0x10,
        (word & 0xFF) == word as int % 0x100,
        (word & 0xFFF) == word as int % 0x1000,
{
    assert((word >> 12) == word / 0x1000 && (word >> 12) < 16) by (bit_vector);
    assert(((word >> 8) & 0xF) == (word / 0x100) % 0x10) by (bit_vector);
    assert(((word >> 4) & 0xF) == (word / 0x10) % 0x10) by (bit_vector);
    assert((word & 0xF) == word % 0x10) by (bit_vector);
    assert((word & 0xFF) == word % 0x100) by (bit_vector);
    assert((word & 0xFFF) == word % 0x1000) by (bit_vector);
}

/// Every word decodes to a well-formed instruction.
pub proof fn lemma_decode_well_formed(word: u16)
    ensures
        decode_spec(word).well_formed(),
{
    lemma_fields(word);
}

/// Decodes an instruction word.
pub fn decode(word: u16) -> (ins: Instruction)
    ensures
        ins == decode_spec(word),
        ins.well_formed(),
{
    proof {
        lemma_fields(word);
    }
    let x: u8 = ((word >> 8) & 0xF) as u8;
    let y: u8 = ((word >> 4) & 0xF) as u8;
    let byte: u8 = (word & 0xFF) as u8;
    let addr: u16 = word & 0xFFF;
    match word >> 12 {
        0x0 => match word {
            0x00E0 => Instruction::ClearScreen,
            0x00EE => Instruction::Return,
            _ => Instruction::System { addr },
        },
        0x1 => Instruction::Jump { addr },
        0x2 => Instruction::Call { addr },
        0x3 => Instruction::SkipIfEqual { x, byte },
        0x4 => Instruction::SkipIfNotEqual { x, byte },
        0x5 => Instruction::SkipIfRegistersEqual { x, y },
        0x6 => Instruction::Load { x, byte },
        0x7 => Instruction::AddByte { x, byte },
        0x8 => match word & 0xF {
            0x0 => Instruction::Move { x, y },
            0x1 => Instruction::Or { x, y },
            0x2 => Instruction::And { x, y },
            0x3 => Instruction::Xor { x, y },
            0x4 => Instruction::AddRegister { x, y },
            0x5 => Instruction::Subtract { x, y },
            0x6 => Instruction::ShiftRight { x },
            0x7 => Instruction::SubtractFrom { x, y },
            0xE => Instruction::ShiftLeft { x },
            _ => Instruction::NoOperation,
        },
        0x9 => Instruction::SkipIfRegistersDiffer { x, y },
        0xA => Instruction::LoadIndex { addr },
        0xB => Instruction::JumpOffset { addr },
        0xC => Instruction::Random { x, byte },
        0xD => Instruction::Draw { x, y, rows: (word & 0xF) as u8 },
        0xE => match byte {
            0x9E => Instruction::SkipIfKey { x },
            0xA1 => Instruction::SkipIfNotKey { x },
            _ => Instruction::NoOperation,
        },
        _ => match byte {
            0x07 => Instruction::LoadDelay { x },
            0x0A => Instruction::WaitKey { x },
            0x15 => Instruction::SetDelay { x },
            0x18 => Instruction::SetSound { x },
            0x1E => Instruction::AddIndex { x },
            0x29 => Instruction::LoadGlyph { x },
            0x33 => Instruction::StoreDecimal { x },
            0x55 => Instruction::StoreRegisters { x },
            0x65 => Instruction::LoadRegisters { x },
            _ => Instruction::NoOperation,
        },
    }
}

} // verus!
