use crate::display::blit;
use crate::display::collides;
use crate::display::covers;
use crate::display::pixel_index;
use crate::display::sprite_bit;
use crate::display::lemma_landing_pixel;
use crate::display::MAX_SPRITE_ROWS;
use crate::display::SCREEN_PIXELS;
use crate::fault::Fault;
use crate::instruction::addr_of;
use crate::instruction::byte_of;
use crate::instruction::decode_spec;
use crate::instruction::family_of;
use crate::instruction::low_digit_of;
use crate::instruction::x_of;
use crate::instruction::y_of;
use crate::instruction::Instruction;
use crate::machine::Machine;
use crate::machine::FLAG;
use crate::machine::LAST_INSTRUCTION;
use vstd::prelude::*;

verus! {

/// A word written out of four hexadecimal digits has those digits as its
/// fields.
proof fn lemma_digits(word: u16, family: u8, x: u8, y: u8, low: u8)
    requires
        family < 16,
        x < 16,
        y < 16,
        low < 16,
        word == 0x1000 * family + 0x100 * x + 0x10 * y + low,
    ensures
        family_of(word) == family,
        x_of(word) == x,
        y_of(word) == y,
        low_digit_of(word) == low,
        byte_of(word) == 0x10 * y + low,
        addr_of(word) == 0x100 * x + 0x10 * y + low,
{
    let f = family as u16;
    let a = x as u16;
    let b = y as u16;
    let c = low as u16;
    assert(word / 0x1000 == f && (word / 0x100) % 0x10 == a && (word / 0x10) % 0x10 == b && word
        % 0x10 == c && word % 0x100 == 0x10 * b + c && word % 0x1000 == 0x100 * a + 0x10 * b + c)
        by (bit_vector)
        requires
            f < 16,
            a < 16,
            b < 16,
            c < 16,
            word == 0x1000 * f + 0x100 * a + 0x10 * b + c,
    ;
}

/// A word written out of a family digit, a register digit and a byte has
/// those as its fields.
proof fn lemma_immediate(word: u16, family: u8, x: u8, byte: u8)
    requires
        family < 16,
        x < 16,
        word == 0x1000 * family + 0x100 * x + byte,
    ensures
        family_of(word) == family,
        x_of(word) == x,
        byte_of(word) == byte,
{
    let f = family as u16;
    let a = x as u16;
    let b = byte as u16;
    assert(word / 0x1000 == f && (word / 0x100) % 0x10 == a && word % 0x100 == b) by (bit_vector)
        requires
            f < 16,
            a < 16,
            b < 0x100,
            word == 0x1000 * f + 0x100 * a + b,
    ;
}

/// A word written out of a family digit and a 12-bit address has those as
/// its fields.
proof fn lemma_addressed(word: u16, family: u8, addr: u16)
    requires
        family < 16,
        addr < 0x1000,
        word == 0x1000 * family + addr,
    ensures
        family_of(word) == family,
        addr_of(word) == addr,
{
    let f = family as u16;
    assert(word / 0x1000 == f && word % 0x1000 == addr) by (bit_vector)
        requires
            f < 16,
            addr < 0x1000,
            word == 0x1000 * f + addr,
    ;
}

/// A program counter past the last instruction address is a fault, whatever
/// the instruction: no word is fetched from beyond the end of memory.
pub proof fn law_fetch_bound(m: Machine, host: u8)
    requires
        m.well_formed(),
        m.pc > LAST_INSTRUCTION,
    ensures
        m.step(host) == Err::<Machine, Fault>(Fault::AddressOutOfRange),
        m.cycle(host) == Err::<Machine, Fault>(Fault::AddressOutOfRange),
{
}

/// After `6xkk`, register `x` reads `kk`. The instruction succeeds wherever
/// it can be fetched.
pub proof fn law_load_then_read(m: Machine, x: u8, kk: u8, host: u8)
    requires
        m.well_formed(),
        x < 16,
        m.opcode == 0x6000 + 0x100 * x + kk,
    ensures
        m.step(host) is Ok <==> m.pc <= LAST_INSTRUCTION,
        m.step(host) matches Ok(after) ==> after.v[x as int] == kk,
{
    let ins = Instruction::Load { x, byte: kk };
    lemma_immediate(m.opcode, 0x6, x, kk);
    assert(decode_spec(m.opcode) == ins);
    assert(m.execute(ins, host) == Ok::<Machine, Fault>(
        m.with_register(x as int, kk).advanced(),
    )) by {
        reveal(Machine::execute);
    }
}

/// After `8xy4` with `V[x] = a` and `V[y] = b`, the flag register is 1 if
/// `a + b` is 256 or more and 0 if not, and register `x`, unless it is the
/// flag register itself, holds `a + b` modulo 256.
pub proof fn law_add_carries(m: Machine, x: u8, y: u8, host: u8)
    requires
        m.well_formed(),
        x < 16,
        y < 16,
        m.opcode == 0x8004 + 0x100 * x + 0x10 * y,
    ensures
        m.step(host) is Ok <==> m.pc <= LAST_INSTRUCTION,
        m.step(host) matches Ok(after) ==> {
            let a = m.v[x as int];
            let b = m.v[y as int];
            &&& after.v[FLAG as int] == 1 <==> a + b >= 256
            &&& after.v[FLAG as int] == 0 <==> a + b < 256
            &&& x != FLAG ==> after.v[x as int] == (a + b) % 256
        },
{
    let ins = Instruction::AddRegister { x, y };
    lemma_digits(m.opcode, 0x8, x, y, 4);
    assert(decode_spec(m.opcode) == ins);
    assert(m.execute(ins, host) == Ok::<Machine, Fault>(m.added(x as int, y as int).advanced()))
        by {
        reveal(Machine::execute);
    }
}

/// After `8xy5` with `V[x] = a` and `V[y] = b`, neither of them the flag
/// register, register `x` holds `a - b` modulo 256 and the flag register is
/// 1 if `a >= b`, when no borrow was needed, and 0 if not.
pub proof fn law_subtract_borrows(m: Machine, x: u8, y: u8, host: u8)
    requires
        m.well_formed(),
        x < 15,
        y < 15,
        m.opcode == 0x8005 + 0x100 * x + 0x10 * y,
    ensures
        m.step(host) is Ok <==> m.pc <= LAST_INSTRUCTION,
        m.step(host) matches Ok(after) ==> {
            let a = m.v[x as int];
            let b = m.v[y as int];
            &&& after.v[x as int] == (a - b) % 256
            &&& after.v[FLAG as int] == 1 <==> a >= b
            &&& after.v[FLAG as int] == 0 <==> a < b
        },
{
    let ins = Instruction::Subtract { x, y };
    lemma_digits(m.opcode, 0x8, x, y, 5);
    assert(decode_spec(m.opcode) == ins);
    assert(m.execute(ins, host) == Ok::<Machine, Fault>(
        m.subtracted(x as int, y as int).advanced(),
    )) by {
        reveal(Machine::execute);
    }
}

/// After `00E0` every pixel of the framebuffer is off.
pub proof fn law_clear_blanks(m: Machine, host: u8)
    requires
        m.well_formed(),
        m.opcode == 0x00E0,
    ensures
        m.step(host) is Ok <==> m.pc <= LAST_INSTRUCTION,
        m.step(host) matches Ok(after) ==> after.gfx.len() == SCREEN_PIXELS && forall|p: int|
            0 <= p < SCREEN_PIXELS ==> !#[trigger] after.gfx[p],
{
    assert(decode_spec(m.opcode) == Instruction::ClearScreen);
    assert(m.execute(Instruction::ClearScreen, host) is Ok && m.execute(
        Instruction::ClearScreen,
        host,
    )->Ok_0.gfx == Seq::new(m.gfx.len(), |p: int| false)) by {
        reveal(Machine::execute);
    }
}

/// Drawing a sprite toggles pixel `p` exactly when some set bit of the
/// sprite, at row `row` and column `col`, lands on it: when `p` is the pixel
/// at `((x + col) mod 64, (y + row) mod 32)`.
pub proof fn law_sprite_placement(sprite: Seq<u8>, x: int, y: int, p: int)
    requires
        sprite.len() <= MAX_SPRITE_ROWS,
        0 <= p < SCREEN_PIXELS,
    ensures
        covers(sprite, x, y, p) <==> exists|row: int, col: int|
            0 <= row < sprite.len() && 0 <= col < 8 && sprite_bit(sprite[row], col) && p
                == #[trigger] pixel_index((x + col) % 64, (y + row) % 32),
{
    if covers(sprite, x, y, p) {
        let row = (p / 64 - y) % 32;
        let col = (p % 64 - x) % 64;
        lemma_landing_pixel(x, y, row, col, p);
        assert(p == pixel_index((x + col) % 64, (y + row) % 32));
    }
    assert forall|row: int, col: int|
        0 <= row < sprite.len() && 0 <= col < 8 && sprite_bit(sprite[row], col) && p
            == #[trigger] pixel_index((x + col) % 64, (y + row) % 32) implies covers(
        sprite,
        x,
        y,
        p,
    ) by {
        lemma_landing_pixel(x, y, row, col, p);
    }
}

/// Drawing the same sprite twice at the same place gives back the
/// framebuffer as it was. The second draw turns off exactly the pixels that
/// the first turned on, so it reports a collision if and only if the sprite
/// has a set bit over a pixel that was off to begin with: on a screen that
/// was dark under the sprite, wherever the sprite has a set bit.
pub proof fn law_draw_twice_restores(screen: Seq<bool>, sprite: Seq<u8>, x: int, y: int)
    requires
        screen.len() == SCREEN_PIXELS,
    ensures
        blit(blit(screen, sprite, x, y), sprite, x, y) == screen,
        collides(blit(screen, sprite, x, y), sprite, x, y) <==> exists|p: int|
            0 <= p < SCREEN_PIXELS && !#[trigger] screen[p] && covers(sprite, x, y, p),
{
    let once = blit(screen, sprite, x, y);
    assert(blit(once, sprite, x, y) =~= screen);
    if collides(once, sprite, x, y) {
        let p = choose|p: int| 0 <= p < once.len() && #[trigger] once[p] && covers(sprite, x, y, p);
        assert(!screen[p]);
    }
    if exists|p: int| 0 <= p < SCREEN_PIXELS && !#[trigger] screen[p] && covers(sprite, x, y, p) {
        let p = choose|p: int|
            0 <= p < SCREEN_PIXELS && !#[trigger] screen[p] && covers(sprite, x, y, p);
        assert(once[p]);
    }
}

/// What the draw instruction does is what `Machine::drawn` says.
proof fn lemma_draw_unfolds(m: Machine, x: u8, y: u8, rows: u8, host: u8)
    ensures
        m.execute(Instruction::Draw { x, y, rows }, host) == m.drawn(
            x as int,
            y as int,
            rows as int,
        ),
{
    reveal(Machine::execute);
}

/// What the call instruction does is what `Machine::called` says.
proof fn lemma_call_unfolds(m: Machine, addr: u16, host: u8)
    ensures
        m.execute(Instruction::Call { addr }, host) == m.called(addr),
{
    reveal(Machine::execute);
}

/// What the return instruction does is what `Machine::returned` says.
proof fn lemma_return_unfolds(m: Machine, host: u8)
    ensures
        m.execute(Instruction::Return, host) == m.returned(),
{
    reveal(Machine::execute);
}

/// Drawing twice through the machine: the first draw keeps the opcode latch
/// and the machine's sizes, and the second draw undoes it on the screen.
proof fn lemma_drawn_twice(m: Machine, x: int, y: int, rows: int)
    requires
        m.well_formed(),
        0 <= x < 15,
        0 <= y < 15,
        0 <= rows < 16,
    ensures
        m.drawn(x, y, rows) matches Ok(once) ==> {
            &&& once.opcode == m.opcode
            &&& once.well_formed()
            &&& once.drawn(x, y, rows) matches Ok(twice) ==> twice.gfx == m.gfx
        },
{
    if m.drawn(x, y, rows) is Ok {
        let once = m.drawn(x, y, rows)->Ok_0;
        let sprite = m.sprite(rows);
        let left = m.v[x] as int;
        let top = m.v[y] as int;
        assert(once.gfx == blit(m.gfx, sprite, left, top));
        assert(once.sprite(rows) == sprite);
        assert(once.v[x] == m.v[x] && once.v[y] == m.v[y]);
        if once.drawn(x, y, rows) is Ok {
            let twice = once.drawn(x, y, rows)->Ok_0;
            assert(twice.gfx == blit(once.gfx, sprite, left, top));
            law_draw_twice_restores(m.gfx, sprite, left, top);
        }
    }
}

/// Running the same draw instruction twice, with coordinates taken from
/// registers other than the flag register, gives back the framebuffer as it
/// was before the first.
pub proof fn law_draw_instruction_twice(m: Machine, x: u8, y: u8, rows: u8, host: u8)
    requires
        m.well_formed(),
        x < 15,
        y < 15,
        rows < 16,
        m.opcode == 0xD000 + 0x100 * x + 0x10 * y + rows,
    ensures
        m.step(host) matches Ok(once) ==> (once.step(host) matches Ok(twice) ==> twice.gfx
            == m.gfx),
{
    lemma_digits(m.opcode, 0xD, x, y, rows);
    lemma_draw_unfolds(m, x, y, rows, host);
    lemma_drawn_twice(m, x as int, y as int, rows as int);
    if m.step(host) is Ok {
        let once = m.step(host)->Ok_0;
        lemma_draw_unfolds(once, x, y, rows, host);
    }
}

/// A call followed by a return comes back to the instruction after the call
/// with the stack as it was. Here the call `2nnn` is the word at the
/// program counter and the return `00EE` is the word at `nnn`; the call
/// needs a free stack entry.
pub proof fn law_call_then_return(m: Machine, nnn: u16, host: u8)
    requires
        m.well_formed(),
        m.pc <= LAST_INSTRUCTION,
        nnn <= LAST_INSTRUCTION,
        m.word_at(m.pc as int) == 0x2000 + nnn,
        m.word_at(nnn as int) == 0x00EE,
        m.stack.len() < 16,
    ensures
        m.cycle(host) is Ok,
        ({
            let called = m.cycle(host)->Ok_0;
            &&& called.pc == nnn
            &&& called.stack == m.stack.push((m.pc + 2) as u16)
            &&& called.cycle(host) is Ok
            &&& called.cycle(host)->Ok_0.pc == m.pc + 2
            &&& called.cycle(host)->Ok_0.stack == m.stack
        }),
{
    lemma_addressed((0x2000 + nnn) as u16, 0x2, nnn);
    assert(decode_spec((0x2000 + nnn) as u16) == (Instruction::Call { addr: nnn }));
    assert(decode_spec(0x00EE) == Instruction::Return);
    lemma_call_unfolds(m.fetched(), nnn, host);
    let called = m.cycle(host)->Ok_0;
    assert(called.memory == m.memory);
    lemma_return_unfolds(called.fetched(), host);
    assert(called.stack.drop_last() =~= m.stack);
}

} // verus!
