use vstd::prelude::*;

use crate::display::{
    collides, covers, display_wf, drawn, lemma_target_cell, rel_col, rel_row, sprite_bit,
    target_cell,
};
use crate::instruction::{lemma_decode_wf, spec_decode, Instruction};
use crate::model::{
    add16, execute, execute_word, fetch_word, press_key, step, Chip8Error, MachineState, RunState, MEMORY_SIZE,
};

verus! {

/// A call followed by a return brings the program counter and the stack
/// depth back to what they were before the call.
pub proof fn lemma_call_then_return(
    s: MachineState,
    target: u16,
    call_word: u16,
    ret_word: u16,
    random: u8,
)
    requires
        s.wf(),
        s.sp < 16,
        target < 4096,
    ensures
        ({
            let called = execute(s, Instruction::Call(target), call_word, random);
            let returned = execute(called->Ok_0, Instruction::Ret, ret_word, random);
            &&& called is Ok
            &&& called->Ok_0.pc == target
            &&& returned is Ok
            &&& returned->Ok_0.pc == s.pc
            &&& returned->Ok_0.sp == s.sp
        }),
{
}

/// Drawing the same sprite twice at the same place gives back the framebuffer
/// as it was; and when the first draw cleared nothing and the sprite has a
/// set bit, the second draw reports a collision.
pub proof fn lemma_draw_twice(display: Seq<u8>, sprite: Seq<u8>, x0: int, y0: int)
    requires
        display_wf(display),
        0 <= x0 < 64,
        0 <= y0 < 32,
        sprite.len() <= 32,
    ensures
        drawn(drawn(display, sprite, x0, y0), sprite, x0, y0) == display,
        !collides(display, sprite, x0, y0) && (exists|r: int, k: int|
            0 <= r < sprite.len() && 0 <= k < 8 && #[trigger] sprite_bit(sprite[r], k))
            ==> collides(drawn(display, sprite, x0, y0), sprite, x0, y0),
{
    let once = drawn(display, sprite, x0, y0);
    assert forall|c: int| 0 <= c < display.len() implies #[trigger] drawn(
        once,
        sprite,
        x0,
        y0,
    )[c] == display[c] by {
        let d = display[c];
        assert(d ^ 1 ^ 1 == d) by (bit_vector);
    }
    assert(drawn(once, sprite, x0, y0) =~= display);
    if !collides(display, sprite, x0, y0) && (exists|r: int, k: int|
        0 <= r < sprite.len() && 0 <= k < 8 && #[trigger] sprite_bit(sprite[r], k)) {
        let (r, k) = choose|r: int, k: int|
            0 <= r < sprite.len() && 0 <= k < 8 && #[trigger] sprite_bit(sprite[r], k);
        lemma_target_cell(x0, y0, r, k);
        let c = target_cell(x0, y0, r, k);
        assert(covers(sprite, x0, y0, c));
        assert(display[c] == 0);
        assert(once[c] == 1) by {
            let d = display[c];
            assert(d == 0 ==> d ^ 1 == 1) by (bit_vector);
        }
    }
}

/// Executing the same `Dxyn` twice (coordinates not in `VF`) restores the
/// framebuffer, and sets `VF = 1` on the second run when the first cleared
/// nothing and the sprite has a set bit.
pub proof fn lemma_draw_instruction_twice(
    s: MachineState,
    x: u8,
    y: u8,
    n: u8,
    opcode: u16,
    random: u8,
)
    requires
        s.wf(),
        x < 15,
        y < 15,
        n < 16,
        s.i + n <= MEMORY_SIZE,
    ensures
        ({
            let first = execute(s, Instruction::Draw(x, y, n), opcode, random);
            let second = execute(first->Ok_0, Instruction::Draw(x, y, n), opcode, random);
            &&& first is Ok
            &&& second is Ok
            &&& second->Ok_0.display == s.display
            &&& first->Ok_0.v[15] == 0 && (exists|r: int, k: int|
                0 <= r < n && 0 <= k < 8 && #[trigger] sprite_bit(s.memory[s.i + r], k))
                ==> second->Ok_0.v[15] == 1
        }),
{
    let x0 = (s.v[x as int] % 64) as int;
    let y0 = (s.v[y as int] % 32) as int;
    let sprite = s.memory.subrange(s.i as int, s.i + n);
    lemma_draw_twice(s.display, sprite, x0, y0);
    let t = execute(s, Instruction::Draw(x, y, n), opcode, random)->Ok_0;
    assert(t.v[x as int] == s.v[x as int] && t.v[y as int] == s.v[y as int]);
    assert(t.memory == s.memory);
    if exists|r: int, k: int|
        0 <= r < n && 0 <= k < 8 && #[trigger] sprite_bit(s.memory[s.i + r], k) {
        let (r, k) = choose|r: int, k: int|
            0 <= r < n && 0 <= k < 8 && #[trigger] sprite_bit(s.memory[s.i + r], k);
        assert(sprite[r] == s.memory[s.i + r]);
        assert(sprite_bit(sprite[r], k));
    }
}

/// A one-row sprite drawn at column 60 covers columns 60 to 63 with its
/// first four bits and wraps to columns 0 to 3 with the last four; the rest
/// of its row is untouched.
pub proof fn lemma_draw_wraps_columns(display: Seq<u8>, b: u8, y0: int)
    requires
        display_wf(display),
        0 <= y0 < 32,
    ensures
        forall|w: int|
            0 <= w < 4 ==> #[trigger] drawn(display, seq![b], 60, y0)[y0 * 64 + 60 + w] == if sprite_bit(
                b,
                w,
            ) {
                display[y0 * 64 + 60 + w] ^ 1
            } else {
                display[y0 * 64 + 60 + w]
            },
        forall|w: int|
            4 <= w < 8 ==> #[trigger] drawn(display, seq![b], 60, y0)[y0 * 64 + w - 4] == if sprite_bit(
                b,
                w,
            ) {
                display[y0 * 64 + w - 4] ^ 1
            } else {
                display[y0 * 64 + w - 4]
            },
        forall|col: int|
            4 <= col < 60 ==> #[trigger] drawn(display, seq![b], 60, y0)[y0 * 64 + col]
                == display[y0 * 64 + col],
{
    assert forall|w: int| 0 <= w < 4 implies #[trigger] drawn(display, seq![b], 60, y0)[y0 * 64
        + 60 + w] == if sprite_bit(b, w) {
        display[y0 * 64 + 60 + w] ^ 1
    } else {
        display[y0 * 64 + 60 + w]
    } by {
        lemma_target_cell(60, y0, 0, w);
        assert(target_cell(60, y0, 0, w) == y0 * 64 + 60 + w);
    }
    assert forall|w: int| 4 <= w < 8 implies #[trigger] drawn(display, seq![b], 60, y0)[y0 * 64
        + w - 4] == if sprite_bit(b, w) {
        display[y0 * 64 + w - 4] ^ 1
    } else {
        display[y0 * 64 + w - 4]
    } by {
        lemma_target_cell(60, y0, 0, w);
        assert(target_cell(60, y0, 0, w) == y0 * 64 + w - 4);
    }
    assert forall|col: int| 4 <= col < 60 implies #[trigger] drawn(
        display,
        seq![b],
        60,
        y0,
    )[y0 * 64 + col] == display[y0 * 64 + col] by {
        let c = y0 * 64 + col;
        assert(c / 64 == y0 && c % 64 == col);
        assert(rel_col(c, 60) >= 8);
    }
}

/// `Fx0A` halts the machine on the instruction itself, with no other effect;
/// cycles then change nothing and key releases keep it waiting. A press of key
/// `k` stores `k` in `Vx` and ends the wait with `pc` still on the `Fx0A`; the
/// next cycle moves `pc` past it and runs nothing else.
pub proof fn lemma_wait_for_key(s: MachineState, x: u8, k: u8, random: u8, later: u8)
    requires
        s.wf(),
        s.run == RunState::Running,
        s.pc + 1 < MEMORY_SIZE,
        spec_decode(fetch_word(s.memory, s.pc as int)) == Some(Instruction::WaitKey(x)),
        k < 16,
    ensures
        ({
            let t = step(s, random)->Ok_0;
            let u = press_key(t, k, true);
            &&& step(s, random) is Ok
            &&& t == (MachineState { run: RunState::WaitingForKey(x), ..s })
            &&& step(t, later) == Ok::<MachineState, Chip8Error>(t)
            &&& press_key(t, k, false).run == t.run
            &&& u.v[x as int] == k
            &&& u.run == RunState::KeyReceived
            &&& u.pc == s.pc
            &&& step(u, later) == Ok::<MachineState, Chip8Error>(
                MachineState { pc: (s.pc + 2) as u16, run: RunState::Running, ..u },
            )
        }),
{
    let w = fetch_word(s.memory, s.pc as int);
    lemma_decode_wf(w);
    let s1 = MachineState { pc: (s.pc + 2) as u16, ..s };
    assert(add16(s1.pc as int, -2) == s.pc);
    let t = MachineState { run: RunState::WaitingForKey(x), ..s };
    assert(step(s, random) == execute_word(s1, w, random));
    assert(execute(s1, Instruction::WaitKey(x), w, random) == Ok::<MachineState, Chip8Error>(t));
    assert(step(s, random) == Ok::<MachineState, Chip8Error>(t));
}

} // verus!
