use vstd::prelude::*;

use crate::display::{collides, display_wf, drawn, lemma_drawn_wf};
use crate::font::FONTSET;
use crate::instruction::{lemma_decode_wf, spec_decode, Instruction};

verus! {

/// Number of addressable bytes of memory.
pub const MEMORY_SIZE: usize = 4096;

/// Address at which programs are loaded.
pub const PROGRAM_START: usize = 0x200;

/// Largest program that fits between `PROGRAM_START` and the end of memory.
pub const MAX_PROGRAM_SIZE: usize = 3584;

/// Depth of the call stack.
pub const STACK_DEPTH: usize = 16;

/// Whether the interpreter runs instructions or waits for a key press.
#[derive(PartialEq, Eq, Structural, Clone, Copy, Debug)]
pub enum RunState {
    /// Each cycle runs one instruction.
    Running,
    /// Halted on an `Fx0A`, with `pc` still on it: cycles do nothing until a
    /// key is pressed; its number then goes to the register held here.
    WaitingForKey(u8),
    /// The awaited key was stored; the next cycle moves `pc` past the `Fx0A`
    /// and runs nothing else.
    KeyReceived,
}

/// Faults of the interpreter. `pc` is the program counter when the fault was
/// raised: for a fault of an instruction it already points past that
/// instruction.
#[derive(PartialEq, Eq, Structural, Clone, Copy, Debug)]
pub enum Chip8Error {
    /// A program of `size` bytes does not fit in memory.
    ProgramTooLarge { size: usize },
    /// The program counter leaves no room for a 2-byte instruction.
    PcOutOfRange { pc: u16 },
    /// The word is not in the instruction table.
    UnknownOpcode { opcode: u16, pc: u16 },
    /// A call with all 16 stack entries in use.
    StackOverflow { opcode: u16, pc: u16 },
    /// A return with an empty stack.
    StackUnderflow { opcode: u16, pc: u16 },
    /// The instruction would read or write memory beyond the last address.
    AddressOutOfRange { opcode: u16, pc: u16 },
}

/// The whole machine state, as plain mathematical values.
pub struct MachineState {
    /// 4096 bytes of memory.
    pub memory: Seq<u8>,
    /// The registers `V0` to `VF`.
    pub v: Seq<u8>,
    /// The index register `I`.
    pub i: u16,
    /// The program counter.
    pub pc: u16,
    /// The framebuffer: 2048 cells of 0 or 1, row-major.
    pub display: Seq<u8>,
    pub delay_timer: u8,
    pub sound_timer: u8,
    /// Return addresses; entries below `sp` are in use.
    pub stack: Seq<u16>,
    pub sp: u8,
    /// Whether each of the 16 keys is pressed.
    pub keys: Seq<bool>,
    pub run: RunState,
    /// Set whenever the framebuffer changes; cleared by whoever shows it.
    pub draw_flag: bool,
}

/// The 16-bit word stored big-endian at `pc` and `pc + 1`.
pub open spec fn fetch_word(memory: Seq<u8>, pc: int) -> u16 {
    ((memory[pc] as u16) << 8) | (memory[pc + 1] as u16)
}

/// `a + b` on a 16-bit register, wrapping.
pub open spec fn add16(a: int, b: int) -> u16 {
    ((a + b) % 65536) as u16
}

/// The value of a countdown timer after one tick.
pub open spec fn tick(t: u8) -> u8 {
    if t > 0 {
        (t - 1) as u8
    } else {
        0
    }
}

/// The contents of memory after `initialize`: the font table, then zeros.
pub open spec fn initial_memory() -> Seq<u8> {
    Seq::new(MEMORY_SIZE as nat, |a: int| if a < 80 { FONTSET@[a] } else { 0 })
}

impl MachineState {
    /// Sizes of the parts, cells of 0 or 1, a stack depth of at most 16, and a
    /// register number below 16 while waiting for a key.
    pub open spec fn wf(self) -> bool {
        &&& self.memory.len() == MEMORY_SIZE
        &&& self.v.len() == 16
        &&& display_wf(self.display)
        &&& self.stack.len() == STACK_DEPTH
        &&& self.sp <= 16
        &&& self.keys.len() == 16
        &&& (self.run matches RunState::WaitingForKey(x) ==> x < 16)
    }

    /// The state with `Vx = val`.
    pub open spec fn set_reg(self, x: u8, val: u8) -> MachineState {
        MachineState { v: self.v.update(x as int, val), ..self }
    }

    /// The state after an instruction that writes its flag to `VF` and then
    /// its result to `Vx` (so that `x == 0xF` keeps the result).
    pub open spec fn set_flagged(self, x: u8, val: u8, flag: u8) -> MachineState {
        self.set_reg(0xF, flag).set_reg(x, val)
    }

    /// The state with the next instruction skipped when `cond` holds.
    pub open spec fn skip_if(self, cond: bool) -> MachineState {
        if cond {
            MachineState { pc: add16(self.pc as int, 2), ..self }
        } else {
            self
        }
    }

    /// Whether the key numbered `k` exists and is pressed.
    pub open spec fn key_down(self, k: u8) -> bool {
        k < 16 && self.keys[k as int]
    }
}

/// The state after executing `ins`, decoded from `opcode`, with `pc` already
/// past it; `random` is the byte that `Cxkk` draws. Faults leave no state.
pub open spec fn execute(s: MachineState, ins: Instruction, opcode: u16, random: u8) -> Result<
    MachineState,
    Chip8Error,
> {
    let pc = s.pc;
    match ins {
        Instruction::Cls => Ok(
            MachineState { display: Seq::new(2048, |c: int| 0u8), draw_flag: true, ..s },
        ),
        Instruction::Ret => if s.sp == 0 {
            Err(Chip8Error::StackUnderflow { opcode, pc })
        } else {
            Ok(MachineState { sp: (s.sp - 1) as u8, pc: s.stack[s.sp - 1], ..s })
        },
        Instruction::Jump(a) => Ok(MachineState { pc: a, ..s }),
        Instruction::Call(a) => if s.sp >= 16 {
            Err(Chip8Error::StackOverflow { opcode, pc })
        } else {
            Ok(
                MachineState {
                    stack: s.stack.update(s.sp as int, pc),
                    sp: (s.sp + 1) as u8,
                    pc: a,
                    ..s
                },
            )
        },
        Instruction::SkipEqByte(x, kk) => Ok(s.skip_if(s.v[x as int] == kk)),
        Instruction::SkipNeByte(x, kk) => Ok(s.skip_if(s.v[x as int] != kk)),
        Instruction::SkipEqReg(x, y) => Ok(s.skip_if(s.v[x as int] == s.v[y as int])),
        Instruction::SkipNeReg(x, y) => Ok(s.skip_if(s.v[x as int] != s.v[y as int])),
        Instruction::LoadByte(x, kk) => Ok(s.set_reg(x, kk)),
        Instruction::AddByte(x, kk) => Ok(s.set_reg(x, ((s.v[x as int] + kk) % 256) as u8)),
        Instruction::LoadReg(x, y) => Ok(s.set_reg(x, s.v[y as int])),
        Instruction::Or(x, y) => Ok(s.set_reg(x, s.v[x as int] | s.v[y as int])),
        Instruction::And(x, y) => Ok(s.set_reg(x, s.v[x as int] & s.v[y as int])),
        Instruction::Xor(x, y) => Ok(s.set_reg(x, s.v[x as int] ^ s.v[y as int])),
        Instruction::AddReg(x, y) => {
            let sum = s.v[x as int] + s.v[y as int];
            Ok(s.set_flagged(x, (sum % 256) as u8, if sum > 255 { 1 } else { 0 }))
        },
        Instruction::Sub(x, y) => {
            let (a, b) = (s.v[x as int], s.v[y as int]);
            Ok(s.set_flagged(x, ((a - b + 256) % 256) as u8, if a >= b { 1 } else { 0 }))
        },
        Instruction::SubN(x, y) => {
            let (a, b) = (s.v[x as int], s.v[y as int]);
            Ok(s.set_flagged(x, ((b - a + 256) % 256) as u8, if b >= a { 1 } else { 0 }))
        },
        Instruction::ShiftRight(x) => {
            let a = s.v[x as int];
            Ok(s.set_flagged(x, (a / 2) as u8, (a % 2) as u8))
        },
        Instruction::ShiftLeft(x) => {
            let a = s.v[x as int];
            Ok(s.set_flagged(x, ((a * 2) % 256) as u8, (a / 128) as u8))
        },
        Instruction::LoadIndex(a) => Ok(MachineState { i: a, ..s }),
        Instruction::JumpV0(a) => Ok(MachineState { pc: (a + s.v[0]) as u16, ..s }),
        Instruction::Random(x, kk) => Ok(s.set_reg(x, random & kk)),
        Instruction::Draw(x, y, n) => if s.i + n > MEMORY_SIZE {
            Err(Chip8Error::AddressOutOfRange { opcode, pc })
        } else {
            let cleared = s.set_reg(0xF, 0);
            let x0 = (cleared.v[x as int] % 64) as int;
            let y0 = (cleared.v[y as int] % 32) as int;
            let sprite = s.memory.subrange(s.i as int, s.i + n);
            let flag: u8 = if collides(s.display, sprite, x0, y0) { 1 } else { 0 };
            Ok(
                MachineState {
                    display: drawn(s.display, sprite, x0, y0),
                    draw_flag: true,
                    ..cleared.set_reg(0xF, flag)
                },
            )
        },
        Instruction::SkipKey(x) => Ok(s.skip_if(s.key_down(s.v[x as int]))),
        Instruction::SkipNotKey(x) => Ok(s.skip_if(!s.key_down(s.v[x as int]))),
        Instruction::LoadDelay(x) => Ok(s.set_reg(x, s.delay_timer)),
        Instruction::WaitKey(x) => Ok(
            MachineState { run: RunState::WaitingForKey(x), pc: add16(s.pc as int, -2), ..s },
        ),
        Instruction::SetDelay(x) => Ok(MachineState { delay_timer: s.v[x as int], ..s }),
        Instruction::SetSound(x) => Ok(MachineState { sound_timer: s.v[x as int], ..s }),
        Instruction::AddIndex(x) => Ok(MachineState { i: add16(s.i as int, s.v[x as int] as int), ..s }),
        Instruction::LoadFont(x) => Ok(MachineState { i: (s.v[x as int] * 5) as u16, ..s }),
        Instruction::StoreBcd(x) => if s.i + 3 > MEMORY_SIZE {
            Err(Chip8Error::AddressOutOfRange { opcode, pc })
        } else {
            let a = s.v[x as int];
            Ok(
                MachineState {
                    memory: s.memory.update(s.i as int, a / 100).update(
                        s.i + 1,
                        (a / 10) % 10,
                    ).update(s.i + 2, a % 10),
                    ..s
                },
            )
        },
        Instruction::StoreRegs(x) => if s.i + x + 1 > MEMORY_SIZE {
            Err(Chip8Error::AddressOutOfRange { opcode, pc })
        } else {
            Ok(
                MachineState {
                    memory: Seq::new(
                        s.memory.len(),
                        |a: int|
                            if s.i <= a <= s.i + x {
                                s.v[a - s.i]
                            } else {
                                s.memory[a]
                            },
                    ),
                    i: add16(s.i as int, x + 1),
                    ..s
                },
            )
        },
        Instruction::LoadRegs(x) => if s.i + x + 1 > MEMORY_SIZE {
            Err(Chip8Error::AddressOutOfRange { opcode, pc })
        } else {
            Ok(
                MachineState {
                    v: Seq::new(
                        16,
                        |r: int|
                            if r <= x {
                                s.memory[s.i + r]
                            } else {
                                s.v[r]
                            },
                    ),
                    i: add16(s.i as int, x + 1),
                    ..s
                },
            )
        },
    }
}

/// The state after executing the instruction word `opcode` with `pc` already
/// past it.
pub open spec fn execute_word(s: MachineState, opcode: u16, random: u8) -> Result<
    MachineState,
    Chip8Error,
> {
    match spec_decode(opcode) {
        None => Err(Chip8Error::UnknownOpcode { opcode, pc: s.pc }),
        Some(ins) => execute(s, ins, opcode, random),
    }
}

/// One cycle: nothing while waiting for a key; once the key was received,
/// `pc` moves past the `Fx0A` and nothing else happens; otherwise fetch the
/// word at `pc`, advance `pc` by 2, decode and execute.
pub open spec fn step(s: MachineState, random: u8) -> Result<MachineState, Chip8Error> {
    if s.run is WaitingForKey {
        Ok(s)
    } else if s.run is KeyReceived {
        Ok(MachineState { pc: add16(s.pc as int, 2), run: RunState::Running, ..s })
    } else if s.pc + 1 >= MEMORY_SIZE {
        Err(Chip8Error::PcOutOfRange { pc: s.pc })
    } else {
        execute_word(
            MachineState { pc: (s.pc + 2) as u16, ..s },
            fetch_word(s.memory, s.pc as int),
            random,
        )
    }
}

/// The state after key `k` goes up or down: a press while waiting stores `k`
/// in the waiting register and ends the wait.
pub open spec fn press_key(s: MachineState, k: u8, pressed: bool) -> MachineState {
    let s1 = MachineState { keys: s.keys.update(k as int, pressed), ..s };
    match s.run {
        RunState::WaitingForKey(x) => if pressed {
            MachineState { run: RunState::KeyReceived, ..s1.set_reg(x, k) }
        } else {
            s1
        },
        _ => s1,
    }
}

/// The state after one 60 Hz timer tick.
pub open spec fn tick_timers(s: MachineState) -> MachineState {
    MachineState { delay_timer: tick(s.delay_timer), sound_timer: tick(s.sound_timer), ..s }
}

/// The state after `program` is copied to memory at `PROGRAM_START`.
pub open spec fn load(s: MachineState, program: Seq<u8>) -> MachineState {
    MachineState {
        memory: Seq::new(
            s.memory.len(),
            |a: int|
                if PROGRAM_START <= a < PROGRAM_START + program.len() {
                    program[a - PROGRAM_START]
                } else {
                    s.memory[a]
                },
        ),
        ..s
    }
}

/// The state of a new machine: everything zero, memory included.
pub open spec fn zeroed_state() -> MachineState {
    MachineState { memory: Seq::new(MEMORY_SIZE as nat, |a: int| 0u8), ..initial_state(0) }
}

/// What one cycle does, run with `random` as the byte `Cxkk` would draw: on
/// success the new state and its redraw flag; on a fault the state is kept.
pub open spec fn cycle_outcome(
    pre: MachineState,
    post: MachineState,
    r: Result<bool, Chip8Error>,
    random: u8,
) -> bool {
    match step(pre, random) {
        Ok(s) => post == s && r == Ok::<bool, Chip8Error>(s.draw_flag),
        Err(e) => post == pre && r == Err::<bool, Chip8Error>(e),
    }
}

/// The state that `initialize(start)` sets up.
pub open spec fn initial_state(start: u16) -> MachineState {
    MachineState {
        memory: initial_memory(),
        v: Seq::new(16, |r: int| 0u8),
        i: 0,
        pc: start,
        display: Seq::new(2048, |c: int| 0u8),
        delay_timer: 0,
        sound_timer: 0,
        stack: Seq::new(16, |k: int| 0u16),
        sp: 0,
        keys: Seq::new(16, |k: int| false),
        run: RunState::Running,
        draw_flag: false,
    }
}

/// Executing a well-formed instruction keeps the state well-formed.
pub proof fn lemma_execute_wf(s: MachineState, ins: Instruction, opcode: u16, random: u8)
    requires
        s.wf(),
        ins.wf(),
    ensures
        execute(s, ins, opcode, random) matches Ok(t) ==> t.wf(),
{
    match ins {
        Instruction::Draw(x, y, n) => {
            if s.i + n <= MEMORY_SIZE {
                let cleared = s.set_reg(0xF, 0);
                let x0 = (cleared.v[x as int] % 64) as int;
                let y0 = (cleared.v[y as int] % 32) as int;
                lemma_drawn_wf(s.display, s.memory.subrange(s.i as int, s.i + n), x0, y0);
            }
        },
        Instruction::Cls => {
            assert(display_wf(Seq::new(2048, |c: int| 0u8)));
        },
        _ => {},
    }
}

/// Every cycle keeps the state well-formed.
pub proof fn lemma_step_wf(s: MachineState, random: u8)
    requires
        s.wf(),
    ensures
        step(s, random) matches Ok(t) ==> t.wf(),
{
    if s.run is Running && s.pc + 1 < MEMORY_SIZE {
        let w = fetch_word(s.memory, s.pc as int);
        lemma_decode_wf(w);
        if let Some(ins) = spec_decode(w) {
            lemma_execute_wf(MachineState { pc: (s.pc + 2) as u16, ..s }, ins, w, random);
        }
    }
}

} // verus!
