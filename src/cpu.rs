use vstd::prelude::*;

use crate::display::draw_sprite;
use crate::font::FONTSET;
use crate::instruction::{decode, Instruction};
use crate::model::{
    add16, cycle_outcome, execute, execute_word, fetch_word, initial_state, lemma_execute_wf,
    lemma_step_wf, load, press_key, tick_timers, zeroed_state, Chip8Error, MachineState, RunState,
    MAX_PROGRAM_SIZE, PROGRAM_START,
};

verus! {

/// The CHIP-8 machine: 4 KiB of memory (font table at `0x000`, programs from
/// `0x200`), 16 registers, the index register, the program counter, a 16-entry
/// call stack, two countdown timers, a 64x32 framebuffer and 16 keys.
pub struct Chip8 {
    memory: [u8; 4096],
    v: [u8; 16],
    i: u16,
    pc: u16,
    display: [u8; 2048],
    delay_timer: u8,
    sound_timer: u8,
    stack: [u16; 16],
    sp: u8,
    keys: [bool; 16],
    run: RunState,
    draw_flag: bool,
}

impl View for Chip8 {
    type V = MachineState;

    closed spec fn view(&self) -> MachineState {
        MachineState {
            memory: self.memory@,
            v: self.v@,
            i: self.i,
            pc: self.pc,
            display: self.display@,
            delay_timer: self.delay_timer,
            sound_timer: self.sound_timer,
            stack: self.stack@,
            sp: self.sp,
            keys: self.keys@,
            run: self.run,
            draw_flag: self.draw_flag,
        }
    }
}

/// Relies on rand::thread_rng and rand::Rng::gen: a byte from the thread-local
/// generator. Nothing is known of its value.
#[verifier::external_body]
fn random_byte() -> (r: u8) {
    rand::Rng::gen::<u8>(&mut rand::thread_rng())
}

/// Copies `v[0..=x]` to `memory[base..=base + x]`.
fn store_registers(memory: &mut [u8; 4096], v: &[u8; 16], base: usize, x: usize)
    requires
        x < 16,
        base + x + 1 <= 4096,
    ensures
        forall|a: int|
            0 <= a < 4096 ==> #[trigger] final(memory)@[a] == if base <= a <= base + x {
                v@[a - base]
            } else {
                old(memory)@[a]
            },
{
    let ghost orig = memory@;
    let mut r: usize = 0;
    while r <= x
        invariant
            r <= x + 1,
            x < 16,
            base + x + 1 <= 4096,
            forall|a: int|
                0 <= a < 4096 ==> #[trigger] memory@[a] == if base <= a < base + r {
                    v@[a - base]
                } else {
                    orig[a]
                },
        decreases x + 1 - r,
    {
        memory[base + r] = v[r];
        r = r + 1;
    }
}

/// Copies `memory[base..=base + x]` to `v[0..=x]`.
fn load_registers(v: &mut [u8; 16], memory: &[u8; 4096], base: usize, x: usize)
    requires
        x < 16,
        base + x + 1 <= 4096,
    ensures
        forall|r: int|
            0 <= r < 16 ==> #[trigger] final(v)@[r] == if r <= x {
                memory@[base + r]
            } else {
                old(v)@[r]
            },
{
    let ghost orig = v@;
    let mut r: usize = 0;
    while r <= x
        invariant
            r <= x + 1,
            x < 16,
            base + x + 1 <= 4096,
            forall|k: int|
                0 <= k < 16 ==> #[trigger] v@[k] == if k < r {
                    memory@[base + k]
                } else {
                    orig[k]
                },
        decreases x + 1 - r,
    {
        v[r] = memory[base + r];
        r = r + 1;
    }
}

impl Chip8 {
    /// A machine with every part zero, memory included.
    pub fn new() -> (r: Self)
        ensures
            r@ == zeroed_state(),
            r@.wf(),
    {
        let r = Chip8 {
            memory: [0u8; 4096],
            v: [0u8; 16],
            i: 0,
            pc: 0,
            display: [0u8; 2048],
            delay_timer: 0,
            sound_timer: 0,
            stack: [0u16; 16],
            sp: 0,
            keys: [false; 16],
            run: RunState::Running,
            draw_flag: false,
        };
        assert(r@.memory =~= zeroed_state().memory);
        assert(r@.v =~= zeroed_state().v);
        assert(r@.display =~= zeroed_state().display);
        assert(r@.stack =~= zeroed_state().stack);
        assert(r@.keys =~= zeroed_state().keys);
        r
    }

    /// Resets every part, loads the font table at address 0 and sets the
    /// program counter to `start` (normally `0x200`).
    pub fn initialize(&mut self, start: u16)
        ensures
            final(self)@ == initial_state(start),
            final(self)@.wf(),
    {
        let mut memory = [0u8; 4096];
        let font = FONTSET;
        let mut k: usize = 0;
        while k < 80
            invariant
                k <= 80,
                font@ == FONTSET@,
                forall|a: int|
                    0 <= a < 4096 ==> #[trigger] memory@[a] == if a < k {
                        FONTSET@[a]
                    } else {
                        0
                    },
            decreases 80 - k,
        {
            memory[k] = font[k];
            k = k + 1;
        }
        *self = Chip8 {
            memory,
            v: [0u8; 16],
            i: 0,
            pc: start,
            display: [0u8; 2048],
            delay_timer: 0,
            sound_timer: 0,
            stack: [0u16; 16],
            sp: 0,
            keys: [false; 16],
            run: RunState::Running,
            draw_flag: false,
        };
        let ghost s = initial_state(start);
        assert(self@.memory =~= s.memory);
        assert(self@.v =~= s.v);
        assert(self@.display =~= s.display);
        assert(self@.stack =~= s.stack);
        assert(self@.keys =~= s.keys);
    }

    /// The framebuffer: 64x32 cells of 0 or 1, row-major.
    pub fn get_display(&self) -> (r: &[u8; 2048])
        ensures
            r@ == self@.display,
    {
        &self.display
    }

    /// Records that key `key` (0 to 15) went down or up. A press while the
    /// machine waits for a key stores `key` in the waiting register and ends
    /// the wait.
    pub fn set_key(&mut self, key: u8, pressed: bool)
        requires
            old(self)@.wf(),
            key < 16,
        ensures
            final(self)@ == press_key(old(self)@, key, pressed),
            final(self)@.wf(),
    {
        self.keys[key as usize] = pressed;
        match self.run {
            RunState::WaitingForKey(x) => {
                if pressed {
                    self.v[x as usize] = key;
                    self.run = RunState::KeyReceived;
                }
            },
            _ => {},
        }
    }

    /// Copies `buffer` into memory from `0x200`. A program of more than
    /// 3584 bytes is refused and leaves the machine as it was.
    pub fn load_program(&mut self, buffer: Vec<u8>) -> (r: Result<(), Chip8Error>)
        requires
            old(self)@.wf(),
        ensures
            buffer.len() > MAX_PROGRAM_SIZE ==> r == Err::<(), Chip8Error>(
                Chip8Error::ProgramTooLarge { size: buffer.len() },
            ) && final(self)@ == old(self)@,
            buffer.len() <= MAX_PROGRAM_SIZE ==> r is Ok && final(self)@ == load(old(self)@, buffer@),
            final(self)@.wf(),
    {
        let size = buffer.len();
        if size > MAX_PROGRAM_SIZE {
            return Err(Chip8Error::ProgramTooLarge { size });
        }
        let ghost pre = self@;
        let mut k: usize = 0;
        while k < size
            invariant
                k <= size,
                size == buffer.len(),
                size <= MAX_PROGRAM_SIZE,
                forall|a: int|
                    0 <= a < 4096 ==> #[trigger] self.memory@[a] == if PROGRAM_START <= a
                        < PROGRAM_START + k {
                        buffer@[a - PROGRAM_START]
                    } else {
                        pre.memory[a]
                    },
                self.v == old(self).v,
                self.display == old(self).display,
                self.stack == old(self).stack,
                self.keys == old(self).keys,
                self.i == old(self).i,
                self.pc == old(self).pc,
                self.sp == old(self).sp,
                self.run == old(self).run,
                self.draw_flag == old(self).draw_flag,
                self.delay_timer == old(self).delay_timer,
                self.sound_timer == old(self).sound_timer,
                pre == old(self)@,
            decreases size - k,
        {
            self.memory[PROGRAM_START + k] = buffer[k];
            k = k + 1;
        }
        assert(self@.memory =~= load(pre, buffer@).memory);
        Ok(())
    }

    /// The instruction word at the program counter, `memory[pc]` as the high
    /// byte and `memory[pc + 1]` as the low byte; fails when `pc + 1` is past
    /// the end of memory.
    pub fn decode_opcode(&self) -> (r: Result<u16, Chip8Error>)
        ensures
            self@.pc + 1 < 4096 ==> r == Ok::<u16, Chip8Error>(
                fetch_word(self@.memory, self@.pc as int),
            ),
            self@.pc + 1 >= 4096 ==> r == Err::<u16, Chip8Error>(
                Chip8Error::PcOutOfRange { pc: self@.pc },
            ),
    {
        let pc = self.pc as usize;
        if pc + 1 >= 4096 {
            return Err(Chip8Error::PcOutOfRange { pc: self.pc });
        }
        Ok(((self.memory[pc] as u16) << 8) | (self.memory[pc + 1] as u16))
    }

    /// Skips the next instruction: `pc = pc + 2`, wrapping.
    fn skip_next(&mut self)
        ensures
            final(self)@ == old(self)@.skip_if(true),
    {
        self.pc = ((self.pc as u32 + 2) % 65536) as u16;
    }

    /// Executes `Fx0A`: moves `pc` back onto the instruction and starts
    /// waiting for a key, to be stored in `Vx`.
    fn wait_for_key(&mut self, x: u8)
        ensures
            final(self)@ == (MachineState {
                run: RunState::WaitingForKey(x),
                pc: add16(old(self)@.pc as int, -2),
                ..old(self)@
            }),
    {
        let pc = self.pc;
        let back = ((pc as u32 + 65534) % 65536) as u16;
        assert(back == add16(pc as int, -2)) by {
            if pc >= 2 {
                assert(back == pc - 2);
            } else {
                assert(back == pc + 65534);
            }
        }
        self.pc = back;
        self.run = RunState::WaitingForKey(x);
    }

    /// Executes `Dxyn`: clears `VF`, draws the sprite at `I` at `(Vx, Vy)` and
    /// sets `VF` to the collision flag.
    fn draw(&mut self, x: u8, y: u8, n: u8, opcode: u16, random: u8) -> (r: Result<(), Chip8Error>)
        requires
            old(self)@.wf(),
            x < 16,
            y < 16,
            n < 16,
        ensures
            match execute(old(self)@, Instruction::Draw(x, y, n), opcode, random) {
                Ok(s) => r is Ok && final(self)@ == s,
                Err(e) => r == Err::<(), Chip8Error>(e) && final(self)@ == old(self)@,
            },
    {
        let base = self.i as usize;
        if base + n as usize > 4096 {
            return Err(Chip8Error::AddressOutOfRange { opcode, pc: self.pc });
        }
        self.v[15] = 0;
        let x0 = (self.v[x as usize] % 64) as usize;
        let y0 = (self.v[y as usize] % 32) as usize;
        let collided = draw_sprite(&mut self.display, &self.memory, base, n as usize, x0, y0);
        self.v[15] = if collided { 1 } else { 0 };
        self.draw_flag = true;
        Ok(())
    }

    /// Executes `ins`, decoded from `opcode`, with `pc` already past it.
    #[verifier::rlimit(50)]
    fn execute_instruction(&mut self, ins: Instruction, opcode: u16, random: u8) -> (r: Result<
        (),
        Chip8Error,
    >)
        requires
            old(self)@.wf(),
            ins.wf(),
        ensures
            match execute(old(self)@, ins, opcode, random) {
                Ok(s) => r is Ok && final(self)@ == s,
                Err(e) => r == Err::<(), Chip8Error>(e) && final(self)@ == old(self)@,
            },
    {
        let ghost pre = self@;
        let pc = self.pc;
        match ins {
            Instruction::Cls => {
                self.display = [0u8; 2048];
                self.draw_flag = true;
                assert(self@.display =~= Seq::new(2048, |c: int| 0u8));
            },
            Instruction::Ret => {
                if self.sp == 0 {
                    return Err(Chip8Error::StackUnderflow { opcode, pc });
                }
                self.sp = self.sp - 1;
                self.pc = self.stack[self.sp as usize];
            },
            Instruction::Jump(a) => {
                self.pc = a;
            },
            Instruction::Call(a) => {
                if self.sp >= 16 {
                    return Err(Chip8Error::StackOverflow { opcode, pc });
                }
                self.stack[self.sp as usize] = pc;
                self.sp = self.sp + 1;
                self.pc = a;
            },
            Instruction::SkipEqByte(x, kk) => {
                if self.v[x as usize] == kk {
                    self.skip_next();
                }
            },
            Instruction::SkipNeByte(x, kk) => {
                if self.v[x as usize] != kk {
                    self.skip_next();
                }
            },
            Instruction::SkipEqReg(x, y) => {
                if self.v[x as usize] == self.v[y as usize] {
                    self.skip_next();
                }
            },
            Instruction::SkipNeReg(x, y) => {
                if self.v[x as usize] != self.v[y as usize] {
                    self.skip_next();
                }
            },
            Instruction::LoadByte(x, kk) => {
                self.v[x as usize] = kk;
            },
            Instruction::AddByte(x, kk) => {
                self.v[x as usize] = ((self.v[x as usize] as u16 + kk as u16) % 256) as u8;
            },
            Instruction::LoadReg(x, y) => {
                self.v[x as usize] = self.v[y as usize];
            },
            Instruction::Or(x, y) => {
                self.v[x as usize] = self.v[x as usize] | self.v[y as usize];
            },
            Instruction::And(x, y) => {
                self.v[x as usize] = self.v[x as usize] & self.v[y as usize];
            },
            Instruction::Xor(x, y) => {
                self.v[x as usize] = self.v[x as usize] ^ self.v[y as usize];
            },
            Instruction::AddReg(x, y) => {
                let sum = self.v[x as usize] as u16 + self.v[y as usize] as u16;
                self.v[15] = if sum > 255 { 1 } else { 0 };
                self.v[x as usize] = (sum % 256) as u8;
            },
            Instruction::Sub(x, y) => {
                let a = self.v[x as usize];
                let b = self.v[y as usize];
                self.v[15] = if a >= b { 1 } else { 0 };
                self.v[x as usize] = ((a as u16 + 256 - b as u16) % 256) as u8;
            },
            Instruction::SubN(x, y) => {
                let a = self.v[x as usize];
                let b = self.v[y as usize];
                self.v[15] = if b >= a { 1 } else { 0 };
                self.v[x as usize] = ((b as u16 + 256 - a as u16) % 256) as u8;
            },
            Instruction::ShiftRight(x) => {
                let a = self.v[x as usize];
                self.v[15] = a % 2;
                self.v[x as usize] = a / 2;
            },
            Instruction::ShiftLeft(x) => {
                let a = self.v[x as usize];
                self.v[15] = a / 128;
                self.v[x as usize] = ((a as u16 * 2) % 256) as u8;
            },
            Instruction::LoadIndex(a) => {
                self.i = a;
            },
            Instruction::JumpV0(a) => {
                self.pc = a + self.v[0] as u16;
            },
            Instruction::Random(x, kk) => {
                self.v[x as usize] = random & kk;
            },
            Instruction::Draw(x, y, n) => {
                return self.draw(x, y, n, opcode, random);
            },
            Instruction::SkipKey(x) => {
                let k = self.v[x as usize];
                if k < 16 && self.keys[k as usize] {
                    self.skip_next();
                }
            },
            Instruction::SkipNotKey(x) => {
                let k = self.v[x as usize];
                if !(k < 16 && self.keys[k as usize]) {
                    self.skip_next();
                }
            },
            Instruction::LoadDelay(x) => {
                self.v[x as usize] = self.delay_timer;
            },
            Instruction::WaitKey(x) => {
                self.wait_for_key(x);
            },
            Instruction::SetDelay(x) => {
                self.delay_timer = self.v[x as usize];
            },
            Instruction::SetSound(x) => {
                self.sound_timer = self.v[x as usize];
            },
            Instruction::AddIndex(x) => {
                self.i = ((self.i as u32 + self.v[x as usize] as u32) % 65536) as u16;
            },
            Instruction::LoadFont(x) => {
                self.i = self.v[x as usize] as u16 * 5;
            },
            Instruction::StoreBcd(x) => {
                let base = self.i as usize;
                if base + 3 > 4096 {
                    return Err(Chip8Error::AddressOutOfRange { opcode, pc });
                }
                let a = self.v[x as usize];
                self.memory[base] = a / 100;
                self.memory[base + 1] = (a / 10) % 10;
                self.memory[base + 2] = a % 10;
            },
            Instruction::StoreRegs(x) => {
                let base = self.i as usize;
                if base + x as usize + 1 > 4096 {
                    return Err(Chip8Error::AddressOutOfRange { opcode, pc });
                }
                store_registers(&mut self.memory, &self.v, base, x as usize);
                self.i = ((self.i as u32 + x as u32 + 1) % 65536) as u16;
                assert(self@.memory =~= execute(pre, ins, opcode, random)->Ok_0.memory);
            },
            Instruction::LoadRegs(x) => {
                let base = self.i as usize;
                if base + x as usize + 1 > 4096 {
                    return Err(Chip8Error::AddressOutOfRange { opcode, pc });
                }
                load_registers(&mut self.v, &self.memory, base, x as usize);
                self.i = ((self.i as u32 + x as u32 + 1) % 65536) as u16;
                assert(self@.v =~= execute(pre, ins, opcode, random)->Ok_0.v);
            },
        }
        Ok(())
    }

    /// Decodes and executes the instruction word `opcode`, with `pc` already
    /// past it; `random` is the byte that `Cxkk` uses. A word outside the
    /// instruction table, or a fault of the instruction, leaves the machine as
    /// it was.
    pub fn execute_opcode(&mut self, opcode: u16, random: u8) -> (r: Result<(), Chip8Error>)
        requires
            old(self)@.wf(),
        ensures
            final(self)@.wf(),
            match execute_word(old(self)@, opcode, random) {
                Ok(s) => r is Ok && final(self)@ == s,
                Err(e) => r == Err::<(), Chip8Error>(e) && final(self)@ == old(self)@,
            },
    {
        match decode(opcode) {
            None => Err(Chip8Error::UnknownOpcode { opcode, pc: self.pc }),
            Some(ins) => {
                proof {
                    lemma_execute_wf(self@, ins, opcode, random);
                }
                self.execute_instruction(ins, opcode, random)
            },
        }
    }

    /// One cycle with `random` as the byte that `Cxkk` would draw. While the
    /// machine waits for a key nothing happens; once the key was received
    /// `pc` moves past the `Fx0A` and nothing else runs; otherwise the word at `pc` is
    /// fetched, `pc` advances by 2 and the instruction runs. Returns whether
    /// the framebuffer awaits a redraw; a fault leaves the machine as it was.
    pub fn emulate_cycle_with(&mut self, random: u8) -> (r: Result<bool, Chip8Error>)
        requires
            old(self)@.wf(),
        ensures
            final(self)@.wf(),
            cycle_outcome(old(self)@, final(self)@, r, random),
    {
        proof {
            lemma_step_wf(self@, random);
        }
        match self.run {
            RunState::WaitingForKey(_) => {
                return Ok(self.draw_flag);
            },
            RunState::KeyReceived => {
                self.skip_next();
                self.run = RunState::Running;
                return Ok(self.draw_flag);
            },
            RunState::Running => {},
        }
        let opcode = match self.decode_opcode() {
            Ok(w) => w,
            Err(e) => {
                return Err(e);
            },
        };
        let pc = self.pc;
        self.pc = pc + 2;
        match self.execute_opcode(opcode, random) {
            Ok(()) => Ok(self.draw_flag),
            Err(e) => {
                self.pc = pc;
                Err(e)
            },
        }
    }

    /// One cycle, drawing a random byte for `Cxkk`: whatever byte comes, the
    /// outcome is that of `emulate_cycle_with` on it.
    pub fn emulate_cycle(&mut self) -> (r: Result<bool, Chip8Error>)
        requires
            old(self)@.wf(),
        ensures
            final(self)@.wf(),
            exists|random: u8| cycle_outcome(old(self)@, final(self)@, r, random),
    {
        let random = random_byte();
        let r = self.emulate_cycle_with(random);
        assert(cycle_outcome(old(self)@, self@, r, random));
        r
    }

    /// One 60 Hz tick: both timers count down towards zero. Returns whether
    /// the sound timer went from 1 to 0, the moment a tone stops.
    pub fn tick_timers(&mut self) -> (beep_ended: bool)
        requires
            old(self)@.wf(),
        ensures
            final(self)@ == tick_timers(old(self)@),
            final(self)@.wf(),
            beep_ended == (old(self)@.sound_timer == 1),
    {
        if self.delay_timer > 0 {
            self.delay_timer = self.delay_timer - 1;
        }
        let beep_ended = self.sound_timer == 1;
        if self.sound_timer > 0 {
            self.sound_timer = self.sound_timer - 1;
        }
        beep_ended
    }

    /// The program counter.
    pub fn pc(&self) -> (r: u16)
        ensures
            r == self@.pc,
    {
        self.pc
    }

    /// The value of register `Vx`.
    pub fn register(&self, x: u8) -> (r: u8)
        requires
            x < 16,
        ensures
            r == self@.v[x as int],
    {
        self.v[x as usize]
    }

    /// The index register `I`.
    pub fn index(&self) -> (r: u16)
        ensures
            r == self@.i,
    {
        self.i
    }

    /// The number of return addresses on the stack.
    pub fn stack_pointer(&self) -> (r: u8)
        ensures
            r == self@.sp,
    {
        self.sp
    }

    /// The byte at `addr`.
    pub fn memory_at(&self, addr: u16) -> (r: u8)
        requires
            addr < 4096,
        ensures
            r == self@.memory[addr as int],
    {
        self.memory[addr as usize]
    }

    /// The delay timer.
    pub fn delay_timer(&self) -> (r: u8)
        ensures
            r == self@.delay_timer,
    {
        self.delay_timer
    }

    /// The sound timer.
    pub fn sound_timer(&self) -> (r: u8)
        ensures
            r == self@.sound_timer,
    {
        self.sound_timer
    }

    /// Whether the machine runs or waits for a key.
    pub fn run_state(&self) -> (r: RunState)
        ensures
            r == self@.run,
    {
        self.run
    }

    /// Whether the framebuffer changed since it was last shown.
    pub fn draw_flag(&self) -> (r: bool)
        ensures
            r == self@.draw_flag,
    {
        self.draw_flag
    }

    /// Sets or clears the redraw flag: cleared once a frame is shown, set to
    /// ask for a redraw (after a window resize, for one).
    pub fn set_draw_flag(&mut self, pending: bool)
        requires
            old(self)@.wf(),
        ensures
            final(self)@ == (MachineState { draw_flag: pending, ..old(self)@ }),
            final(self)@.wf(),
    {
        self.draw_flag = pending;
    }
}

} // verus!
