//! The virtual machine: its state, the meaning of each instruction, and the
//! fetch-decode-execute cycle.

use vstd::prelude::*;
use crate::display::{collides, draw_sprite, drawn, valid_frame, PIXELS};
use crate::instruction::{decode, decode_spec, Instruction};
use rand::Rng;

verus! {

/// Bytes of memory.
pub const MEMORY_SIZE: usize = 4096;
/// Number of general-purpose registers `V0..VF`.
pub const NUM_REGISTERS: usize = 16;
/// Number of keys on the pad.
pub const NUM_KEYS: usize = 16;
/// Deepest nesting of subroutine calls.
pub const STACK_DEPTH: usize = 16;
/// Where programs are loaded and where execution starts.
pub const PROGRAM_START: u16 = 0x200;
/// Largest program that fits between `PROGRAM_START` and the end of memory.
pub const MAX_ROM_SIZE: usize = 3584;
/// Bytes of the built-in font: sixteen glyphs of five rows each.
pub const FONT_SIZE: usize = 80;

/// The conditions that stop the machine.
#[derive(Clone, Copy, Debug, PartialEq, Eq, Structural)]
pub enum Chip8Error {
    /// A program does not fit in memory after `PROGRAM_START`.
    RomTooLarge,
    /// An instruction fetch or a memory access through `I` falls outside memory.
    AddressOutOfRange,
    /// A call would nest deeper than `STACK_DEPTH`.
    StackOverflow,
    /// A return with no call to return from.
    StackUnderflow,
}

/// The abstract state of the machine. `stack` holds the live return
/// addresses, the most recent last.
pub struct Chip8State {
    pub memory: Seq<u8>,
    pub registers: Seq<u8>,
    pub index: u16,
    pub pc: u16,
    pub stack: Seq<u16>,
    pub delay_timer: u8,
    pub sound_timer: u8,
    pub keypad: Seq<bool>,
    pub video: Seq<u8>,
}

/// The glyphs `0` to `F`, five rows each, held at the bottom of memory.
pub open spec fn font() -> Seq<u8> {
    seq![
        0xf0u8, 0x90, 0x90, 0x90, 0xf0, 0x20, 0x60, 0x20, 0x20, 0x70,
        0xf0, 0x10, 0xf0, 0x80, 0xf0, 0xf0, 0x10, 0xf0, 0x10, 0xf0,
        0x90, 0x90, 0xf0, 0x10, 0x10, 0xf0, 0x80, 0xf0, 0x10, 0xf0,
        0xf0, 0x80, 0xf0, 0x90, 0xf0, 0xf0, 0x10, 0x20, 0x40, 0x40,
        0xf0, 0x90, 0xf0, 0x90, 0xf0, 0xf0, 0x90, 0xf0, 0x10, 0xf0,
        0xf0, 0x90, 0xf0, 0x90, 0x90, 0xe0, 0x90, 0xe0, 0x90, 0xe0,
        0xf0, 0x80, 0x80, 0x80, 0xf0, 0xe0, 0x90, 0x90, 0x90, 0xe0,
        0xf0, 0x80, 0xf0, 0x80, 0xf0, 0xf0, 0x80, 0xf0, 0x80, 0x80
    ]
}

impl Chip8State {
    /// Every part has its fixed size, the stack is within its depth, and
    /// every pixel is on or off.
    pub open spec fn valid(self) -> bool {
        &&& self.memory.len() == MEMORY_SIZE
        &&& self.registers.len() == NUM_REGISTERS
        &&& self.stack.len() <= STACK_DEPTH
        &&& self.keypad.len() == NUM_KEYS
        &&& valid_frame(self.video)
    }

    /// `Vr`.
    pub open spec fn reg(self, r: int) -> u8 {
        self.registers[r]
    }

    /// The state with `Vr` set to `v`.
    pub open spec fn with_reg(self, r: int, v: u8) -> Chip8State {
        Chip8State { registers: self.registers.update(r, v), ..self }
    }

    /// The state with the program counter moved past one more instruction
    /// when `cond` holds.
    pub open spec fn skip_if(self, cond: bool) -> Chip8State {
        if cond { Chip8State { pc: (self.pc + 2) as u16, ..self } } else { self }
    }

    /// Whether key `k` exists and is pressed.
    pub open spec fn key_down(self, k: int) -> bool {
        0 <= k < NUM_KEYS && self.keypad[k]
    }

    /// Whether `k` is the lowest-numbered pressed key.
    pub open spec fn lowest_key(self, k: int) -> bool {
        self.key_down(k) && forall|j: int| 0 <= j < k ==> !self.keypad[j]
    }

    /// The opcode at the program counter: two bytes, big-endian.
    pub open spec fn opcode_at_pc(self) -> u16 {
        (self.memory[self.pc as int] as int * 256 + self.memory[self.pc + 1] as int) as u16
    }

    /// The state after the two timers count down once, stopping at zero.
    pub open spec fn tick_timers(self) -> Chip8State {
        Chip8State {
            delay_timer: if self.delay_timer > 0 { (self.delay_timer - 1) as u8 } else { 0 },
            sound_timer: if self.sound_timer > 0 { (self.sound_timer - 1) as u8 } else { 0 },
            ..self
        }
    }
}

/// The state that a freshly built machine is in: font at address 0, program
/// counter at `PROGRAM_START`, everything else zero, empty or released.
pub open spec fn initial_state() -> Chip8State {
    Chip8State {
        memory: font() + Seq::new((MEMORY_SIZE - FONT_SIZE) as nat, |a: int| 0u8),
        registers: Seq::new(NUM_REGISTERS as nat, |r: int| 0u8),
        index: 0,
        pc: PROGRAM_START,
        stack: Seq::empty(),
        delay_timer: 0,
        sound_timer: 0,
        keypad: Seq::new(NUM_KEYS as nat, |k: int| false),
        video: Seq::new(PIXELS as nat, |p: int| 0u8),
    }
}

/// What executing `ins` does to `s`, whose program counter has already moved
/// past the instruction; `rnd` is the random byte that `Random` uses.
pub open spec fn execute_spec(s: Chip8State, ins: Instruction, rnd: u8) -> Result<Chip8State, Chip8Error> {
    match ins {
        Instruction::Clear => Ok(Chip8State { video: Seq::new(PIXELS as nat, |p: int| 0u8), ..s }),
        Instruction::Return => if s.stack.len() == 0 {
            Err(Chip8Error::StackUnderflow)
        } else {
            Ok(Chip8State { pc: s.stack.last(), stack: s.stack.drop_last(), ..s })
        },
        Instruction::Jump { addr } => Ok(Chip8State { pc: addr, ..s }),
        Instruction::Call { addr } => if s.stack.len() >= STACK_DEPTH {
            Err(Chip8Error::StackOverflow)
        } else {
            Ok(Chip8State { pc: addr, stack: s.stack.push(s.pc), ..s })
        },
        Instruction::SkipIfEqualByte { x, byte } => Ok(s.skip_if(s.reg(x as int) == byte)),
        Instruction::SkipIfNotEqualByte { x, byte } => Ok(s.skip_if(s.reg(x as int) != byte)),
        Instruction::SkipIfEqualReg { x, y } => Ok(s.skip_if(s.reg(x as int) == s.reg(y as int))),
        Instruction::LoadByte { x, byte } => Ok(s.with_reg(x as int, byte)),
        Instruction::AddByte { x, byte } =>
            Ok(s.with_reg(x as int, ((s.reg(x as int) + byte) % 256) as u8)),
        Instruction::LoadReg { x, y } => Ok(s.with_reg(x as int, s.reg(y as int))),
        Instruction::Or { x, y } => Ok(s.with_reg(x as int, s.reg(x as int) | s.reg(y as int))),
        Instruction::And { x, y } => Ok(s.with_reg(x as int, s.reg(x as int) & s.reg(y as int))),
        Instruction::Xor { x, y } => Ok(s.with_reg(x as int, s.reg(x as int) ^ s.reg(y as int))),
        Instruction::AddReg { x, y } => {
            let sum = s.reg(x as int) + s.reg(y as int);
            Ok(s.with_reg(15, if sum > 255 { 1u8 } else { 0u8 }).with_reg(x as int, (sum % 256) as u8))
        },
        Instruction::SubReg { x, y } => {
            let (vx, vy) = (s.reg(x as int), s.reg(y as int));
            Ok(s.with_reg(15, if vx > vy { 1u8 } else { 0u8 }).with_reg(x as int, ((vx - vy + 256) % 256) as u8))
        },
        Instruction::ShiftRight { x, .. } => {
            let vx = s.reg(x as int);
            Ok(s.with_reg(15, vx % 2).with_reg(x as int, vx / 2))
        },
        Instruction::SubNeg { x, y } => {
            let (vx, vy) = (s.reg(x as int), s.reg(y as int));
            Ok(s.with_reg(15, if vy > vx { 1u8 } else { 0u8 }).with_reg(x as int, ((vy - vx + 256) % 256) as u8))
        },
        Instruction::ShiftLeft { x, .. } => {
            let vx = s.reg(x as int);
            Ok(s.with_reg(15, vx / 128).with_reg(x as int, ((vx % 128) * 2) as u8))
        },
        Instruction::SkipIfNotEqualReg { x, y } => Ok(s.skip_if(s.reg(x as int) != s.reg(y as int))),
        Instruction::LoadIndex { addr } => Ok(Chip8State { index: addr, ..s }),
        Instruction::JumpOffset { addr } => Ok(Chip8State { pc: (s.reg(0) + addr) as u16, ..s }),
        Instruction::Random { x, byte } => Ok(s.with_reg(x as int, rnd & byte)),
        Instruction::Draw { x, y, height } => if s.index + height > MEMORY_SIZE {
            Err(Chip8Error::AddressOutOfRange)
        } else {
            let (vx, vy) = (s.reg(x as int), s.reg(y as int));
            let sprite = s.memory.subrange(s.index as int, s.index + height);
            Ok(Chip8State {
                video: drawn(s.video, vx, vy, sprite),
                ..s.with_reg(15, if collides(s.video, vx, vy, sprite) { 1u8 } else { 0u8 })
            })
        },
        Instruction::SkipIfKey { x } => Ok(s.skip_if(s.key_down(s.reg(x as int) as int))),
        Instruction::SkipIfNotKey { x } => Ok(s.skip_if(!s.key_down(s.reg(x as int) as int))),
        Instruction::LoadDelay { x } => Ok(s.with_reg(x as int, s.delay_timer)),
        Instruction::WaitKey { x } => if exists|k: int| s.key_down(k) {
            Ok(s.with_reg(x as int, (choose|k: int| s.lowest_key(k)) as u8))
        } else {
            Ok(Chip8State { pc: (s.pc - 2) as u16, ..s })
        },
        Instruction::SetDelay { x } => Ok(Chip8State { delay_timer: s.reg(x as int), ..s }),
        Instruction::SetSound { x } => Ok(Chip8State { sound_timer: s.reg(x as int), ..s }),
        Instruction::AddIndex { x } => Ok(Chip8State { index: ((s.index + s.reg(x as int)) % 65536) as u16, ..s }),
        Instruction::LoadFont { x } => Ok(Chip8State { index: (s.reg(x as int) * 5) as u16, ..s }),
        Instruction::StoreBcd { x } => if s.index + 3 > MEMORY_SIZE {
            Err(Chip8Error::AddressOutOfRange)
        } else {
            let vx = s.reg(x as int);
            Ok(Chip8State {
                memory: s.memory.update(s.index as int, vx / 100)
                    .update(s.index + 1, (vx % 100) / 10)
                    .update(s.index + 2, vx % 10),
                ..s
            })
        },
        Instruction::StoreRegs { x } => if s.index + x + 1 > MEMORY_SIZE {
            Err(Chip8Error::AddressOutOfRange)
        } else {
            Ok(Chip8State {
                memory: Seq::new(s.memory.len(), |a: int|
                    if s.index <= a <= s.index + x { s.registers[a - s.index] } else { s.memory[a] }),
                ..s
            })
        },
        Instruction::LoadRegs { x } => if s.index + x + 1 > MEMORY_SIZE {
            Err(Chip8Error::AddressOutOfRange)
        } else {
            Ok(Chip8State {
                registers: Seq::new(s.registers.len(), |r: int|
                    if r <= x { s.memory[s.index + r] } else { s.registers[r] }),
                ..s
            })
        },
        Instruction::Unknown { .. } => Ok(s),
    }
}

/// One full cycle on `s`: fetch the opcode at the program counter and move
/// past it, execute it, then count the timers down.
pub open spec fn step_spec(s: Chip8State, rnd: u8) -> Result<Chip8State, Chip8Error> {
    if s.pc + 1 >= MEMORY_SIZE {
        Err(Chip8Error::AddressOutOfRange)
    } else {
        let fetched = Chip8State { pc: (s.pc + 2) as u16, ..s };
        match execute_spec(fetched, decode_spec(s.opcode_at_pc()), rnd) {
            Ok(t) => Ok(t.tick_timers()),
            Err(e) => Err(e),
        }
    }
}

/// How a cycle from `s` with random byte `rnd` relates its result `r` to the
/// state `t` that it leaves: on success `r` is the instruction executed and
/// `t` the next state; on an error the state is left as it was.
pub open spec fn step_outcome(s: Chip8State, rnd: u8, r: Result<Instruction, Chip8Error>, t: Chip8State) -> bool {
    match step_spec(s, rnd) {
        Ok(next) => r == Ok::<Instruction, Chip8Error>(decode_spec(s.opcode_at_pc())) && t == next,
        Err(e) => r == Err::<Instruction, Chip8Error>(e) && t == s,
    }
}

/// Relies on rand's `thread_rng` and `Rng::gen::<u8>`: a byte from the
/// thread-local generator. Nothing is assumed of its value.
#[verifier::external_body]
fn random_byte() -> u8 {
    rand::thread_rng().gen::<u8>()
}

/// The colour a presenter shows for a pixel: white when on, black when off.
pub open spec fn pixel_color(p: u8) -> u32 {
    if p != 0 { 0xffff_ffffu32 } else { 0u32 }
}

/// A CHIP-8 machine.
pub struct Chip8 {
    registers: Vec<u8>,
    memory: Vec<u8>,
    index: u16,
    pc: u16,
    stack: Vec<u16>,
    delay_timer: u8,
    sound_timer: u8,
    keypad: Vec<bool>,
    video: Vec<u8>,
}

impl View for Chip8 {
    type V = Chip8State;

    closed spec fn view(&self) -> Chip8State {
        Chip8State {
            memory: self.memory@,
            registers: self.registers@,
            index: self.index,
            pc: self.pc,
            stack: self.stack@,
            delay_timer: self.delay_timer,
            sound_timer: self.sound_timer,
            keypad: self.keypad@,
            video: self.video@,
        }
    }
}

/// A vector of `n` copies of `value`.
fn filled<T: Copy>(value: T, n: usize) -> (r: Vec<T>)
    ensures
        r@ == Seq::new(n as nat, |i: int| value),
{
    let mut r: Vec<T> = Vec::with_capacity(n);
    while r.len() < n
        invariant
            r.len() <= n,
            r@ == Seq::new(r.len() as nat, |i: int| value),
        decreases n - r.len(),
    {
        r.push(value);
    }
    assert(r@ =~= Seq::new(n as nat, |i: int| value));
    r
}

impl Chip8 {
    /// The machine's state is well formed.
    pub open spec fn wf(&self) -> bool {
        self@.valid()
    }

    /// A machine with the font loaded at address 0, the program counter at
    /// `PROGRAM_START`, and everything else cleared.
    pub fn new() -> (r: Chip8)
        ensures
            r@ == initial_state(),
            r.wf(),
    {
        let glyphs: [u8; 80] = [
            0xf0, 0x90, 0x90, 0x90, 0xf0, 0x20, 0x60, 0x20, 0x20, 0x70,
            0xf0, 0x10, 0xf0, 0x80, 0xf0, 0xf0, 0x10, 0xf0, 0x10, 0xf0,
            0x90, 0x90, 0xf0, 0x10, 0x10, 0xf0, 0x80, 0xf0, 0x10, 0xf0,
            0xf0, 0x80, 0xf0, 0x90, 0xf0, 0xf0, 0x10, 0x20, 0x40, 0x40,
            0xf0, 0x90, 0xf0, 0x90, 0xf0, 0xf0, 0x90, 0xf0, 0x10, 0xf0,
            0xf0, 0x90, 0xf0, 0x90, 0x90, 0xe0, 0x90, 0xe0, 0x90, 0xe0,
            0xf0, 0x80, 0x80, 0x80, 0xf0, 0xe0, 0x90, 0x90, 0x90, 0xe0,
            0xf0, 0x80, 0xf0, 0x80, 0xf0, 0xf0, 0x80, 0xf0, 0x80, 0x80,
        ];
        assert(glyphs@ == font());
        let mut memory = filled(0u8, MEMORY_SIZE);
        let mut i: usize = 0;
        while i < FONT_SIZE
            invariant
                i <= FONT_SIZE,
                glyphs@ == font(),
                memory@ == font().subrange(0, i as int)
                    + Seq::new((MEMORY_SIZE - i) as nat, |a: int| 0u8),
            decreases FONT_SIZE - i,
        {
            memory.set(i, glyphs[i]);
            i = i + 1;
            assert(memory@ =~= font().subrange(0, i as int)
                + Seq::new((MEMORY_SIZE - i) as nat, |a: int| 0u8));
        }
        assert(font().subrange(0, 80) =~= font());
        let r = Chip8 {
            registers: filled(0u8, NUM_REGISTERS),
            memory,
            index: 0,
            pc: PROGRAM_START,
            stack: Vec::with_capacity(STACK_DEPTH),
            delay_timer: 0,
            sound_timer: 0,
            keypad: filled(false, NUM_KEYS),
            video: filled(0u8, PIXELS),
        };
        assert(r@ =~= initial_state());
        r
    }
    /// Pushes a return address, or reports `StackOverflow` when the stack is full.
    fn push(&mut self, val: u16) -> (r: Result<(), Chip8Error>)
        requires
            old(self).wf(),
        ensures
            final(self).wf(),
            old(self)@.stack.len() >= STACK_DEPTH ==> r == Err::<(), Chip8Error>(Chip8Error::StackOverflow)
                && final(self)@ == old(self)@,
            old(self)@.stack.len() < STACK_DEPTH ==> r is Ok
                && final(self)@ == (Chip8State { stack: old(self)@.stack.push(val), ..old(self)@ }),
    {
        if self.stack.len() >= STACK_DEPTH {
            return Err(Chip8Error::StackOverflow);
        }
        self.stack.push(val);
        Ok(())
    }

    /// Pops the latest return address, or reports `StackUnderflow` when the
    /// stack is empty.
    fn pop(&mut self) -> (r: Result<u16, Chip8Error>)
        requires
            old(self).wf(),
        ensures
            final(self).wf(),
            old(self)@.stack.len() == 0 ==> r == Err::<u16, Chip8Error>(Chip8Error::StackUnderflow)
                && final(self)@ == old(self)@,
            old(self)@.stack.len() > 0 ==> r == Ok::<u16, Chip8Error>(old(self)@.stack.last())
                && final(self)@ == (Chip8State { stack: old(self)@.stack.drop_last(), ..old(self)@ }),
    {
        match self.stack.pop() {
            Some(a) => Ok(a),
            None => Err(Chip8Error::StackUnderflow),
        }
    }

    /// Reads the opcode at the program counter and moves past it, or reports
    /// `AddressOutOfRange` when it does not lie wholly in memory.
    fn fetch(&mut self) -> (r: Result<u16, Chip8Error>)
        requires
            old(self).wf(),
        ensures
            final(self).wf(),
            old(self)@.pc + 1 >= MEMORY_SIZE ==> r == Err::<u16, Chip8Error>(Chip8Error::AddressOutOfRange)
                && final(self)@ == old(self)@,
            old(self)@.pc + 1 < MEMORY_SIZE ==> r == Ok::<u16, Chip8Error>(old(self)@.opcode_at_pc())
                && final(self)@ == (Chip8State { pc: (old(self)@.pc + 2) as u16, ..old(self)@ }),
    {
        if self.pc as usize + 1 >= MEMORY_SIZE {
            return Err(Chip8Error::AddressOutOfRange);
        }
        let hi = self.memory[self.pc as usize] as u16;
        let lo = self.memory[self.pc as usize + 1] as u16;
        self.pc = self.pc + 2;
        Ok(hi * 256 + lo)
    }

    /// Counts each timer down by one unless it is already zero.
    fn update_timers(&mut self)
        requires
            old(self).wf(),
        ensures
            final(self).wf(),
            final(self)@ == old(self)@.tick_timers(),
    {
        if self.delay_timer > 0 {
            self.delay_timer = self.delay_timer - 1;
        }
        if self.sound_timer > 0 {
            self.sound_timer = self.sound_timer - 1;
        }
    }

    /// Executes an instruction that clears the screen or moves the program counter.
    /// On an error nothing changes.
    fn execute_flow(&mut self, ins: Instruction, random: u8) -> (r: Result<(), Chip8Error>)
        requires
            old(self).wf(),
            ins.well_formed(),
            2 <= old(self)@.pc <= MEMORY_SIZE,
            ins is Clear || ins is Return || ins is Jump || ins is Call ||
                ins is SkipIfEqualByte || ins is SkipIfNotEqualByte || ins is SkipIfEqualReg ||
                ins is SkipIfNotEqualReg || ins is LoadIndex || ins is JumpOffset ||
                ins is SkipIfKey || ins is SkipIfNotKey || ins is WaitKey,
        ensures
            final(self).wf(),
            match execute_spec(old(self)@, ins, random) {
                Ok(t) => r is Ok && final(self)@ == t,
                Err(e) => r == Err::<(), Chip8Error>(e) && final(self)@ == old(self)@,
            },
    {
        let ghost s = self@;
        match ins {
            Instruction::Clear => {
                self.video = filled(0u8, PIXELS);
            },
            Instruction::Return => {
                match self.pop() {
                    Ok(a) => {
                        self.pc = a;
                    },
                    Err(e) => {
                        return Err(e);
                    },
                }
            },
            Instruction::Jump { addr } => {
                self.pc = addr;
            },
            Instruction::Call { addr } => {
                let pc = self.pc;
                match self.push(pc) {
                    Ok(()) => {
                        self.pc = addr;
                    },
                    Err(e) => {
                        return Err(e);
                    },
                }
            },
            Instruction::SkipIfEqualByte { x, byte } => {
                if self.registers[x as usize] == byte {
                    self.pc = self.pc + 2;
                }
            },
            Instruction::SkipIfNotEqualByte { x, byte } => {
                if self.registers[x as usize] != byte {
                    self.pc = self.pc + 2;
                }
            },
            Instruction::SkipIfEqualReg { x, y } => {
                if self.registers[x as usize] == self.registers[y as usize] {
                    self.pc = self.pc + 2;
                }
            },
            Instruction::SkipIfNotEqualReg { x, y } => {
                if self.registers[x as usize] != self.registers[y as usize] {
                    self.pc = self.pc + 2;
                }
            },
            Instruction::LoadIndex { addr } => {
                self.index = addr;
            },
            Instruction::JumpOffset { addr } => {
                self.pc = self.registers[0] as u16 + addr;
            },
            Instruction::SkipIfKey { x } => {
                let k = self.registers[x as usize] as usize;
                if k < NUM_KEYS && self.keypad[k] {
                    self.pc = self.pc + 2;
                }
            },
            Instruction::SkipIfNotKey { x } => {
                let k = self.registers[x as usize] as usize;
                if !(k < NUM_KEYS && self.keypad[k]) {
                    self.pc = self.pc + 2;
                }
            },
            Instruction::WaitKey { x } => {
                let mut k: usize = 0;
                while k < NUM_KEYS && !self.keypad[k]
                    invariant
                        k <= NUM_KEYS,
                        self@ == s,
                        s.valid(),
                        forall|j: int| 0 <= j < k ==> !s.keypad[j],
                    decreases NUM_KEYS - k,
                {
                    k = k + 1;
                }
                if k < NUM_KEYS {
                    proof {
                        assert(s.lowest_key(k as int));
                        let c = choose|c: int| s.lowest_key(c);
                        assert(s.lowest_key(c));
                        assert(c == k);
                    }
                    self.registers.set(x as usize, k as u8);
                } else {
                    assert(!exists|j: int| s.key_down(j));
                    self.pc = self.pc - 2;
                }
            },
            _ => {},
        }
        proof {
            if ins is Clear {
                assert(self@ =~= execute_spec(s, ins, random)->Ok_0);
            }
        }
        Ok(())
    }

    /// Executes an instruction that computes a register from registers and immediates.
    /// On an error nothing changes.
    fn execute_arith(&mut self, ins: Instruction, random: u8) -> (r: Result<(), Chip8Error>)
        requires
            old(self).wf(),
            ins.well_formed(),
            2 <= old(self)@.pc <= MEMORY_SIZE,
            ins is LoadByte || ins is AddByte || ins is LoadReg || ins is Or || ins is And ||
                ins is Xor || ins is AddReg || ins is SubReg || ins is ShiftRight ||
                ins is SubNeg || ins is ShiftLeft || ins is Random,
        ensures
            final(self).wf(),
            match execute_spec(old(self)@, ins, random) {
                Ok(t) => r is Ok && final(self)@ == t,
                Err(e) => r == Err::<(), Chip8Error>(e) && final(self)@ == old(self)@,
            },
    {
        match ins {
            Instruction::LoadByte { x, byte } => {
                self.registers.set(x as usize, byte);
            },
            Instruction::AddByte { x, byte } => {
                let v = self.registers[x as usize].wrapping_add(byte);
                self.registers.set(x as usize, v);
            },
            Instruction::LoadReg { x, y } => {
                let v = self.registers[y as usize];
                self.registers.set(x as usize, v);
            },
            Instruction::Or { x, y } => {
                let v = self.registers[x as usize] | self.registers[y as usize];
                self.registers.set(x as usize, v);
            },
            Instruction::And { x, y } => {
                let v = self.registers[x as usize] & self.registers[y as usize];
                self.registers.set(x as usize, v);
            },
            Instruction::Xor { x, y } => {
                let v = self.registers[x as usize] ^ self.registers[y as usize];
                self.registers.set(x as usize, v);
            },
            Instruction::AddReg { x, y } => {
                let sum = self.registers[x as usize] as u16 + self.registers[y as usize] as u16;
                self.registers.set(15, if sum > 255 { 1 } else { 0 });
                self.registers.set(x as usize, (sum % 256) as u8);
            },
            Instruction::SubReg { x, y } => {
                let vx = self.registers[x as usize];
                let vy = self.registers[y as usize];
                self.registers.set(15, if vx > vy { 1 } else { 0 });
                self.registers.set(x as usize, vx.wrapping_sub(vy));
            },
            Instruction::ShiftRight { x, .. } => {
                let vx = self.registers[x as usize];
                self.registers.set(15, vx % 2);
                self.registers.set(x as usize, vx / 2);
            },
            Instruction::SubNeg { x, y } => {
                let vx = self.registers[x as usize];
                let vy = self.registers[y as usize];
                self.registers.set(15, if vy > vx { 1 } else { 0 });
                self.registers.set(x as usize, vy.wrapping_sub(vx));
            },
            Instruction::ShiftLeft { x, .. } => {
                let vx = self.registers[x as usize];
                self.registers.set(15, vx / 128);
                self.registers.set(x as usize, (vx % 128) * 2);
            },
            Instruction::Random { x, byte } => {
                self.registers.set(x as usize, random & byte);
            },
            _ => {},
        }
        Ok(())
    }

    /// Executes an instruction that draws, or moves data between registers, timers, `I` and memory.
    /// On an error nothing changes.
    fn execute_memory(&mut self, ins: Instruction, random: u8) -> (r: Result<(), Chip8Error>)
        requires
            old(self).wf(),
            ins.well_formed(),
            2 <= old(self)@.pc <= MEMORY_SIZE,
            ins is Draw || ins is LoadDelay || ins is SetDelay || ins is SetSound ||
                ins is AddIndex || ins is LoadFont || ins is StoreBcd || ins is StoreRegs ||
                ins is LoadRegs,
        ensures
            final(self).wf(),
            match execute_spec(old(self)@, ins, random) {
                Ok(t) => r is Ok && final(self)@ == t,
                Err(e) => r == Err::<(), Chip8Error>(e) && final(self)@ == old(self)@,
            },
    {
        let ghost s = self@;
        match ins {
            Instruction::Draw { x, y, height } => {
                if self.index as usize + height as usize > MEMORY_SIZE {
                    return Err(Chip8Error::AddressOutOfRange);
                }
                let vx = self.registers[x as usize];
                let vy = self.registers[y as usize];
                let collision = draw_sprite(&mut self.video, &self.memory, self.index as usize, height, vx, vy);
                self.registers.set(15, if collision { 1 } else { 0 });
            },
            Instruction::LoadDelay { x } => {
                let v = self.delay_timer;
                self.registers.set(x as usize, v);
            },
            Instruction::SetDelay { x } => {
                self.delay_timer = self.registers[x as usize];
            },
            Instruction::SetSound { x } => {
                self.sound_timer = self.registers[x as usize];
            },
            Instruction::AddIndex { x } => {
                self.index = self.index.wrapping_add(self.registers[x as usize] as u16);
            },
            Instruction::LoadFont { x } => {
                self.index = self.registers[x as usize] as u16 * 5;
            },
            Instruction::StoreBcd { x } => {
                if self.index as usize + 3 > MEMORY_SIZE {
                    return Err(Chip8Error::AddressOutOfRange);
                }
                let vx = self.registers[x as usize];
                let i = self.index as usize;
                self.memory.set(i, vx / 100);
                self.memory.set(i + 1, (vx % 100) / 10);
                self.memory.set(i + 2, vx % 10);
            },
            Instruction::StoreRegs { x } => {
                if self.index as usize + x as usize + 1 > MEMORY_SIZE {
                    return Err(Chip8Error::AddressOutOfRange);
                }
                let base = self.index as usize;
                let mut i: usize = 0;
                assert(self.memory@ =~= Seq::new(MEMORY_SIZE as nat, |a: int|
                    if base <= a < base + i { s.registers[a - base] } else { s.memory[a] }));
                while i <= x as usize
                    invariant
                        i <= x as usize + 1,
                        x < 16,
                        base == s.index,
                        base + x + 1 <= MEMORY_SIZE,
                        s.valid(),
                        self@ == (Chip8State {
                            memory: Seq::new(MEMORY_SIZE as nat, |a: int|
                                if base <= a < base + i { s.registers[a - base] } else { s.memory[a] }),
                            ..s
                        }),
                    decreases x + 1 - i,
                {
                    let v = self.registers[i];
                    self.memory.set(base + i, v);
                    i = i + 1;
                    assert(self.memory@ =~= Seq::new(MEMORY_SIZE as nat, |a: int|
                        if base <= a < base + i { s.registers[a - base] } else { s.memory[a] }));
                }
            },
            Instruction::LoadRegs { x } => {
                if self.index as usize + x as usize + 1 > MEMORY_SIZE {
                    return Err(Chip8Error::AddressOutOfRange);
                }
                let base = self.index as usize;
                let mut i: usize = 0;
                assert(self.registers@ =~= Seq::new(NUM_REGISTERS as nat, |r: int|
                    if r < i { s.memory[base + r] } else { s.registers[r] }));
                while i <= x as usize
                    invariant
                        i <= x as usize + 1,
                        x < 16,
                        base == s.index,
                        base + x + 1 <= MEMORY_SIZE,
                        s.valid(),
                        self@ == (Chip8State {
                            registers: Seq::new(NUM_REGISTERS as nat, |r: int|
                                if r < i { s.memory[base + r] } else { s.registers[r] }),
                            ..s
                        }),
                    decreases x + 1 - i,
                {
                    let v = self.memory[base + i];
                    self.registers.set(i, v);
                    i = i + 1;
                    assert(self.registers@ =~= Seq::new(NUM_REGISTERS as nat, |r: int|
                        if r < i { s.memory[base + r] } else { s.registers[r] }));
                }
            },
            _ => {},
        }
        proof {
            match ins {
                Instruction::StoreRegs { x } => {
                    assert(self@.memory =~= execute_spec(s, ins, random)->Ok_0.memory);
                },
                Instruction::LoadRegs { x } => {
                    assert(self@.registers =~= execute_spec(s, ins, random)->Ok_0.registers);
                },
                _ => {},
            }
        }
        Ok(())
    }

    /// Decodes `opcode` and executes it, the program counter having already
    /// moved past it; `random` is the byte that `Random` uses. On an error
    /// nothing changes.
    fn decode_execute(&mut self, opcode: u16, random: u8) -> (r: Result<(), Chip8Error>)
        requires
            old(self).wf(),
            2 <= old(self)@.pc <= MEMORY_SIZE,
        ensures
            final(self).wf(),
            match execute_spec(old(self)@, decode_spec(opcode), random) {
                Ok(t) => r is Ok && final(self)@ == t,
                Err(e) => r == Err::<(), Chip8Error>(e) && final(self)@ == old(self)@,
            },
    {
        let ins = decode(opcode);
        match ins {
            Instruction::Clear
            | Instruction::Return
            | Instruction::Jump { .. }
            | Instruction::Call { .. }
            | Instruction::SkipIfEqualByte { .. }
            | Instruction::SkipIfNotEqualByte { .. }
            | Instruction::SkipIfEqualReg { .. }
            | Instruction::SkipIfNotEqualReg { .. }
            | Instruction::LoadIndex { .. }
            | Instruction::JumpOffset { .. }
            | Instruction::SkipIfKey { .. }
            | Instruction::SkipIfNotKey { .. }
            | Instruction::WaitKey { .. } => self.execute_flow(ins, random),
            Instruction::LoadByte { .. }
            | Instruction::AddByte { .. }
            | Instruction::LoadReg { .. }
            | Instruction::Or { .. }
            | Instruction::And { .. }
            | Instruction::Xor { .. }
            | Instruction::AddReg { .. }
            | Instruction::SubReg { .. }
            | Instruction::ShiftRight { .. }
            | Instruction::SubNeg { .. }
            | Instruction::ShiftLeft { .. }
            | Instruction::Random { .. } => self.execute_arith(ins, random),
            Instruction::Draw { .. }
            | Instruction::LoadDelay { .. }
            | Instruction::SetDelay { .. }
            | Instruction::SetSound { .. }
            | Instruction::AddIndex { .. }
            | Instruction::LoadFont { .. }
            | Instruction::StoreBcd { .. }
            | Instruction::StoreRegs { .. }
            | Instruction::LoadRegs { .. } => self.execute_memory(ins, random),
            Instruction::Unknown { .. } => Ok(()),
        }
    }
    /// Runs one cycle with `random` as the byte that a `Random` instruction
    /// uses: fetches the opcode at the program counter, executes it, and
    /// counts the timers down. Returns the instruction executed (`Unknown`
    /// ones change nothing but the program counter and the timers), or the
    /// fatal condition met, in which case the machine is left as it was.
    pub fn step(&mut self, random: u8) -> (r: Result<Instruction, Chip8Error>)
        requires
            old(self).wf(),
        ensures
            final(self).wf(),
            step_outcome(old(self)@, random, r, final(self)@),
    {
        let opcode = match self.fetch() {
            Ok(op) => op,
            Err(e) => {
                return Err(e);
            },
        };
        match self.decode_execute(opcode, random) {
            Ok(()) => {},
            Err(e) => {
                self.pc = self.pc - 2;
                return Err(e);
            },
        }
        self.update_timers();
        Ok(decode(opcode))
    }

    /// Runs one cycle as `step` does, drawing the byte for a `Random`
    /// instruction from the thread-local generator.
    pub fn cycle(&mut self) -> (r: Result<Instruction, Chip8Error>)
        requires
            old(self).wf(),
        ensures
            final(self).wf(),
            exists|b: u8| step_outcome(old(self)@, b, r, final(self)@),
    {
        let b = random_byte();
        self.step(b)
    }

    /// Copies a program into memory from `PROGRAM_START` on, leaving all
    /// else as it is; a program longer than `MAX_ROM_SIZE` is refused.
    pub fn load(&mut self, rom: &[u8]) -> (r: Result<(), Chip8Error>)
        requires
            old(self).wf(),
        ensures
            final(self).wf(),
            rom@.len() > MAX_ROM_SIZE ==> r == Err::<(), Chip8Error>(Chip8Error::RomTooLarge)
                && final(self)@ == old(self)@,
            rom@.len() <= MAX_ROM_SIZE ==> r is Ok && final(self)@ == (Chip8State {
                memory: old(self)@.memory.subrange(0, PROGRAM_START as int) + rom@
                    + old(self)@.memory.subrange(PROGRAM_START + rom@.len(), MEMORY_SIZE as int),
                ..old(self)@
            }),
    {
        if rom.len() > MAX_ROM_SIZE {
            return Err(Chip8Error::RomTooLarge);
        }
        let ghost s = self@;
        let start = PROGRAM_START as usize;
        let mut i: usize = 0;
        assert(self.memory@ =~= s.memory.subrange(0, start as int) + rom@.subrange(0, i as int)
            + s.memory.subrange(start + i, MEMORY_SIZE as int));
        while i < rom.len()
            invariant
                i <= rom@.len() <= MAX_ROM_SIZE,
                start == PROGRAM_START,
                s.valid(),
                self@ == (Chip8State {
                    memory: s.memory.subrange(0, start as int) + rom@.subrange(0, i as int)
                        + s.memory.subrange(start + i, MEMORY_SIZE as int),
                    ..s
                }),
            decreases rom@.len() - i,
        {
            self.memory.set(start + i, rom[i]);
            i = i + 1;
            assert(self.memory@ =~= s.memory.subrange(0, start as int) + rom@.subrange(0, i as int)
                + s.memory.subrange(start + i, MEMORY_SIZE as int));
        }
        assert(rom@.subrange(0, i as int) =~= rom@);
        Ok(())
    }

    /// Records whether key `index` is pressed.
    pub fn set_key_pressed(&mut self, index: usize, pressed: bool)
        requires
            old(self).wf(),
            index < NUM_KEYS,
        ensures
            final(self).wf(),
            final(self)@ == (Chip8State { keypad: old(self)@.keypad.update(index as int, pressed), ..old(self)@ }),
    {
        self.keypad.set(index, pressed);
    }

    /// The frame buffer: `PIXELS` pixels, row-major, each 0 or 1.
    pub fn get_display(&self) -> (r: &[u8])
        ensures
            r@ == self@.video,
    {
        self.video.as_slice()
    }

    /// The frame buffer as colours, one per pixel in the same order.
    pub fn convert_screen_to_buffer(&self) -> (r: Vec<u32>)
        requires
            self.wf(),
        ensures
            r@ == Seq::new(PIXELS as nat, |p: int| pixel_color(self@.video[p])),
    {
        let mut buffer: Vec<u32> = Vec::with_capacity(PIXELS);
        let mut p: usize = 0;
        while p < self.video.len()
            invariant
                self.wf(),
                p <= PIXELS,
                buffer@ == Seq::new(p as nat, |q: int| pixel_color(self@.video[q])),
            decreases PIXELS - p,
        {
            let color: u32 = if self.video[p] != 0 { 0xffff_ffff } else { 0 };
            buffer.push(color);
            p = p + 1;
            assert(buffer@ =~= Seq::new(p as nat, |q: int| pixel_color(self@.video[q])));
        }
        buffer
    }
    /// `Vr`.
    pub fn register(&self, r: usize) -> (v: u8)
        requires
            self.wf(),
            r < NUM_REGISTERS,
        ensures
            v == self@.registers[r as int],
    {
        self.registers[r]
    }

    /// The byte at `addr`.
    pub fn memory_at(&self, addr: usize) -> (v: u8)
        requires
            self.wf(),
            addr < MEMORY_SIZE,
        ensures
            v == self@.memory[addr as int],
    {
        self.memory[addr]
    }

    /// The index register `I`.
    pub fn index(&self) -> (v: u16)
        ensures
            v == self@.index,
    {
        self.index
    }

    /// The program counter.
    pub fn pc(&self) -> (v: u16)
        ensures
            v == self@.pc,
    {
        self.pc
    }

    /// The delay timer.
    pub fn delay_timer(&self) -> (v: u8)
        ensures
            v == self@.delay_timer,
    {
        self.delay_timer
    }

    /// The sound timer.
    pub fn sound_timer(&self) -> (v: u8)
        ensures
            v == self@.sound_timer,
    {
        self.sound_timer
    }
}

/// Whatever the screen showed, a cycle that executes `CLS` leaves every pixel off.
pub proof fn lemma_clear_blanks_screen(s: Chip8State, rnd: u8)
    requires
        s.valid(),
        s.pc + 1 < MEMORY_SIZE,
        decode_spec(s.opcode_at_pc()) == Instruction::Clear,
    ensures
        step_spec(s, rnd) is Ok,
        step_spec(s, rnd)->Ok_0.video == Seq::new(PIXELS as nat, |p: int| 0u8),
{
}

/// `ADD Vx, Vy` into a register other than `VF` sets `VF` exactly when the
/// sum of the two bytes exceeds 255, and leaves the sum modulo 256 in `Vx`.
pub proof fn lemma_add_reg_carry(s: Chip8State, x: u8, y: u8, rnd: u8)
    requires
        s.valid(),
        x < 15,
        y < 16,
    ensures
        execute_spec(s, Instruction::AddReg { x, y }, rnd) is Ok,
        execute_spec(s, Instruction::AddReg { x, y }, rnd)->Ok_0.reg(15)
            == (if s.reg(x as int) + s.reg(y as int) > 255 { 1u8 } else { 0u8 }),
        execute_spec(s, Instruction::AddReg { x, y }, rnd)->Ok_0.reg(x as int)
            == (s.reg(x as int) + s.reg(y as int)) % 256,
{
}

/// Each successful cycle counts a positive timer down by exactly one and
/// leaves a zero timer at zero, unless the instruction executed sets that timer.
pub proof fn lemma_timers_count_down(s: Chip8State, rnd: u8)
    requires
        s.valid(),
        step_spec(s, rnd) is Ok,
    ensures
        !(decode_spec(s.opcode_at_pc()) is SetDelay) ==> step_spec(s, rnd)->Ok_0.delay_timer
            == (if s.delay_timer > 0 { s.delay_timer - 1 } else { 0 }),
        !(decode_spec(s.opcode_at_pc()) is SetSound) ==> step_spec(s, rnd)->Ok_0.sound_timer
            == (if s.sound_timer > 0 { s.sound_timer - 1 } else { 0 }),
{
}

/// `LD Vx, K` with no key pressed leaves the program counter, registers,
/// memory and keys as they were, so the next cycle waits again; once a key is
/// pressed, the lowest-numbered one goes to `Vx` and execution moves on.
pub proof fn lemma_wait_key(s: Chip8State, x: u8, rnd: u8)
    requires
        s.valid(),
        x < 16,
        s.pc + 1 < MEMORY_SIZE,
        decode_spec(s.opcode_at_pc()) == (Instruction::WaitKey { x }),
    ensures
        step_spec(s, rnd) is Ok,
        (forall|k: int| 0 <= k < NUM_KEYS ==> !s.keypad[k]) ==> {
            let t = step_spec(s, rnd)->Ok_0;
            &&& t.pc == s.pc
            &&& t.registers == s.registers
            &&& t.memory == s.memory
            &&& t.keypad == s.keypad
        },
        forall|k: int| #[trigger] s.lowest_key(k) ==> {
            let t = step_spec(s, rnd)->Ok_0;
            &&& t.pc == s.pc + 2
            &&& t.reg(x as int) == k
        },
{
    assert forall|k: int| #[trigger] s.lowest_key(k) implies {
        let t = step_spec(s, rnd)->Ok_0;
        &&& t.pc == s.pc + 2
        &&& t.reg(x as int) == k
    } by {
        let f = Chip8State { pc: (s.pc + 2) as u16, ..s };
        assert(f.lowest_key(k));
        let c = choose|c: int| f.lowest_key(c);
        assert(f.lowest_key(c));
        assert(c == k);
    }
}

} // verus!
