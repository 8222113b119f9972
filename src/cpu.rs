use vstd::prelude::*;

use rand::rngs::ThreadRng;

use crate::display::{blank, collides, drawn, Display, PIXELS};
use crate::instruction::{decode_spec, nibbles, Instruction};
use crate::random::random_byte;
use crate::timer::{tick, Timer};

verus! {

/// Address at which programs are loaded and execution starts.
pub const START_PC: u16 = 0x200;

/// Size of the memory image in bytes.
pub const MEMORY_SIZE: usize = 4096;

/// Capacity of the call stack.
pub const STACK_SIZE: usize = 16;

/// Bytes available to a program: `MEMORY_SIZE - START_PC`.
pub const MAX_ROM_SIZE: usize = 3584;

/// Glyphs of the hex digits 0 to F, five rows of one byte each, stored at
/// address 0.
pub const FONT: [u8; 80] = [
    0xF0, 0x90, 0x90, 0x90, 0xF0, // 0
    0x20, 0x60, 0x20, 0x20, 0x70, // 1
    0xF0, 0x10, 0xF0, 0x80, 0xF0, // 2
    0xF0, 0x10, 0xF0, 0x10, 0xF0, // 3
    0x90, 0x90, 0xF0, 0x10, 0x10, // 4
    0xF0, 0x80, 0xF0, 0x10, 0xF0, // 5
    0xF0, 0x80, 0xF0, 0x90, 0xF0, // 6
    0xF0, 0x10, 0x20, 0x40, 0x40, // 7
    0xF0, 0x90, 0xF0, 0x90, 0xF0, // 8
    0xF0, 0x90, 0xF0, 0x10, 0xF0, // 9
    0xF0, 0x90, 0xF0, 0x90, 0x90, // A
    0xE0, 0x90, 0xE0, 0x90, 0xE0, // B
    0xF0, 0x80, 0x80, 0x80, 0xF0, // C
    0xE0, 0x90, 0x90, 0x90, 0xE0, // D
    0xF0, 0x80, 0xF0, 0x80, 0xF0, // E
    0xF0, 0x80, 0xF0, 0x80, 0x80, // F
];

/// Why a step could not be carried out. The machine is left as it was.
#[derive(Clone, Copy, Debug, PartialEq, Eq, Structural)]
pub enum CpuError {
    /// The fetched word encodes no instruction.
    UnknownInstruction(u16),
    /// A call with all sixteen stack slots in use.
    StackOverflow,
    /// A return with an empty stack.
    StackUnderflow,
    /// An instruction fetch or an access through `I` beyond the 4096 bytes of memory.
    MemoryAccessViolation,
    /// A key instruction whose register names no key of the sixteen.
    InvalidKey(u8),
}

/// The machine as a mathematical value.
#[verifier::ext_equal]
pub struct CpuState {
    /// `V0` to `VF`.
    pub registers: Seq<u8>,
    /// The index register `I`.
    pub index: u16,
    /// The program counter.
    pub pc: u16,
    /// Return addresses, oldest first.
    pub stack: Seq<u16>,
    /// The delay timer.
    pub delay: u8,
    /// The sound timer.
    pub sound: u8,
    /// The 4096 bytes of memory.
    pub memory: Seq<u8>,
    /// The 64x32 pixels, row-major.
    pub screen: Seq<bool>,
}

/// The big-endian instruction word at the program counter.
pub open spec fn opcode_at(s: CpuState) -> u16 {
    (s.memory[s.pc as int] as int * 0x100 + s.memory[s.pc as int + 1] as int) as u16
}

/// The error that executing `ins` in `s` raises, if any.
pub open spec fn fault_spec(s: CpuState, ins: Instruction) -> Option<CpuError> {
    match ins {
        Instruction::Return => if s.stack.len() == 0 {
            Some(CpuError::StackUnderflow)
        } else {
            None
        },
        Instruction::Call { .. } => if s.stack.len() >= STACK_SIZE {
            Some(CpuError::StackOverflow)
        } else {
            None
        },
        Instruction::SkipIfKey { x } => if s.registers[x as int] >= 16 {
            Some(CpuError::InvalidKey(s.registers[x as int]))
        } else {
            None
        },
        Instruction::SkipIfNotKey { x } => if s.registers[x as int] >= 16 {
            Some(CpuError::InvalidKey(s.registers[x as int]))
        } else {
            None
        },
        Instruction::AddIndex { x } => if s.index + s.registers[x as int] >= MEMORY_SIZE {
            Some(CpuError::MemoryAccessViolation)
        } else {
            None
        },
        Instruction::Draw { n, .. } => if s.index + n > MEMORY_SIZE {
            Some(CpuError::MemoryAccessViolation)
        } else {
            None
        },
        Instruction::StoreBcd { .. } => if s.index + 3 > MEMORY_SIZE {
            Some(CpuError::MemoryAccessViolation)
        } else {
            None
        },
        Instruction::StoreRegs { x } => if s.index + x + 1 > MEMORY_SIZE {
            Some(CpuError::MemoryAccessViolation)
        } else {
            None
        },
        Instruction::LoadRegs { x } => if s.index + x + 1 > MEMORY_SIZE {
            Some(CpuError::MemoryAccessViolation)
        } else {
            None
        },
        _ => None,
    }
}

/// The lowest index at or after `from` whose key is pressed.
pub open spec fn first_pressed(keys: Seq<bool>, from: int) -> Option<u8>
    decreases 16 - from,
{
    if from >= 16 || from < 0 {
        None
    } else if keys[from] {
        Some(from as u8)
    } else {
        first_pressed(keys, from + 1)
    }
}

/// `s` with the program counter moved past the next instruction when `cond` holds.
pub open spec fn skip_if(s: CpuState, cond: bool) -> CpuState {
    if cond {
        CpuState { pc: (s.pc + 2) as u16, ..s }
    } else {
        s
    }
}

/// `s` with register `x` set to `v`.
pub open spec fn set_reg(s: CpuState, x: u8, v: u8) -> CpuState {
    CpuState { registers: s.registers.update(x as int, v), ..s }
}

/// `s` with register `x` set to `v`, then `VF` set to `flag`.
pub open spec fn set_reg_flag(s: CpuState, x: u8, v: u8, flag: u8) -> CpuState {
    CpuState { registers: s.registers.update(x as int, v).update(15, flag), ..s }
}

/// `s` with `VF` set to `flag`, then register `x` (as it then reads) shifted
/// one bit left or right; bits shifted out are lost.
pub open spec fn flag_then_shift(s: CpuState, x: u8, flag: u8, left: bool) -> CpuState {
    let r = s.registers.update(15, flag);
    let v = if left {
        r[x as int] << 1u8
    } else {
        r[x as int] >> 1u8
    };
    CpuState { registers: r.update(x as int, v), ..s }
}

/// What executing `ins` does to `s`, a state whose program counter has
/// already moved past it and whose timers have ticked, and whether the
/// screen was touched. `rnd` is the random byte that `Cxnn` uses.
pub open spec fn execute_spec(s: CpuState, ins: Instruction, keys: Seq<bool>, rnd: u8) -> (
    CpuState,
    bool,
) {
    let v = s.registers;
    match ins {
        Instruction::ClearScreen => (CpuState { screen: blank(), ..s }, true),
        Instruction::Return => (
            CpuState { pc: s.stack.last(), stack: s.stack.drop_last(), ..s },
            false,
        ),
        Instruction::Jump { addr } => (CpuState { pc: addr, ..s }, false),
        Instruction::Call { addr } => (CpuState { pc: addr, stack: s.stack.push(s.pc), ..s }, false),
        Instruction::SkipIfEqImm { x, nn } => (skip_if(s, v[x as int] == nn), false),
        Instruction::SkipIfNeImm { x, nn } => (skip_if(s, v[x as int] != nn), false),
        Instruction::SkipIfEqReg { x, y } => (skip_if(s, v[x as int] == v[y as int]), false),
        Instruction::SkipIfNeReg { x, y } => (skip_if(s, v[x as int] != v[y as int]), false),
        Instruction::LoadImm { x, nn } => (set_reg(s, x, nn), false),
        Instruction::AddImm { x, nn } => (set_reg(s, x, ((v[x as int] + nn) % 256) as u8), false),
        Instruction::Move { x, y } => (set_reg(s, x, v[y as int]), false),
        Instruction::Or { x, y } => (set_reg(s, x, v[x as int] | v[y as int]), false),
        Instruction::And { x, y } => (set_reg(s, x, v[x as int] & v[y as int]), false),
        Instruction::Xor { x, y } => (set_reg(s, x, v[x as int] ^ v[y as int]), false),
        Instruction::AddReg { x, y } => (
            set_reg_flag(
                s,
                x,
                ((v[x as int] + v[y as int]) % 256) as u8,
                if v[x as int] + v[y as int] >= 256 {
                    1
                } else {
                    0
                },
            ),
            false,
        ),
        Instruction::SubReg { x, y } => (
            set_reg_flag(
                s,
                x,
                ((v[x as int] - v[y as int]) % 256) as u8,
                if v[x as int] >= v[y as int] {
                    1
                } else {
                    0
                },
            ),
            false,
        ),
        Instruction::SubRev { x, y } => (
            set_reg_flag(
                s,
                x,
                ((v[y as int] - v[x as int]) % 256) as u8,
                if v[y as int] >= v[x as int] {
                    1
                } else {
                    0
                },
            ),
            false,
        ),
        Instruction::ShiftRight { x, .. } => (flag_then_shift(s, x, v[x as int] & 1u8, false), false),
        Instruction::ShiftLeft { x, .. } => (flag_then_shift(s, x, v[x as int] & 0x80u8, true), false),
        Instruction::LoadIndex { addr } => (CpuState { index: addr, ..s }, false),
        Instruction::JumpOffset { addr } => (CpuState { pc: (addr + v[0]) as u16, ..s }, false),
        Instruction::Random { x, nn } => (set_reg(s, x, rnd & nn), false),
        Instruction::Draw { x, y, n } => {
            let sprite = s.memory.subrange(s.index as int, s.index + n);
            let vf = collides(s.screen, v[x as int] as int, v[y as int] as int, sprite);
            (
                CpuState {
                    screen: drawn(s.screen, v[x as int] as int, v[y as int] as int, sprite),
                    registers: v.update(
                        15,
                        if vf {
                            1
                        } else {
                            0
                        },
                    ),
                    ..s
                },
                true,
            )
        },
        Instruction::SkipIfKey { x } => (skip_if(s, keys[v[x as int] as int]), false),
        Instruction::SkipIfNotKey { x } => (skip_if(s, !keys[v[x as int] as int]), false),
        Instruction::ReadDelay { x } => (set_reg(s, x, s.delay), false),
        Instruction::WaitKey { x } => (
            match first_pressed(keys, 0) {
                Some(k) => set_reg(s, x, k),
                None => CpuState { pc: (s.pc - 2) as u16, ..s },
            },
            false,
        ),
        Instruction::SetDelay { x } => (CpuState { delay: v[x as int], ..s }, false),
        Instruction::SetSound { x } => (CpuState { sound: v[x as int], ..s }, false),
        Instruction::AddIndex { x } => (CpuState { index: (s.index + v[x as int]) as u16, ..s }, false),
        Instruction::FontGlyph { x } => (
            CpuState { index: ((v[x as int] & 0xFu8) * 5) as u16, ..s },
            false,
        ),
        Instruction::StoreBcd { x } => {
            let i = s.index as int;
            let d = v[x as int];
            (
                CpuState {
                    memory: s.memory.update(i, d / 100).update(i + 1, (d % 100) / 10).update(
                        i + 2,
                        d % 10,
                    ),
                    ..s
                },
                false,
            )
        },
        Instruction::StoreRegs { x } => (
            CpuState {
                memory: Seq::new(
                    s.memory.len(),
                    |k: int|
                        if s.index <= k <= s.index + x {
                            v[k - s.index]
                        } else {
                            s.memory[k]
                        },
                ),
                ..s
            },
            false,
        ),
        Instruction::LoadRegs { x } => (
            CpuState {
                registers: Seq::new(
                    v.len(),
                    |k: int|
                        if k <= x {
                            s.memory[s.index + k]
                        } else {
                            v[k]
                        },
                ),
                ..s
            },
            false,
        ),
    }
}

/// `s` with the program counter past the fetched word and both timers ticked.
pub open spec fn advance(s: CpuState) -> CpuState {
    CpuState { pc: (s.pc + 2) as u16, delay: tick(s.delay), sound: tick(s.sound), ..s }
}

/// One fetch/decode/execute cycle from `s` with the keys `keys` and the
/// random byte `rnd`: the next state and whether the screen was touched, or
/// the error that stops it.
pub open spec fn step_spec(s: CpuState, keys: Seq<bool>, rnd: u8) -> Result<(CpuState, bool), CpuError> {
    if s.pc + 1 >= MEMORY_SIZE {
        Err(CpuError::MemoryAccessViolation)
    } else {
        match decode_spec(opcode_at(s)) {
            None => Err(CpuError::UnknownInstruction(opcode_at(s))),
            Some(ins) => match fault_spec(s, ins) {
                Some(e) => Err(e),
                None => Ok(execute_spec(advance(s), ins, keys, rnd)),
            },
        }
    }
}

/// The machine as `Cpu::new` makes it: everything zero, the screen blank.
pub open spec fn initial_state() -> CpuState {
    CpuState {
        registers: Seq::new(16, |k: int| 0u8),
        index: 0,
        pc: 0,
        stack: Seq::empty(),
        delay: 0,
        sound: 0,
        memory: Seq::new(MEMORY_SIZE as nat, |k: int| 0u8),
        screen: blank(),
    }
}

/// Memory holding the font at address 0 and zeros elsewhere.
pub open spec fn font_memory() -> Seq<u8> {
    Seq::new(
        MEMORY_SIZE as nat,
        |k: int|
            if k < FONT@.len() {
                FONT@[k]
            } else {
                0u8
            },
    )
}

/// The machine after `Cpu::reset`: zeroed, font loaded, ready to run at `START_PC`.
pub open spec fn reset_state() -> CpuState {
    CpuState { pc: START_PC, memory: font_memory(), ..initial_state() }
}

/// `memory` with `rom` copied to `START_PC` onwards; what does not fit is dropped.
pub open spec fn with_rom(memory: Seq<u8>, rom: Seq<u8>) -> Seq<u8> {
    Seq::new(
        memory.len(),
        |k: int|
            if START_PC <= k < START_PC + rom.len() {
                rom[k - START_PC]
            } else {
                memory[k]
            },
    )
}

/// Whether a step from `before` with keys `keys` and random byte `rnd` that
/// left the machine in `after` and returned `r` did what `step_spec` says:
/// on success the new state, the screen flag, the screen and the beep
/// (sound timer nonzero before the step); on failure the error, with the
/// machine unchanged.
pub open spec fn step_outcome(
    before: CpuState,
    keys: Seq<bool>,
    rnd: u8,
    after: CpuState,
    r: Result<Output<'_>, CpuError>,
) -> bool {
    match step_spec(before, keys, rnd) {
        Ok((s, changed)) => {
            &&& r is Ok
            &&& after == s
            &&& r->Ok_0.screen_update == changed
            &&& r->Ok_0.beep == (before.sound != 0)
            &&& r->Ok_0.screen@ == s.screen
        },
        Err(e) => r == Err::<Output<'_>, CpuError>(e) && after == before,
    }
}

/// The machine after `reset` followed by `load(rom)`.
pub open spec fn booted(rom: Seq<u8>) -> CpuState {
    CpuState { memory: with_rom(font_memory(), rom), ..reset_state() }
}

/// The fields of a word built from four nibbles.
proof fn lemma_word(op: u16, a: u16, b: u16, c: u16, d: u16)
    requires
        a < 16,
        b < 16,
        c < 16,
        d < 16,
        op == a * 0x1000 + b * 0x100 + c * 0x10 + d,
    ensures
        nibbles(op) == (a, b, c, d),
        op % 0x100 == c * 0x10 + d,
        op % 0x1000 == b * 0x100 + c * 0x10 + d,
{
    assert(op / 0x1000 == a) by (nonlinear_arith)
        requires
            op == a * 0x1000 + b * 0x100 + c * 0x10 + d,
            b < 16,
            c < 16,
            d < 16,
    ;
    assert(op / 0x100 == a * 0x10 + b) by (nonlinear_arith)
        requires
            op == a * 0x1000 + b * 0x100 + c * 0x10 + d,
            c < 16,
            d < 16,
    ;
    assert((a * 0x10 + b) % 0x10 == b) by (nonlinear_arith)
        requires
            b < 16,
    ;
    assert(op / 0x10 == a * 0x100 + b * 0x10 + c) by (nonlinear_arith)
        requires
            op == a * 0x1000 + b * 0x100 + c * 0x10 + d,
            d < 16,
    ;
    assert((a * 0x100 + b * 0x10 + c) % 0x10 == c) by (nonlinear_arith)
        requires
            c < 16,
    ;
    assert(op % 0x10 == d) by (nonlinear_arith)
        requires
            op == a * 0x1000 + b * 0x100 + c * 0x10 + d,
            d < 16,
    ;
    assert(op % 0x100 == c * 0x10 + d) by (nonlinear_arith)
        requires
            op == a * 0x1000 + b * 0x100 + c * 0x10 + d,
            c < 16,
            d < 16,
    ;
    assert(op % 0x1000 == b * 0x100 + c * 0x10 + d) by (nonlinear_arith)
        requires
            op == a * 0x1000 + b * 0x100 + c * 0x10 + d,
            b < 16,
            c < 16,
            d < 16,
    ;
}

/// After a reset, loading the program `6xnn` and stepping once sets `Vx`
/// to `nn`, moves the program counter on by 2, leaves the screen as it was
/// and does not beep.
pub proof fn lemma_load_immediate(x: u8, nn: u8, keys: Seq<bool>, rnd: u8)
    requires
        x < 16,
    ensures
        ({
            let s = booted(seq![(0x60 + x) as u8, nn]);
            &&& step_spec(s, keys, rnd) is Ok
            &&& step_spec(s, keys, rnd)->Ok_0.0.registers[x as int] == nn
            &&& step_spec(s, keys, rnd)->Ok_0.0.pc == s.pc + 2
            &&& step_spec(s, keys, rnd)->Ok_0.0.screen == s.screen
            &&& !step_spec(s, keys, rnd)->Ok_0.1
            &&& s.sound == 0
        }),
{
    let s = booted(seq![(0x60 + x) as u8, nn]);
    assert(s.memory[0x200] == (0x60 + x) as u8);
    assert(s.memory[0x201] == nn);
    let op = opcode_at(s);
    assert(op == 6 * 0x1000 + x * 0x100 + (nn / 16) * 0x10 + nn % 16);
    lemma_word(op, 6, x as u16, (nn / 16) as u16, (nn % 16) as u16);
    assert(decode_spec(op) == Some(Instruction::LoadImm { x, nn }));
}

/// `7xnn` adds `nn` to `Vx` modulo 256.
pub proof fn lemma_add_immediate_wraps(s: CpuState, x: u8, nn: u8, keys: Seq<bool>, rnd: u8)
    requires
        x < 16,
        s.registers.len() == 16,
        s.pc + 1 < MEMORY_SIZE,
        opcode_at(s) == 0x7000 + x * 0x100 + nn,
    ensures
        step_spec(s, keys, rnd) is Ok,
        step_spec(s, keys, rnd)->Ok_0.0.registers[x as int] == (s.registers[x as int] + nn) % 256,
{
    lemma_word(opcode_at(s), 7, x as u16, (nn / 16) as u16, (nn % 16) as u16);
    assert(decode_spec(opcode_at(s)) == Some(Instruction::AddImm { x, nn }));
}

/// Every successful step ticks each timer exactly once, unless the
/// instruction itself sets that timer.
pub proof fn lemma_step_ticks_timers(s: CpuState, keys: Seq<bool>, rnd: u8)
    requires
        step_spec(s, keys, rnd) is Ok,
    ensures
        !(decode_spec(opcode_at(s)) matches Some(Instruction::SetDelay { .. }))
            ==> step_spec(s, keys, rnd)->Ok_0.0.delay == tick(s.delay),
        !(decode_spec(opcode_at(s)) matches Some(Instruction::SetSound { .. }))
            ==> step_spec(s, keys, rnd)->Ok_0.0.sound == tick(s.sound),
{
}

proof fn lemma_first_pressed(keys: Seq<bool>, from: int)
    requires
        0 <= from <= 16,
    ensures
        (forall|i: int| from <= i < 16 ==> !keys[i]) ==> first_pressed(keys, from) is None,
        forall|k: int|
            from <= k < 16 && #[trigger] keys[k] && (forall|j: int| from <= j < k ==> !keys[j])
                ==> first_pressed(keys, from) == Some(k as u8),
    decreases 16 - from,
{
    if from < 16 {
        lemma_first_pressed(keys, from + 1);
    }
}

/// `Fx0A` with no key pressed leaves the program counter where it was, so
/// the same word runs again on the next step; with `k` the lowest pressed
/// key it sets `Vx = k` and moves on by 2.
pub proof fn lemma_wait_key(s: CpuState, x: u8, keys: Seq<bool>, rnd: u8)
    requires
        x < 16,
        s.registers.len() == 16,
        s.pc + 1 < MEMORY_SIZE,
        opcode_at(s) == 0xF00A + x * 0x100,
    ensures
        step_spec(s, keys, rnd) is Ok,
        (forall|i: int| 0 <= i < 16 ==> !keys[i]) ==> step_spec(s, keys, rnd)->Ok_0.0.pc == s.pc
            && step_spec(s, keys, rnd)->Ok_0.0.registers == s.registers,
        forall|k: int|
            0 <= k < 16 && #[trigger] keys[k] && (forall|j: int| 0 <= j < k ==> !keys[j])
                ==> step_spec(s, keys, rnd)->Ok_0.0.registers[x as int] == k
                && step_spec(s, keys, rnd)->Ok_0.0.pc == s.pc + 2,
{
    lemma_word(opcode_at(s), 0xF, x as u16, 0, 0xA);
    assert(decode_spec(opcode_at(s)) == Some(Instruction::WaitKey { x }));
    lemma_first_pressed(keys, 0);
}

/// What one fetch/decode/execute cycle reports besides the new state.
pub struct Output<'a> {
    /// The pixels after the step, row-major.
    pub screen: &'a [bool; PIXELS],
    /// Whether the step touched the screen.
    pub screen_update: bool,
    /// Whether a tone should sound: the sound timer was nonzero before the step.
    pub beep: bool,
}

/// The interpreter: registers, memory, call stack, screen, timers and a
/// random number generator.
pub struct Cpu {
    register: [u8; 16],
    index: u16,
    pc: u16,
    stack: [u16; STACK_SIZE],
    sp: u8,
    delay_timer: Timer,
    sound_timer: Timer,
    memory: [u8; MEMORY_SIZE],
    display: Display,
    rng: ThreadRng,
}

impl View for Cpu {
    type V = CpuState;

    closed spec fn view(&self) -> CpuState {
        CpuState {
            registers: self.register@,
            index: self.index,
            pc: self.pc,
            stack: self.stack@.subrange(0, self.sp as int),
            delay: self.delay_timer.timer,
            sound: self.sound_timer.timer,
            memory: self.memory@,
            screen: self.display.display@,
        }
    }
}

impl Cpu {
    /// The stack pointer stays within the stack.
    pub closed spec fn wf(&self) -> bool {
        self.sp as usize <= STACK_SIZE
    }

    /// A machine with every register, the memory and the screen zeroed and
    /// the program counter at 0; call `reset` before loading a program.
    pub fn new() -> (cpu: Self)
        ensures
            cpu.wf(),
            cpu@ == initial_state(),
    {
        let cpu = Cpu {
            register: [0; 16],
            index: 0,
            pc: 0,
            stack: [0; STACK_SIZE],
            sp: 0,
            delay_timer: Timer::new(),
            sound_timer: Timer::new(),
            memory: [0; MEMORY_SIZE],
            display: Display::new(),
            rng: rand::thread_rng(),
        };
        assert(cpu@ =~= initial_state());
        cpu
    }

    /// Zeroes registers, stack, timers, memory and screen, loads the font at
    /// address 0, points the program counter at `START_PC` and takes a fresh
    /// handle on the random number generator.
    pub fn reset(&mut self)
        ensures
            final(self).wf(),
            final(self)@ == reset_state(),
    {
        let mut memory = [0u8; MEMORY_SIZE];
        let mut i: usize = 0;
        while i < FONT.len()
            invariant
                i <= FONT@.len(),
                FONT@.len() == 80,
                memory@ =~= Seq::new(
                    MEMORY_SIZE as nat,
                    |k: int|
                        if k < i {
                            FONT@[k]
                        } else {
                            0u8
                        },
                ),
            decreases FONT@.len() - i,
        {
            memory[i] = FONT[i];
            i += 1;
        }
        self.register = [0; 16];
        self.index = 0;
        self.pc = START_PC;
        self.stack = [0; STACK_SIZE];
        self.sp = 0;
        self.delay_timer.reset();
        self.sound_timer.reset();
        self.memory = memory;
        self.display.clear();
        self.rng = rand::thread_rng();
        assert(self@ =~= reset_state());
    }

    /// Copies `rom` into memory from `START_PC` on; bytes beyond the end of
    /// memory are dropped. Nothing else changes.
    pub fn load(&mut self, rom: &[u8])
        requires
            old(self).wf(),
        ensures
            final(self).wf(),
            final(self)@ == (CpuState { memory: with_rom(old(self)@.memory, rom@), ..old(self)@ }),
    {
        let n = if rom.len() < MAX_ROM_SIZE {
            rom.len()
        } else {
            MAX_ROM_SIZE
        };
        let start = START_PC as usize;
        let ghost mem = self@.memory;
        let mut i: usize = 0;
        while i < n
            invariant
                n <= MAX_ROM_SIZE,
                n <= rom@.len(),
                n == rom@.len() || n == MAX_ROM_SIZE,
                start == START_PC,
                i <= n,
                self.wf(),
                self@ == (CpuState { memory: self@.memory, ..old(self)@ }),
                self@.memory =~= Seq::new(
                    MEMORY_SIZE as nat,
                    |k: int|
                        if start <= k < start + i {
                            rom@[k - start]
                        } else {
                            mem[k]
                        },
                ),
            decreases n - i,
        {
            self.memory[start + i] = rom[i];
            i += 1;
        }
        assert(self@ =~= (CpuState { memory: with_rom(old(self)@.memory, rom@), ..old(self)@ }));
    }

    /// One fetch/decode/execute cycle with the keys `key_pressed` and
    /// `random` as the byte that `Cxnn` draws: fetches the big-endian word
    /// at the program counter, moves the program counter past it, ticks both
    /// timers and executes the word. On an error nothing changes.
    ///
    /// The timers tick once per step, not per unit of wall-clock time: the
    /// caller sets their pace by how often it steps. Passing the random byte
    /// in lets a caller supply a fixed sequence; `cycle` draws it instead.
    pub fn step(&mut self, key_pressed: &[bool; 16], random: u8) -> (r: Result<Output<'_>, CpuError>)
        requires
            old(self).wf(),
        ensures
            final(self).wf(),
            step_outcome(old(self)@, key_pressed@, random, final(self)@, r),
    {
        let pc = self.pc as usize;
        if pc + 1 >= MEMORY_SIZE {
            return Err(CpuError::MemoryAccessViolation);
        }
        let opcode: u16 = self.memory[pc] as u16 * 0x100 + self.memory[pc + 1] as u16;
        let ins = match Instruction::decode(opcode) {
            Some(ins) => ins,
            None => return Err(CpuError::UnknownInstruction(opcode)),
        };
        if let Some(e) = self.fault(ins) {
            return Err(e);
        }
        self.pc += 2;
        self.delay_timer.decrement();
        let beep = self.sound_timer.decrement();
        assert(self@ == advance(old(self)@));
        let screen_update = self.execute(ins, key_pressed, random);
        Ok(Output { screen: self.display.get(), screen_update, beep })
    }

    /// One cycle as `step` does it, with a byte drawn from the random
    /// number generator: the outcome is that of `step` for some byte.
    pub fn cycle(&mut self, key_pressed: &[bool; 16]) -> (r: Result<Output<'_>, CpuError>)
        requires
            old(self).wf(),
        ensures
            final(self).wf(),
            exists|random: u8| step_outcome(old(self)@, key_pressed@, random, final(self)@, r),
    {
        let random = random_byte(&mut self.rng);
        assert(self@ == old(self)@);
        self.step(key_pressed, random)
    }

    /// Register `Vi`.
    pub fn register(&self, i: usize) -> (v: u8)
        requires
            i < 16,
        ensures
            v == self@.registers[i as int],
    {
        self.register[i]
    }

    /// The index register `I`.
    pub fn index(&self) -> (i: u16)
        ensures
            i == self@.index,
    {
        self.index
    }

    /// The program counter.
    pub fn pc(&self) -> (pc: u16)
        ensures
            pc == self@.pc,
    {
        self.pc
    }

    /// How many return addresses are on the stack.
    pub fn stack_depth(&self) -> (depth: usize)
        requires
            self.wf(),
        ensures
            depth == self@.stack.len(),
    {
        self.sp as usize
    }

    /// The delay timer.
    pub fn delay_timer(&self) -> (t: u8)
        ensures
            t == self@.delay,
    {
        self.delay_timer.timer
    }

    /// The sound timer.
    pub fn sound_timer(&self) -> (t: u8)
        ensures
            t == self@.sound,
    {
        self.sound_timer.timer
    }

    /// The byte at `addr`.
    pub fn memory_at(&self, addr: usize) -> (b: u8)
        requires
            addr < MEMORY_SIZE,
        ensures
            b == self@.memory[addr as int],
    {
        self.memory[addr]
    }

    /// The screen.
    pub fn display(&self) -> (d: &Display)
        ensures
            d.display@ == self@.screen,
    {
        &self.display
    }

    /// The error that `ins` would raise, computed before anything changes.
    fn fault(&self, ins: Instruction) -> (r: Option<CpuError>)
        requires
            self.wf(),
            ins.well_formed(),
        ensures
            r == fault_spec(self@, ins),
    {
        let i = self.index as usize;
        match ins {
            Instruction::Return => if self.sp == 0 {
                Some(CpuError::StackUnderflow)
            } else {
                None
            },
            Instruction::Call { .. } => if self.sp as usize >= STACK_SIZE {
                Some(CpuError::StackOverflow)
            } else {
                None
            },
            Instruction::SkipIfKey { x } | Instruction::SkipIfNotKey { x } => {
                let vx = self.register[x as usize];
                if vx >= 16 {
                    Some(CpuError::InvalidKey(vx))
                } else {
                    None
                }
            },
            Instruction::AddIndex { x } => if i + self.register[x as usize] as usize >= MEMORY_SIZE {
                Some(CpuError::MemoryAccessViolation)
            } else {
                None
            },
            Instruction::Draw { n, .. } => if i + n as usize > MEMORY_SIZE {
                Some(CpuError::MemoryAccessViolation)
            } else {
                None
            },
            Instruction::StoreBcd { .. } => if i + 3 > MEMORY_SIZE {
                Some(CpuError::MemoryAccessViolation)
            } else {
                None
            },
            Instruction::StoreRegs { x } | Instruction::LoadRegs { x } => if i + x as usize + 1
                > MEMORY_SIZE {
                Some(CpuError::MemoryAccessViolation)
            } else {
                None
            },
            _ => None,
        }
    }

    fn push(&mut self, value: u16)
        requires
            old(self).wf(),
            old(self)@.stack.len() < STACK_SIZE,
        ensures
            final(self).wf(),
            final(self)@ == (CpuState { stack: old(self)@.stack.push(value), ..old(self)@ }),
    {
        self.stack[self.sp as usize] = value;
        self.sp += 1;
        assert(self@ =~= (CpuState { stack: old(self)@.stack.push(value), ..old(self)@ }));
    }

    fn pop(&mut self) -> (value: u16)
        requires
            old(self).wf(),
            old(self)@.stack.len() > 0,
        ensures
            final(self).wf(),
            value == old(self)@.stack.last(),
            final(self)@ == (CpuState { stack: old(self)@.stack.drop_last(), ..old(self)@ }),
    {
        self.sp -= 1;
        let value = self.stack[self.sp as usize];
        assert(self@ =~= (CpuState { stack: old(self)@.stack.drop_last(), ..old(self)@ }));
        value
    }

    fn skip(&mut self, cond: bool)
        requires
            old(self)@.pc <= MEMORY_SIZE,
        ensures
            final(self).sp == old(self).sp,
            final(self)@ == skip_if(old(self)@, cond),
    {
        if cond {
            self.pc += 2;
        }
    }

    fn set_register(&mut self, x: u8, v: u8)
        requires
            x < 16,
        ensures
            final(self).sp == old(self).sp,
            final(self)@ == set_reg(old(self)@, x, v),
    {
        self.register[x as usize] = v;
        assert(self@ =~= set_reg(old(self)@, x, v));
    }

    fn set_register_flag(&mut self, x: u8, v: u8, flag: u8)
        requires
            x < 16,
        ensures
            final(self).sp == old(self).sp,
            final(self)@ == set_reg_flag(old(self)@, x, v, flag),
    {
        self.register[x as usize] = v;
        self.register[0xF] = flag;
        assert(self@ =~= set_reg_flag(old(self)@, x, v, flag));
    }

    /// The lowest pressed key, if any.
    fn pressed_key(key_pressed: &[bool; 16]) -> (r: Option<u8>)
        ensures
            r == first_pressed(key_pressed@, 0),
    {
        let mut i: usize = 0;
        while i < 16
            invariant
                i <= 16,
                first_pressed(key_pressed@, 0) == first_pressed(key_pressed@, i as int),
            decreases 16 - i,
        {
            if key_pressed[i] {
                return Some(i as u8);
            }
            i += 1;
        }
        None
    }

    /// Jumps, calls, returns and skips.
    fn execute_flow(&mut self, ins: Instruction, key_pressed: &[bool; 16])
        requires
            old(self).wf(),
            ins.well_formed(),
            fault_spec(old(self)@, ins) is None,
            2 <= old(self)@.pc <= MEMORY_SIZE,
            ins is Return || ins is Jump || ins is Call || ins is SkipIfEqImm || ins is SkipIfNeImm
                || ins is SkipIfEqReg || ins is SkipIfNeReg || ins is JumpOffset || ins is SkipIfKey
                || ins is SkipIfNotKey || ins is WaitKey,
        ensures
            final(self).wf(),
            (final(self)@, false) == execute_spec(old(self)@, ins, key_pressed@, 0),
    {
        match ins {
            Instruction::Return => {
                let addr = self.pop();
                self.pc = addr;
            },
            Instruction::Jump { addr } => {
                self.pc = addr;
            },
            Instruction::Call { addr } => {
                let pc = self.pc;
                self.push(pc);
                self.pc = addr;
            },
            Instruction::SkipIfEqImm { x, nn } => {
                self.skip(self.register[x as usize] == nn);
            },
            Instruction::SkipIfNeImm { x, nn } => {
                self.skip(self.register[x as usize] != nn);
            },
            Instruction::SkipIfEqReg { x, y } => {
                self.skip(self.register[x as usize] == self.register[y as usize]);
            },
            Instruction::SkipIfNeReg { x, y } => {
                self.skip(self.register[x as usize] != self.register[y as usize]);
            },
            Instruction::JumpOffset { addr } => {
                self.pc = addr + self.register[0] as u16;
            },
            Instruction::SkipIfKey { x } => {
                self.skip(key_pressed[self.register[x as usize] as usize]);
            },
            Instruction::SkipIfNotKey { x } => {
                self.skip(!key_pressed[self.register[x as usize] as usize]);
            },
            Instruction::WaitKey { x } => {
                match Self::pressed_key(key_pressed) {
                    Some(k) => self.set_register(x, k),
                    None => self.pc -= 2,
                }
            },
            _ => {},
        }
    }

    /// Register loads and bitwise logic.
    fn execute_alu(&mut self, ins: Instruction, random: u8)
        requires
            old(self).wf(),
            ins.well_formed(),
            ins is LoadImm || ins is AddImm || ins is Move || ins is Or || ins is And || ins is Xor
                || ins is Random,
        ensures
            final(self).wf(),
            forall|keys: Seq<bool>|
                (final(self)@, false) == #[trigger] execute_spec(old(self)@, ins, keys, random),
    {
        match ins {
            Instruction::LoadImm { x, nn } => {
                self.set_register(x, nn);
            },
            Instruction::AddImm { x, nn } => {
                let vx = self.register[x as usize];
                self.set_register(x, vx.wrapping_add(nn));
            },
            Instruction::Move { x, y } => {
                let vy = self.register[y as usize];
                self.set_register(x, vy);
            },
            Instruction::Or { x, y } => {
                let r = self.register[x as usize] | self.register[y as usize];
                self.set_register(x, r);
            },
            Instruction::And { x, y } => {
                let r = self.register[x as usize] & self.register[y as usize];
                self.set_register(x, r);
            },
            Instruction::Xor { x, y } => {
                let r = self.register[x as usize] ^ self.register[y as usize];
                self.set_register(x, r);
            },
            Instruction::Random { x, nn } => {
                self.set_register(x, random & nn);
            },
            _ => {},
        }
    }

    /// Arithmetic and shifts that set the flag register.
    fn execute_flagged(&mut self, ins: Instruction)
        requires
            old(self).wf(),
            ins.well_formed(),
            ins is AddReg || ins is SubReg || ins is SubRev || ins is ShiftRight || ins is ShiftLeft,
        ensures
            final(self).wf(),
            forall|keys: Seq<bool>, random: u8|
                (final(self)@, false) == #[trigger] execute_spec(old(self)@, ins, keys, random),
    {
        let ghost s = self@;
        match ins {
            Instruction::AddReg { x, y } => {
                let vx = self.register[x as usize];
                let vy = self.register[y as usize];
                let carry: u8 = if vx as u16 + vy as u16 >= 256 {
                    1
                } else {
                    0
                };
                assert(vx.wrapping_add(vy) == ((vx + vy) % 256) as u8);
                self.set_register_flag(x, vx.wrapping_add(vy), carry);
            },
            Instruction::SubReg { x, y } => {
                let vx = self.register[x as usize];
                let vy = self.register[y as usize];
                let no_borrow: u8 = if vx >= vy {
                    1
                } else {
                    0
                };
                assert(vx.wrapping_sub(vy) == ((vx - vy) % 256) as u8);
                self.set_register_flag(x, vx.wrapping_sub(vy), no_borrow);
            },
            Instruction::SubRev { x, y } => {
                let vx = self.register[x as usize];
                let vy = self.register[y as usize];
                let no_borrow: u8 = if vy >= vx {
                    1
                } else {
                    0
                };
                assert(vy.wrapping_sub(vx) == ((vy - vx) % 256) as u8);
                self.set_register_flag(x, vy.wrapping_sub(vx), no_borrow);
            },
            Instruction::ShiftRight { x, .. } => {
                self.register[0xF] = self.register[x as usize] & 1;
                self.register[x as usize] >>= 1;
                assert(self@ =~= flag_then_shift(s, x, s.registers[x as int] & 1u8, false));
            },
            Instruction::ShiftLeft { x, .. } => {
                self.register[0xF] = self.register[x as usize] & 0x80;
                self.register[x as usize] <<= 1;
                assert(self@ =~= flag_then_shift(s, x, s.registers[x as int] & 0x80u8, true));
            },
            _ => {},
        }
    }

    /// The index register, memory through it, and the timers.
    fn execute_memory(&mut self, ins: Instruction)
        requires
            old(self).wf(),
            ins.well_formed(),
            fault_spec(old(self)@, ins) is None,
            ins is LoadIndex || ins is AddIndex || ins is FontGlyph || ins is StoreBcd
                || ins is StoreRegs || ins is LoadRegs || ins is ReadDelay || ins is SetDelay
                || ins is SetSound,
        ensures
            final(self).wf(),
            forall|keys: Seq<bool>, random: u8|
                (final(self)@, false) == #[trigger] execute_spec(old(self)@, ins, keys, random),
    {
        let ghost s = self@;
        match ins {
            Instruction::LoadIndex { addr } => {
                self.index = addr;
            },
            Instruction::AddIndex { x } => {
                self.index += self.register[x as usize] as u16;
            },
            Instruction::FontGlyph { x } => {
                self.index = (self.register[x as usize] & 0xF) as u16 * 5;
            },
            Instruction::ReadDelay { x } => {
                let d = self.delay_timer.timer;
                self.set_register(x, d);
            },
            Instruction::SetDelay { x } => {
                self.delay_timer.timer = self.register[x as usize];
            },
            Instruction::SetSound { x } => {
                self.sound_timer.timer = self.register[x as usize];
            },
            Instruction::StoreBcd { x } => {
                let vx = self.register[x as usize];
                let i = self.index as usize;
                self.memory[i] = vx / 100;
                self.memory[i + 1] = (vx % 100) / 10;
                self.memory[i + 2] = vx % 10;
                assert(self@ =~= execute_spec(s, ins, Seq::empty(), 0).0);
            },
            Instruction::StoreRegs { x } => {
                let start = self.index as usize;
                let mut i: usize = 0;
                while i <= x as usize
                    invariant
                        x < 16,
                        start == s.index,
                        start + x + 1 <= MEMORY_SIZE,
                        i <= x + 1,
                        self.sp == old(self).sp,
                        self@ == (CpuState { memory: self@.memory, ..s }),
                        self@.memory =~= Seq::new(
                            s.memory.len(),
                            |k: int|
                                if start <= k < start + i {
                                    s.registers[k - start]
                                } else {
                                    s.memory[k]
                                },
                        ),
                    decreases x + 1 - i,
                {
                    self.memory[start + i] = self.register[i];
                    i += 1;
                }
                assert(self@ =~= execute_spec(s, ins, Seq::empty(), 0).0);
            },
            Instruction::LoadRegs { x } => {
                let start = self.index as usize;
                let mut i: usize = 0;
                while i <= x as usize
                    invariant
                        x < 16,
                        start == s.index,
                        start + x + 1 <= MEMORY_SIZE,
                        i <= x + 1,
                        self.sp == old(self).sp,
                        self@ == (CpuState { registers: self@.registers, ..s }),
                        self@.registers =~= Seq::new(
                            s.registers.len(),
                            |k: int|
                                if k < i {
                                    s.memory[start + k]
                                } else {
                                    s.registers[k]
                                },
                        ),
                    decreases x + 1 - i,
                {
                    self.register[i] = self.memory[start + i];
                    i += 1;
                }
                assert(self@ =~= execute_spec(s, ins, Seq::empty(), 0).0);
            },
            _ => {},
        }
    }

    /// Clearing the screen and drawing sprites.
    fn execute_display(&mut self, ins: Instruction)
        requires
            old(self).wf(),
            ins.well_formed(),
            fault_spec(old(self)@, ins) is None,
            ins is ClearScreen || ins is Draw,
        ensures
            final(self).wf(),
            forall|keys: Seq<bool>, random: u8|
                (final(self)@, true) == #[trigger] execute_spec(old(self)@, ins, keys, random),
    {
        let ghost s = self@;
        match ins {
            Instruction::Draw { x, y, n } => {
                let vx = self.register[x as usize];
                let vy = self.register[y as usize];
                let start = self.index as usize;
                let sprite = vstd::slice::slice_subrange(
                    self.memory.as_slice(),
                    start,
                    start + n as usize,
                );
                let vf = self.display.draw(vx as usize, vy as usize, sprite);
                self.register[0xF] = if vf {
                    1
                } else {
                    0
                };
                assert(self@ =~= execute_spec(s, ins, Seq::empty(), 0).0);
            },
            _ => {
                self.display.clear();
                assert(self@ =~= (CpuState { screen: blank(), ..s }));
            },
        }
    }

    /// Executes `ins` on a machine whose program counter has already moved
    /// past it; returns whether the screen was touched.
    fn execute(&mut self, ins: Instruction, key_pressed: &[bool; 16], random: u8) -> (screen_update: bool)
        requires
            old(self).wf(),
            ins.well_formed(),
            fault_spec(old(self)@, ins) is None,
            2 <= old(self)@.pc <= MEMORY_SIZE,
        ensures
            final(self).wf(),
            (final(self)@, screen_update) == execute_spec(old(self)@, ins, key_pressed@, random),
    {
        match ins {
            Instruction::ClearScreen | Instruction::Draw { .. } => {
                self.execute_display(ins);
                true
            },
            Instruction::LoadIndex { .. }
            | Instruction::AddIndex { .. }
            | Instruction::FontGlyph { .. }
            | Instruction::StoreBcd { .. }
            | Instruction::StoreRegs { .. }
            | Instruction::LoadRegs { .. }
            | Instruction::ReadDelay { .. }
            | Instruction::SetDelay { .. }
            | Instruction::SetSound { .. } => {
                self.execute_memory(ins);
                false
            },
            Instruction::LoadImm { .. }
            | Instruction::AddImm { .. }
            | Instruction::Move { .. }
            | Instruction::Or { .. }
            | Instruction::And { .. }
            | Instruction::Xor { .. }
            | Instruction::Random { .. } => {
                self.execute_alu(ins, random);
                false
            },
            Instruction::AddReg { .. }
            | Instruction::SubReg { .. }
            | Instruction::SubRev { .. }
            | Instruction::ShiftRight { .. }
            | Instruction::ShiftLeft { .. } => {
                self.execute_flagged(ins);
                false
            },
            _ => {
                self.execute_flow(ins, key_pressed);
                false
            },
        }
    }
}

} // verus!
