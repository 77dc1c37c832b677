use vstd::prelude::*;

use crate::memory::MEM_SIZE;
use crate::memory::Memory;

verus! {

/// Number of general-purpose registers, and of call-stack slots.
pub const NUM_REGS: usize = 16;
/// Conventional ROM load address; the program counter starts here.
pub const START_ADDR: u16 = 0x200;
/// Base address of the built-in font table in low memory.
pub const FONT_ADDR: u16 = 0x50;
/// Bytes per font glyph.
pub const FONT_GLYPH_SIZE: u16 = 5;

/// The architectural state of the machine, as one mathematical value:
/// the memory image, the sixteen V registers, the index register I,
/// the sixteen-slot call stack with its pointer, the program counter,
/// the two countdown timers, and a bitmask of the keys currently down.
#[verifier::ext_equal]
pub ghost struct Chip8State {
    pub ram: Seq<u8>,
    pub v: Seq<u8>,
    pub i: u16,
    pub stack: Seq<u16>,
    pub sp: u8,
    pub pc: u16,
    pub dt: u8,
    pub st: u8,
    pub keys: u16,
}

impl Chip8State {
    /// Well-formedness: the memory image and the register and stack files
    /// have their architectural sizes, and the stack pointer stays within
    /// the stack.
    pub open spec fn wf(self) -> bool {
        &&& self.ram.len() == MEM_SIZE
        &&& self.v.len() == NUM_REGS
        &&& self.stack.len() == NUM_REGS
        &&& self.sp <= NUM_REGS
    }
}

/// The state right after construction: everything zero but the program
/// counter, which starts at the ROM load address.
pub open spec fn initial_state() -> Chip8State {
    Chip8State {
        ram: Seq::new(MEM_SIZE as nat, |a: int| 0u8),
        v: Seq::new(NUM_REGS as nat, |r: int| 0u8),
        i: 0,
        stack: Seq::new(NUM_REGS as nat, |s: int| 0u16),
        sp: 0,
        pc: START_ADDR,
        dt: 0,
        st: 0,
        keys: 0,
    }
}

/// Outside work that an executed opcode requests of a collaborator.
/// The core itself touches only registers, memory and timers; display
/// and keyboard work is handed to the host through these values.
#[derive(Clone, Copy, Debug, PartialEq, Eq, Structural)]
pub enum Effect {
    /// No outside work requested.
    Nothing,
    /// 00E0: clear every pixel of the display.
    ClearDisplay,
    /// Dxyn: XOR-blit an `n`-row sprite, read from memory starting at `addr`,
    /// at column `x`, row `y`. The display reports back whether a pixel was
    /// erased; the host hands that bit to `report_collision`.
    Draw { x: u8, y: u8, addr: u16, n: u8 },
    /// Fx0A with no key down: the cycle did not advance; the host should
    /// run the same instruction again once a key is pressed.
    WaitingKey,
}

/// A fatal condition. Every fault aborts the current cycle before any
/// state changes, so the machine is left exactly as it was.
#[derive(Clone, Copy, Debug, PartialEq, Eq, Structural)]
pub enum Fault {
    /// The 16-bit word matches no opcode pattern; the word is carried.
    UnknownInstruction(u16),
    /// 2nnn with all sixteen stack slots in use.
    StackOverflow,
    /// 00EE with an empty stack.
    StackUnderflow,
    /// A memory access would reach at or past `MEM_SIZE`; the base address
    /// of the access is carried.
    OutOfRange(u16),
}

/// Top nibble: the instruction family.
pub open spec fn op_family(instr: u16) -> u16 {
    (instr >> 12) & 0xF
}

/// Second nibble: the Vx register operand.
pub open spec fn op_x(instr: u16) -> u16 {
    (instr >> 8) & 0xF
}

/// Third nibble: the Vy register operand.
pub open spec fn op_y(instr: u16) -> u16 {
    (instr >> 4) & 0xF
}

/// Lowest nibble: a 4-bit immediate or sub-opcode selector.
pub open spec fn op_n(instr: u16) -> u16 {
    instr & 0xF
}

/// Lowest byte: an 8-bit immediate or sub-opcode selector.
pub open spec fn op_nn(instr: u16) -> u8 {
    (instr & 0xFF) as u8
}

/// Lowest twelve bits: an address immediate.
pub open spec fn op_addr(instr: u16) -> u16 {
    instr & 0xFFF
}

/// The decoded fields stay within their widths.
pub proof fn lemma_op_field_bounds(instr: u16)
    ensures
        op_family(instr) < 16,
        op_x(instr) < 16,
        op_y(instr) < 16,
        op_n(instr) < 16,
        op_addr(instr) < 4096,
{
    assert((instr >> 12) & 0xF < 16 && (instr >> 8) & 0xF < 16 && (instr >> 4) & 0xF < 16 && (
    instr & 0xF) < 16 && (instr & 0xFFF) < 4096) by (bit_vector);
}

/// 8-bit wraparound: the value modulo 256.
pub open spec fn wrap8(n: int) -> u8 {
    (n % 256) as u8
}

/// 16-bit wraparound: the value modulo 65536.
pub open spec fn wrap16(n: int) -> u16 {
    (n % 0x10000) as u16
}

/// Whether key `k` is down in the bitmask `keys`; keys are numbered 0-15.
pub open spec fn key_down(keys: u16, k: u8) -> bool {
    k < 16 && (keys >> (k as u16)) & 1 == 1
}

/// The smallest key number at or above `k` that is down, or 16 if none is.
pub open spec fn first_key_from(keys: u16, k: u16) -> u16
    decreases 16 - k,
{
    if k >= 16 {
        16
    } else if (keys >> k) & 1 == 1 {
        k
    } else {
        first_key_from(keys, (k + 1) as u16)
    }
}

/// The memory image after Fx55: bytes `base` through `base + x` hold
/// V0 through Vx; every other byte keeps its value.
pub open spec fn store_regs(ram: Seq<u8>, base: int, v: Seq<u8>, x: int) -> Seq<u8> {
    Seq::new(ram.len(), |a: int| if base <= a <= base + x { v[a - base] } else { ram[a] })
}

/// The register file after Fx65: V0 through Vx hold the bytes at `base`
/// through `base + x`; every other register keeps its value.
pub open spec fn load_regs(v: Seq<u8>, ram: Seq<u8>, base: int, x: int) -> Seq<u8> {
    Seq::new(v.len(), |r: int| if r <= x { ram[base + r] } else { v[r] })
}

/// The memory image after Fx33: hundreds, tens and units digits of `value`
/// at `base`, `base + 1` and `base + 2`.
pub open spec fn bcd_write(ram: Seq<u8>, base: int, value: u8) -> Seq<u8> {
    ram.update(base, value / 100).update(base + 1, (value / 10) % 10).update(base + 2, value % 10)
}

/// The state with the program counter advanced past one instruction.
pub open spec fn advance_pc(s: Chip8State) -> Chip8State {
    Chip8State { pc: wrap16(s.pc + 2), ..s }
}

/// The state after a conditional skip: the program counter moves by four
/// when the condition holds, by two when it does not.
pub open spec fn skip_pc(s: Chip8State, cond: bool) -> Chip8State {
    Chip8State { pc: wrap16(s.pc + (if cond { 4int } else { 2int })), ..s }
}

/// The state with Vx set and the program counter advanced.
pub open spec fn with_reg(s: Chip8State, x: int, val: u8) -> Chip8State {
    Chip8State { v: s.v.update(x, val), pc: wrap16(s.pc + 2), ..s }
}

/// The state with Vx set, then VF set to a flag (the flag wins when x is 15),
/// and the program counter advanced.
pub open spec fn with_reg_flag(s: Chip8State, x: int, val: u8, flag: u8) -> Chip8State {
    Chip8State { v: s.v.update(x, val).update(15, flag), pc: wrap16(s.pc + 2), ..s }
}

/// One decode-execute step as a mathematical function of the pre-state,
/// the instruction word, and the byte drawn by Cxnn (ignored by every
/// other opcode). `Ok` carries the post-state and the outside work the
/// opcode requests; `Err` carries the fault, and the machine is unchanged.
pub open spec fn step_spec(s: Chip8State, instr: u16, rnd: u8) -> Result<
    (Chip8State, Effect),
    Fault,
> {
    let fam: u16 = op_family(instr);
    let x: int = op_x(instr) as int;
    let y: int = op_y(instr) as int;
    let n: u16 = op_n(instr);
    let nn: u8 = op_nn(instr);
    let addr: u16 = op_addr(instr);
    if fam == 0 {
        if instr == 0x0000 {
            Ok((advance_pc(s), Effect::Nothing))
        } else if instr == 0x00E0 {
            Ok((advance_pc(s), Effect::ClearDisplay))
        } else if instr == 0x00EE {
            if s.sp == 0 {
                Err(Fault::StackUnderflow)
            } else {
                Ok(
                    (
                        (Chip8State { pc: s.stack[s.sp - 1], sp: (s.sp - 1) as u8, ..s }),
                        Effect::Nothing,
                    ),
                )
            }
        } else {
            Err(Fault::UnknownInstruction(instr))
        }
    } else if fam == 1 {
        Ok(((Chip8State { pc: addr, ..s }), Effect::Nothing))
    } else if fam == 2 {
        if s.sp >= 16 {
            Err(Fault::StackOverflow)
        } else {
            Ok(
                (
                    (Chip8State {
                        stack: s.stack.update(s.sp as int, s.pc),
                        sp: (s.sp + 1) as u8,
                        pc: addr,
                        ..s
                    }),
                    Effect::Nothing,
                ),
            )
        }
    } else if fam == 3 {
        Ok((skip_pc(s, s.v[x] == nn), Effect::Nothing))
    } else if fam == 4 {
        Ok((skip_pc(s, s.v[x] != nn), Effect::Nothing))
    } else if fam == 5 {
        if n == 0 {
            Ok((skip_pc(s, s.v[x] == s.v[y]), Effect::Nothing))
        } else {
            Err(Fault::UnknownInstruction(instr))
        }
    } else if fam == 6 {
        Ok((with_reg(s, x, nn), Effect::Nothing))
    } else if fam == 7 {
        Ok((with_reg(s, x, wrap8(s.v[x] + nn)), Effect::Nothing))
    } else if fam == 8 {
        if n == 0 {
            Ok((with_reg(s, x, s.v[y]), Effect::Nothing))
        } else if n == 1 {
            Ok((with_reg(s, x, s.v[x] | s.v[y]), Effect::Nothing))
        } else if n == 2 {
            Ok((with_reg(s, x, s.v[x] & s.v[y]), Effect::Nothing))
        } else if n == 3 {
            Ok((with_reg(s, x, s.v[x] ^ s.v[y]), Effect::Nothing))
        } else if n == 4 {
            Ok(
                (
                    with_reg_flag(
                        s,
                        x,
                        wrap8(s.v[x] + s.v[y]),
                        if s.v[x] + s.v[y] > 255 {
                            1
                        } else {
                            0
                        },
                    ),
                    Effect::Nothing,
                ),
            )
        } else if n == 5 {
            Ok(
                (
                    with_reg_flag(
                        s,
                        x,
                        wrap8(s.v[x] + 256 - s.v[y]),
                        if s.v[x] >= s.v[y] {
                            1
                        } else {
                            0
                        },
                    ),
                    Effect::Nothing,
                ),
            )
        } else if n == 6 {
            // VF takes the low bit first; when x is 15 the shift then acts
            // on that flag value, as the register file is updated in order.
            let v1 = s.v.update(15, s.v[x] & 1);
            Ok(
                (
                    (Chip8State { v: v1.update(x, v1[x] >> 1), pc: wrap16(s.pc + 2), ..s }),
                    Effect::Nothing,
                ),
            )
        } else if n == 7 {
            Ok(
                (
                    with_reg_flag(
                        s,
                        x,
                        wrap8(s.v[y] + 256 - s.v[x]),
                        if s.v[y] >= s.v[x] {
                            1
                        } else {
                            0
                        },
                    ),
                    Effect::Nothing,
                ),
            )
        } else if n == 0xE {
            // VF takes the high bit first; see the note on the right shift.
            let v1 = s.v.update(15, (s.v[x] >> 7) & 1);
            Ok(
                (
                    (Chip8State { v: v1.update(x, v1[x] << 1), pc: wrap16(s.pc + 2), ..s }),
                    Effect::Nothing,
                ),
            )
        } else {
            Err(Fault::UnknownInstruction(instr))
        }
    } else if fam == 9 {
        if n == 0 {
            Ok((skip_pc(s, s.v[x] != s.v[y]), Effect::Nothing))
        } else {
            Err(Fault::UnknownInstruction(instr))
        }
    } else if fam == 0xA {
        Ok(((Chip8State { i: addr, pc: wrap16(s.pc + 2), ..s }), Effect::Nothing))
    } else if fam == 0xB {
        Ok(((Chip8State { pc: wrap16(addr + s.v[0]), ..s }), Effect::Nothing))
    } else if fam == 0xC {
        Ok((with_reg(s, x, rnd & nn), Effect::Nothing))
    } else if fam == 0xD {
        Ok(
            (
                advance_pc(s),
                Effect::Draw { x: s.v[x], y: s.v[y], addr: s.i, n: op_n(instr) as u8 },
            ),
        )
    } else if fam == 0xE {
        if nn == 0x9E {
            Ok((skip_pc(s, key_down(s.keys, s.v[x])), Effect::Nothing))
        } else if nn == 0xA1 {
            Ok((skip_pc(s, !key_down(s.keys, s.v[x])), Effect::Nothing))
        } else {
            Err(Fault::UnknownInstruction(instr))
        }
    } else {
        // fam == 0xF
        if nn == 0x07 {
            Ok((with_reg(s, x, s.dt), Effect::Nothing))
        } else if nn == 0x0A {
            let first: u16 = first_key_from(s.keys, 0);
            if first < 16 {
                Ok((with_reg(s, x, first as u8), Effect::Nothing))
            } else {
                Ok((s, Effect::WaitingKey))
            }
        } else if nn == 0x15 {
            Ok(((Chip8State { dt: s.v[x], pc: wrap16(s.pc + 2), ..s }), Effect::Nothing))
        } else if nn == 0x18 {
            Ok(((Chip8State { st: s.v[x], pc: wrap16(s.pc + 2), ..s }), Effect::Nothing))
        } else if nn == 0x1E {
            Ok(((Chip8State { i: wrap16(s.i + s.v[x]), pc: wrap16(s.pc + 2), ..s }),
            Effect::Nothing))
        } else if nn == 0x29 {
            // Only the low nibble of Vx selects a glyph, so I stays inside
            // the sixteen-glyph font table.
            Ok(
                (
                    (Chip8State {
                        i: (FONT_ADDR + FONT_GLYPH_SIZE * (s.v[x] % 16)) as u16,
                        pc: wrap16(s.pc + 2),
                        ..s
                    }),
                    Effect::Nothing,
                ),
            )
        } else if nn == 0x33 {
            if s.i + 2 < MEM_SIZE {
                Ok(
                    (
                        (Chip8State {
                            ram: bcd_write(s.ram, s.i as int, s.v[x]),
                            pc: wrap16(s.pc + 2),
                            ..s
                        }),
                        Effect::Nothing,
                    ),
                )
            } else {
                Err(Fault::OutOfRange(s.i))
            }
        } else if nn == 0x55 {
            if s.i + x < MEM_SIZE {
                Ok(
                    (
                        (Chip8State {
                            ram: store_regs(s.ram, s.i as int, s.v, x),
                            pc: wrap16(s.pc + 2),
                            ..s
                        }),
                        Effect::Nothing,
                    ),
                )
            } else {
                Err(Fault::OutOfRange(s.i))
            }
        } else if nn == 0x65 {
            if s.i + x < MEM_SIZE {
                Ok(
                    (
                        (Chip8State {
                            v: load_regs(s.v, s.ram, s.i as int, x),
                            pc: wrap16(s.pc + 2),
                            ..s
                        }),
                        Effect::Nothing,
                    ),
                )
            } else {
                Err(Fault::OutOfRange(s.i))
            }
        } else {
            Err(Fault::UnknownInstruction(instr))
        }
    }
}

/// One observed step: the post-state and the returned value are what
/// `step_spec` gives for the pre-state, the instruction, and `rnd`.
pub open spec fn step_outcome(
    pre: Chip8State,
    instr: u16,
    rnd: u8,
    post: Chip8State,
    r: Result<Effect, Fault>,
) -> bool {
    match step_spec(pre, instr, rnd) {
        Ok(next) => post == next.0 && r == Ok::<Effect, Fault>(next.1),
        Err(f) => post == pre && r == Err::<Effect, Fault>(f),
    }
}

/// What `decode_execute` guarantees: the machine stepped as `step_spec`
/// says for some drawn byte. Every opcode but Cxnn ignores that byte, so
/// for those the step is fully determined (see `lemma_step_deterministic`).
pub open spec fn steps_to(
    pre: Chip8State,
    instr: u16,
    post: Chip8State,
    r: Result<Effect, Fault>,
) -> bool {
    exists|rnd: u8| #[trigger] step_outcome(pre, instr, rnd, post, r)
}

/// Every opcode outside the Cxnn family ignores the drawn byte.
pub proof fn lemma_step_deterministic(s: Chip8State, instr: u16, rnd: u8)
    requires
        op_family(instr) != 0xC,
    ensures
        step_spec(s, instr, rnd) == step_spec(s, instr, 0),
{
}

/// 8-bit addition that wraps modulo 256.
fn wadd8(a: u8, b: u8) -> (r: u8)
    ensures
        r == wrap8(a + b),
{
    (((a as u16) + (b as u16)) % 256) as u8
}

/// 8-bit subtraction that wraps modulo 256.
fn wsub8(a: u8, b: u8) -> (r: u8)
    ensures
        r == wrap8(a + 256 - b),
{
    (((a as u16) + 256 - (b as u16)) % 256) as u8
}

/// 16-bit addition that wraps modulo 65536.
fn wadd16(a: u16, b: u16) -> (r: u16)
    ensures
        r == wrap16(a + b),
{
    (((a as u32) + (b as u32)) % 0x10000) as u16
}

/// Relies on rand::random: a byte drawn from the thread-local generator,
/// uniformly distributed over all 256 values. Nothing is promised of
/// which byte comes back.
#[verifier::external_body]
fn random_byte() -> (r: u8) {
    rand::random::<u8>()
}

/// The smallest key number that is down in `keys`, or 16 if none is.
fn lowest_key(keys: u16) -> (r: u16)
    ensures
        r == first_key_from(keys, 0),
{
    let mut k: u16 = 0;
    while k < 16
        invariant
            k <= 16,
            first_key_from(keys, 0) == first_key_from(keys, k),
        decreases 16 - k,
    {
        if (keys >> k) & 1 == 1 {
            return k;
        }
        k = k + 1;
    }
    16
}

/// The two bytes at the program counter, high byte first, as one word.
pub open spec fn fetch_spec(s: Chip8State) -> u16 {
    ((s.ram[s.pc as int] as u16) << 8) | (s.ram[s.pc + 1] as u16)
}

/// The fetch-decode-execute engine: all architectural registers, the
/// call stack, the timers, a snapshot of the keys the host reports down,
/// and the memory image it owns.
pub struct CPU {
    ram: Memory,
    v: Vec<u8>,
    i: u16,
    stack: Vec<u16>,
    sp: u8,
    pc: u16,
    dt: u8,
    st: u8,
    keys: u16,
}

impl View for CPU {
    type V = Chip8State;

    closed spec fn view(&self) -> Chip8State {
        Chip8State {
            ram: self.ram@,
            v: self.v@,
            i: self.i,
            stack: self.stack@,
            sp: self.sp,
            pc: self.pc,
            dt: self.dt,
            st: self.st,
            keys: self.keys,
        }
    }
}

impl CPU {
    /// The machine is well-formed when its abstract state is.
    pub open spec fn wf(&self) -> bool {
        self@.wf()
    }

    /// A machine in the initial state: zeroed memory, registers, stack and
    /// timers, no key down, and the program counter at `START_ADDR`.
    pub fn new() -> (c: CPU)
        ensures
            c.wf(),
            c@ == initial_state(),
    {
        let ram = Memory::init();
        let mut v: Vec<u8> = Vec::new();
        let mut stack: Vec<u16> = Vec::new();
        let mut k: usize = 0;
        while k < NUM_REGS
            invariant
                k <= NUM_REGS,
                v@.len() == k,
                stack@.len() == k,
                forall|r: int| 0 <= r < k ==> v@[r] == 0u8,
                forall|r: int| 0 <= r < k ==> stack@[r] == 0u16,
            decreases NUM_REGS - k,
        {
            v.push(0);
            stack.push(0);
            k = k + 1;
        }
        let c = CPU { ram, v, i: 0, stack, sp: 0, pc: START_ADDR, dt: 0, st: 0, keys: 0 };
        proof {
            assert(c@.ram =~= initial_state().ram);
            assert(c@.v =~= initial_state().v);
            assert(c@.stack =~= initial_state().stack);
            assert(c@ =~= initial_state());
        }
        c
    }

    /// Reads the two bytes at the program counter and assembles them, high
    /// byte first, into one instruction word. Does not advance the program
    /// counter. Faults when the word would reach past the end of memory.
    pub fn fetch(&self) -> (r: Result<u16, Fault>)
        requires
            self.wf(),
        ensures
            self@.pc + 1 < MEM_SIZE ==> r == Ok::<u16, Fault>(fetch_spec(self@)),
            self@.pc + 1 >= MEM_SIZE ==> r == Err::<u16, Fault>(Fault::OutOfRange(self@.pc)),
    {
        if (self.pc as usize) + 1 < MEM_SIZE {
            let hi = self.ram.read_ram(self.pc as usize);
            let lo = self.ram.read_ram((self.pc as usize) + 1);
            Ok(((hi as u16) << 8) | (lo as u16))
        } else {
            Err(Fault::OutOfRange(self.pc))
        }
    }

    /// Stores a return address in the next free stack slot.
    fn stack_push(&mut self, value: u16)
        requires
            old(self).wf(),
            old(self)@.sp < 16,
        ensures
            final(self).wf(),
            final(self)@ == (Chip8State {
                stack: old(self)@.stack.update(old(self)@.sp as int, value),
                sp: (old(self)@.sp + 1) as u8,
                ..old(self)@
            }),
    {
        let sp: usize = self.sp as usize;
        self.stack.set(sp, value);
        self.sp = self.sp + 1;
    }

    /// Takes the most recently stored return address back off the stack.
    fn stack_pop(&mut self) -> (r: u16)
        requires
            old(self).wf(),
            old(self)@.sp > 0,
        ensures
            final(self).wf(),
            r == old(self)@.stack[old(self)@.sp - 1],
            final(self)@ == (Chip8State { sp: (old(self)@.sp - 1) as u8, ..old(self)@ }),
    {
        self.sp = self.sp - 1;
        self.stack[self.sp as usize]
    }

    /// Classifies one fetched instruction word by its nibble pattern and
    /// applies its effect: exactly one `step_spec` step, for some drawn
    /// byte that only Cxnn looks at. After the step the program counter
    /// has advanced by two unless the opcode set it itself. On a fault
    /// the machine is left exactly as it was.
    pub fn decode_execute(&mut self, instruction: u16) -> (r: Result<Effect, Fault>)
        requires
            old(self).wf(),
        ensures
            final(self).wf(),
            steps_to(old(self)@, instruction, final(self)@, r),
    {
        proof {
            lemma_op_field_bounds(instruction);
        }
        let fam: u16 = (instruction >> 12) & 0xF;
        let x: usize = ((instruction >> 8) & 0xF) as usize;
        let y: usize = ((instruction >> 4) & 0xF) as usize;
        let n: u16 = instruction & 0xF;
        let nn: u8 = (instruction & 0xFF) as u8;
        let addr: u16 = instruction & 0xFFF;
        if fam == 0 {
            if instruction == 0x0000 {
                self.pc = wadd16(self.pc, 2);
                proof {
                    assert(step_outcome(old(self)@, instruction, 0u8, self@, Ok::<Effect, Fault>(Effect::Nothing)));
                }
                Ok(Effect::Nothing)
            } else if instruction == 0x00E0 {
                self.pc = wadd16(self.pc, 2);
                proof {
                    assert(step_outcome(old(self)@, instruction, 0u8, self@, Ok::<Effect, Fault>(Effect::ClearDisplay)));
                }
                Ok(Effect::ClearDisplay)
            } else if instruction == 0x00EE {
                if self.sp == 0 {
                    proof {
                        assert(step_outcome(old(self)@, instruction, 0u8, self@, Err::<Effect, Fault>(Fault::StackUnderflow)));
                    }
                    Err(Fault::StackUnderflow)
                } else {
                    let ret: u16 = self.stack_pop();
                    self.pc = ret;
                    proof {
                        assert(step_outcome(old(self)@, instruction, 0u8, self@, Ok::<Effect, Fault>(Effect::Nothing)));
                    }
                    Ok(Effect::Nothing)
                }
            } else {
                proof {
                    assert(step_outcome(old(self)@, instruction, 0u8, self@, Err::<Effect, Fault>(Fault::UnknownInstruction(instruction))));
                }
                Err(Fault::UnknownInstruction(instruction))
            }
        } else if fam == 1 {
            self.pc = addr;
            proof {
                assert(step_outcome(old(self)@, instruction, 0u8, self@, Ok::<Effect, Fault>(Effect::Nothing)));
            }
            Ok(Effect::Nothing)
        } else if fam == 2 {
            if self.sp >= 16 {
                proof {
                    assert(step_outcome(old(self)@, instruction, 0u8, self@, Err::<Effect, Fault>(Fault::StackOverflow)));
                }
                Err(Fault::StackOverflow)
            } else {
                let pc0: u16 = self.pc;
                self.stack_push(pc0);
                self.pc = addr;
                proof {
                    assert(step_outcome(old(self)@, instruction, 0u8, self@, Ok::<Effect, Fault>(Effect::Nothing)));
                }
                Ok(Effect::Nothing)
            }
        } else if fam == 3 {
            let cond: bool = self.v[x] == nn;
            let d: u16 = if cond { 4 } else { 2 };
            self.pc = wadd16(self.pc, d);
            proof {
                assert(step_outcome(old(self)@, instruction, 0u8, self@, Ok::<Effect, Fault>(Effect::Nothing)));
            }
            Ok(Effect::Nothing)
        } else if fam == 4 {
            let cond: bool = self.v[x] != nn;
            let d: u16 = if cond { 4 } else { 2 };
            self.pc = wadd16(self.pc, d);
            proof {
                assert(step_outcome(old(self)@, instruction, 0u8, self@, Ok::<Effect, Fault>(Effect::Nothing)));
            }
            Ok(Effect::Nothing)
        } else if fam == 5 {
            if n == 0 {
                let cond: bool = self.v[x] == self.v[y];
                let d: u16 = if cond { 4 } else { 2 };
                self.pc = wadd16(self.pc, d);
                proof {
                    assert(step_outcome(old(self)@, instruction, 0u8, self@, Ok::<Effect, Fault>(Effect::Nothing)));
                }
                Ok(Effect::Nothing)
            } else {
                proof {
                    assert(step_outcome(old(self)@, instruction, 0u8, self@, Err::<Effect, Fault>(Fault::UnknownInstruction(instruction))));
                }
                Err(Fault::UnknownInstruction(instruction))
            }
        } else if fam == 6 {
            self.v.set(x, nn);
            self.pc = wadd16(self.pc, 2);
            proof {
                assert(step_outcome(old(self)@, instruction, 0u8, self@, Ok::<Effect, Fault>(Effect::Nothing)));
            }
            Ok(Effect::Nothing)
        } else if fam == 7 {
            let value: u8 = wadd8(self.v[x], nn);
            self.v.set(x, value);
            self.pc = wadd16(self.pc, 2);
            proof {
                assert(step_outcome(old(self)@, instruction, 0u8, self@, Ok::<Effect, Fault>(Effect::Nothing)));
            }
            Ok(Effect::Nothing)
        } else if fam == 8 {
            if n == 0 {
                let value: u8 = self.v[y];
                self.v.set(x, value);
                self.pc = wadd16(self.pc, 2);
                proof {
                    assert(step_outcome(old(self)@, instruction, 0u8, self@, Ok::<Effect, Fault>(Effect::Nothing)));
                }
                Ok(Effect::Nothing)
            } else if n == 1 {
                let value: u8 = self.v[x] | self.v[y];
                self.v.set(x, value);
                self.pc = wadd16(self.pc, 2);
                proof {
                    assert(step_outcome(old(self)@, instruction, 0u8, self@, Ok::<Effect, Fault>(Effect::Nothing)));
                }
                Ok(Effect::Nothing)
            } else if n == 2 {
                let value: u8 = self.v[x] & self.v[y];
                self.v.set(x, value);
                self.pc = wadd16(self.pc, 2);
                proof {
                    assert(step_outcome(old(self)@, instruction, 0u8, self@, Ok::<Effect, Fault>(Effect::Nothing)));
                }
                Ok(Effect::Nothing)
            } else if n == 3 {
                let value: u8 = self.v[x] ^ self.v[y];
                self.v.set(x, value);
                self.pc = wadd16(self.pc, 2);
                proof {
                    assert(step_outcome(old(self)@, instruction, 0u8, self@, Ok::<Effect, Fault>(Effect::Nothing)));
                }
                Ok(Effect::Nothing)
            } else if n == 4 {
                let a: u8 = self.v[x];
                let b: u8 = self.v[y];
                let sum: u16 = (a as u16) + (b as u16);
                let value: u8 = (sum % 256) as u8;
                let flag: u8 = if sum > 255 { 1 } else { 0 };
                self.v.set(x, value);
                self.v.set(15, flag);
                self.pc = wadd16(self.pc, 2);
                proof {
                    assert(step_outcome(old(self)@, instruction, 0u8, self@, Ok::<Effect, Fault>(Effect::Nothing)));
                }
                Ok(Effect::Nothing)
            } else if n == 5 {
                let a: u8 = self.v[x];
                let b: u8 = self.v[y];
                let value: u8 = wsub8(a, b);
                let flag: u8 = if a >= b { 1 } else { 0 };
                self.v.set(x, value);
                self.v.set(15, flag);
                self.pc = wadd16(self.pc, 2);
                proof {
                    assert(step_outcome(old(self)@, instruction, 0u8, self@, Ok::<Effect, Fault>(Effect::Nothing)));
                }
                Ok(Effect::Nothing)
            } else if n == 6 {
                let a: u8 = self.v[x];
                self.v.set(15, a & 1);
                let cur: u8 = self.v[x];
                self.v.set(x, cur >> 1);
                self.pc = wadd16(self.pc, 2);
                proof {
                    assert(step_outcome(old(self)@, instruction, 0u8, self@, Ok::<Effect, Fault>(Effect::Nothing)));
                }
                Ok(Effect::Nothing)
            } else if n == 7 {
                let a: u8 = self.v[x];
                let b: u8 = self.v[y];
                let value: u8 = wsub8(b, a);
                let flag: u8 = if b >= a { 1 } else { 0 };
                self.v.set(x, value);
                self.v.set(15, flag);
                self.pc = wadd16(self.pc, 2);
                proof {
                    assert(step_outcome(old(self)@, instruction, 0u8, self@, Ok::<Effect, Fault>(Effect::Nothing)));
                }
                Ok(Effect::Nothing)
            } else if n == 0xE {
                let a: u8 = self.v[x];
                self.v.set(15, (a >> 7) & 1);
                let cur: u8 = self.v[x];
                self.v.set(x, cur << 1);
                self.pc = wadd16(self.pc, 2);
                proof {
                    assert(step_outcome(old(self)@, instruction, 0u8, self@, Ok::<Effect, Fault>(Effect::Nothing)));
                }
                Ok(Effect::Nothing)
            } else {
                proof {
                    assert(step_outcome(old(self)@, instruction, 0u8, self@, Err::<Effect, Fault>(Fault::UnknownInstruction(instruction))));
                }
                Err(Fault::UnknownInstruction(instruction))
            }
        } else if fam == 9 {
            if n == 0 {
                let cond: bool = self.v[x] != self.v[y];
                let d: u16 = if cond { 4 } else { 2 };
                self.pc = wadd16(self.pc, d);
                proof {
                    assert(step_outcome(old(self)@, instruction, 0u8, self@, Ok::<Effect, Fault>(Effect::Nothing)));
                }
                Ok(Effect::Nothing)
            } else {
                proof {
                    assert(step_outcome(old(self)@, instruction, 0u8, self@, Err::<Effect, Fault>(Fault::UnknownInstruction(instruction))));
                }
                Err(Fault::UnknownInstruction(instruction))
            }
        } else if fam == 0xA {
            self.i = addr;
            self.pc = wadd16(self.pc, 2);
            proof {
                assert(step_outcome(old(self)@, instruction, 0u8, self@, Ok::<Effect, Fault>(Effect::Nothing)));
            }
            Ok(Effect::Nothing)
        } else if fam == 0xB {
            self.pc = wadd16(addr, self.v[0] as u16);
            proof {
                assert(step_outcome(old(self)@, instruction, 0u8, self@, Ok::<Effect, Fault>(Effect::Nothing)));
            }
            Ok(Effect::Nothing)
        } else if fam == 0xC {
            let rb: u8 = random_byte();
            self.v.set(x, rb & nn);
            self.pc = wadd16(self.pc, 2);
            proof {
                assert(step_outcome(old(self)@, instruction, rb, self@, Ok::<Effect, Fault>(Effect::Nothing)));
            }
            Ok(Effect::Nothing)
        } else if fam == 0xD {
            let eff: Effect = Effect::Draw { x: self.v[x], y: self.v[y], addr: self.i, n: n as u8 };
            self.pc = wadd16(self.pc, 2);
            proof {
                assert(step_outcome(old(self)@, instruction, 0u8, self@, Ok::<Effect, Fault>(eff)));
            }
            Ok(eff)
        } else if fam == 0xE {
            if nn == 0x9E {
                let vx: u8 = self.v[x];
                let pressed: bool = vx < 16 && ((self.keys >> (vx as u16)) & 1) == 1;
                let d: u16 = if pressed { 4 } else { 2 };
                self.pc = wadd16(self.pc, d);
                proof {
                    assert(step_outcome(old(self)@, instruction, 0u8, self@, Ok::<Effect, Fault>(Effect::Nothing)));
                }
                Ok(Effect::Nothing)
            } else if nn == 0xA1 {
                let vx: u8 = self.v[x];
                let pressed: bool = vx < 16 && ((self.keys >> (vx as u16)) & 1) == 1;
                let d: u16 = if pressed { 2 } else { 4 };
                self.pc = wadd16(self.pc, d);
                proof {
                    assert(step_outcome(old(self)@, instruction, 0u8, self@, Ok::<Effect, Fault>(Effect::Nothing)));
                }
                Ok(Effect::Nothing)
            } else {
                proof {
                    assert(step_outcome(old(self)@, instruction, 0u8, self@, Err::<Effect, Fault>(Fault::UnknownInstruction(instruction))));
                }
                Err(Fault::UnknownInstruction(instruction))
            }
        } else {
            // fam == 0xF
            if nn == 0x07 {
                let value: u8 = self.dt;
                self.v.set(x, value);
                self.pc = wadd16(self.pc, 2);
                proof {
                    assert(step_outcome(old(self)@, instruction, 0u8, self@, Ok::<Effect, Fault>(Effect::Nothing)));
                }
                Ok(Effect::Nothing)
            } else if nn == 0x0A {
                let first: u16 = lowest_key(self.keys);
                if first < 16 {
                    self.v.set(x, first as u8);
                    self.pc = wadd16(self.pc, 2);
                    proof {
                        assert(step_outcome(old(self)@, instruction, 0u8, self@, Ok::<Effect, Fault>(Effect::Nothing)));
                    }
                    Ok(Effect::Nothing)
                } else {
                    proof {
                        assert(step_outcome(old(self)@, instruction, 0u8, self@, Ok::<Effect, Fault>(Effect::WaitingKey)));
                    }
                    Ok(Effect::WaitingKey)
                }
            } else if nn == 0x15 {
                self.dt = self.v[x];
                self.pc = wadd16(self.pc, 2);
                proof {
                    assert(step_outcome(old(self)@, instruction, 0u8, self@, Ok::<Effect, Fault>(Effect::Nothing)));
                }
                Ok(Effect::Nothing)
            } else if nn == 0x18 {
                self.st = self.v[x];
                self.pc = wadd16(self.pc, 2);
                proof {
                    assert(step_outcome(old(self)@, instruction, 0u8, self@, Ok::<Effect, Fault>(Effect::Nothing)));
                }
                Ok(Effect::Nothing)
            } else if nn == 0x1E {
                self.i = wadd16(self.i, self.v[x] as u16);
                self.pc = wadd16(self.pc, 2);
                proof {
                    assert(step_outcome(old(self)@, instruction, 0u8, self@, Ok::<Effect, Fault>(Effect::Nothing)));
                }
                Ok(Effect::Nothing)
            } else if nn == 0x29 {
                let vx: u8 = self.v[x];
                self.i = FONT_ADDR + FONT_GLYPH_SIZE * ((vx % 16) as u16);
                self.pc = wadd16(self.pc, 2);
                proof {
                    assert(step_outcome(old(self)@, instruction, 0u8, self@, Ok::<Effect, Fault>(Effect::Nothing)));
                }
                Ok(Effect::Nothing)
            } else if nn == 0x33 {
                if (self.i as usize) + 2 < MEM_SIZE {
                    let vx: u8 = self.v[x];
                    let base: usize = self.i as usize;
                    self.ram.write_ram(base, vx / 100);
                    self.ram.write_ram(base + 1, (vx / 10) % 10);
                    self.ram.write_ram(base + 2, vx % 10);
                    self.pc = wadd16(self.pc, 2);
                    proof {
                        assert(step_outcome(old(self)@, instruction, 0u8, self@, Ok::<Effect, Fault>(Effect::Nothing)));
                    }
                    Ok(Effect::Nothing)
                } else {
                    proof {
                        assert(step_outcome(old(self)@, instruction, 0u8, self@, Err::<Effect, Fault>(Fault::OutOfRange(self@.i))));
                    }
                    Err(Fault::OutOfRange(self.i))
                }
            } else if nn == 0x55 {
                if (self.i as usize) + x < MEM_SIZE {
                    self.store_registers(x);
                    self.pc = wadd16(self.pc, 2);
                    proof {
                        assert(step_outcome(old(self)@, instruction, 0u8, self@, Ok::<Effect, Fault>(Effect::Nothing)));
                    }
                    Ok(Effect::Nothing)
                } else {
                    proof {
                        assert(step_outcome(old(self)@, instruction, 0u8, self@, Err::<Effect, Fault>(Fault::OutOfRange(self@.i))));
                    }
                    Err(Fault::OutOfRange(self.i))
                }
            } else if nn == 0x65 {
                if (self.i as usize) + x < MEM_SIZE {
                    self.load_registers(x);
                    self.pc = wadd16(self.pc, 2);
                    proof {
                        assert(step_outcome(old(self)@, instruction, 0u8, self@, Ok::<Effect, Fault>(Effect::Nothing)));
                    }
                    Ok(Effect::Nothing)
                } else {
                    proof {
                        assert(step_outcome(old(self)@, instruction, 0u8, self@, Err::<Effect, Fault>(Fault::OutOfRange(self@.i))));
                    }
                    Err(Fault::OutOfRange(self.i))
                }
            } else {
                proof {
                    assert(step_outcome(old(self)@, instruction, 0u8, self@, Err::<Effect, Fault>(Fault::UnknownInstruction(instruction))));
                }
                Err(Fault::UnknownInstruction(instruction))
            }
        }
    }

    /// Fx55: copies V0 through Vx into memory at I through I + x.
    fn store_registers(&mut self, x: usize)
        requires
            old(self).wf(),
            x < 16,
            old(self)@.i + x < MEM_SIZE,
        ensures
            final(self).wf(),
            final(self)@ == (Chip8State {
                ram: store_regs(old(self)@.ram, old(self)@.i as int, old(self)@.v, x as int),
                ..old(self)@
            }),
    {
        let ghost pre = self@;
        let base: usize = self.i as usize;
        let mut idx: usize = 0;
        while idx <= x
            invariant
                self.wf(),
                idx <= x + 1,
                x < 16,
                base == pre.i,
                base + x < MEM_SIZE,
                self@.v == pre.v,
                self@.i == pre.i,
                self@.stack == pre.stack,
                self@.sp == pre.sp,
                self@.pc == pre.pc,
                self@.dt == pre.dt,
                self@.st == pre.st,
                self@.keys == pre.keys,
                self@.ram.len() == pre.ram.len(),
                forall|a: int|
                    0 <= a < MEM_SIZE ==> self@.ram[a] == (if base <= a < base + idx {
                        pre.v[a - base]
                    } else {
                        pre.ram[a]
                    }),
            decreases x + 1 - idx,
        {
            let value: u8 = self.v[idx];
            self.ram.write_ram(base + idx, value);
            idx = idx + 1;
        }
        proof {
            assert(self@.ram =~= store_regs(pre.ram, pre.i as int, pre.v, x as int));
            assert(self@ =~= (Chip8State {
                ram: store_regs(pre.ram, pre.i as int, pre.v, x as int),
                ..pre
            }));
        }
    }

    /// Fx65: fills V0 through Vx from memory at I through I + x.
    fn load_registers(&mut self, x: usize)
        requires
            old(self).wf(),
            x < 16,
            old(self)@.i + x < MEM_SIZE,
        ensures
            final(self).wf(),
            final(self)@ == (Chip8State {
                v: load_regs(old(self)@.v, old(self)@.ram, old(self)@.i as int, x as int),
                ..old(self)@
            }),
    {
        let ghost pre = self@;
        let base: usize = self.i as usize;
        let mut idx: usize = 0;
        while idx <= x
            invariant
                self.wf(),
                idx <= x + 1,
                x < 16,
                base == pre.i,
                base + x < MEM_SIZE,
                self@.ram == pre.ram,
                self@.i == pre.i,
                self@.stack == pre.stack,
                self@.sp == pre.sp,
                self@.pc == pre.pc,
                self@.dt == pre.dt,
                self@.st == pre.st,
                self@.keys == pre.keys,
                self@.v.len() == pre.v.len(),
                forall|r: int|
                    0 <= r < NUM_REGS ==> self@.v[r] == (if r < idx {
                        pre.ram[base + r]
                    } else {
                        pre.v[r]
                    }),
            decreases x + 1 - idx,
        {
            let value: u8 = self.ram.read_ram(base + idx);
            self.v.set(idx, value);
            idx = idx + 1;
        }
        proof {
            assert(self@.v =~= load_regs(pre.v, pre.ram, pre.i as int, x as int));
            assert(self@ =~= (Chip8State {
                v: load_regs(pre.v, pre.ram, pre.i as int, x as int),
                ..pre
            }));
        }
    }

    /// The byte stored at `address`, or a fault past the end of memory.
    /// This is the read side of the contract the display collaborator
    /// uses to pick up sprite rows for a `Draw` effect.
    pub fn read_byte(&self, address: u16) -> (r: Result<u8, Fault>)
        requires
            self.wf(),
        ensures
            address < MEM_SIZE ==> r == Ok::<u8, Fault>(self@.ram[address as int]),
            address >= MEM_SIZE ==> r == Err::<u8, Fault>(Fault::OutOfRange(address)),
    {
        if (address as usize) < MEM_SIZE {
            Ok(self.ram.read_ram(address as usize))
        } else {
            Err(Fault::OutOfRange(address))
        }
    }

    /// Stores `value` at `address`, or faults past the end of memory.
    /// This is the write side of the loader contract: the loader places a
    /// ROM image byte by byte starting at `START_ADDR` before the first
    /// fetch.
    pub fn write_byte(&mut self, address: u16, value: u8) -> (r: Result<(), Fault>)
        requires
            old(self).wf(),
        ensures
            final(self).wf(),
            address < MEM_SIZE ==> r == Ok::<(), Fault>(()) && final(self)@ == (Chip8State {
                ram: old(self)@.ram.update(address as int, value),
                ..old(self)@
            }),
            address >= MEM_SIZE ==> r == Err::<(), Fault>(Fault::OutOfRange(address))
                && final(self)@ == old(self)@,
    {
        if (address as usize) < MEM_SIZE {
            self.ram.write_ram(address as usize, value);
            Ok(())
        } else {
            Err(Fault::OutOfRange(address))
        }
    }

    /// The keyboard collaborator reports that `key` went down or up; the
    /// snapshot the skip and wait opcodes consult records it.
    pub fn set_key(&mut self, key: u8, down: bool)
        requires
            old(self).wf(),
            key < 16,
        ensures
            final(self).wf(),
            final(self)@ == (Chip8State {
                keys: if down {
                    old(self)@.keys | (1u16 << (key as u16))
                } else {
                    old(self)@.keys & !(1u16 << (key as u16))
                },
                ..old(self)@
            }),
    {
        if down {
            self.keys = self.keys | (1u16 << (key as u16));
        } else {
            self.keys = self.keys & !(1u16 << (key as u16));
        }
    }

    /// The display collaborator reports whether the last `Draw` erased a
    /// pixel; VF records the collision bit.
    pub fn report_collision(&mut self, collision: bool)
        requires
            old(self).wf(),
        ensures
            final(self).wf(),
            final(self)@ == (Chip8State {
                v: old(self)@.v.update(15, if collision { 1u8 } else { 0u8 }),
                ..old(self)@
            }),
    {
        let flag: u8 = if collision {
            1
        } else {
            0
        };
        self.v.set(15, flag);
    }

    /// One tick of the external 60 Hz clock: each timer counts down by one
    /// and stops at zero. Only the host driver calls this; no opcode does.
    pub fn tick_timers(&mut self)
        requires
            old(self).wf(),
        ensures
            final(self).wf(),
            final(self)@ == (Chip8State {
                dt: if old(self)@.dt > 0 {
                    (old(self)@.dt - 1) as u8
                } else {
                    0
                },
                st: if old(self)@.st > 0 {
                    (old(self)@.st - 1) as u8
                } else {
                    0
                },
                ..old(self)@
            }),
    {
        if self.dt > 0 {
            self.dt = self.dt - 1;
        }
        if self.st > 0 {
            self.st = self.st - 1;
        }
    }

    /// The value of register Vx.
    pub fn reg(&self, x: u8) -> (r: u8)
        requires
            self.wf(),
            x < 16,
        ensures
            r == self@.v[x as int],
    {
        self.v[x as usize]
    }

    /// The value of the index register I.
    pub fn index_reg(&self) -> (r: u16)
        ensures
            r == self@.i,
    {
        self.i
    }

    /// The value of the program counter.
    pub fn pc(&self) -> (r: u16)
        ensures
            r == self@.pc,
    {
        self.pc
    }

    /// The value of the stack pointer: how many calls are outstanding.
    pub fn sp(&self) -> (r: u8)
        ensures
            r == self@.sp,
    {
        self.sp
    }

    /// The value of the delay timer.
    pub fn delay_timer(&self) -> (r: u8)
        ensures
            r == self@.dt,
    {
        self.dt
    }

    /// The value of the sound timer; the host drives the speaker while it
    /// is above zero.
    pub fn sound_timer(&self) -> (r: u8)
        ensures
            r == self@.st,
    {
        self.st
    }
}

} // verus!
