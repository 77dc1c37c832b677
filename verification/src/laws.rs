use vstd::prelude::*;

use crate::cpu::Chip8State;
use crate::cpu::lemma_op_field_bounds;
use crate::cpu::op_addr;
use crate::cpu::op_family;
use crate::cpu::op_n;
use crate::cpu::op_nn;
use crate::cpu::op_x;
use crate::cpu::op_y;
use crate::cpu::step_spec;
use crate::cpu::wrap16;
use crate::cpu::wrap8;
use crate::cpu::NUM_REGS;
use crate::memory::MEM_SIZE;

verus! {

/// The four register-comparing skip opcodes: 3xnn, 4xnn, 5xy0, 9xy0.
pub open spec fn is_skip(instr: u16) -> bool {
    ||| op_family(instr) == 3
    ||| op_family(instr) == 4
    ||| (op_family(instr) == 5 && op_n(instr) == 0)
    ||| (op_family(instr) == 9 && op_n(instr) == 0)
}

/// Whether the condition of such a skip opcode holds in state `s`.
pub open spec fn skip_taken(s: Chip8State, instr: u16) -> bool {
    let x: int = op_x(instr) as int;
    let y: int = op_y(instr) as int;
    if op_family(instr) == 3 {
        s.v[x] == op_nn(instr)
    } else if op_family(instr) == 4 {
        s.v[x] != op_nn(instr)
    } else if op_family(instr) == 5 {
        s.v[x] == s.v[y]
    } else {
        s.v[x] != s.v[y]
    }
}

/// 7xnn always succeeds and leaves Vx holding the old value plus the
/// immediate, modulo 256. When Vx is not the flag register itself, VF is
/// untouched: unlike 8xy4, this opcode records no carry. (When x is 15
/// the immediate is added to VF, since Vx and VF are then one register.)
pub proof fn lemma_add_immediate_no_carry(s: Chip8State, instr: u16, rnd: u8)
    requires
        s.wf(),
        op_family(instr) == 7,
    ensures
        step_spec(s, instr, rnd) is Ok,
        ({
            let x: int = op_x(instr) as int;
            let s2 = step_spec(s, instr, rnd)->Ok_0.0;
            &&& s2.v[x] == wrap8(s.v[x] + op_nn(instr))
            &&& (x != 15 ==> s2.v[15] == s.v[15])
        }),
{
    lemma_op_field_bounds(instr);
}

/// Round trip: Fx55 writes V0 through Vx to memory at I; Fx65 with the
/// same x, run on the stored memory image with every register cleared,
/// puts the original values back into V0 through Vx exactly.
pub proof fn lemma_store_load_round_trip(s: Chip8State, instr_store: u16, instr_load: u16, rnd: u8)
    requires
        s.wf(),
        op_family(instr_store) == 0xF,
        op_nn(instr_store) == 0x55,
        op_family(instr_load) == 0xF,
        op_nn(instr_load) == 0x65,
        op_x(instr_load) == op_x(instr_store),
        s.i + op_x(instr_store) < MEM_SIZE,
    ensures
        step_spec(s, instr_store, rnd) is Ok,
        ({
            let x: int = op_x(instr_store) as int;
            let stored = step_spec(s, instr_store, rnd)->Ok_0.0;
            let cleared = (Chip8State { v: Seq::new(NUM_REGS as nat, |r: int| 0u8), ..stored });
            &&& step_spec(cleared, instr_load, rnd) is Ok
            &&& forall|r: int|
                0 <= r <= x ==> step_spec(cleared, instr_load, rnd)->Ok_0.0.v[r] == s.v[r]
        }),
{
    lemma_op_field_bounds(instr_store);
    lemma_op_field_bounds(instr_load);
    let x: int = op_x(instr_store) as int;
    let stored = step_spec(s, instr_store, rnd)->Ok_0.0;
    let cleared = (Chip8State { v: Seq::new(NUM_REGS as nat, |r: int| 0u8), ..stored });
    assert(step_spec(cleared, instr_load, rnd) is Ok);
    let loaded = step_spec(cleared, instr_load, rnd)->Ok_0.0;
    assert forall|r: int| 0 <= r <= x implies loaded.v[r] == s.v[r] by {
        assert(loaded.v[r] == cleared.ram[s.i + r]);
        assert(cleared.ram[s.i + r] == s.v[r]);
    };
}

/// A conditional skip advances the program counter by four in total when
/// its condition holds and by two when it does not, and changes nothing
/// else.
pub proof fn lemma_skip_advance(s: Chip8State, instr: u16, rnd: u8)
    requires
        s.wf(),
        is_skip(instr),
    ensures
        step_spec(s, instr, rnd) is Ok,
        step_spec(s, instr, rnd)->Ok_0.0.pc == wrap16(
            s.pc + (if skip_taken(s, instr) {
                4int
            } else {
                2int
            }),
        ),
        step_spec(s, instr, rnd)->Ok_0.0 == (Chip8State {
            pc: step_spec(s, instr, rnd)->Ok_0.0.pc,
            ..s
        }),
{
    lemma_op_field_bounds(instr);
}

/// An opcode that sets the program counter itself—jump (1nnn), call
/// (2nnn), indexed jump (Bnnn), return (00EE)—never also receives the
/// default advance of two: the counter afterwards is exactly the target
/// the opcode names.
pub proof fn lemma_explicit_pc_suppresses_advance(s: Chip8State, instr: u16, rnd: u8)
    requires
        s.wf(),
    ensures
        op_family(instr) == 1 ==> step_spec(s, instr, rnd) is Ok && step_spec(
            s,
            instr,
            rnd,
        )->Ok_0.0.pc == op_addr(instr),
        op_family(instr) == 2 && s.sp < 16 ==> step_spec(s, instr, rnd) is Ok && step_spec(
            s,
            instr,
            rnd,
        )->Ok_0.0.pc == op_addr(instr),
        op_family(instr) == 0xB ==> step_spec(s, instr, rnd) is Ok && step_spec(
            s,
            instr,
            rnd,
        )->Ok_0.0.pc == wrap16(op_addr(instr) + s.v[0]),
        instr == 0x00EE && s.sp > 0 ==> step_spec(s, instr, rnd) is Ok && step_spec(
            s,
            instr,
            rnd,
        )->Ok_0.0.pc == s.stack[s.sp - 1],
{
    assert((0x00EEu16 >> 12) & 0xF == 0) by (bit_vector);
}

} // verus!
