//! Laws of the instruction set that hold for every machine state, stated
//! and proved over the machine semantics [`exec_op`] and [`cycle`].

use vstd::prelude::*;

use crate::cpu::cpu_wf;
use crate::cpu::cycle;
use crate::cpu::CpuView;
use crate::cpu::exec_op;
use crate::cpu::lowest_pressed;
use crate::cpu::lowest_pressed_from;
use crate::cpu::sat_dec;
use crate::cpu::word_at;
use crate::cpu::wrap16;
use crate::instruction::decode_spec;
use crate::instruction::OpCode;
use crate::keyboard::KEY_COUNT;
use crate::machine::MachineView;
use crate::memory::MEMORY_SIZE;
use crate::stack::FRAME_COUNT;

verus! {

/// Adding an immediate is 8-bit modular addition into `Vx`, with no flag
/// side effect: every other register, `VF` included, keeps its value.
pub proof fn lemma_add_imm_modular(
    s: CpuView,
    mem: Seq<u8>,
    vram: Seq<bool>,
    keys: Seq<bool>,
    rnd: u8,
    x: u8,
    k: u8,
)
    requires
        cpu_wf(s),
        x < 16,
    ensures
        exec_op(OpCode::AddImm(x, k), s, mem, vram, keys, rnd) is Ok,
        exec_op(OpCode::AddImm(x, k), s, mem, vram, keys, rnd)->Ok_0.cpu.v == s.v.update(
            x as int,
            ((s.v[x as int] + k) % 256) as u8,
        ),
        forall|j: int| 0 <= j < 16 && j != x ==> exec_op(
            OpCode::AddImm(x, k),
            s,
            mem,
            vram,
            keys,
            rnd,
        )->Ok_0.cpu.v[j] == s.v[j],
{
}

/// Adding a register is 8-bit modular addition into `Vx`, and `VF` takes
/// exactly the carry: 1 when the mathematical sum exceeds 255, else 0.
pub proof fn lemma_add_reg_carry(
    s: CpuView,
    mem: Seq<u8>,
    vram: Seq<bool>,
    keys: Seq<bool>,
    rnd: u8,
    x: u8,
    y: u8,
)
    requires
        cpu_wf(s),
        x < 16,
        y < 16,
    ensures
        exec_op(OpCode::AddReg(x, y), s, mem, vram, keys, rnd) is Ok,
        exec_op(OpCode::AddReg(x, y), s, mem, vram, keys, rnd)->Ok_0.cpu.v[15] == (
        if s.v[x as int] + s.v[y as int] > 255 {
            1u8
        } else {
            0u8
        }),
        x != 15 ==> exec_op(OpCode::AddReg(x, y), s, mem, vram, keys, rnd)->Ok_0.cpu.v[x as int]
            == ((s.v[x as int] + s.v[y as int]) % 256) as u8,
{
}

/// A `Call` followed by a `Return` resumes at the instruction after the
/// `Call`, with the stack exactly as it was.
pub proof fn lemma_call_return(
    s: CpuView,
    mem: Seq<u8>,
    vram: Seq<bool>,
    keys: Seq<bool>,
    rnd: u8,
    a: u16,
)
    requires
        cpu_wf(s),
        s.stack.len() < FRAME_COUNT,
        a <= 0xFFF,
    ensures
        exec_op(OpCode::Call(a), s, mem, vram, keys, rnd) is Ok,
        exec_op(OpCode::Call(a), s, mem, vram, keys, rnd)->Ok_0.cpu.pc == a,
        ({
            let s1 = exec_op(OpCode::Call(a), s, mem, vram, keys, rnd)->Ok_0.cpu;
            let r2 = exec_op(OpCode::Return, s1, mem, vram, keys, rnd);
            &&& r2 is Ok
            &&& r2->Ok_0.cpu.pc == wrap16(s.pc + 2)
            &&& r2->Ok_0.cpu.stack == s.stack
            &&& r2->Ok_0.cpu.v == s.v
        }),
{
    let s1 = exec_op(OpCode::Call(a), s, mem, vram, keys, rnd)->Ok_0.cpu;
    assert(s1.stack == s.stack.push(s.pc));
    assert(s1.stack.last() == s.pc);
    assert(s1.stack.drop_last() =~= s.stack);
}

/// A cycle whose decoded operation is not `SetDelay` ticks the delay
/// timer down by exactly one, with a floor at zero.
pub proof fn lemma_cycle_delay_decrement(
    s: CpuView,
    mem: Seq<u8>,
    vram: Seq<bool>,
    keys: Seq<bool>,
    rnd: u8,
)
    requires
        cycle(s, mem, vram, keys, rnd) is Ok,
        !(decode_spec(word_at(mem, s.pc as int)) matches Some(OpCode::SetDelay(_))),
    ensures
        cycle(s, mem, vram, keys, rnd)->Ok_0.cpu.delay_timer == sat_dec(s.delay_timer),
{
}

/// One machine state follows another by one successful cycle whose
/// decoded operation is not `SetDelay`, under some key state and some
/// random byte.
pub open spec fn delay_preserving_cycle(pre: MachineView, post: MachineView) -> bool {
    exists|keys: Seq<bool>, rnd: u8|
        {
            let r = #[trigger] cycle(pre.cpu, pre.mem, pre.vram, keys, rnd);
            &&& !(decode_spec(word_at(pre.mem, pre.cpu.pc as int)) matches Some(
                OpCode::SetDelay(_),
            ))
            &&& r is Ok
            &&& post.cpu == r->Ok_0.cpu
            &&& post.mem == r->Ok_0.mem
            &&& post.vram == r->Ok_0.vram
        }
}

/// A run of machine states in which each state follows the previous one
/// by a cycle that does not execute `SetDelay`.
pub open spec fn delay_preserving_run(states: Seq<MachineView>) -> bool
    decreases states.len(),
{
    states.len() <= 1 || (delay_preserving_cycle(states[0], states[1]) && delay_preserving_run(
        states.drop_first(),
    ))
}

/// Over any run of cycles in which no `SetDelay` executes, the delay
/// timer after `n` cycles reads `max(0, initial - n)`.
pub proof fn lemma_delay_decay_over_run(states: Seq<MachineView>, n: int)
    requires
        0 <= n < states.len(),
        delay_preserving_run(states),
    ensures
        states[n].cpu.delay_timer == if states[0].cpu.delay_timer >= n {
            (states[0].cpu.delay_timer - n) as u8
        } else {
            0u8
        },
    decreases n,
{
    if n > 0 {
        let (keys, rnd) = choose|keys: Seq<bool>, rnd: u8|
            {
                let r = #[trigger] cycle(states[0].cpu, states[0].mem, states[0].vram, keys, rnd);
                &&& !(decode_spec(word_at(states[0].mem, states[0].cpu.pc as int)) matches Some(
                    OpCode::SetDelay(_),
                ))
                &&& r is Ok
                &&& states[1].cpu == r->Ok_0.cpu
                &&& states[1].mem == r->Ok_0.mem
                &&& states[1].vram == r->Ok_0.vram
            };
        lemma_cycle_delay_decrement(states[0].cpu, states[0].mem, states[0].vram, keys, rnd);
        assert(states[1].cpu.delay_timer == sat_dec(states[0].cpu.delay_timer));
        lemma_delay_decay_over_run(states.drop_first(), n - 1);
        assert(states.drop_first()[n - 1] == states[n]);
        assert(states.drop_first()[0] == states[1]);
    }
}

/// With every key up there is no lowest pressed key.
pub proof fn lemma_no_key_pressed(keys: Seq<bool>, k: int)
    requires
        forall|j: int| 0 <= j < KEY_COUNT ==> !#[trigger] keys[j],
    ensures
        lowest_pressed_from(keys, k) is None,
    decreases KEY_COUNT - k,
{
    if 0 <= k < KEY_COUNT {
        lemma_no_key_pressed(keys, k + 1);
    }
}

/// The lowest pressed key is the first pressed one.
pub proof fn lemma_lowest_pressed_is_first(keys: Seq<bool>, j: int, k: int)
    requires
        0 <= j <= k < KEY_COUNT,
        keys[k],
        forall|i: int| 0 <= i < k ==> !#[trigger] keys[i],
    ensures
        lowest_pressed_from(keys, j) == Some(k),
    decreases k - j,
{
    if j < k {
        lemma_lowest_pressed_is_first(keys, j + 1, k);
    }
}

/// A `WaitKey` cycle during which no key is pressed leaves the program
/// counter, the registers, the index register, the stack, memory and the
/// screen unchanged: only the timers tick down. As memory and the
/// program counter are unchanged, every following cycle decodes the same
/// `WaitKey` again, so repeated steps keep the machine waiting until a
/// key goes down.
pub proof fn lemma_wait_key_blocks(
    s: CpuView,
    mem: Seq<u8>,
    vram: Seq<bool>,
    keys: Seq<bool>,
    rnd: u8,
)
    requires
        cpu_wf(s),
        s.pc as int + 1 < MEMORY_SIZE,
        decode_spec(word_at(mem, s.pc as int)) matches Some(op) && op is WaitKey,
        forall|j: int| 0 <= j < KEY_COUNT ==> !#[trigger] keys[j],
    ensures
        cycle(s, mem, vram, keys, rnd) is Ok,
        ({
            let so = cycle(s, mem, vram, keys, rnd)->Ok_0;
            &&& so.cpu.pc == s.pc
            &&& so.cpu.v == s.v
            &&& so.cpu.i == s.i
            &&& so.cpu.stack == s.stack
            &&& so.cpu.delay_timer == sat_dec(s.delay_timer)
            &&& so.cpu.sound_timer == sat_dec(s.sound_timer)
            &&& so.mem == mem
            &&& so.vram == vram
        }),
{
    lemma_no_key_pressed(keys, 0);
    assert(lowest_pressed(keys) is None);
}

/// One machine state follows another by one successful cycle during
/// which every key is up.
pub open spec fn no_key_cycle(pre: MachineView, post: MachineView) -> bool {
    exists|keys: Seq<bool>, rnd: u8|
        {
            let r = #[trigger] cycle(pre.cpu, pre.mem, pre.vram, keys, rnd);
            &&& forall|j: int| 0 <= j < KEY_COUNT ==> !#[trigger] keys[j]
            &&& r is Ok
            &&& post.cpu == r->Ok_0.cpu
            &&& post.mem == r->Ok_0.mem
            &&& post.vram == r->Ok_0.vram
        }
}

/// A run of machine states in which each state follows the previous one
/// by a cycle during which every key is up.
pub open spec fn no_key_run(states: Seq<MachineView>) -> bool
    decreases states.len(),
{
    states.len() <= 1 || (no_key_cycle(states[0], states[1]) && no_key_run(states.drop_first()))
}

/// With a `WaitKey` decoded at the program counter and no key pressed,
/// any number of cycles leaves the program counter, the registers, the
/// index register, the stack, memory and the screen unchanged: the
/// machine keeps re-fetching the same `WaitKey` and stays waiting.
pub proof fn lemma_wait_key_blocks_over_run(states: Seq<MachineView>, n: int)
    requires
        0 <= n < states.len(),
        no_key_run(states),
        cpu_wf(states[0].cpu),
        states[0].cpu.pc as int + 1 < MEMORY_SIZE,
        decode_spec(word_at(states[0].mem, states[0].cpu.pc as int)) matches Some(op) && op
            is WaitKey,
    ensures
        states[n].cpu.pc == states[0].cpu.pc,
        states[n].cpu.v == states[0].cpu.v,
        states[n].cpu.i == states[0].cpu.i,
        states[n].cpu.stack == states[0].cpu.stack,
        states[n].mem == states[0].mem,
        states[n].vram == states[0].vram,
    decreases n,
{
    if n > 0 {
        let (keys, rnd) = choose|keys: Seq<bool>, rnd: u8|
            {
                let r = #[trigger] cycle(
                    states[0].cpu,
                    states[0].mem,
                    states[0].vram,
                    keys,
                    rnd,
                );
                &&& forall|j: int| 0 <= j < KEY_COUNT ==> !#[trigger] keys[j]
                &&& r is Ok
                &&& states[1].cpu == r->Ok_0.cpu
                &&& states[1].mem == r->Ok_0.mem
                &&& states[1].vram == r->Ok_0.vram
            };
        lemma_wait_key_blocks(states[0].cpu, states[0].mem, states[0].vram, keys, rnd);
        lemma_wait_key_blocks_over_run(states.drop_first(), n - 1);
        assert(states.drop_first()[n - 1] == states[n]);
        assert(states.drop_first()[0] == states[1]);
    }
}

/// Once a key is pressed, the next `WaitKey` cycle latches the lowest
/// pressed key id into `Vx` and advances the program counter by two.
pub proof fn lemma_wait_key_latches(
    s: CpuView,
    mem: Seq<u8>,
    vram: Seq<bool>,
    keys: Seq<bool>,
    rnd: u8,
    x: u8,
    k: int,
)
    requires
        cpu_wf(s),
        s.pc as int + 1 < MEMORY_SIZE,
        decode_spec(word_at(mem, s.pc as int)) == Some(OpCode::WaitKey(x)),
        0 <= k < KEY_COUNT,
        keys[k],
        forall|i: int| 0 <= i < k ==> !#[trigger] keys[i],
    ensures
        cycle(s, mem, vram, keys, rnd) is Ok,
        cycle(s, mem, vram, keys, rnd)->Ok_0.cpu.v == s.v.update(x as int, k as u8),
        cycle(s, mem, vram, keys, rnd)->Ok_0.cpu.pc == wrap16(s.pc + 2),
{
    crate::instruction::lemma_decode_wf(word_at(mem, s.pc as int));
    lemma_lowest_pressed_is_first(keys, 0, k);
    assert(lowest_pressed(keys) == Some(k));
}

} // verus!
