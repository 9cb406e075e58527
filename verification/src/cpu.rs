//! The processor: registers, index register, program counter, timers and
//! the call stack, together with the execution of one decoded operation
//! per cycle. The effect of a cycle on the whole machine is captured by
//! the specification functions [`exec_op`] and [`cycle`]; the executing
//! functions promise to realise exactly that effect.

use vstd::prelude::*;

use crate::audio::AudioEvent;
use crate::audio::AudioSink;
use crate::error::Chip8Error;
use crate::instruction::Instruction;
use crate::instruction::OpCode;
use crate::instruction::decode_spec;
use crate::instruction::op_wf;
use crate::keyboard::HexKey;
use crate::keyboard::Keyboard;
use crate::keyboard::KEY_COUNT;
use crate::memory::Memory;
use crate::memory::MEMORY_SIZE;
use crate::stack::Stack;
use crate::stack::FRAME_COUNT;
use crate::vram::blit_collides;
use crate::vram::blit_grid;
use crate::vram::sprite_reads_ok;
use crate::vram::Vram;
use crate::vram::VideoSink;

verus! {

broadcast use vstd::array::group_array_axioms;

/// Number of general-purpose registers.
pub const REGISTER_COUNT: usize = 16;

/// The program counter's initial value: the start of program code.
pub const PC_START: u16 = 0x200;

/// The processor state as the contracts speak of it.
#[verifier::ext_equal]
pub ghost struct CpuView {
    /// The sixteen general-purpose 8-bit registers `V0`..`VF`.
    pub v: Seq<u8>,
    /// The 16-bit index register `I`.
    pub i: u16,
    /// The delay timer.
    pub delay_timer: u8,
    /// The sound timer.
    pub sound_timer: u8,
    /// The program counter.
    pub pc: u16,
    /// The live return addresses, oldest first.
    pub stack: Seq<u16>,
}

/// Everything one operation can touch: the processor, memory, the pixel
/// grid, and whether a draw occurred (and so a frame snapshot is owed).
#[verifier::ext_equal]
pub ghost struct StepOut {
    /// The processor state after the operation.
    pub cpu: CpuView,
    /// The memory contents after the operation.
    pub mem: Seq<u8>,
    /// The pixel grid after the operation.
    pub vram: Seq<bool>,
    /// Whether the operation drew a sprite.
    pub drew: bool,
}

/// A well-formed processor view: sixteen registers, at most sixteen
/// stacked return addresses.
pub open spec fn cpu_wf(c: CpuView) -> bool {
    c.v.len() == REGISTER_COUNT && c.stack.len() <= FRAME_COUNT
}

/// 16-bit wraparound.
pub open spec fn wrap16(n: int) -> u16 {
    (n % 0x10000) as u16
}

/// A timer tick: decrement, with a floor at zero.
pub open spec fn sat_dec(t: u8) -> u8 {
    if t > 0 {
        (t - 1) as u8
    } else {
        0
    }
}

/// The big-endian 16-bit word at `addr`.
pub open spec fn word_at(mem: Seq<u8>, addr: int) -> u16 {
    (mem[addr] as u16) << 8 | mem[addr + 1] as u16
}

/// The lowest pressed key with id at least `k`, if any.
pub open spec fn lowest_pressed_from(keys: Seq<bool>, k: int) -> Option<int>
    decreases KEY_COUNT - k,
{
    if k < 0 || k >= KEY_COUNT {
        None
    } else if keys[k] {
        Some(k)
    } else {
        lowest_pressed_from(keys, k + 1)
    }
}

/// The lowest-indexed pressed key, if any.
pub open spec fn lowest_pressed(keys: Seq<bool>) -> Option<int> {
    lowest_pressed_from(keys, 0)
}

/// The effect of one decoded operation on the machine. `rnd` is the byte
/// the random source hands the `Random` operation; no other operation
/// looks at it. An `Err` is fatal and leaves the machine as it was.
pub open spec fn exec_op(
    op: OpCode,
    s: CpuView,
    mem: Seq<u8>,
    vram: Seq<bool>,
    keys: Seq<bool>,
    rnd: u8,
) -> Result<StepOut, Chip8Error> {
    let next = wrap16(s.pc + 2);
    match op {
        OpCode::ClearScreen => Ok(StepOut {
            cpu: CpuView { pc: next, ..s },
            mem,
            vram: crate::vram::blank_grid(),
            drew: false,
        }),
        OpCode::Return => {
            if s.stack.len() == 0 {
                Err(Chip8Error::StackUnderflow)
            } else {
                Ok(StepOut {
                    cpu: CpuView { pc: wrap16(s.stack.last() + 2), stack: s.stack.drop_last(), ..s },
                    mem,
                    vram,
                    drew: false,
                })
            }
        },
        OpCode::Jump(a) => Ok(StepOut { cpu: CpuView { pc: a, ..s }, mem, vram, drew: false }),
        OpCode::Call(a) => {
            if s.stack.len() >= FRAME_COUNT {
                Err(Chip8Error::StackOverflow)
            } else {
                Ok(StepOut {
                    cpu: CpuView { pc: a, stack: s.stack.push(s.pc), ..s },
                    mem,
                    vram,
                    drew: false,
                })
            }
        },
        OpCode::SkipEqImm(x, k) => Ok(StepOut {
            cpu: CpuView { pc: if s.v[x as int] == k { wrap16(s.pc + 4) } else { next }, ..s },
            mem,
            vram,
            drew: false,
        }),
        OpCode::SkipNeqImm(x, k) => Ok(StepOut {
            cpu: CpuView { pc: if s.v[x as int] != k { wrap16(s.pc + 4) } else { next }, ..s },
            mem,
            vram,
            drew: false,
        }),
        OpCode::SkipEqReg(x, y) => Ok(StepOut {
            cpu: CpuView {
                pc: if s.v[x as int] == s.v[y as int] { wrap16(s.pc + 4) } else { next },
                ..s
            },
            mem,
            vram,
            drew: false,
        }),
        OpCode::SetImm(x, k) => Ok(StepOut {
            cpu: CpuView { v: s.v.update(x as int, k), pc: next, ..s },
            mem,
            vram,
            drew: false,
        }),
        OpCode::AddImm(x, k) => Ok(StepOut {
            cpu: CpuView {
                v: s.v.update(x as int, ((s.v[x as int] + k) % 256) as u8),
                pc: next,
                ..s
            },
            mem,
            vram,
            drew: false,
        }),
        OpCode::Copy(x, y) => Ok(StepOut {
            cpu: CpuView { v: s.v.update(x as int, s.v[y as int]), pc: next, ..s },
            mem,
            vram,
            drew: false,
        }),
        OpCode::Or(x, y) => Ok(StepOut {
            cpu: CpuView { v: s.v.update(x as int, s.v[x as int] | s.v[y as int]), pc: next, ..s },
            mem,
            vram,
            drew: false,
        }),
        OpCode::And(x, y) => Ok(StepOut {
            cpu: CpuView { v: s.v.update(x as int, s.v[x as int] & s.v[y as int]), pc: next, ..s },
            mem,
            vram,
            drew: false,
        }),
        OpCode::Xor(x, y) => Ok(StepOut {
            cpu: CpuView { v: s.v.update(x as int, s.v[x as int] ^ s.v[y as int]), pc: next, ..s },
            mem,
            vram,
            drew: false,
        }),
        OpCode::AddReg(x, y) => {
            let sum = s.v[x as int] + s.v[y as int];
            Ok(StepOut {
                cpu: CpuView {
                    v: s.v.update(x as int, (sum % 256) as u8).update(
                        15,
                        if sum > 255 { 1u8 } else { 0u8 },
                    ),
                    pc: next,
                    ..s
                },
                mem,
                vram,
                drew: false,
            })
        },
        OpCode::SubXY(x, y) => {
            let vx = s.v[x as int];
            let vy = s.v[y as int];
            Ok(StepOut {
                cpu: CpuView {
                    v: s.v.update(15, if vx >= vy { 1u8 } else { 0u8 }).update(
                        x as int,
                        ((vx - vy) % 256) as u8,
                    ),
                    pc: next,
                    ..s
                },
                mem,
                vram,
                drew: false,
            })
        },
        OpCode::ShR(x, y) => {
            let vy = s.v[y as int];
            Ok(StepOut {
                cpu: CpuView {
                    v: s.v.update(15, vy & 1).update(x as int, vy >> 1),
                    pc: next,
                    ..s
                },
                mem,
                vram,
                drew: false,
            })
        },
        OpCode::SubYX(x, y) => {
            let vx = s.v[x as int];
            let vy = s.v[y as int];
            Ok(StepOut {
                cpu: CpuView {
                    v: s.v.update(15, if vy >= vx { 1u8 } else { 0u8 }).update(
                        x as int,
                        ((vy - vx) % 256) as u8,
                    ),
                    pc: next,
                    ..s
                },
                mem,
                vram,
                drew: false,
            })
        },
        OpCode::ShL(x, y) => {
            let vy = s.v[y as int];
            Ok(StepOut {
                cpu: CpuView {
                    v: s.v.update(15, (vy >> 7) & 1).update(x as int, (vy << 1) as u8),
                    pc: next,
                    ..s
                },
                mem,
                vram,
                drew: false,
            })
        },
        OpCode::SkipNeqReg(x, y) => Ok(StepOut {
            cpu: CpuView {
                pc: if s.v[x as int] != s.v[y as int] { wrap16(s.pc + 4) } else { next },
                ..s
            },
            mem,
            vram,
            drew: false,
        }),
        OpCode::SetIndex(a) => Ok(StepOut {
            cpu: CpuView { i: a, pc: next, ..s },
            mem,
            vram,
            drew: false,
        }),
        OpCode::JumpV0(a) => Ok(StepOut {
            cpu: CpuView { pc: (a + s.v[0]) as u16, ..s },
            mem,
            vram,
            drew: false,
        }),
        OpCode::Random(x, k) => Ok(StepOut {
            cpu: CpuView { v: s.v.update(x as int, rnd & k), pc: next, ..s },
            mem,
            vram,
            drew: false,
        }),
        OpCode::DrawSprite(x, y, n) => {
            let vx = s.v[x as int];
            let vy = s.v[y as int];
            if !sprite_reads_ok(s.i as int, vy as int, n as int) {
                Err(Chip8Error::OutOfBounds(if s.i as int >= MEMORY_SIZE { s.i } else { MEMORY_SIZE as u16 }))
            } else {
                let collided = blit_collides(vram, mem, s.i as int, vx as int, vy as int, n as int);
                Ok(StepOut {
                    cpu: CpuView {
                        v: s.v.update(15, if collided { 1u8 } else { 0u8 }),
                        pc: next,
                        ..s
                    },
                    mem,
                    vram: blit_grid(vram, mem, s.i as int, vx as int, vy as int, n as int),
                    drew: true,
                })
            }
        },
        OpCode::SkipKeyDown(x) => Ok(StepOut {
            cpu: CpuView {
                pc: if keys[s.v[x as int] as int % KEY_COUNT as int] { wrap16(s.pc + 4) } else { next },
                ..s
            },
            mem,
            vram,
            drew: false,
        }),
        OpCode::SkipKeyUp(x) => Ok(StepOut {
            cpu: CpuView {
                pc: if !keys[s.v[x as int] as int % KEY_COUNT as int] { wrap16(s.pc + 4) } else { next },
                ..s
            },
            mem,
            vram,
            drew: false,
        }),
        OpCode::GetDelay(x) => Ok(StepOut {
            cpu: CpuView { v: s.v.update(x as int, s.delay_timer), pc: next, ..s },
            mem,
            vram,
            drew: false,
        }),
        OpCode::WaitKey(x) => {
            match lowest_pressed(keys) {
                Some(k) => Ok(StepOut {
                    cpu: CpuView { v: s.v.update(x as int, k as u8), pc: next, ..s },
                    mem,
                    vram,
                    drew: false,
                }),
                None => Ok(StepOut { cpu: s, mem, vram, drew: false }),
            }
        },
        OpCode::SetDelay(x) => Ok(StepOut {
            cpu: CpuView { delay_timer: s.v[x as int], pc: next, ..s },
            mem,
            vram,
            drew: false,
        }),
        OpCode::SetSound(x) => Ok(StepOut {
            cpu: CpuView {
                sound_timer: if s.v[x as int] > 2 { s.v[x as int] } else { s.sound_timer },
                pc: next,
                ..s
            },
            mem,
            vram,
            drew: false,
        }),
        OpCode::AddIndex(x) => Ok(StepOut {
            cpu: CpuView {
                i: wrap16(s.i + s.v[x as int]),
                v: s.v.update(15, if s.i + s.v[x as int] > 0xFFF { 1u8 } else { 0u8 }),
                pc: next,
                ..s
            },
            mem,
            vram,
            drew: false,
        }),
        OpCode::FontAddr(x) => Ok(StepOut {
            cpu: CpuView { i: (s.v[x as int] * crate::memory::FONT_GLYPH_SIZE) as u16, pc: next, ..s },
            mem,
            vram,
            drew: false,
        }),
        OpCode::StoreBCD(x) => {
            if s.i + 2 >= MEMORY_SIZE {
                Err(Chip8Error::OutOfBounds(
                    if s.i as int >= MEMORY_SIZE {
                        s.i
                    } else if s.i + 1 >= MEMORY_SIZE {
                        (s.i + 1) as u16
                    } else {
                        (s.i + 2) as u16
                    },
                ))
            } else {
                let vx = s.v[x as int];
                Ok(StepOut {
                    cpu: CpuView { pc: next, ..s },
                    mem: mem.update(s.i as int, (vx / 100) as u8).update(
                        s.i + 1,
                        ((vx / 10) % 10) as u8,
                    ).update(s.i + 2, (vx % 10) as u8),
                    vram,
                    drew: false,
                })
            }
        },
        OpCode::StoreRegs(x) => {
            if s.i + x >= MEMORY_SIZE {
                Err(Chip8Error::OutOfBounds(
                    if s.i as int >= MEMORY_SIZE { s.i } else { MEMORY_SIZE as u16 },
                ))
            } else {
                Ok(StepOut {
                    cpu: CpuView { i: (s.i + x + 1) as u16, pc: next, ..s },
                    mem: Seq::new(MEMORY_SIZE as nat, |a2: int| if s.i <= a2 <= s.i + x {
                        s.v[a2 - s.i]
                    } else {
                        mem[a2]
                    }),
                    vram,
                    drew: false,
                })
            }
        },
        OpCode::LoadRegs(x) => {
            if s.i + x >= MEMORY_SIZE {
                Err(Chip8Error::OutOfBounds(
                    if s.i as int >= MEMORY_SIZE { s.i } else { MEMORY_SIZE as u16 },
                ))
            } else {
                Ok(StepOut {
                    cpu: CpuView {
                        v: Seq::new(REGISTER_COUNT as nat, |r2: int| if r2 <= x {
                            mem[s.i + r2]
                        } else {
                            s.v[r2]
                        }),
                        i: (s.i + x + 1) as u16,
                        pc: next,
                        ..s
                    },
                    mem,
                    vram,
                    drew: false,
                })
            }
        },
    }
}

/// One whole cycle: fetch the word at the program counter, decode it,
/// execute the operation, then let both timers tick down. An `Err` is
/// fatal and leaves the machine as it was.
pub open spec fn cycle(
    s: CpuView,
    mem: Seq<u8>,
    vram: Seq<bool>,
    keys: Seq<bool>,
    rnd: u8,
) -> Result<StepOut, Chip8Error> {
    if s.pc as int >= MEMORY_SIZE {
        Err(Chip8Error::OutOfBounds(s.pc))
    } else if s.pc as int + 1 >= MEMORY_SIZE {
        Err(Chip8Error::OutOfBounds((s.pc + 1) as u16))
    } else {
        match decode_spec(word_at(mem, s.pc as int)) {
            None => Err(Chip8Error::UnknownOpcode(word_at(mem, s.pc as int))),
            Some(op) => match exec_op(op, s, mem, vram, keys, rnd) {
                Err(e) => Err(e),
                Ok(so) => Ok(StepOut {
                    cpu: CpuView {
                        delay_timer: sat_dec(so.cpu.delay_timer),
                        sound_timer: sat_dec(so.cpu.sound_timer),
                        ..so.cpu
                    },
                    ..so
                }),
            },
        }
    }
}

/// That executing `op` from the given pre-state, with `b` as the random
/// byte, succeeds and yields exactly the given post-state; a sink keeps
/// its frame unless the operation drew, in which case it holds the new
/// grid.
pub open spec fn op_result_matches(
    op: OpCode,
    pre_cpu: CpuView,
    pre_mem: Seq<u8>,
    pre_vram: Seq<bool>,
    keys: Seq<bool>,
    b: u8,
    post_cpu: CpuView,
    post_mem: Seq<u8>,
    post_vram: Seq<bool>,
    pre_sink: Option<Seq<bool>>,
    post_sink: Option<Seq<bool>>,
) -> bool {
    let r = exec_op(op, pre_cpu, pre_mem, pre_vram, keys, b);
    &&& r is Ok
    &&& post_cpu == r->Ok_0.cpu
    &&& post_mem == r->Ok_0.mem
    &&& post_vram == r->Ok_0.vram
    &&& post_sink == if r->Ok_0.drew {
        Some(post_vram)
    } else {
        pre_sink
    }
}

/// As [`op_result_matches`], for a whole cycle.
pub open spec fn cycle_result_matches(
    pre_cpu: CpuView,
    pre_mem: Seq<u8>,
    pre_vram: Seq<bool>,
    keys: Seq<bool>,
    b: u8,
    post_cpu: CpuView,
    post_mem: Seq<u8>,
    post_vram: Seq<bool>,
    pre_sink: Option<Seq<bool>>,
    post_sink: Option<Seq<bool>>,
) -> bool {
    let r = cycle(pre_cpu, pre_mem, pre_vram, keys, b);
    &&& r is Ok
    &&& post_cpu == r->Ok_0.cpu
    &&& post_mem == r->Ok_0.mem
    &&& post_vram == r->Ok_0.vram
    &&& post_sink == if r->Ok_0.drew {
        Some(post_vram)
    } else {
        pre_sink
    }
}

/// Relies on rand::random: draws a byte from the thread-local generator.
/// Nothing is promised of its value.
#[verifier::external_body]
fn random_byte() -> u8 {
    rand::random()
}

/// The processor. Its view is a [`CpuView`].
#[derive(Debug)]
pub struct Cpu {
    v: [u8; 16],
    i: u16,
    delay_timer: u8,
    sound_timer: u8,
    pc: u16,
    stack: Stack,
}

impl View for Cpu {
    type V = CpuView;

    closed spec fn view(&self) -> CpuView {
        CpuView {
            v: self.v@,
            i: self.i,
            delay_timer: self.delay_timer,
            sound_timer: self.sound_timer,
            pc: self.pc,
            stack: self.stack@,
        }
    }
}

impl Cpu {
    /// A processor in its initial state: all registers and timers zero,
    /// the program counter at `0x200`, the stack empty.
    pub fn new() -> (c: Cpu)
        ensures
            c@.v == Seq::new(REGISTER_COUNT as nat, |j: int| 0u8),
            c@.i == 0,
            c@.delay_timer == 0,
            c@.sound_timer == 0,
            c@.pc == PC_START,
            c@.stack == Seq::<u16>::empty(),
            cpu_wf(c@),
    {
        let c = Cpu {
            v: [0u8; 16],
            i: 0,
            delay_timer: 0,
            sound_timer: 0,
            pc: PC_START,
            stack: Stack::new(),
        };
        proof {
            assert(c@.v =~= Seq::new(REGISTER_COUNT as nat, |j: int| 0u8));
        }
        c
    }

    /// The program counter.
    pub fn pc(&self) -> (p: u16)
        ensures
            p == self@.pc,
    {
        self.pc
    }

    /// The value of register `Vx`.
    pub fn register(&self, x: u8) -> (r: u8)
        requires
            x < REGISTER_COUNT,
        ensures
            r == self@.v[x as int],
    {
        self.v[x as usize]
    }

    /// The index register `I`.
    pub fn index(&self) -> (r: u16)
        ensures
            r == self@.i,
    {
        self.i
    }

    /// The delay timer.
    pub fn delay(&self) -> (t: u8)
        ensures
            t == self@.delay_timer,
    {
        self.delay_timer
    }

    /// The sound timer.
    pub fn sound(&self) -> (t: u8)
        ensures
            t == self@.sound_timer,
    {
        self.sound_timer
    }

    /// Reads the 16-bit word at the program counter.
    pub fn fetch(&self, memory: &Memory) -> (r: Result<u16, Chip8Error>)
        ensures
            self@.pc as int + 1 < MEMORY_SIZE ==> r == Ok::<u16, Chip8Error>(
                word_at(memory@, self@.pc as int),
            ),
            self@.pc as int >= MEMORY_SIZE ==> r == Err::<u16, Chip8Error>(
                Chip8Error::OutOfBounds(self@.pc),
            ),
            ((self@.pc as int) < MEMORY_SIZE && self@.pc as int + 1 >= MEMORY_SIZE) ==> r
                == Err::<u16, Chip8Error>(Chip8Error::OutOfBounds((self@.pc + 1) as u16)),
    {
        memory.read_dword(self.pc)
    }

    /// Decodes a fetched word, or fails with `UnknownOpcode`.
    pub fn decode(&self, data: u16) -> (r: Result<OpCode, Chip8Error>)
        ensures
            match decode_spec(data) {
                Some(op) => r == Ok::<OpCode, Chip8Error>(op) && op_wf(op),
                None => r == Err::<OpCode, Chip8Error>(Chip8Error::UnknownOpcode(data)),
            },
    {
        let instruction = Instruction::new(data);
        instruction.decode()
    }

    /// The lowest-indexed currently pressed key, if any.
    fn first_pressed(keyboard: &Keyboard) -> (r: Option<u8>)
        ensures
            match r {
                Some(k) => k < KEY_COUNT && lowest_pressed(keyboard@) == Some(k as int),
                None => lowest_pressed(keyboard@) is None,
            },
    {
        let mut k: u8 = 0;
        while k < KEY_COUNT as u8
            invariant
                k <= KEY_COUNT,
                lowest_pressed(keyboard@) == lowest_pressed_from(keyboard@, k as int),
            decreases KEY_COUNT - k,
        {
            if keyboard.get_pressed(HexKey::from_index(k)) {
                return Some(k);
            }
            k = k + 1;
        }
        None
    }

    /// Executes one decoded operation, mutating the machine exactly as
    /// [`exec_op`] describes; after a draw the new frame is left in
    /// `video_sink`. An `Err` is fatal and leaves everything unchanged.
    /// Executes one decoded operation, mutating the machine exactly as
    /// [`exec_op`] describes; after a draw the new frame is left in
    /// `video_sink`. An `Err` is fatal and leaves everything unchanged.
    pub fn execute(
        &mut self,
        opcode: &OpCode,
        memory: &mut Memory,
        vram: &mut Vram,
        keyboard: &Keyboard,
        video_sink: &mut VideoSink,
    ) -> (r: Result<(), Chip8Error>)
        requires
            op_wf(*opcode),
        ensures
            r is Ok <==> exec_op(*opcode, old(self)@, old(memory)@, old(vram)@, keyboard@, 0) is Ok,
            r matches Err(e) ==> {
                &&& exec_op(*opcode, old(self)@, old(memory)@, old(vram)@, keyboard@, 0)
                    == Err::<StepOut, Chip8Error>(e)
                &&& final(self)@ == old(self)@
                &&& final(memory)@ == old(memory)@
                &&& final(vram)@ == old(vram)@
                &&& final(video_sink)@ == old(video_sink)@
            },
            r is Ok ==> exists|b: u8|
                op_result_matches(
                    *opcode,
                    old(self)@,
                    old(memory)@,
                    old(vram)@,
                    keyboard@,
                    b,
                    final(self)@,
                    final(memory)@,
                    final(vram)@,
                    old(video_sink)@,
                    final(video_sink)@,
                ),
    {
        match *opcode {
            OpCode::ClearScreen
            | OpCode::Return
            | OpCode::Jump(_)
            | OpCode::Call(_)
            | OpCode::JumpV0(_)
            | OpCode::SetIndex(_) => self.exec_control(opcode, memory, vram, keyboard, video_sink),
            OpCode::SkipEqImm(..)
            | OpCode::SkipNeqImm(..)
            | OpCode::SkipEqReg(..)
            | OpCode::SkipNeqReg(..)
            | OpCode::SkipKeyDown(_)
            | OpCode::SkipKeyUp(_) => self.exec_skip(opcode, memory, vram, keyboard, video_sink),
            OpCode::SetImm(..)
            | OpCode::AddImm(..)
            | OpCode::Copy(..)
            | OpCode::Or(..)
            | OpCode::And(..)
            | OpCode::Xor(..) => self.exec_alu_imm(opcode, memory, vram, keyboard, video_sink),
            OpCode::AddReg(..) => self.exec_add_reg(opcode, memory, vram, keyboard, video_sink),
            OpCode::SubXY(..) => self.exec_sub_xy(opcode, memory, vram, keyboard, video_sink),
            OpCode::SubYX(..) => self.exec_sub_yx(opcode, memory, vram, keyboard, video_sink),
            OpCode::ShR(..) => self.exec_shr(opcode, memory, vram, keyboard, video_sink),
            OpCode::ShL(..) => self.exec_shl(opcode, memory, vram, keyboard, video_sink),
            OpCode::GetDelay(_) => self.exec_get_delay(opcode, memory, vram, keyboard, video_sink),
            OpCode::SetDelay(_) => self.exec_set_delay(opcode, memory, vram, keyboard, video_sink),
            OpCode::SetSound(_) => self.exec_set_sound(opcode, memory, vram, keyboard, video_sink),
            OpCode::WaitKey(_) => self.exec_wait_key(opcode, memory, vram, keyboard, video_sink),
            OpCode::Random(..) => self.exec_random(opcode, memory, vram, keyboard, video_sink),
            OpCode::AddIndex(_) => self.exec_add_index(opcode, memory, vram, keyboard, video_sink),
            OpCode::FontAddr(_) => self.exec_font_addr(opcode, memory, vram, keyboard, video_sink),
            OpCode::DrawSprite(..)
            | OpCode::StoreBCD(_)
            | OpCode::StoreRegs(_)
            | OpCode::LoadRegs(_) => self.exec_mem(opcode, memory, vram, keyboard, video_sink),
        }
    }

    /// Executes the control-flow operations: clear, return, jumps, call,
    /// and setting the index register.
    #[allow(unused_variables)]
    #[verifier::rlimit(60)]
    fn exec_control(
        &mut self,
        opcode: &OpCode,
        memory: &mut Memory,
        vram: &mut Vram,
        keyboard: &Keyboard,
        video_sink: &mut VideoSink,
    ) -> (r: Result<(), Chip8Error>)
        requires
            op_wf(*opcode),
            *opcode is ClearScreen
            || *opcode is Return
            || *opcode is Jump
            || *opcode is Call
            || *opcode is JumpV0
            || *opcode is SetIndex,
        ensures
            r is Ok <==> exec_op(*opcode, old(self)@, old(memory)@, old(vram)@, keyboard@, 0) is Ok,
            r matches Err(e) ==> {
                &&& exec_op(*opcode, old(self)@, old(memory)@, old(vram)@, keyboard@, 0)
                    == Err::<StepOut, Chip8Error>(e)
                &&& final(self)@ == old(self)@
                &&& final(memory)@ == old(memory)@
                &&& final(vram)@ == old(vram)@
                &&& final(video_sink)@ == old(video_sink)@
            },
            r is Ok ==> exists|b: u8|
                op_result_matches(
                    *opcode,
                    old(self)@,
                    old(memory)@,
                    old(vram)@,
                    keyboard@,
                    b,
                    final(self)@,
                    final(memory)@,
                    final(vram)@,
                    old(video_sink)@,
                    final(video_sink)@,
                ),
    {
        let ghost pre = self@;
        let ghost pre_mem = memory@;
        let ghost pre_vram = vram@;
        let ghost pre_sink = video_sink@;
        match *opcode {
            OpCode::ClearScreen => {
                vram.clear();
                self.pc = self.pc.wrapping_add(2);
                proof {
                    assert(op_result_matches(*opcode, pre, pre_mem, pre_vram, keyboard@, 0, self@, memory@, vram@, pre_sink, video_sink@));
                }
            },
            OpCode::Return => {
                let addr = match self.stack.pop() {
                    Ok(a) => a,
                    Err(e) => {
                        return Err(e);
                    },
                };
                self.pc = addr.wrapping_add(2);
                proof {
                    assert(op_result_matches(*opcode, pre, pre_mem, pre_vram, keyboard@, 0, self@, memory@, vram@, pre_sink, video_sink@));
                }
            },
            OpCode::Jump(a) => {
                self.pc = a;
                proof {
                    assert(op_result_matches(*opcode, pre, pre_mem, pre_vram, keyboard@, 0, self@, memory@, vram@, pre_sink, video_sink@));
                }
            },
            OpCode::Call(a) => {
                match self.stack.push(self.pc) {
                    Ok(u) => u,
                    Err(e) => {
                        return Err(e);
                    },
                };
                self.pc = a;
                proof {
                    assert(op_result_matches(*opcode, pre, pre_mem, pre_vram, keyboard@, 0, self@, memory@, vram@, pre_sink, video_sink@));
                }
            },
            OpCode::JumpV0(a) => {
                self.pc = a + self.v[0] as u16;
                proof {
                    assert(op_result_matches(*opcode, pre, pre_mem, pre_vram, keyboard@, 0, self@, memory@, vram@, pre_sink, video_sink@));
                }
            },
            OpCode::SetIndex(a) => {
                self.i = a;
                self.pc = self.pc.wrapping_add(2);
                proof {
                    assert(op_result_matches(*opcode, pre, pre_mem, pre_vram, keyboard@, 0, self@, memory@, vram@, pre_sink, video_sink@));
                }
            },
            _ => {
                proof {
                    assert(false);
                }
            },
        }
        Ok(())
    }

    /// Executes the conditional-skip operations.
    #[allow(unused_variables)]
    #[verifier::rlimit(60)]
    fn exec_skip(
        &mut self,
        opcode: &OpCode,
        memory: &mut Memory,
        vram: &mut Vram,
        keyboard: &Keyboard,
        video_sink: &mut VideoSink,
    ) -> (r: Result<(), Chip8Error>)
        requires
            op_wf(*opcode),
            *opcode is SkipEqImm
            || *opcode is SkipNeqImm
            || *opcode is SkipEqReg
            || *opcode is SkipNeqReg
            || *opcode is SkipKeyDown
            || *opcode is SkipKeyUp,
        ensures
            r is Ok <==> exec_op(*opcode, old(self)@, old(memory)@, old(vram)@, keyboard@, 0) is Ok,
            r matches Err(e) ==> {
                &&& exec_op(*opcode, old(self)@, old(memory)@, old(vram)@, keyboard@, 0)
                    == Err::<StepOut, Chip8Error>(e)
                &&& final(self)@ == old(self)@
                &&& final(memory)@ == old(memory)@
                &&& final(vram)@ == old(vram)@
                &&& final(video_sink)@ == old(video_sink)@
            },
            r is Ok ==> exists|b: u8|
                op_result_matches(
                    *opcode,
                    old(self)@,
                    old(memory)@,
                    old(vram)@,
                    keyboard@,
                    b,
                    final(self)@,
                    final(memory)@,
                    final(vram)@,
                    old(video_sink)@,
                    final(video_sink)@,
                ),
    {
        let ghost pre = self@;
        let ghost pre_mem = memory@;
        let ghost pre_vram = vram@;
        let ghost pre_sink = video_sink@;
        match *opcode {
            OpCode::SkipEqImm(x, k) => {
                if self.v[x as usize] == k {
                    self.pc = self.pc.wrapping_add(4);
                } else {
                    self.pc = self.pc.wrapping_add(2);
                }
                proof {
                    assert(op_result_matches(*opcode, pre, pre_mem, pre_vram, keyboard@, 0, self@, memory@, vram@, pre_sink, video_sink@));
                }
            },
            OpCode::SkipNeqImm(x, k) => {
                if self.v[x as usize] != k {
                    self.pc = self.pc.wrapping_add(4);
                } else {
                    self.pc = self.pc.wrapping_add(2);
                }
                proof {
                    assert(op_result_matches(*opcode, pre, pre_mem, pre_vram, keyboard@, 0, self@, memory@, vram@, pre_sink, video_sink@));
                }
            },
            OpCode::SkipEqReg(x, y) => {
                if self.v[x as usize] == self.v[y as usize] {
                    self.pc = self.pc.wrapping_add(4);
                } else {
                    self.pc = self.pc.wrapping_add(2);
                }
                proof {
                    assert(op_result_matches(*opcode, pre, pre_mem, pre_vram, keyboard@, 0, self@, memory@, vram@, pre_sink, video_sink@));
                }
            },
            OpCode::SkipNeqReg(x, y) => {
                if self.v[x as usize] != self.v[y as usize] {
                    self.pc = self.pc.wrapping_add(4);
                } else {
                    self.pc = self.pc.wrapping_add(2);
                }
                proof {
                    assert(op_result_matches(*opcode, pre, pre_mem, pre_vram, keyboard@, 0, self@, memory@, vram@, pre_sink, video_sink@));
                }
            },
            OpCode::SkipKeyDown(x) => {
                let key = self.v[x as usize] % KEY_COUNT as u8;
                if keyboard.get_pressed(HexKey::from_index(key)) {
                    self.pc = self.pc.wrapping_add(4);
                } else {
                    self.pc = self.pc.wrapping_add(2);
                }
                proof {
                    assert(op_result_matches(*opcode, pre, pre_mem, pre_vram, keyboard@, 0, self@, memory@, vram@, pre_sink, video_sink@));
                }
            },
            OpCode::SkipKeyUp(x) => {
                let key = self.v[x as usize] % KEY_COUNT as u8;
                if !keyboard.get_pressed(HexKey::from_index(key)) {
                    self.pc = self.pc.wrapping_add(4);
                } else {
                    self.pc = self.pc.wrapping_add(2);
                }
                proof {
                    assert(op_result_matches(*opcode, pre, pre_mem, pre_vram, keyboard@, 0, self@, memory@, vram@, pre_sink, video_sink@));
                }
            },
            _ => {
                proof {
                    assert(false);
                }
            },
        }
        Ok(())
    }

    /// Executes the register moves and the bitwise and immediate
    /// arithmetic operations.
    #[allow(unused_variables)]
    #[verifier::rlimit(60)]
    fn exec_alu_imm(
        &mut self,
        opcode: &OpCode,
        memory: &mut Memory,
        vram: &mut Vram,
        keyboard: &Keyboard,
        video_sink: &mut VideoSink,
    ) -> (r: Result<(), Chip8Error>)
        requires
            op_wf(*opcode),
            *opcode is SetImm
            || *opcode is AddImm
            || *opcode is Copy
            || *opcode is Or
            || *opcode is And
            || *opcode is Xor,
        ensures
            r is Ok <==> exec_op(*opcode, old(self)@, old(memory)@, old(vram)@, keyboard@, 0) is Ok,
            r matches Err(e) ==> {
                &&& exec_op(*opcode, old(self)@, old(memory)@, old(vram)@, keyboard@, 0)
                    == Err::<StepOut, Chip8Error>(e)
                &&& final(self)@ == old(self)@
                &&& final(memory)@ == old(memory)@
                &&& final(vram)@ == old(vram)@
                &&& final(video_sink)@ == old(video_sink)@
            },
            r is Ok ==> exists|b: u8|
                op_result_matches(
                    *opcode,
                    old(self)@,
                    old(memory)@,
                    old(vram)@,
                    keyboard@,
                    b,
                    final(self)@,
                    final(memory)@,
                    final(vram)@,
                    old(video_sink)@,
                    final(video_sink)@,
                ),
    {
        let ghost pre = self@;
        let ghost pre_mem = memory@;
        let ghost pre_vram = vram@;
        let ghost pre_sink = video_sink@;
        match *opcode {
            OpCode::SetImm(x, k) => {
                self.v[x as usize] = k;
                self.pc = self.pc.wrapping_add(2);
                proof {
                    assert(self@.v =~= pre.v.update(x as int, k));
                    assert(op_result_matches(*opcode, pre, pre_mem, pre_vram, keyboard@, 0, self@, memory@, vram@, pre_sink, video_sink@));
                }
            },
            OpCode::AddImm(x, k) => {
                let sum: u16 = self.v[x as usize] as u16 + k as u16;
                self.v[x as usize] = (sum % 256) as u8;
                self.pc = self.pc.wrapping_add(2);
                proof {
                    assert(op_result_matches(*opcode, pre, pre_mem, pre_vram, keyboard@, 0, self@, memory@, vram@, pre_sink, video_sink@));
                }
            },
            OpCode::Copy(x, y) => {
                self.v[x as usize] = self.v[y as usize];
                self.pc = self.pc.wrapping_add(2);
                proof {
                    assert(op_result_matches(*opcode, pre, pre_mem, pre_vram, keyboard@, 0, self@, memory@, vram@, pre_sink, video_sink@));
                }
            },
            OpCode::Or(x, y) => {
                self.v[x as usize] = self.v[x as usize] | self.v[y as usize];
                self.pc = self.pc.wrapping_add(2);
                proof {
                    assert(op_result_matches(*opcode, pre, pre_mem, pre_vram, keyboard@, 0, self@, memory@, vram@, pre_sink, video_sink@));
                }
            },
            OpCode::And(x, y) => {
                self.v[x as usize] = self.v[x as usize] & self.v[y as usize];
                self.pc = self.pc.wrapping_add(2);
                proof {
                    assert(op_result_matches(*opcode, pre, pre_mem, pre_vram, keyboard@, 0, self@, memory@, vram@, pre_sink, video_sink@));
                }
            },
            OpCode::Xor(x, y) => {
                self.v[x as usize] = self.v[x as usize] ^ self.v[y as usize];
                self.pc = self.pc.wrapping_add(2);
                proof {
                    assert(op_result_matches(*opcode, pre, pre_mem, pre_vram, keyboard@, 0, self@, memory@, vram@, pre_sink, video_sink@));
                }
            },
            _ => {
                proof {
                    assert(false);
                }
            },
        }
        Ok(())
    }

    /// Executes the operations that touch memory or the pixel grid.
    #[allow(unused_variables)]
    #[verifier::rlimit(60)]
    fn exec_mem(
        &mut self,
        opcode: &OpCode,
        memory: &mut Memory,
        vram: &mut Vram,
        keyboard: &Keyboard,
        video_sink: &mut VideoSink,
    ) -> (r: Result<(), Chip8Error>)
        requires
            op_wf(*opcode),
            *opcode is DrawSprite
            || *opcode is StoreBCD
            || *opcode is StoreRegs
            || *opcode is LoadRegs,
        ensures
            r is Ok <==> exec_op(*opcode, old(self)@, old(memory)@, old(vram)@, keyboard@, 0) is Ok,
            r matches Err(e) ==> {
                &&& exec_op(*opcode, old(self)@, old(memory)@, old(vram)@, keyboard@, 0)
                    == Err::<StepOut, Chip8Error>(e)
                &&& final(self)@ == old(self)@
                &&& final(memory)@ == old(memory)@
                &&& final(vram)@ == old(vram)@
                &&& final(video_sink)@ == old(video_sink)@
            },
            r is Ok ==> exists|b: u8|
                op_result_matches(
                    *opcode,
                    old(self)@,
                    old(memory)@,
                    old(vram)@,
                    keyboard@,
                    b,
                    final(self)@,
                    final(memory)@,
                    final(vram)@,
                    old(video_sink)@,
                    final(video_sink)@,
                ),
    {
        proof {
            memory.lemma_len();
        }
        let ghost pre = self@;
        let ghost pre_mem = memory@;
        let ghost pre_vram = vram@;
        let ghost pre_sink = video_sink@;
        match *opcode {
            OpCode::DrawSprite(x, y, n) => {
                let vx = self.v[x as usize];
                let vy = self.v[y as usize];
                let collided = match vram.draw_sprite(memory, self.i, vx, vy, n, video_sink) {
                    Ok(c) => c,
                    Err(e) => {
                        return Err(e);
                    },
                };
                self.v[15] = if collided {
                    1
                } else {
                    0
                };
                self.pc = self.pc.wrapping_add(2);
                proof {
                    assert(op_result_matches(*opcode, pre, pre_mem, pre_vram, keyboard@, 0, self@, memory@, vram@, pre_sink, video_sink@));
                }
            },
            OpCode::StoreBCD(x) => {
                if self.i as usize + 2 >= MEMORY_SIZE {
                    let oob: u16 = if self.i as usize >= MEMORY_SIZE {
                        self.i
                    } else if self.i as usize + 1 >= MEMORY_SIZE {
                        self.i + 1
                    } else {
                        self.i + 2
                    };
                    return Err(Chip8Error::OutOfBounds(oob));
                }
                let vx = self.v[x as usize];
                memory.set_byte(self.i as usize, vx / 100);
                memory.set_byte(self.i as usize + 1, (vx / 10) % 10);
                memory.set_byte(self.i as usize + 2, vx % 10);
                self.pc = self.pc.wrapping_add(2);
                proof {
                    assert(op_result_matches(*opcode, pre, pre_mem, pre_vram, keyboard@, 0, self@, memory@, vram@, pre_sink, video_sink@));
                }
            },
            OpCode::StoreRegs(x) => {
                if self.i as usize + x as usize >= MEMORY_SIZE {
                    let oob: u16 = if self.i as usize >= MEMORY_SIZE {
                        self.i
                    } else {
                        MEMORY_SIZE as u16
                    };
                    return Err(Chip8Error::OutOfBounds(oob));
                }
                let mut r: usize = 0;
                while r <= x as usize
                    invariant
                        r <= x as int + 1,
                        x < REGISTER_COUNT,
                        self@ == pre,
                        pre.i as int + x < MEMORY_SIZE,
                        memory@.len() == MEMORY_SIZE,
                        forall|a2: int| 0 <= a2 < MEMORY_SIZE ==> #[trigger] memory@[a2] == (
                        if pre.i <= a2 < pre.i + r {
                            pre.v[a2 - pre.i]
                        } else {
                            pre_mem[a2]
                        }),
                    decreases x as int + 1 - r,
                {
                    memory.set_byte(self.i as usize + r, self.v[r]);
                    r = r + 1;
                }
                self.i = self.i + x as u16 + 1;
                self.pc = self.pc.wrapping_add(2);
                proof {
                    assert(memory@ =~= exec_op(*opcode, pre, pre_mem, pre_vram, keyboard@, 0)->Ok_0.mem);
                    assert(op_result_matches(*opcode, pre, pre_mem, pre_vram, keyboard@, 0, self@, memory@, vram@, pre_sink, video_sink@));
                }
            },
            OpCode::LoadRegs(x) => {
                if self.i as usize + x as usize >= MEMORY_SIZE {
                    let oob: u16 = if self.i as usize >= MEMORY_SIZE {
                        self.i
                    } else {
                        MEMORY_SIZE as u16
                    };
                    return Err(Chip8Error::OutOfBounds(oob));
                }
                let mut r: usize = 0;
                while r <= x as usize
                    invariant
                        r <= x as int + 1,
                        x < REGISTER_COUNT,
                        self@.i == pre.i && self@.pc == pre.pc && self@.delay_timer == pre.delay_timer
                            && self@.sound_timer == pre.sound_timer && self@.stack == pre.stack,
                        self@.v.len() == REGISTER_COUNT,
                        pre.v.len() == REGISTER_COUNT,
                        pre.i as int + x < MEMORY_SIZE,
                        memory@ == pre_mem,
                        forall|r2: int| 0 <= r2 < REGISTER_COUNT ==> #[trigger] self@.v[r2] == (
                        if r2 < r {
                            pre_mem[pre.i + r2]
                        } else {
                            pre.v[r2]
                        }),
                    decreases x as int + 1 - r,
                {
                    self.v[r] = memory.byte_at(self.i as usize + r);
                    r = r + 1;
                }
                self.i = self.i + x as u16 + 1;
                self.pc = self.pc.wrapping_add(2);
                proof {
                    assert(self@.v =~= exec_op(*opcode, pre, pre_mem, pre_vram, keyboard@, 0)->Ok_0.cpu.v);
                    assert(op_result_matches(*opcode, pre, pre_mem, pre_vram, keyboard@, 0, self@, memory@, vram@, pre_sink, video_sink@));
                }
            },
            _ => {
                proof {
                    assert(false);
                }
            },
        }
        Ok(())
    }

    /// Executes one `AddReg` operation: register-register add; `VF` takes the carry.
    #[allow(unused_variables)]
    #[verifier::rlimit(100)]
    fn exec_add_reg(
        &mut self,
        opcode: &OpCode,
        memory: &mut Memory,
        vram: &mut Vram,
        keyboard: &Keyboard,
        video_sink: &mut VideoSink,
    ) -> (r: Result<(), Chip8Error>)
        requires
            op_wf(*opcode),
            *opcode is AddReg,
        ensures
            r is Ok <==> exec_op(*opcode, old(self)@, old(memory)@, old(vram)@, keyboard@, 0) is Ok,
            r matches Err(e) ==> {
                &&& exec_op(*opcode, old(self)@, old(memory)@, old(vram)@, keyboard@, 0)
                    == Err::<StepOut, Chip8Error>(e)
                &&& final(self)@ == old(self)@
                &&& final(memory)@ == old(memory)@
                &&& final(vram)@ == old(vram)@
                &&& final(video_sink)@ == old(video_sink)@
            },
            r is Ok ==> exists|b: u8|
                op_result_matches(
                    *opcode,
                    old(self)@,
                    old(memory)@,
                    old(vram)@,
                    keyboard@,
                    b,
                    final(self)@,
                    final(memory)@,
                    final(vram)@,
                    old(video_sink)@,
                    final(video_sink)@,
                ),
    {
        let ghost pre = self@;
        let ghost pre_mem = memory@;
        let ghost pre_vram = vram@;
        let ghost pre_sink = video_sink@;
        match *opcode {
            OpCode::AddReg(x, y) => {
                let sum: u16 = self.v[x as usize] as u16 + self.v[y as usize] as u16;
                self.v[x as usize] = (sum % 256) as u8;
                self.v[15] = if sum > 255 {
                    1
                } else {
                    0
                };
                self.pc = self.pc.wrapping_add(2);
                proof {
                    assert(op_result_matches(*opcode, pre, pre_mem, pre_vram, keyboard@, 0, self@, memory@, vram@, pre_sink, video_sink@));
                }
            },
            _ => {
                proof {
                    assert(false);
                }
            },
        }
        Ok(())
    }

    /// Executes one `SubXY` operation: `Vx - Vy`; `VF` takes the no-borrow flag.
    #[allow(unused_variables)]
    #[verifier::rlimit(100)]
    fn exec_sub_xy(
        &mut self,
        opcode: &OpCode,
        memory: &mut Memory,
        vram: &mut Vram,
        keyboard: &Keyboard,
        video_sink: &mut VideoSink,
    ) -> (r: Result<(), Chip8Error>)
        requires
            op_wf(*opcode),
            *opcode is SubXY,
        ensures
            r is Ok <==> exec_op(*opcode, old(self)@, old(memory)@, old(vram)@, keyboard@, 0) is Ok,
            r matches Err(e) ==> {
                &&& exec_op(*opcode, old(self)@, old(memory)@, old(vram)@, keyboard@, 0)
                    == Err::<StepOut, Chip8Error>(e)
                &&& final(self)@ == old(self)@
                &&& final(memory)@ == old(memory)@
                &&& final(vram)@ == old(vram)@
                &&& final(video_sink)@ == old(video_sink)@
            },
            r is Ok ==> exists|b: u8|
                op_result_matches(
                    *opcode,
                    old(self)@,
                    old(memory)@,
                    old(vram)@,
                    keyboard@,
                    b,
                    final(self)@,
                    final(memory)@,
                    final(vram)@,
                    old(video_sink)@,
                    final(video_sink)@,
                ),
    {
        let ghost pre = self@;
        let ghost pre_mem = memory@;
        let ghost pre_vram = vram@;
        let ghost pre_sink = video_sink@;
        match *opcode {
            OpCode::SubXY(x, y) => {
                let vx = self.v[x as usize];
                let vy = self.v[y as usize];
                self.v[15] = if vx >= vy {
                    1
                } else {
                    0
                };
                self.v[x as usize] = if vx >= vy {
                    vx - vy
                } else {
                    ((vx as u16 + 256 - vy as u16) % 256) as u8
                };
                self.pc = self.pc.wrapping_add(2);
                proof {
                    assert(op_result_matches(*opcode, pre, pre_mem, pre_vram, keyboard@, 0, self@, memory@, vram@, pre_sink, video_sink@));
                }
            },
            _ => {
                proof {
                    assert(false);
                }
            },
        }
        Ok(())
    }

    /// Executes one `SubYX` operation: `Vy - Vx`; `VF` takes the no-borrow flag.
    #[allow(unused_variables)]
    #[verifier::rlimit(100)]
    fn exec_sub_yx(
        &mut self,
        opcode: &OpCode,
        memory: &mut Memory,
        vram: &mut Vram,
        keyboard: &Keyboard,
        video_sink: &mut VideoSink,
    ) -> (r: Result<(), Chip8Error>)
        requires
            op_wf(*opcode),
            *opcode is SubYX,
        ensures
            r is Ok <==> exec_op(*opcode, old(self)@, old(memory)@, old(vram)@, keyboard@, 0) is Ok,
            r matches Err(e) ==> {
                &&& exec_op(*opcode, old(self)@, old(memory)@, old(vram)@, keyboard@, 0)
                    == Err::<StepOut, Chip8Error>(e)
                &&& final(self)@ == old(self)@
                &&& final(memory)@ == old(memory)@
                &&& final(vram)@ == old(vram)@
                &&& final(video_sink)@ == old(video_sink)@
            },
            r is Ok ==> exists|b: u8|
                op_result_matches(
                    *opcode,
                    old(self)@,
                    old(memory)@,
                    old(vram)@,
                    keyboard@,
                    b,
                    final(self)@,
                    final(memory)@,
                    final(vram)@,
                    old(video_sink)@,
                    final(video_sink)@,
                ),
    {
        let ghost pre = self@;
        let ghost pre_mem = memory@;
        let ghost pre_vram = vram@;
        let ghost pre_sink = video_sink@;
        match *opcode {
            OpCode::SubYX(x, y) => {
                let vx = self.v[x as usize];
                let vy = self.v[y as usize];
                self.v[15] = if vy >= vx {
                    1
                } else {
                    0
                };
                self.v[x as usize] = if vy >= vx {
                    vy - vx
                } else {
                    ((vy as u16 + 256 - vx as u16) % 256) as u8
                };
                self.pc = self.pc.wrapping_add(2);
                proof {
                    assert(op_result_matches(*opcode, pre, pre_mem, pre_vram, keyboard@, 0, self@, memory@, vram@, pre_sink, video_sink@));
                }
            },
            _ => {
                proof {
                    assert(false);
                }
            },
        }
        Ok(())
    }

    /// Executes one `ShR` operation: right shift of `Vy` into `Vx`.
    #[allow(unused_variables)]
    #[verifier::rlimit(100)]
    fn exec_shr(
        &mut self,
        opcode: &OpCode,
        memory: &mut Memory,
        vram: &mut Vram,
        keyboard: &Keyboard,
        video_sink: &mut VideoSink,
    ) -> (r: Result<(), Chip8Error>)
        requires
            op_wf(*opcode),
            *opcode is ShR,
        ensures
            r is Ok <==> exec_op(*opcode, old(self)@, old(memory)@, old(vram)@, keyboard@, 0) is Ok,
            r matches Err(e) ==> {
                &&& exec_op(*opcode, old(self)@, old(memory)@, old(vram)@, keyboard@, 0)
                    == Err::<StepOut, Chip8Error>(e)
                &&& final(self)@ == old(self)@
                &&& final(memory)@ == old(memory)@
                &&& final(vram)@ == old(vram)@
                &&& final(video_sink)@ == old(video_sink)@
            },
            r is Ok ==> exists|b: u8|
                op_result_matches(
                    *opcode,
                    old(self)@,
                    old(memory)@,
                    old(vram)@,
                    keyboard@,
                    b,
                    final(self)@,
                    final(memory)@,
                    final(vram)@,
                    old(video_sink)@,
                    final(video_sink)@,
                ),
    {
        let ghost pre = self@;
        let ghost pre_mem = memory@;
        let ghost pre_vram = vram@;
        let ghost pre_sink = video_sink@;
        match *opcode {
            OpCode::ShR(x, y) => {
                let vy = self.v[y as usize];
                self.v[15] = vy & 1;
                self.v[x as usize] = vy >> 1;
                self.pc = self.pc.wrapping_add(2);
                proof {
                    assert(op_result_matches(*opcode, pre, pre_mem, pre_vram, keyboard@, 0, self@, memory@, vram@, pre_sink, video_sink@));
                }
            },
            _ => {
                proof {
                    assert(false);
                }
            },
        }
        Ok(())
    }

    /// Executes one `ShL` operation: left shift of `Vy` into `Vx`.
    #[allow(unused_variables)]
    #[verifier::rlimit(100)]
    fn exec_shl(
        &mut self,
        opcode: &OpCode,
        memory: &mut Memory,
        vram: &mut Vram,
        keyboard: &Keyboard,
        video_sink: &mut VideoSink,
    ) -> (r: Result<(), Chip8Error>)
        requires
            op_wf(*opcode),
            *opcode is ShL,
        ensures
            r is Ok <==> exec_op(*opcode, old(self)@, old(memory)@, old(vram)@, keyboard@, 0) is Ok,
            r matches Err(e) ==> {
                &&& exec_op(*opcode, old(self)@, old(memory)@, old(vram)@, keyboard@, 0)
                    == Err::<StepOut, Chip8Error>(e)
                &&& final(self)@ == old(self)@
                &&& final(memory)@ == old(memory)@
                &&& final(vram)@ == old(vram)@
                &&& final(video_sink)@ == old(video_sink)@
            },
            r is Ok ==> exists|b: u8|
                op_result_matches(
                    *opcode,
                    old(self)@,
                    old(memory)@,
                    old(vram)@,
                    keyboard@,
                    b,
                    final(self)@,
                    final(memory)@,
                    final(vram)@,
                    old(video_sink)@,
                    final(video_sink)@,
                ),
    {
        let ghost pre = self@;
        let ghost pre_mem = memory@;
        let ghost pre_vram = vram@;
        let ghost pre_sink = video_sink@;
        match *opcode {
            OpCode::ShL(x, y) => {
                let vy = self.v[y as usize];
                self.v[15] = (vy >> 7) & 1;
                self.v[x as usize] = vy << 1;
                self.pc = self.pc.wrapping_add(2);
                proof {
                    assert(op_result_matches(*opcode, pre, pre_mem, pre_vram, keyboard@, 0, self@, memory@, vram@, pre_sink, video_sink@));
                }
            },
            _ => {
                proof {
                    assert(false);
                }
            },
        }
        Ok(())
    }

    /// Executes one `GetDelay` operation: read of the delay timer into `Vx`.
    #[allow(unused_variables)]
    #[verifier::rlimit(100)]
    fn exec_get_delay(
        &mut self,
        opcode: &OpCode,
        memory: &mut Memory,
        vram: &mut Vram,
        keyboard: &Keyboard,
        video_sink: &mut VideoSink,
    ) -> (r: Result<(), Chip8Error>)
        requires
            op_wf(*opcode),
            *opcode is GetDelay,
        ensures
            r is Ok <==> exec_op(*opcode, old(self)@, old(memory)@, old(vram)@, keyboard@, 0) is Ok,
            r matches Err(e) ==> {
                &&& exec_op(*opcode, old(self)@, old(memory)@, old(vram)@, keyboard@, 0)
                    == Err::<StepOut, Chip8Error>(e)
                &&& final(self)@ == old(self)@
                &&& final(memory)@ == old(memory)@
                &&& final(vram)@ == old(vram)@
                &&& final(video_sink)@ == old(video_sink)@
            },
            r is Ok ==> exists|b: u8|
                op_result_matches(
                    *opcode,
                    old(self)@,
                    old(memory)@,
                    old(vram)@,
                    keyboard@,
                    b,
                    final(self)@,
                    final(memory)@,
                    final(vram)@,
                    old(video_sink)@,
                    final(video_sink)@,
                ),
    {
        let ghost pre = self@;
        let ghost pre_mem = memory@;
        let ghost pre_vram = vram@;
        let ghost pre_sink = video_sink@;
        match *opcode {
            OpCode::GetDelay(x) => {
                self.v[x as usize] = self.delay_timer;
                self.pc = self.pc.wrapping_add(2);
                proof {
                    assert(op_result_matches(*opcode, pre, pre_mem, pre_vram, keyboard@, 0, self@, memory@, vram@, pre_sink, video_sink@));
                }
            },
            _ => {
                proof {
                    assert(false);
                }
            },
        }
        Ok(())
    }

    /// Executes one `SetDelay` operation: set of the delay timer from `Vx`.
    #[allow(unused_variables)]
    #[verifier::rlimit(100)]
    fn exec_set_delay(
        &mut self,
        opcode: &OpCode,
        memory: &mut Memory,
        vram: &mut Vram,
        keyboard: &Keyboard,
        video_sink: &mut VideoSink,
    ) -> (r: Result<(), Chip8Error>)
        requires
            op_wf(*opcode),
            *opcode is SetDelay,
        ensures
            r is Ok <==> exec_op(*opcode, old(self)@, old(memory)@, old(vram)@, keyboard@, 0) is Ok,
            r matches Err(e) ==> {
                &&& exec_op(*opcode, old(self)@, old(memory)@, old(vram)@, keyboard@, 0)
                    == Err::<StepOut, Chip8Error>(e)
                &&& final(self)@ == old(self)@
                &&& final(memory)@ == old(memory)@
                &&& final(vram)@ == old(vram)@
                &&& final(video_sink)@ == old(video_sink)@
            },
            r is Ok ==> exists|b: u8|
                op_result_matches(
                    *opcode,
                    old(self)@,
                    old(memory)@,
                    old(vram)@,
                    keyboard@,
                    b,
                    final(self)@,
                    final(memory)@,
                    final(vram)@,
                    old(video_sink)@,
                    final(video_sink)@,
                ),
    {
        let ghost pre = self@;
        let ghost pre_mem = memory@;
        let ghost pre_vram = vram@;
        let ghost pre_sink = video_sink@;
        match *opcode {
            OpCode::SetDelay(x) => {
                self.delay_timer = self.v[x as usize];
                self.pc = self.pc.wrapping_add(2);
                proof {
                    assert(op_result_matches(*opcode, pre, pre_mem, pre_vram, keyboard@, 0, self@, memory@, vram@, pre_sink, video_sink@));
                }
            },
            _ => {
                proof {
                    assert(false);
                }
            },
        }
        Ok(())
    }

    /// Executes one `SetSound` operation: set of the sound timer from `Vx`.
    #[allow(unused_variables)]
    #[verifier::rlimit(100)]
    fn exec_set_sound(
        &mut self,
        opcode: &OpCode,
        memory: &mut Memory,
        vram: &mut Vram,
        keyboard: &Keyboard,
        video_sink: &mut VideoSink,
    ) -> (r: Result<(), Chip8Error>)
        requires
            op_wf(*opcode),
            *opcode is SetSound,
        ensures
            r is Ok <==> exec_op(*opcode, old(self)@, old(memory)@, old(vram)@, keyboard@, 0) is Ok,
            r matches Err(e) ==> {
                &&& exec_op(*opcode, old(self)@, old(memory)@, old(vram)@, keyboard@, 0)
                    == Err::<StepOut, Chip8Error>(e)
                &&& final(self)@ == old(self)@
                &&& final(memory)@ == old(memory)@
                &&& final(vram)@ == old(vram)@
                &&& final(video_sink)@ == old(video_sink)@
            },
            r is Ok ==> exists|b: u8|
                op_result_matches(
                    *opcode,
                    old(self)@,
                    old(memory)@,
                    old(vram)@,
                    keyboard@,
                    b,
                    final(self)@,
                    final(memory)@,
                    final(vram)@,
                    old(video_sink)@,
                    final(video_sink)@,
                ),
    {
        let ghost pre = self@;
        let ghost pre_mem = memory@;
        let ghost pre_vram = vram@;
        let ghost pre_sink = video_sink@;
        match *opcode {
            OpCode::SetSound(x) => {
                if self.v[x as usize] > 2 {
                    self.sound_timer = self.v[x as usize];
                }
                self.pc = self.pc.wrapping_add(2);
                proof {
                    assert(op_result_matches(*opcode, pre, pre_mem, pre_vram, keyboard@, 0, self@, memory@, vram@, pre_sink, video_sink@));
                }
            },
            _ => {
                proof {
                    assert(false);
                }
            },
        }
        Ok(())
    }

    /// Executes one `WaitKey` operation: poll for a pressed key, latching the lowest one.
    #[allow(unused_variables)]
    #[verifier::rlimit(100)]
    fn exec_wait_key(
        &mut self,
        opcode: &OpCode,
        memory: &mut Memory,
        vram: &mut Vram,
        keyboard: &Keyboard,
        video_sink: &mut VideoSink,
    ) -> (r: Result<(), Chip8Error>)
        requires
            op_wf(*opcode),
            *opcode is WaitKey,
        ensures
            r is Ok <==> exec_op(*opcode, old(self)@, old(memory)@, old(vram)@, keyboard@, 0) is Ok,
            r matches Err(e) ==> {
                &&& exec_op(*opcode, old(self)@, old(memory)@, old(vram)@, keyboard@, 0)
                    == Err::<StepOut, Chip8Error>(e)
                &&& final(self)@ == old(self)@
                &&& final(memory)@ == old(memory)@
                &&& final(vram)@ == old(vram)@
                &&& final(video_sink)@ == old(video_sink)@
            },
            r is Ok ==> exists|b: u8|
                op_result_matches(
                    *opcode,
                    old(self)@,
                    old(memory)@,
                    old(vram)@,
                    keyboard@,
                    b,
                    final(self)@,
                    final(memory)@,
                    final(vram)@,
                    old(video_sink)@,
                    final(video_sink)@,
                ),
    {
        let ghost pre = self@;
        let ghost pre_mem = memory@;
        let ghost pre_vram = vram@;
        let ghost pre_sink = video_sink@;
        match *opcode {
            OpCode::WaitKey(x) => {
                match Self::first_pressed(keyboard) {
                    Some(k) => {
                        self.v[x as usize] = k;
                        self.pc = self.pc.wrapping_add(2);
                    },
                    None => {},
                }
                proof {
                    assert(op_result_matches(*opcode, pre, pre_mem, pre_vram, keyboard@, 0, self@, memory@, vram@, pre_sink, video_sink@));
                }
            },
            _ => {
                proof {
                    assert(false);
                }
            },
        }
        Ok(())
    }

    /// Executes one `Random` operation: draw of a masked random byte into `Vx`.
    #[allow(unused_variables)]
    #[verifier::rlimit(100)]
    fn exec_random(
        &mut self,
        opcode: &OpCode,
        memory: &mut Memory,
        vram: &mut Vram,
        keyboard: &Keyboard,
        video_sink: &mut VideoSink,
    ) -> (r: Result<(), Chip8Error>)
        requires
            op_wf(*opcode),
            *opcode is Random,
        ensures
            r is Ok <==> exec_op(*opcode, old(self)@, old(memory)@, old(vram)@, keyboard@, 0) is Ok,
            r matches Err(e) ==> {
                &&& exec_op(*opcode, old(self)@, old(memory)@, old(vram)@, keyboard@, 0)
                    == Err::<StepOut, Chip8Error>(e)
                &&& final(self)@ == old(self)@
                &&& final(memory)@ == old(memory)@
                &&& final(vram)@ == old(vram)@
                &&& final(video_sink)@ == old(video_sink)@
            },
            r is Ok ==> exists|b: u8|
                op_result_matches(
                    *opcode,
                    old(self)@,
                    old(memory)@,
                    old(vram)@,
                    keyboard@,
                    b,
                    final(self)@,
                    final(memory)@,
                    final(vram)@,
                    old(video_sink)@,
                    final(video_sink)@,
                ),
    {
        let ghost pre = self@;
        let ghost pre_mem = memory@;
        let ghost pre_vram = vram@;
        let ghost pre_sink = video_sink@;
        match *opcode {
            OpCode::Random(x, k) => {
                let b = random_byte();
                self.v[x as usize] = b & k;
                self.pc = self.pc.wrapping_add(2);
                proof {
                    assert(op_result_matches(*opcode, pre, pre_mem, pre_vram, keyboard@, b, self@, memory@, vram@, pre_sink, video_sink@));
                }
            },
            _ => {
                proof {
                    assert(false);
                }
            },
        }
        Ok(())
    }

    /// Executes one `AddIndex` operation: add of `Vx` to the index register.
    #[allow(unused_variables)]
    #[verifier::rlimit(100)]
    fn exec_add_index(
        &mut self,
        opcode: &OpCode,
        memory: &mut Memory,
        vram: &mut Vram,
        keyboard: &Keyboard,
        video_sink: &mut VideoSink,
    ) -> (r: Result<(), Chip8Error>)
        requires
            op_wf(*opcode),
            *opcode is AddIndex,
        ensures
            r is Ok <==> exec_op(*opcode, old(self)@, old(memory)@, old(vram)@, keyboard@, 0) is Ok,
            r matches Err(e) ==> {
                &&& exec_op(*opcode, old(self)@, old(memory)@, old(vram)@, keyboard@, 0)
                    == Err::<StepOut, Chip8Error>(e)
                &&& final(self)@ == old(self)@
                &&& final(memory)@ == old(memory)@
                &&& final(vram)@ == old(vram)@
                &&& final(video_sink)@ == old(video_sink)@
            },
            r is Ok ==> exists|b: u8|
                op_result_matches(
                    *opcode,
                    old(self)@,
                    old(memory)@,
                    old(vram)@,
                    keyboard@,
                    b,
                    final(self)@,
                    final(memory)@,
                    final(vram)@,
                    old(video_sink)@,
                    final(video_sink)@,
                ),
    {
        let ghost pre = self@;
        let ghost pre_mem = memory@;
        let ghost pre_vram = vram@;
        let ghost pre_sink = video_sink@;
        match *opcode {
            OpCode::AddIndex(x) => {
                let vx = self.v[x as usize];
                self.v[15] = if self.i as u32 + vx as u32 > 0xFFF {
                    1
                } else {
                    0
                };
                self.i = self.i.wrapping_add(vx as u16);
                self.pc = self.pc.wrapping_add(2);
                proof {
                    assert(op_result_matches(*opcode, pre, pre_mem, pre_vram, keyboard@, 0, self@, memory@, vram@, pre_sink, video_sink@));
                }
            },
            _ => {
                proof {
                    assert(false);
                }
            },
        }
        Ok(())
    }

    /// Executes one `FontAddr` operation: pointing the index register at a font glyph.
    #[allow(unused_variables)]
    #[verifier::rlimit(100)]
    fn exec_font_addr(
        &mut self,
        opcode: &OpCode,
        memory: &mut Memory,
        vram: &mut Vram,
        keyboard: &Keyboard,
        video_sink: &mut VideoSink,
    ) -> (r: Result<(), Chip8Error>)
        requires
            op_wf(*opcode),
            *opcode is FontAddr,
        ensures
            r is Ok <==> exec_op(*opcode, old(self)@, old(memory)@, old(vram)@, keyboard@, 0) is Ok,
            r matches Err(e) ==> {
                &&& exec_op(*opcode, old(self)@, old(memory)@, old(vram)@, keyboard@, 0)
                    == Err::<StepOut, Chip8Error>(e)
                &&& final(self)@ == old(self)@
                &&& final(memory)@ == old(memory)@
                &&& final(vram)@ == old(vram)@
                &&& final(video_sink)@ == old(video_sink)@
            },
            r is Ok ==> exists|b: u8|
                op_result_matches(
                    *opcode,
                    old(self)@,
                    old(memory)@,
                    old(vram)@,
                    keyboard@,
                    b,
                    final(self)@,
                    final(memory)@,
                    final(vram)@,
                    old(video_sink)@,
                    final(video_sink)@,
                ),
    {
        let ghost pre = self@;
        let ghost pre_mem = memory@;
        let ghost pre_vram = vram@;
        let ghost pre_sink = video_sink@;
        match *opcode {
            OpCode::FontAddr(x) => {
                self.i = self.v[x as usize] as u16 * crate::memory::FONT_GLYPH_SIZE as u16;
                self.pc = self.pc.wrapping_add(2);
                proof {
                    assert(op_result_matches(*opcode, pre, pre_mem, pre_vram, keyboard@, 0, self@, memory@, vram@, pre_sink, video_sink@));
                }
            },
            _ => {
                proof {
                    assert(false);
                }
            },
        }
        Ok(())
    }

    /// Runs one whole cycle: fetch, decode, execute, then tick both
    /// timers down, exactly as [`cycle`] describes. Leaves the audio
    /// signal for the cycle in `audio_sink`: `Play` exactly when the
    /// sound timer is still running. An `Err` is fatal and leaves
    /// everything unchanged.
    pub fn tick(
        &mut self,
        memory: &mut Memory,
        vram: &mut Vram,
        keyboard: &Keyboard,
        video_sink: &mut VideoSink,
        audio_sink: &mut AudioSink,
    ) -> (r: Result<(), Chip8Error>)
        ensures
            r is Ok <==> cycle(old(self)@, old(memory)@, old(vram)@, keyboard@, 0) is Ok,
            r matches Err(e) ==> {
                &&& cycle(old(self)@, old(memory)@, old(vram)@, keyboard@, 0)
                    == Err::<StepOut, Chip8Error>(e)
                &&& final(self)@ == old(self)@
                &&& final(memory)@ == old(memory)@
                &&& final(vram)@ == old(vram)@
                &&& final(video_sink)@ == old(video_sink)@
                &&& final(audio_sink).event == old(audio_sink).event
            },
            r is Ok ==> exists|b: u8|
                cycle_result_matches(
                    old(self)@,
                    old(memory)@,
                    old(vram)@,
                    keyboard@,
                    b,
                    final(self)@,
                    final(memory)@,
                    final(vram)@,
                    old(video_sink)@,
                    final(video_sink)@,
                ),
            r is Ok ==> final(audio_sink).event == Some(
                if final(self)@.sound_timer > 0 {
                    AudioEvent::Play
                } else {
                    AudioEvent::Stop
                },
            ),
    {
        let ghost pre = self@;
        let ghost pre_mem = memory@;
        let ghost pre_vram = vram@;
        let ghost pre_sink = video_sink@;
        let data = match self.fetch(memory) {
            Ok(d) => d,
            Err(e) => {
                return Err(e);
            },
        };
        let opcode = match self.decode(data) {
            Ok(op) => op,
            Err(e) => {
                return Err(e);
            },
        };
        match self.execute(&opcode, memory, vram, keyboard, video_sink) {
            Ok(u) => u,
            Err(e) => {
                return Err(e);
            },
        };
        let ghost b = choose|b: u8|
            op_result_matches(
                opcode,
                pre,
                pre_mem,
                pre_vram,
                keyboard@,
                b,
                self@,
                memory@,
                vram@,
                pre_sink,
                video_sink@,
            );
        self.delay_timer = if self.delay_timer > 0 {
            self.delay_timer - 1
        } else {
            0
        };
        self.sound_timer = if self.sound_timer > 0 {
            self.sound_timer - 1
        } else {
            0
        };
        audio_sink.event = Some(
            if self.sound_timer > 0 {
                AudioEvent::Play
            } else {
                AudioEvent::Stop
            },
        );
        proof {
            assert(cycle_result_matches(
                pre,
                pre_mem,
                pre_vram,
                keyboard@,
                b,
                self@,
                memory@,
                vram@,
                pre_sink,
                video_sink@,
            ));
        }
        Ok(())
    }
}

} // verus!
