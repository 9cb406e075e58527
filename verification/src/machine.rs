//! The owning machine value: processor, memory and video memory behind a
//! single `step` entry point. The host owns the keyboard (its input
//! adapter mutates it between steps) and the two sinks the machine
//! reports frames and audio events through.

use vstd::prelude::*;

use crate::audio::AudioEvent;
use crate::audio::AudioSink;
use crate::cpu::Cpu;
use crate::cpu::CpuView;
use crate::cpu::cycle;
use crate::cpu::cycle_result_matches;
use crate::cpu::StepOut;
use crate::error::Chip8Error;
use crate::keyboard::Keyboard;
use crate::memory::loaded_memory;
use crate::memory::Memory;
use crate::memory::MEMORY_SIZE;
use crate::memory::PROGRAM_START;
use crate::program::Program;
use crate::vram::VideoSink;
use crate::vram::Vram;

verus! {

/// The machine state as the contracts speak of it.
#[verifier::ext_equal]
pub ghost struct MachineView {
    /// The processor state.
    pub cpu: CpuView,
    /// The memory contents.
    pub mem: Seq<u8>,
    /// The pixel grid, row-major.
    pub vram: Seq<bool>,
}

/// The virtual machine. Its view is a [`MachineView`].
pub struct Chip8 {
    cpu: Cpu,
    memory: Memory,
    vram: Vram,
}

impl View for Chip8 {
    type V = MachineView;

    closed spec fn view(&self) -> MachineView {
        MachineView { cpu: self.cpu@, mem: self.memory@, vram: self.vram@ }
    }
}

impl Chip8 {
    /// A machine in its initial state: fresh processor, zeroed memory,
    /// dark screen.
    pub fn new() -> (m: Chip8)
        ensures
            m@.cpu.v == Seq::new(crate::cpu::REGISTER_COUNT as nat, |j: int| 0u8),
            m@.cpu.i == 0,
            m@.cpu.delay_timer == 0,
            m@.cpu.sound_timer == 0,
            m@.cpu.pc == crate::cpu::PC_START,
            m@.cpu.stack == Seq::<u16>::empty(),
            m@.mem == Seq::new(MEMORY_SIZE as nat, |j: int| 0u8),
            m@.vram == crate::vram::blank_grid(),
    {
        Chip8 { cpu: Cpu::new(), memory: Memory::new(), vram: Vram::new() }
    }

    /// Loads a program image into memory: font table, zero padding, then
    /// the image from `0x200` on. Fails with `ProgramTooLarge` when the
    /// image does not fit, leaving the machine unchanged.
    pub fn load_program(&mut self, program: &Program) -> (r: Result<(), Chip8Error>)
        ensures
            r is Ok <==> PROGRAM_START + program.data@.len() <= MEMORY_SIZE,
            r is Ok ==> final(self)@ == (MachineView {
                mem: loaded_memory(old(self)@.mem, program.data@),
                ..old(self)@
            }),
            r is Err ==> r == Err::<(), Chip8Error>(Chip8Error::ProgramTooLarge)
                && final(self)@ == old(self)@,
    {
        let r = self.memory.load_program(program);
        proof {
            if r is Ok {
                assert(self@ =~= (MachineView {
                    mem: loaded_memory(old(self)@.mem, program.data@),
                    ..old(self)@
                }));
            } else {
                assert(self@ =~= old(self)@);
            }
        }
        r
    }

    /// Runs one cycle, as [`cycle`] describes: fetch at the program
    /// counter, decode, execute, tick the timers down. A draw leaves the
    /// new frame in `video_sink`; the audio signal for the cycle is left
    /// in `audio_sink`. An `Err` is fatal and leaves everything
    /// unchanged.
    pub fn step(
        &mut self,
        keyboard: &Keyboard,
        video_sink: &mut VideoSink,
        audio_sink: &mut AudioSink,
    ) -> (r: Result<(), Chip8Error>)
        ensures
            r is Ok <==> cycle(old(self)@.cpu, old(self)@.mem, old(self)@.vram, keyboard@, 0) is Ok,
            r matches Err(e) ==> {
                &&& cycle(old(self)@.cpu, old(self)@.mem, old(self)@.vram, keyboard@, 0)
                    == Err::<StepOut, Chip8Error>(e)
                &&& final(self)@ == old(self)@
                &&& final(video_sink)@ == old(video_sink)@
                &&& final(audio_sink).event == old(audio_sink).event
            },
            r is Ok ==> exists|b: u8|
                cycle_result_matches(
                    old(self)@.cpu,
                    old(self)@.mem,
                    old(self)@.vram,
                    keyboard@,
                    b,
                    final(self)@.cpu,
                    final(self)@.mem,
                    final(self)@.vram,
                    old(video_sink)@,
                    final(video_sink)@,
                ),
            r is Ok ==> final(audio_sink).event == Some(
                if final(self)@.cpu.sound_timer > 0 {
                    AudioEvent::Play
                } else {
                    AudioEvent::Stop
                },
            ),
    {
        let ghost pre = self@;
        let ghost pre_sink = video_sink@;
        let r = self.cpu.tick(&mut self.memory, &mut self.vram, keyboard, video_sink, audio_sink);
        proof {
            if r is Ok {
                let b = choose|b: u8|
                    cycle_result_matches(
                        pre.cpu,
                        pre.mem,
                        pre.vram,
                        keyboard@,
                        b,
                        self.cpu@,
                        self.memory@,
                        self.vram@,
                        pre_sink,
                        video_sink@,
                    );
                assert(cycle_result_matches(
                    pre.cpu,
                    pre.mem,
                    pre.vram,
                    keyboard@,
                    b,
                    self@.cpu,
                    self@.mem,
                    self@.vram,
                    pre_sink,
                    video_sink@,
                ));
            }
        }
        r
    }

    /// The pixel at `(row, col)` of the screen.
    pub fn pixel(&self, row: usize, col: usize) -> (p: bool)
        requires
            row < crate::vram::HEIGHT,
            col < crate::vram::WIDTH,
        ensures
            p == self@.vram[row as int * crate::vram::WIDTH + col as int],
    {
        self.vram.pixel(row, col)
    }

    /// The program counter.
    pub fn pc(&self) -> (p: u16)
        ensures
            p == self@.cpu.pc,
    {
        self.cpu.pc()
    }

    /// The value of register `Vx`.
    pub fn register(&self, x: u8) -> (v: u8)
        requires
            x < crate::cpu::REGISTER_COUNT,
        ensures
            v == self@.cpu.v[x as int],
    {
        self.cpu.register(x)
    }

    /// The delay timer.
    pub fn delay(&self) -> (t: u8)
        ensures
            t == self@.cpu.delay_timer,
    {
        self.cpu.delay()
    }

    /// The sound timer.
    pub fn sound(&self) -> (t: u8)
        ensures
            t == self@.cpu.sound_timer,
    {
        self.cpu.sound()
    }

    /// The byte at `address` of memory, for the host's inspection.
    pub fn read_memory(&self, address: u16) -> (r: Result<u8, Chip8Error>)
        ensures
            address < MEMORY_SIZE ==> r == Ok::<u8, Chip8Error>(self@.mem[address as int]),
            address >= MEMORY_SIZE ==> r == Err::<u8, Chip8Error>(Chip8Error::OutOfBounds(address)),
    {
        self.memory.read(address)
    }
}

} // verus!
