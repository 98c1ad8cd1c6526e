//! Core of a virtual machine for a 1991 cinematic adventure game: resource
//! pager, bytecode interpreter, polygon renderer and tracker-style mixer.
//!
//! Everything here works on plain values. The embedding program reads the
//! data files, hands their bytes over, and performs the effects that the
//! machine asks for (frames to present, sounds to play, time to wait).

pub mod bytekiller;
pub mod bytes;
pub mod data;
pub mod host;
pub mod mem;
pub mod pak;
pub mod script;
pub mod sfx;
pub mod video;

use data::{Tables, TablesView};
use host::{commands_view, CommandView, HostCommand};
use mem::{Memory, MemoryView};
use script::{input_updated, staged, tasks_run, Input, Progress, Vm, VmView};
use sfx::{Player, PlayerView};
use video::{VideoContext, VideoView};
use vstd::prelude::*;

verus! {

/// What stops the machine for good.
#[derive(Clone, Copy, Debug, PartialEq, Eq, Structural)]
pub enum Error {
    /// A data file is missing or shorter than what is to be read from it.
    Io,
    /// The data contradicts itself: a packed stream that does not unpack, an
    /// unknown opcode, a read outside the arena, a call stack that
    /// overflows.
    Corrupt,
    /// A resource does not fit below the arena's bitmap scratch area.
    OutOfArena,
}

/// Whether an operation that reports `res` and leaves `after` behind did
/// what `expected` says: the same state on success, the same error else.
pub open spec fn agrees<T>(res: Result<(), Error>, after: T, expected: Result<T, Error>) -> bool {
    match res {
        Ok(()) => expected == Ok::<T, Error>(after),
        Err(e) => expected == Err::<T, Error>(e),
    }
}

/// The whole machine.
pub struct Game {
    pub(crate) mem: Memory,
    pub(crate) vm: Vm,
    pub(crate) video: VideoContext,
    pub(crate) current_part: u16,
    pub(crate) next_part: Option<u16>,
    pub(crate) screen_num: Option<i16>,
    pub(crate) next_pal: Option<u8>,
    pub(crate) looping_gun_quirk: bool,
    pub(crate) bypass_protection: bool,
    pub(crate) music: Player,
    pub(crate) input: Input,
    pub(crate) tables: Tables,
    pub(crate) commands: Vec<HostCommand>,
}

/// What a `Game` holds.
#[verifier::ext_equal]
pub struct GameView {
    pub mem: MemoryView,
    pub vm: VmView,
    pub video: VideoView,
    /// The part that is set up; zero before the first.
    pub current_part: u16,
    /// The part that a script has asked for.
    pub next_part: Option<u16>,
    /// The screen that the scripts last announced.
    pub screen_num: Option<i16>,
    /// The palette that the next display update puts in force.
    pub next_pal: Option<u8>,
    /// Whether the gun sound that an old script leaves looping is left so.
    pub looping_gun_quirk: bool,
    pub bypass_protection: bool,
    pub music: PlayerView,
    pub input: Input,
    pub tables: TablesView,
    /// What the host has still to do, oldest first.
    pub commands: Seq<CommandView>,
}

impl View for Game {
    type V = GameView;

    open(crate) spec fn view(&self) -> GameView {
        GameView {
            mem: self.mem@,
            vm: self.vm@,
            video: self.video@,
            current_part: self.current_part,
            next_part: self.next_part,
            screen_num: self.screen_num,
            next_pal: self.next_pal,
            looping_gun_quirk: self.looping_gun_quirk,
            bypass_protection: self.bypass_protection,
            music: self.music@,
            input: self.input,
            tables: self.tables@,
            commands: commands_view(self.commands@),
        }
    }
}

impl GameView {
    pub open spec fn wf(self) -> bool {
        &&& self.mem.wf()
        &&& self.vm.wf()
        &&& self.video.wf()
        &&& self.music.wf()
        &&& self.tables.wf()
    }
}

impl Game {
    pub open spec fn wf(&self) -> bool {
        self@.wf()
    }

    /// A machine with nothing set up: no part, no music, nothing asked of
    /// the host.
    pub fn new(
        mem: Memory,
        vm: Vm,
        video: VideoContext,
        tables: Tables,
        bypass_protection: bool,
        looping_gun_quirk: bool,
    ) -> (g: Self)
        requires
            mem@.wf(),
            vm.wf(),
            video.wf(),
            tables@.wf(),
        ensures
            g.wf(),
            g@ == (GameView {
                mem: mem@,
                vm: vm@,
                video: video@,
                current_part: 0,
                next_part: None,
                screen_num: None,
                next_pal: None,
                looping_gun_quirk,
                bypass_protection,
                music: sfx::idle_player(),
                input: Input {
                    last_char: None,
                    right: false,
                    left: false,
                    down: false,
                    up: false,
                    button: false,
                },
                tables: tables@,
                commands: Seq::empty(),
            }),
    {
        let g = Game {
            mem,
            vm,
            video,
            current_part: 0,
            next_part: None,
            screen_num: None,
            next_pal: None,
            looping_gun_quirk,
            bypass_protection,
            music: Player::new(),
            input: Input::default(),
            tables,
            commands: Vec::new(),
        };
        assert(g@.commands =~= Seq::empty());
        g
    }

    pub fn mem(&self) -> (m: &Memory)
        ensures
            m@ == self@.mem,
    {
        &self.mem
    }

    pub fn vm(&self) -> (vm: &Vm)
        ensures
            vm@ == self@.vm,
    {
        &self.vm
    }

    pub fn video(&self) -> (v: &VideoContext)
        ensures
            v@ == self@.video,
    {
        &self.video
    }

    pub fn music(&self) -> (p: &Player)
        ensures
            p@ == self@.music,
    {
        &self.music
    }

    pub fn current_part(&self) -> (part: u16)
        ensures
            part == self@.current_part,
    {
        self.current_part
    }

    pub fn screen_num(&self) -> (n: Option<i16>)
        ensures
            n == self@.screen_num,
    {
        self.screen_num
    }

    pub fn next_pal(&self) -> (n: Option<u8>)
        ensures
            n == self@.next_pal,
    {
        self.next_pal
    }

    pub fn next_part(&self) -> (part: Option<u16>)
        ensures
            part == self@.next_part,
    {
        self.next_part
    }

    pub fn input(&self) -> (i: Input)
        ensures
            i == self@.input,
    {
        self.input
    }

    /// Tells the machine the state of the controls.
    pub fn set_input(&mut self, input: Input)
        ensures
            final(self)@ == (GameView { input, ..old(self)@ }),
    {
        self.input = input;
    }

    /// Tells the machine the host time of a display update.
    pub fn set_last_swap_time(&mut self, now_ms: u64)
        ensures
            final(self)@ == (GameView {
                vm: VmView { last_swap_time: now_ms, ..old(self)@.vm },
                ..old(self)@
            }),
    {
        self.vm.set_last_swap_time(now_ms);
    }

    /// Hands over what the host has still to do and forgets it.
    pub fn take_commands(&mut self) -> (q: Vec<HostCommand>)
        ensures
            commands_view(q@) == old(self)@.commands,
            final(self)@ == (GameView { commands: Seq::empty(), ..old(self)@ }),
    {
        let mut q: Vec<HostCommand> = Vec::new();
        core::mem::swap(&mut q, &mut self.commands);
        assert(self@.commands =~= Seq::empty());
        q
    }
}

/// What a call of `run_frame` does: it starts a frame, unless one is under
/// way, and runs it as far as it gets.
pub open spec fn frame_run(g: GameView, now_ms: u64, budget: nat) -> Result<
    (GameView, Progress),
    Error,
> {
    if g.vm.mid_frame() {
        tasks_run(g, budget)
    } else {
        match staged(g, now_ms) {
            Err(e) => Err(e),
            Ok(g1) => tasks_run(input_updated(g1), budget),
        }
    }
}

/// Runs a frame until it is over or the host has something to do, and is
/// to be called again, after that was done, until the frame is over.
///
/// `now_ms` is the host's time; `budget` is the number of instructions that
/// a task may execute without the call returning.
pub fn run_frame(g: &mut Game, now_ms: u64, budget: u32) -> (r: Result<Progress, Error>)
    requires
        old(g).wf(),
    ensures
        final(g).wf(),
        match r {
            Ok(p) => frame_run(old(g)@, now_ms, budget as nat) == Ok::<(GameView, Progress), Error>(
                (final(g)@, p),
            ),
            Err(e) => frame_run(old(g)@, now_ms, budget as nat) == Err::<
                (GameView, Progress),
                Error,
            >(e),
        },
        script::res_is_frame_done(r) <==> r is Ok && !final(g)@.vm.mid_frame(),
{
    if !g.vm.is_mid_frame() {
        script::stage_tasks(g, now_ms)?;
        script::update_input(g);
    }
    script::run_tasks(g, budget)
}

} // verus!
