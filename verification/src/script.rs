//! The task machine: 256 registers, 64 cooperative tasks and the
//! interpreter of their bytecode.

use crate::host::CommandView;
use crate::mem::{self, MemoryView};
use crate::sfx::{self, PlayerView};
use crate::video::{self, VideoView};
use crate::{agrees, Error, Game, GameView};
use rand::Rng;
use vstd::prelude::*;

verus! {

pub const CALL_STACK_SIZE: u8 = 64;

pub const TASK_COUNT: usize = 64;

/// Program counter of a task that does not run.
pub const HALT_PC: u16 = 0xFFFF;

/// Program counter that, when staged, halts a task at the next frame.
pub const PRE_HALT_PC: u16 = 0xFFFE;

pub const REG_RANDOM_SEED: usize = 0x3C;

pub const REG_SCREEN_NUM: usize = 0x67;

pub const REG_LAST_KEYCHAR: usize = 0xDA;

pub const REG_HERO_POS_UP_DOWN: usize = 0xE5;

pub const REG_MUSIC_SYNC: usize = 0xF4;

pub const REG_SCROLL_Y: usize = 0xF9;

pub const REG_HERO_ACTION: usize = 0xFA;

pub const REG_HERO_POS_JUMP_DOWN: usize = 0xFB;

pub const REG_HERO_POS_LEFT_RIGHT: usize = 0xFC;

pub const REG_HERO_POS_MASK: usize = 0xFD;

pub const REG_HERO_ACTION_POS_MASK: usize = 0xFE;

pub const REG_PAUSE_SLICES: usize = 0xFF;

/// One of the 64 execution contexts.
#[derive(Clone, Copy, Debug, PartialEq, Eq, Structural)]
pub struct Task {
    pub pc: u16,
    pub frozen: bool,
}

/// A task that does not run.
pub open spec fn idle_task() -> Task {
    Task { pc: HALT_PC, frozen: false }
}

pub struct Vm {
    pub(crate) regs: [i16; 256],
    pub(crate) call_stack: [u16; 64],
    pub(crate) pc: u16,
    pub(crate) sp: u8,
    pub(crate) tasks: [Task; 64],
    pub(crate) pending_tasks: [Task; 64],
    pub(crate) needs_yield: bool,
    pub(crate) last_swap_time: u64,
    pub(crate) cursor: u8,
    pub(crate) in_task: bool,
}

/// What a `Vm` holds.
#[verifier::ext_equal]
pub struct VmView {
    pub regs: Seq<i16>,
    pub call_stack: Seq<u16>,
    /// Program counter of the task that runs.
    pub pc: u16,
    /// Number of return addresses on the call stack.
    pub sp: u8,
    pub tasks: Seq<Task>,
    /// What the next frame's staging will make of each task.
    pub pending_tasks: Seq<Task>,
    pub needs_yield: bool,
    /// Host time in milliseconds when the display was last updated.
    pub last_swap_time: u64,
    /// The task whose turn it is in the current frame.
    pub cursor: u8,
    /// Whether that task has started its turn and not yet ended it.
    pub in_task: bool,
}

impl View for Vm {
    type V = VmView;

    open(crate) spec fn view(&self) -> VmView {
        VmView {
            regs: self.regs@,
            call_stack: self.call_stack@,
            pc: self.pc,
            sp: self.sp,
            tasks: self.tasks@,
            pending_tasks: self.pending_tasks@,
            needs_yield: self.needs_yield,
            last_swap_time: self.last_swap_time,
            cursor: self.cursor,
            in_task: self.in_task,
        }
    }
}

impl VmView {
    pub open spec fn wf(self) -> bool {
        &&& self.regs.len() == 256
        &&& self.call_stack.len() == 64
        &&& self.tasks.len() == 64
        &&& self.pending_tasks.len() == 64
        &&& self.sp <= 64
        &&& self.cursor <= 64
        &&& self.in_task ==> self.cursor < 64
    }

    /// Whether a frame is under way: some task has had its turn, or has
    /// started it.
    pub open spec fn mid_frame(self) -> bool {
        self.cursor != 0 || self.in_task
    }
}

/// The registers that a new machine starts with: the seed in its place,
/// and, where the protection is bypassed, what the protection screen would
/// have left behind.
pub open spec fn initial_regs(seed: i16, bypass_protection: bool) -> Seq<i16> {
    let r = Seq::new(256, |i: int| 0i16).update(REG_RANDOM_SEED as int, seed);
    if bypass_protection {
        r.update(0xBC, 0x10).update(0xC6, 0x80).update(0xF2, 4000).update(0xDC, 33)
    } else {
        r
    }
}

/// A machine that has not run yet.
pub open spec fn initial_vm(seed: i16, bypass_protection: bool) -> VmView {
    VmView {
        regs: initial_regs(seed, bypass_protection),
        call_stack: Seq::new(64, |i: int| 0u16),
        pc: 0,
        sp: 0,
        tasks: Seq::new(64, |i: int| idle_task()),
        pending_tasks: Seq::new(64, |i: int| idle_task()),
        needs_yield: false,
        last_swap_time: 0,
        cursor: 0,
        in_task: false,
    }
}

/// Calls `rand::thread_rng().gen::<i16>()`, which draws a number from the
/// thread's generator. Nothing is claimed of the number.
#[verifier::external_body]
fn random_seed() -> i16 {
    rand::thread_rng().gen()
}

impl Vm {
    pub open spec fn wf(&self) -> bool {
        self@.wf()
    }

    /// A machine that has not run yet, with a seed drawn at random.
    pub fn new(bypass_protection: bool) -> (vm: Self)
        ensures
            vm.wf(),
            exists|seed: i16| vm@ == initial_vm(seed, bypass_protection),
    {
        Vm::with_seed(random_seed(), bypass_protection)
    }

    /// A machine that has not run yet, with the given seed.
    pub fn with_seed(seed: i16, bypass_protection: bool) -> (vm: Self)
        ensures
            vm.wf(),
            vm@ == initial_vm(seed, bypass_protection),
    {
        let idle = Task { pc: HALT_PC, frozen: false };
        let mut vm = Vm {
            regs: [0i16;256],
            call_stack: [0u16;64],
            pc: 0,
            sp: 0,
            tasks: [idle;64],
            pending_tasks: [idle;64],
            needs_yield: false,
            last_swap_time: 0,
            cursor: 0,
            in_task: false,
        };
        assert(vm.regs@ =~= Seq::new(256, |i: int| 0i16));
        vm.regs[REG_RANDOM_SEED] = seed;
        if bypass_protection {
            vm.regs[0xBC] = 0x10;
            vm.regs[0xC6] = 0x80;
            vm.regs[0xF2] = 4000;
            vm.regs[0xDC] = 33;
        }
        assert(vm@.call_stack =~= initial_vm(seed, bypass_protection).call_stack);
        assert(vm@.tasks =~= initial_vm(seed, bypass_protection).tasks);
        assert(vm@.pending_tasks =~= initial_vm(seed, bypass_protection).pending_tasks);
        vm
    }

    /// Puts the value that the music sends to the scripts into its register.
    pub fn sync_music(&mut self, val: u16)
        ensures
            final(self)@ == (VmView {
                regs: old(self)@.regs.update(REG_MUSIC_SYNC as int, val as i16),
                ..old(self)@
            }),
    {
        self.regs[REG_MUSIC_SYNC] = val as i16;
    }

    /// Whether a frame is under way.
    pub fn is_mid_frame(&self) -> (b: bool)
        ensures
            b == self@.mid_frame(),
    {
        self.cursor != 0 || self.in_task
    }

    /// Register `i`.
    pub fn reg(&self, i: u8) -> (v: i16)
        ensures
            v == self@.regs[i as int],
    {
        self.regs[i as usize]
    }

    /// Program counter of task `id`.
    pub fn task_pc(&self, id: u8) -> (pc: u16)
        requires
            id < 64,
        ensures
            pc == self@.tasks[id as int].pc,
    {
        self.tasks[id as usize].pc
    }

    /// Whether task `id` is frozen.
    pub fn task_frozen(&self, id: u8) -> (frozen: bool)
        requires
            id < 64,
        ensures
            frozen == self@.tasks[id as int].frozen,
    {
        self.tasks[id as usize].frozen
    }

    /// Records the host time of a display update.
    pub fn set_last_swap_time(&mut self, now_ms: u64)
        ensures
            final(self)@ == (VmView { last_swap_time: now_ms, ..old(self)@ }),
    {
        self.last_swap_time = now_ms;
    }

    pub fn last_swap_time(&self) -> (t: u64)
        ensures
            t == self@.last_swap_time,
    {
        self.last_swap_time
    }
}

/// The state of the controls.
#[derive(Clone, Copy, Debug, PartialEq, Eq, Structural)]
pub struct Input {
    pub last_char: Option<u8>,
    pub right: bool,
    pub left: bool,
    pub down: bool,
    pub up: bool,
    pub button: bool,
}

impl Default for Input {
    fn default() -> (i: Self)
        ensures
            i == (Input {
                last_char: None,
                right: false,
                left: false,
                down: false,
                up: false,
                button: false,
            }),
    {
        Input { last_char: None, right: false, left: false, down: false, up: false, button: false }
    }
}

/// Whether the password screen takes the key: backspace or a lower-case
/// letter.
pub open spec fn valid_keychar(c: u8) -> bool {
    c == 0x08 || (0x61 <= c <= 0x7A)
}

fn is_valid_keychar(c: u8) -> (b: bool)
    ensures
        b == valid_keychar(c),
{
    c == 0x08 || (0x61 <= c && c <= 0x7A)
}

/// A direction from two opposite controls: -1 for the first, 1 for the
/// second alone, 0 for neither.
pub open spec fn direction(ul: bool, rd: bool) -> i16 {
    if ul {
        -1i16
    } else if rd {
        1i16
    } else {
        0i16
    }
}

fn make_dir(ul: bool, rd: bool) -> (d: i16)
    ensures
        d == direction(ul, rd),
{
    if ul {
        -1
    } else if rd {
        1
    } else {
        0
    }
}

/// Whether the next `n` bytes of code can be fetched: they lie in the
/// arena, and the program counter can move past them.
pub open spec fn code_avail(g: GameView, n: int) -> bool {
    g.vm.pc + n <= 0xFFFF && g.mem.seg_code + g.vm.pc + n <= g.mem.data.len()
}

/// Byte `k` of the code from the program counter on.
pub open spec fn code_u8(g: GameView, k: int) -> u8 {
    g.mem.data[g.mem.seg_code + g.vm.pc + k]
}

/// The big-endian word at byte `k` of the code from the program counter on.
pub open spec fn code_u16(g: GameView, k: int) -> u16 {
    ((code_u8(g, k) as u16) << 8) | (code_u8(g, k + 1) as u16)
}

/// The same word as a signed number.
pub open spec fn code_i16(g: GameView, k: int) -> i16 {
    code_u16(g, k) as i16
}

/// The machine with the program counter at `pc`.
pub open spec fn with_pc(g: GameView, pc: u16) -> GameView {
    GameView { vm: VmView { pc, ..g.vm }, ..g }
}

/// The machine with the program counter moved on by `n`.
pub open spec fn skipped(g: GameView, n: int) -> GameView {
    with_pc(g, (g.vm.pc + n) as u16)
}

/// The machine with register `i` set to `v`.
pub open spec fn with_reg(g: GameView, i: int, v: i16) -> GameView {
    GameView { vm: VmView { regs: g.vm.regs.update(i, v), ..g.vm }, ..g }
}

fn fetch_u8(g: &mut Game) -> (r: Result<u8, Error>)
    requires
        old(g).wf(),
    ensures
        final(g).wf(),
        match r {
            Ok(b) => code_avail(old(g)@, 1) && b == code_u8(old(g)@, 0) && final(g)@ == skipped(
                old(g)@,
                1,
            ),
            Err(e) => e == Error::Corrupt && !code_avail(old(g)@, 1) && final(g)@ == old(g)@,
        },
{
    let offset = g.vm.pc as usize + g.mem.seg_code;
    if g.vm.pc == 0xFFFF || offset >= g.mem.data.len() {
        return Err(Error::Corrupt);
    }
    let b = g.mem.data[offset];
    g.vm.pc = g.vm.pc + 1;
    Ok(b)
}

fn fetch_u16(g: &mut Game) -> (r: Result<u16, Error>)
    requires
        old(g).wf(),
    ensures
        final(g).wf(),
        final(g)@ == with_pc(old(g)@, final(g)@.vm.pc),
        match r {
            Ok(w) => code_avail(old(g)@, 2) && w == code_u16(old(g)@, 0) && final(g)@ == skipped(
                old(g)@,
                2,
            ),
            Err(e) => e == Error::Corrupt && !code_avail(old(g)@, 2),
        },
{
    let hi = fetch_u8(g)? as u16;
    let lo = fetch_u8(g)? as u16;
    Ok((hi << 8) | lo)
}

fn fetch_i16(g: &mut Game) -> (r: Result<i16, Error>)
    requires
        old(g).wf(),
    ensures
        final(g).wf(),
        final(g)@ == with_pc(old(g)@, final(g)@.vm.pc),
        match r {
            Ok(w) => code_avail(old(g)@, 2) && w == code_i16(old(g)@, 0) && final(g)@ == skipped(
                old(g)@,
                2,
            ),
            Err(e) => e == Error::Corrupt && !code_avail(old(g)@, 2),
        },
{
    Ok(fetch_u16(g)? as i16)
}

fn fetch_index8(g: &mut Game) -> (r: Result<usize, Error>)
    requires
        old(g).wf(),
    ensures
        final(g).wf(),
        match r {
            Ok(i) => code_avail(old(g)@, 1) && i == code_u8(old(g)@, 0) && final(g)@ == skipped(
                old(g)@,
                1,
            ),
            Err(e) => e == Error::Corrupt && !code_avail(old(g)@, 1) && final(g)@ == old(g)@,
        },
{
    Ok(fetch_u8(g)? as usize)
}

/// What an instruction with a register and a constant does: the register
/// becomes `f` of itself and the constant.
pub open spec fn reg_const_op(g: GameView, f: spec_fn(i16, i16) -> i16) -> Result<GameView, Error> {
    if !code_avail(g, 3) {
        Err(Error::Corrupt)
    } else {
        let dst = code_u8(g, 0) as int;
        Ok(skipped(with_reg(g, dst, f(g.vm.regs[dst], code_i16(g, 1))), 3))
    }
}

/// What an instruction with two registers does: the first becomes `f` of
/// itself and the second.
pub open spec fn reg_reg_op(g: GameView, f: spec_fn(i16, i16) -> i16) -> Result<GameView, Error> {
    if !code_avail(g, 2) {
        Err(Error::Corrupt)
    } else {
        let dst = code_u8(g, 0) as int;
        let src = code_u8(g, 1) as int;
        Ok(skipped(with_reg(g, dst, f(g.vm.regs[dst], g.vm.regs[src])), 2))
    }
}

/// Opcode 0x00: a register takes a constant.
pub open spec fn mov_const_done(g: GameView) -> Result<GameView, Error> {
    reg_const_op(g, |a: i16, b: i16| b)
}

fn op_mov_const(g: &mut Game) -> (r: Result<(), Error>)
    requires
        old(g).wf(),
    ensures
        final(g).wf(),
        agrees(r, final(g)@, mov_const_done(old(g)@)),
{
    let dst = fetch_index8(g)?;
    let val = fetch_i16(g)?;
    g.vm.regs[dst] = val;
    Ok(())
}

/// Opcode 0x01: a register takes another's value.
pub open spec fn mov_done(g: GameView) -> Result<GameView, Error> {
    reg_reg_op(g, |a: i16, b: i16| b)
}

fn op_mov(g: &mut Game) -> (r: Result<(), Error>)
    requires
        old(g).wf(),
    ensures
        final(g).wf(),
        agrees(r, final(g)@, mov_done(old(g)@)),
{
    let dst = fetch_index8(g)?;
    let src = fetch_index8(g)?;
    g.vm.regs[dst] = g.vm.regs[src];
    Ok(())
}

/// Opcode 0x02: a register is added to another, wrapping round.
pub open spec fn add_done(g: GameView) -> Result<GameView, Error> {
    reg_reg_op(g, |a: i16, b: i16| a.wrapping_add(b))
}

fn op_add(g: &mut Game) -> (r: Result<(), Error>)
    requires
        old(g).wf(),
    ensures
        final(g).wf(),
        agrees(r, final(g)@, add_done(old(g)@)),
{
    let dst = fetch_index8(g)?;
    let src = fetch_index8(g)?;
    g.vm.regs[dst] = g.vm.regs[dst].wrapping_add(g.vm.regs[src]);
    Ok(())
}

/// Opcode 0x13: a register is taken off another, wrapping round.
pub open spec fn sub_done(g: GameView) -> Result<GameView, Error> {
    reg_reg_op(g, |a: i16, b: i16| a.wrapping_sub(b))
}

fn op_sub(g: &mut Game) -> (r: Result<(), Error>)
    requires
        old(g).wf(),
    ensures
        final(g).wf(),
        agrees(r, final(g)@, sub_done(old(g)@)),
{
    let dst = fetch_index8(g)?;
    let src = fetch_index8(g)?;
    g.vm.regs[dst] = g.vm.regs[dst].wrapping_sub(g.vm.regs[src]);
    Ok(())
}

/// Opcode 0x14: a register is masked with a constant.
pub open spec fn and_const_done(g: GameView) -> Result<GameView, Error> {
    reg_const_op(g, |a: i16, b: i16| a & b)
}

fn op_and_const(g: &mut Game) -> (r: Result<(), Error>)
    requires
        old(g).wf(),
    ensures
        final(g).wf(),
        agrees(r, final(g)@, and_const_done(old(g)@)),
{
    let dst = fetch_index8(g)?;
    let val = fetch_i16(g)?;
    g.vm.regs[dst] = g.vm.regs[dst] & val;
    Ok(())
}

/// Opcode 0x15: the bits of a constant are set in a register.
pub open spec fn or_const_done(g: GameView) -> Result<GameView, Error> {
    reg_const_op(g, |a: i16, b: i16| a | b)
}

fn op_or_const(g: &mut Game) -> (r: Result<(), Error>)
    requires
        old(g).wf(),
    ensures
        final(g).wf(),
        agrees(r, final(g)@, or_const_done(old(g)@)),
{
    let dst = fetch_index8(g)?;
    let val = fetch_i16(g)?;
    g.vm.regs[dst] = g.vm.regs[dst] | val;
    Ok(())
}

/// Opcode 0x16: a register is shifted left by a constant, which must be
/// below 16.
pub open spec fn shl_const_done(g: GameView) -> Result<GameView, Error> {
    if !code_avail(g, 3) || code_u16(g, 1) >= 16 {
        Err(Error::Corrupt)
    } else {
        let dst = code_u8(g, 0) as int;
        Ok(skipped(with_reg(g, dst, ((g.vm.regs[dst] as u16) << code_u16(g, 1)) as i16), 3))
    }
}

fn op_shl_const(g: &mut Game) -> (r: Result<(), Error>)
    requires
        old(g).wf(),
    ensures
        final(g).wf(),
        agrees(r, final(g)@, shl_const_done(old(g)@)),
{
    let dst = fetch_index8(g)?;
    let val = fetch_u16(g)?;
    if val >= 16 {
        return Err(Error::Corrupt);
    }
    g.vm.regs[dst] = ((g.vm.regs[dst] as u16) << val) as i16;
    Ok(())
}

/// Opcode 0x17: a register is shifted right by a constant, which must be
/// below 16; zeros come in from the left.
pub open spec fn shr_const_done(g: GameView) -> Result<GameView, Error> {
    if !code_avail(g, 3) || code_u16(g, 1) >= 16 {
        Err(Error::Corrupt)
    } else {
        let dst = code_u8(g, 0) as int;
        Ok(skipped(with_reg(g, dst, ((g.vm.regs[dst] as u16) >> code_u16(g, 1)) as i16), 3))
    }
}

fn op_shr_const(g: &mut Game) -> (r: Result<(), Error>)
    requires
        old(g).wf(),
    ensures
        final(g).wf(),
        agrees(r, final(g)@, shr_const_done(old(g)@)),
{
    let dst = fetch_index8(g)?;
    let val = fetch_u16(g)?;
    if val >= 16 {
        return Err(Error::Corrupt);
    }
    g.vm.regs[dst] = ((g.vm.regs[dst] as u16) >> val) as i16;
    Ok(())
}

/// Opcode 0x04: the address behind the instruction goes on the call stack,
/// which holds 64, and the program counter to the address given.
pub open spec fn call_done(g: GameView) -> Result<GameView, Error> {
    if g.vm.sp >= CALL_STACK_SIZE || !code_avail(g, 2) {
        Err(Error::Corrupt)
    } else {
        Ok(
            GameView {
                vm: VmView {
                    call_stack: g.vm.call_stack.update(g.vm.sp as int, (g.vm.pc + 2) as u16),
                    pc: code_u16(g, 0),
                    sp: (g.vm.sp + 1) as u8,
                    ..g.vm
                },
                ..g
            },
        )
    }
}

fn op_call(g: &mut Game) -> (r: Result<(), Error>)
    requires
        old(g).wf(),
    ensures
        final(g).wf(),
        agrees(r, final(g)@, call_done(old(g)@)),
{
    if g.vm.sp >= CALL_STACK_SIZE {
        return Err(Error::Corrupt);
    }
    let new_pc = fetch_u16(g)?;
    g.vm.call_stack[g.vm.sp as usize] = g.vm.pc;
    g.vm.pc = new_pc;
    g.vm.sp = g.vm.sp + 1;
    Ok(())
}

/// Opcode 0x05: the program counter goes to the address on top of the call
/// stack, which comes off.
pub open spec fn ret_done(g: GameView) -> Result<GameView, Error> {
    if g.vm.sp == 0 {
        Err(Error::Corrupt)
    } else {
        Ok(
            GameView {
                vm: VmView {
                    pc: g.vm.call_stack[g.vm.sp - 1],
                    sp: (g.vm.sp - 1) as u8,
                    ..g.vm
                },
                ..g
            },
        )
    }
}

fn op_ret(g: &mut Game) -> (r: Result<(), Error>)
    requires
        old(g).wf(),
    ensures
        final(g).wf(),
        agrees(r, final(g)@, ret_done(old(g)@)),
{
    if g.vm.sp == 0 {
        return Err(Error::Corrupt);
    }
    g.vm.sp = g.vm.sp - 1;
    g.vm.pc = g.vm.call_stack[g.vm.sp as usize];
    Ok(())
}

/// Opcode 0x07: the program counter goes to the address given.
pub open spec fn jmp_done(g: GameView) -> Result<GameView, Error> {
    if !code_avail(g, 2) {
        Err(Error::Corrupt)
    } else {
        Ok(with_pc(g, code_u16(g, 0)))
    }
}

fn op_jmp(g: &mut Game) -> (r: Result<(), Error>)
    requires
        old(g).wf(),
    ensures
        final(g).wf(),
        agrees(r, final(g)@, jmp_done(old(g)@)),
{
    let new_pc = fetch_u16(g)?;
    g.vm.pc = new_pc;
    Ok(())
}

/// Opcode 0x09: a register is counted down, wrapping round, and unless it
/// has become zero the program counter goes to the address given.
pub open spec fn jmp_if_var_done(g: GameView) -> Result<GameView, Error> {
    if !code_avail(g, 3) {
        Err(Error::Corrupt)
    } else {
        let i = code_u8(g, 0) as int;
        let v = g.vm.regs[i].wrapping_sub(1);
        let g1 = with_reg(g, i, v);
        if v != 0 {
            Ok(with_pc(g1, code_u16(g, 1)))
        } else {
            Ok(skipped(g1, 3))
        }
    }
}

fn op_jmp_if_var(g: &mut Game) -> (r: Result<(), Error>)
    requires
        old(g).wf(),
    ensures
        final(g).wf(),
        agrees(r, final(g)@, jmp_if_var_done(old(g)@)),
{
    let i = fetch_index8(g)?;
    let new_pc = fetch_u16(g)?;
    g.vm.regs[i] = g.vm.regs[i].wrapping_sub(1);
    if g.vm.regs[i] != 0 {
        g.vm.pc = new_pc;
    }
    Ok(())
}

/// Opcode 0x06: the task's turn ends.
pub open spec fn yield_done(g: GameView) -> GameView {
    GameView { vm: VmView { needs_yield: true, ..g.vm }, ..g }
}

fn op_yield_task(g: &mut Game)
    ensures
        final(g)@ == yield_done(old(g)@),
{
    g.vm.needs_yield = true;
}

/// Opcode 0x11: the task's turn ends and the task halts.
pub open spec fn remove_done(g: GameView) -> GameView {
    GameView { vm: VmView { pc: HALT_PC, needs_yield: true, ..g.vm }, ..g }
}

fn op_remove_task(g: &mut Game)
    ensures
        final(g)@ == remove_done(old(g)@),
{
    g.vm.pc = HALT_PC;
    g.vm.needs_yield = true;
}

/// Opcode 0x08: a task, 0 to 63, is staged to start at the address given.
pub open spec fn install_task_done(g: GameView) -> Result<GameView, Error> {
    if !code_avail(g, 3) || code_u8(g, 0) >= TASK_COUNT {
        Err(Error::Corrupt)
    } else {
        let id = code_u8(g, 0) as int;
        Ok(
            skipped(
                GameView {
                    vm: VmView {
                        pending_tasks: g.vm.pending_tasks.update(
                            id,
                            Task { pc: code_u16(g, 1), ..g.vm.pending_tasks[id] },
                        ),
                        ..g.vm
                    },
                    ..g
                },
                3,
            ),
        )
    }
}

fn op_install_task(g: &mut Game) -> (r: Result<(), Error>)
    requires
        old(g).wf(),
    ensures
        final(g).wf(),
        agrees(r, final(g)@, install_task_done(old(g)@)),
{
    let id = check_task_id(fetch_u8(g)?)?;
    let pc = fetch_u16(g)?;
    g.vm.pending_tasks[id].pc = pc;
    Ok(())
}

fn check_task_id(id: u8) -> (r: Result<usize, Error>)
    ensures
        match r {
            Ok(i) => i == id && id < TASK_COUNT,
            Err(e) => e == Error::Corrupt && id >= TASK_COUNT,
        },
{
    if (id as usize) < TASK_COUNT {
        Ok(id as usize)
    } else {
        Err(Error::Corrupt)
    }
}

/// Loudest volume of a sound.
pub const MAX_VOLUME: u8 = 0x3F;

/// The machine after a script asked for a sound.
///
/// Volume zero silences the channel, which must be one of the four. Else
/// the sound is played on channel `channel & 3`, no louder than
/// `MAX_VOLUME`, at the frequency that the table gives for `freq`, if the
/// resource is ready; if it is not, nothing happens.
pub open spec fn sound_shimmed(g: GameView, resource: u16, freq: u8, volume: u8, channel: u8) -> Result<
    GameView,
    Error,
> {
    if volume == 0 {
        if channel >= 4 {
            Err(Error::Corrupt)
        } else {
            Ok(sfx::with_command(g, CommandView::StopSound { channel }))
        }
    } else {
        match mem::ready_address(g.mem, resource) {
            None => Ok(g),
            Some(address) => if freq >= g.tables.frequencies.len() {
                Err(Error::Corrupt)
            } else {
                sfx::sound_played(
                    g,
                    channel & 3,
                    address as int,
                    g.tables.frequencies[freq as int],
                    if volume < MAX_VOLUME {
                        volume
                    } else {
                        MAX_VOLUME
                    },
                )
            },
        }
    }
}

#[verifier::rlimit(40)]
fn play_sound_shim(g: &mut Game, resource: u16, freq: u8, volume: u8, channel: u8) -> (r: Result<
    (),
    Error,
>)
    requires
        old(g).wf(),
    ensures
        final(g).wf(),
        agrees(r, final(g)@, sound_shimmed(old(g)@, resource, freq, volume, channel)),
{
    if volume == 0 {
        if channel >= 4 {
            return Err(Error::Corrupt);
        }
        sfx::stop_sound(g, channel);
        Ok(())
    } else {
        let volume = if volume < MAX_VOLUME {
            volume
        } else {
            MAX_VOLUME
        };
        match mem::address_of_ready_entry(&g.mem, resource) {
            Some(address) => {
                if freq as usize >= g.tables.frequencies.len() {
                    return Err(Error::Corrupt);
                }
                let hz = g.tables.frequencies[freq as usize];
                assert(channel & 3 < 4) by (bit_vector);
                sfx::play_sound(g, channel & 3, address, hz, volume)
            },
            None => Ok(()),
        }
    }
}

/// Opcode 0x03: a constant is added to a register, wrapping round.
///
/// One old script leaves a gun sound looping. Unless that is asked for, a
/// sound that ends it is played first when that script's instruction is
/// reached: in part 16006 with the program counter at 0x6D48.
pub open spec fn add_const_done(g: GameView) -> Result<GameView, Error> {
    if g.vm.pc == 0x6D48 && g.current_part == 16006 && !g.looping_gun_quirk {
        match sound_shimmed(g, 0x5B, 1, 64, 1) {
            Ok(g1) => reg_const_op(g1, |a: i16, b: i16| a.wrapping_add(b)),
            Err(e) => Err(e),
        }
    } else {
        reg_const_op(g, |a: i16, b: i16| a.wrapping_add(b))
    }
}

fn op_add_const(g: &mut Game) -> (r: Result<(), Error>)
    requires
        old(g).wf(),
    ensures
        final(g).wf(),
        agrees(r, final(g)@, add_const_done(old(g)@)),
{
    if g.vm.pc == 0x6D48 && g.current_part == 16006 && !g.looping_gun_quirk {
        play_sound_shim(g, 0x5B, 1, 64, 1)?;
    }
    let dst = fetch_index8(g)?;
    let val = fetch_i16(g)?;
    g.vm.regs[dst] = g.vm.regs[dst].wrapping_add(val);
    Ok(())
}

/// The palette that a screen of a part needs and the scripts do not ask
/// for.
pub open spec fn fixup_palette(part: u16, screen: i16) -> Option<u8> {
    if part == 16004 && screen == 0x47 {
        Some(8u8)
    } else if part == 16006 && screen == 0x4A {
        Some(1u8)
    } else {
        None
    }
}

/// The machine after a change to screen `screen`.
pub open spec fn screen_fixed_up(g: GameView, screen: i16) -> GameView {
    match fixup_palette(g.current_part, screen) {
        Some(pal) => video::with_palette(g, pal),
        None => g,
    }
}

fn fixup_pal_after_change_screen(g: &mut Game, screen: i16)
    requires
        old(g).wf(),
    ensures
        final(g).wf(),
        final(g)@ == screen_fixed_up(old(g)@, screen),
{
    if g.current_part == 16004 && screen == 0x47 {
        video::load_pal_mem(g, 8);
    } else if g.current_part == 16006 && screen == 0x4A {
        video::load_pal_mem(g, 1);
    }
}

/// Whether a comparison holds: 0 for equal, 1 for not equal, 2 for
/// greater, 3 for greater or equal, 4 for less, 5 for less or equal.
pub open spec fn compares(kind: u8, a: i16, b: i16) -> bool {
    if kind == 0 {
        a == b
    } else if kind == 1 {
        a != b
    } else if kind == 2 {
        a > b
    } else if kind == 3 {
        a >= b
    } else if kind == 4 {
        a < b
    } else {
        a <= b
    }
}

/// Number of operand bytes of a conditional jump whose first is `op`.
pub open spec fn cond_jmp_len(op: u8) -> int {
    if op & 0x80 == 0 && op & 0x40 != 0 {
        6
    } else {
        5
    }
}

/// What a conditional jump compares its register with: another register
/// if bit 7 of `op` is set, else a 16-bit constant if bit 6 is, else an
/// 8-bit constant.
pub open spec fn cond_jmp_arg(g: GameView) -> i16 {
    let op = code_u8(g, 0);
    if op & 0x80 != 0 {
        g.vm.regs[code_u8(g, 2) as int]
    } else if op & 0x40 != 0 {
        code_i16(g, 2)
    } else {
        code_u8(g, 2) as i16
    }
}

/// The registers after the protection screen was bypassed: the four
/// symbols asked for are the four shown, and two counters are set.
pub open spec fn bypassed_regs(regs: Seq<i16>) -> Seq<i16> {
    regs.update(0x29, regs[0x1E]).update(0x2A, regs[0x1F]).update(0x2B, regs[0x20]).update(
        0x2C,
        regs[0x21],
    ).update(0x32, 6).update(0x64, 20)
}

/// Opcode 0x0A: the program counter goes to the address given if a
/// register compares as asked.
///
/// The operands are the comparison, whose low three bits must be 0 to 5,
/// the register, what it is compared with, and the address. Where the
/// protection is bypassed, a comparison of register 0x29 with a register in
/// part 16000 counts as holding, whatever the values. A jump taken on the
/// register that holds the screen number announces the screen, if it is
/// not the one last announced.
pub open spec fn cond_jmp_done(g: GameView) -> Result<GameView, Error> {
    let op = code_u8(g, 0);
    let var_id = code_u8(g, 1) as int;
    let var = g.vm.regs[var_id];
    let len = cond_jmp_len(op);
    let new_pc = code_u16(g, len - 2);
    let bypass = var_id == 0x29 && op & 0x80 != 0 && g.current_part == 16000
        && g.bypass_protection;
    let taken = bypass || compares(op & 7, var, cond_jmp_arg(g));
    if !code_avail(g, len) || op & 7 > 5 {
        Err(Error::Corrupt)
    } else {
        let g1 = GameView {
            vm: VmView {
                regs: if bypass {
                    bypassed_regs(g.vm.regs)
                } else {
                    g.vm.regs
                },
                pc: if taken {
                    new_pc
                } else {
                    (g.vm.pc + len) as u16
                },
                ..g.vm
            },
            ..g
        };
        if taken && var_id == REG_SCREEN_NUM && g.screen_num != Some(var) {
            Ok(screen_fixed_up(GameView { screen_num: Some(var), ..g1 }, var))
        } else {
            Ok(g1)
        }
    }
}

/// Fetches the operands of a conditional jump: the comparison, the
/// register, what it is compared with, and the address.
#[verifier::rlimit(40)]
fn cond_jmp_operands(g: &mut Game) -> (r: Result<(u8, usize, i16, u16), Error>)
    requires
        old(g).wf(),
    ensures
        final(g).wf(),
        match r {
            Ok((op, var_id, arg, new_pc)) => {
                &&& code_avail(old(g)@, cond_jmp_len(op))
                &&& op == code_u8(old(g)@, 0)
                &&& var_id == code_u8(old(g)@, 1)
                &&& arg == cond_jmp_arg(old(g)@)
                &&& new_pc == code_u16(old(g)@, cond_jmp_len(op) - 2)
                &&& final(g)@ == skipped(old(g)@, cond_jmp_len(op))
            },
            Err(e) => e == Error::Corrupt && !code_avail(
                old(g)@,
                cond_jmp_len(code_u8(old(g)@, 0)),
            ),
        },
{
    let op = fetch_u8(g)?;
    let var_id = fetch_index8(g)?;
    let arg = if (op & 0x80) != 0 {
        let i = fetch_index8(g)?;
        g.vm.regs[i]
    } else if (op & 0x40) != 0 {
        fetch_i16(g)?
    } else {
        fetch_u8(g)? as i16
    };
    let new_pc = fetch_u16(g)?;
    Ok((op, var_id, arg, new_pc))
}

/// Whether a comparison holds.
fn compare(kind: u8, a: i16, b: i16) -> (r: Result<bool, Error>)
    ensures
        match r {
            Ok(t) => kind <= 5 && t == compares(kind, a, b),
            Err(e) => e == Error::Corrupt && kind > 5,
        },
{
    if kind == 0 {
        Ok(a == b)
    } else if kind == 1 {
        Ok(a != b)
    } else if kind == 2 {
        Ok(a > b)
    } else if kind == 3 {
        Ok(a >= b)
    } else if kind == 4 {
        Ok(a < b)
    } else if kind == 5 {
        Ok(a <= b)
    } else {
        Err(Error::Corrupt)
    }
}

/// Leaves in the registers what the protection screen would have.
fn bypass_protection(g: &mut Game)
    requires
        old(g).wf(),
    ensures
        final(g).wf(),
        final(g)@ == (GameView {
            vm: VmView { regs: bypassed_regs(old(g)@.vm.regs), ..old(g)@.vm },
            ..old(g)@
        }),
{
    g.vm.regs[0x29] = g.vm.regs[0x1E];
    g.vm.regs[0x2A] = g.vm.regs[0x1F];
    g.vm.regs[0x2B] = g.vm.regs[0x20];
    g.vm.regs[0x2C] = g.vm.regs[0x21];
    g.vm.regs[0x32] = 6;
    g.vm.regs[0x64] = 20;
}

#[verifier::rlimit(40)]
fn op_cond_jmp(g: &mut Game) -> (r: Result<(), Error>)
    requires
        old(g).wf(),
    ensures
        final(g).wf(),
        agrees(r, final(g)@, cond_jmp_done(old(g)@)),
{
    let (op, var_id, arg, new_pc) = cond_jmp_operands(g)?;
    let var = g.vm.regs[var_id];
    let mut test = compare(op & 7, var, arg)?;
    if var_id == 0x29 && (op & 0x80) != 0 && g.current_part == 16000 && g.bypass_protection {
        test = true;
        bypass_protection(g);
    }
    if test {
        g.vm.pc = new_pc;
        let known = match g.screen_num {
            Some(n) => n == var,
            None => false,
        };
        if var_id == REG_SCREEN_NUM && !known {
            g.screen_num = Some(var);
            fixup_pal_after_change_screen(g, var);
        }
    }
    Ok(())
}

/// Opcode 0x0B: a palette is asked for, to come into force with the next
/// display update. Where the palettes need fixing up, the intro's requests
/// for palettes 10 and 16 are passed over.
pub open spec fn change_pal_done(g: GameView) -> Result<GameView, Error> {
    if !code_avail(g, 2) {
        Err(Error::Corrupt)
    } else {
        let num = code_u8(g, 0);
        let skip = g.video.needs_pal_fixup && g.current_part == 16001 && (num == 10 || num == 16);
        Ok(
            skipped(
                if skip {
                    g
                } else {
                    GameView { next_pal: Some(num), ..g }
                },
                2,
            ),
        )
    }
}

fn op_change_pal(g: &mut Game) -> (r: Result<(), Error>)
    requires
        old(g).wf(),
    ensures
        final(g).wf(),
        agrees(r, final(g)@, change_pal_done(old(g)@)),
{
    let num = fetch_u8(g)?;
    let _dummy = fetch_u8(g)?;
    let skip_change = g.video.needs_pal_fixup() && g.current_part == 16001 && (num == 10 || num
        == 16);
    if !skip_change {
        g.next_pal = Some(num);
    }
    Ok(())
}

/// What becomes of a staged task under an action: 2 stages its halt, 0
/// thaws it, anything else freezes it.
pub open spec fn task_changed(t: Task, action: u8) -> Task {
    if action == 2 {
        Task { pc: PRE_HALT_PC, ..t }
    } else {
        Task { frozen: action != 0, ..t }
    }
}

/// Opcode 0x0C: an action is staged for the tasks from the first given,
/// which must be one of the 64, to the second, of which the low six bits
/// count. A first task behind the second changes nothing.
pub open spec fn change_tasks_done(g: GameView) -> Result<GameView, Error> {
    let begin = code_u8(g, 0);
    let end = code_u8(g, 1) & 0x3F;
    let action = code_u8(g, 2);
    if !code_avail(g, 3) || begin >= TASK_COUNT {
        Err(Error::Corrupt)
    } else if begin > end {
        Ok(skipped(g, 3))
    } else {
        Ok(
            skipped(
                GameView {
                    vm: VmView {
                        pending_tasks: Seq::new(
                            64,
                            |i: int|
                                if begin <= i <= end {
                                    task_changed(g.vm.pending_tasks[i], action)
                                } else {
                                    g.vm.pending_tasks[i]
                                },
                        ),
                        ..g.vm
                    },
                    ..g
                },
                3,
            ),
        )
    }
}

#[verifier::rlimit(40)]
fn op_change_tasks(g: &mut Game) -> (r: Result<(), Error>)
    requires
        old(g).wf(),
    ensures
        final(g).wf(),
        agrees(r, final(g)@, change_tasks_done(old(g)@)),
{
    let begin = check_task_id(fetch_u8(g)?)?;
    let raw = fetch_u8(g)?;
    let last = raw & 0x3F;
    assert(last < 64) by (bit_vector)
        requires
            last == raw & 0x3F,
    ;
    let end = last as usize;
    let action = fetch_u8(g)?;
    if begin > end {
        return Ok(());
    }
    let ghost fetched = g@;
    let mut i = begin;
    while i <= end
        invariant
            g.wf(),
            begin <= i <= end + 1,
            end < 64,
            g@ == (GameView {
                vm: VmView { pending_tasks: g@.vm.pending_tasks, ..fetched.vm },
                ..fetched
            }),
            forall|k: int|
                0 <= k < 64 ==> g@.vm.pending_tasks[k] == if begin <= k < i {
                    task_changed(fetched.vm.pending_tasks[k], action)
                } else {
                    fetched.vm.pending_tasks[k]
                },
        decreases end + 1 - i,
    {
        if action == 2 {
            g.vm.pending_tasks[i].pc = PRE_HALT_PC;
        } else {
            g.vm.pending_tasks[i].frozen = action != 0;
        }
        i += 1;
    }
    assert(g@.vm.pending_tasks =~= Seq::new(
        64,
        |k: int|
            if begin <= k <= end {
                task_changed(fetched.vm.pending_tasks[k], action)
            } else {
                fetched.vm.pending_tasks[k]
            },
    ));
    Ok(())
}

/// Opcode 0x0D: a page becomes the page drawn on.
pub open spec fn select_page_done(g: GameView) -> Result<GameView, Error> {
    if !code_avail(g, 1) {
        Err(Error::Corrupt)
    } else {
        Ok(skipped(GameView { video: g.video.select(code_u8(g, 0)), ..g }, 1))
    }
}

fn op_select_page(g: &mut Game) -> (r: Result<(), Error>)
    requires
        old(g).wf(),
    ensures
        final(g).wf(),
        agrees(r, final(g)@, select_page_done(old(g)@)),
{
    let n = fetch_u8(g)?;
    video::select_page(&mut g.video, n);
    Ok(())
}

/// Opcode 0x0E: a page is filled with a colour.
pub open spec fn fill_page_done(g: GameView) -> Result<GameView, Error> {
    if !code_avail(g, 2) {
        Err(Error::Corrupt)
    } else {
        Ok(skipped(GameView { video: g.video.fill(code_u8(g, 0), code_u8(g, 1)), ..g }, 2))
    }
}

fn op_fill_page(g: &mut Game) -> (r: Result<(), Error>)
    requires
        old(g).wf(),
    ensures
        final(g).wf(),
        agrees(r, final(g)@, fill_page_done(old(g)@)),
{
    let n = fetch_u8(g)?;
    let color = fetch_u8(g)?;
    video::fill_page(&mut g.video, n, color);
    Ok(())
}

/// Opcode 0x0F: a page is copied onto another, shifted by what the scroll
/// register holds.
pub open spec fn copy_page_done(g: GameView) -> Result<GameView, Error> {
    if !code_avail(g, 2) {
        Err(Error::Corrupt)
    } else {
        Ok(
            skipped(
                GameView {
                    video: g.video.copy(
                        code_u8(g, 0),
                        code_u8(g, 1),
                        g.vm.regs[REG_SCROLL_Y as int],
                    ),
                    ..g
                },
                2,
            ),
        )
    }
}

fn op_copy_page(g: &mut Game) -> (r: Result<(), Error>)
    requires
        old(g).wf(),
    ensures
        final(g).wf(),
        agrees(r, final(g)@, copy_page_done(old(g)@)),
{
    let src = fetch_u8(g)?;
    let dst = fetch_u8(g)?;
    let scroll = g.vm.regs[REG_SCROLL_Y];
    video::copy_page(&mut g.video, src, dst, scroll);
    Ok(())
}

/// Opcode 0x10: the page given goes on display, the palette asked for comes
/// into force, and register 0xF7 is cleared. The host is then to present
/// the page and to let the frame's time pass.
pub open spec fn update_display_done(g: GameView) -> Result<GameView, Error> {
    if !code_avail(g, 1) {
        Err(Error::Corrupt)
    } else {
        let g1 = skipped(
            GameView { video: g.video.swap(code_u8(g, 0)), next_pal: None, ..g },
            1,
        );
        let g2 = match g.next_pal {
            Some(num) => video::with_palette(g1, num),
            None => g1,
        };
        Ok(with_reg(g2, 0xF7, 0))
    }
}

#[verifier::rlimit(40)]
fn op_update_display(g: &mut Game) -> (r: Result<(), Error>)
    requires
        old(g).wf(),
    ensures
        final(g).wf(),
        agrees(r, final(g)@, update_display_done(old(g)@)),
{
    let page = fetch_u8(g)?;
    let _fb = video::swap_pages(&mut g.video, page);
    let next = g.next_pal;
    g.next_pal = None;
    match next {
        Some(num) => {
            video::load_pal_mem(g, num);
        },
        None => {},
    }
    g.vm.regs[0xF7] = 0;
    Ok(())
}

/// Opcode 0x12: a text is drawn, given by its number, its text column, its
/// pixel line and its colour.
pub open spec fn draw_string_done(g: GameView) -> Result<GameView, Error> {
    if !code_avail(g, 5) {
        Err(Error::Corrupt)
    } else {
        Ok(
            skipped(
                GameView {
                    video: video::with_string(
                        g.video,
                        g.tables,
                        code_u8(g, 2) as u16,
                        code_u8(g, 3) as u16,
                        code_u16(g, 0),
                        code_u8(g, 4),
                    ),
                    ..g
                },
                5,
            ),
        )
    }
}

fn op_draw_string(g: &mut Game) -> (r: Result<(), Error>)
    requires
        old(g).wf(),
    ensures
        final(g).wf(),
        agrees(r, final(g)@, draw_string_done(old(g)@)),
{
    let str_id = fetch_u16(g)?;
    let xi = fetch_u8(g)? as u16;
    let ypos = fetch_u8(g)? as u16;
    let color = fetch_u8(g)?;
    video::draw_string(&mut g.video, &g.tables, xi, ypos, str_id, color);
    Ok(())
}

/// Opcode 0x18: a sound is asked for, given by its resource, its place in
/// the table of frequencies, its volume and its channel.
pub open spec fn play_sound_done(g: GameView) -> Result<GameView, Error> {
    if !code_avail(g, 5) {
        Err(Error::Corrupt)
    } else {
        sound_shimmed(
            skipped(g, 5),
            code_u16(g, 0),
            code_u8(g, 2),
            code_u8(g, 3),
            code_u8(g, 4),
        )
    }
}

fn op_play_sound(g: &mut Game) -> (r: Result<(), Error>)
    requires
        old(g).wf(),
    ensures
        final(g).wf(),
        agrees(r, final(g)@, play_sound_done(old(g)@)),
{
    let resource = fetch_u16(g)?;
    let freq = fetch_u8(g)?;
    let volume = fetch_u8(g)?;
    let channel = fetch_u8(g)?;
    play_sound_shim(g, resource, freq, volume, channel)
}

/// Opcode 0x1A: music is asked for, given by its resource, a delay and a
/// place in the order table. Resource zero only changes the delay.
pub open spec fn play_music_done(g: GameView) -> Result<GameView, Error> {
    if !code_avail(g, 5) {
        Err(Error::Corrupt)
    } else {
        let g1 = skipped(g, 5);
        if code_u16(g, 0) != 0 {
            Ok(sfx::sought(g1, code_u16(g, 0), code_u16(g, 2), code_u8(g, 4)))
        } else {
            Ok(
                GameView {
                    music: PlayerView {
                        delay: sfx::converted_delay(code_u16(g, 2)),
                        ..g1.music
                    },
                    ..g1
                },
            )
        }
    }
}

fn op_play_music(g: &mut Game) -> (r: Result<(), Error>)
    requires
        old(g).wf(),
    ensures
        final(g).wf(),
        agrees(r, final(g)@, play_music_done(old(g)@)),
{
    let resource = fetch_u16(g)?;
    let delay = fetch_u16(g)?;
    let pos = fetch_u8(g)?;
    if resource != 0 {
        sfx::seek(g, resource, delay, pos);
    } else {
        g.music.set_delay(delay);
    }
    Ok(())
}

/// Opcode 0x19: resources are asked for. Number zero drops what was loaded
/// since the part was set up, with all sound and the palette in force; a
/// number from 16000 on asks for a part, to be set up with the next frame;
/// any other number loads that resource.
pub open spec fn update_resources_done(g: GameView) -> Result<GameView, Error> {
    if !code_avail(g, 2) {
        Err(Error::Corrupt)
    } else {
        let num = code_u16(g, 0);
        let g1 = skipped(g, 2);
        if num == 0 {
            let g2 = sfx::all_stopped(g1);
            Ok(
                GameView {
                    mem: MemoryView {
                        list: mem::invalidated(g2.mem.list),
                        data_cur: g2.mem.data_bak,
                        ..g2.mem
                    },
                    video: VideoView { current_pal_num: None, ..g2.video },
                    ..g2
                },
            )
        } else if num >= 16000 {
            Ok(GameView { next_part: Some(num), ..g1 })
        } else {
            mem::entry_loaded(g1, num)
        }
    }
}

#[verifier::rlimit(40)]
fn op_update_resources(g: &mut Game) -> (r: Result<(), Error>)
    requires
        old(g).wf(),
    ensures
        final(g).wf(),
        agrees(r, final(g)@, update_resources_done(old(g)@)),
{
    let num = fetch_u16(g)?;
    if num == 0 {
        sfx::stop_sound_and_music(g);
        mem::invalidate_res(&mut g.mem);
        g.video.invalidate_pal_num();
        Ok(())
    } else if num >= 16000 {
        g.next_part = Some(num);
        Ok(())
    } else {
        mem::load_entry(g, num)
    }
}

/// A coordinate or zoom operand of a shape instruction.
pub struct Operand {
    pub value: i16,
    /// Number of code bytes that it takes up.
    pub len: int,
}

/// The x operand of a shape instruction, at byte `k` of the code: a 16-bit
/// constant if bits 5 and 4 of the opcode are clear, a register if only bit
/// 4 is set, else an 8-bit constant to which bit 4 adds 256.
pub open spec fn shape_x(g: GameView, opcode: u8, k: int) -> Operand {
    let b = code_u8(g, k);
    if opcode & 0x20 == 0 {
        if opcode & 0x10 == 0 {
            Operand { value: (((b as u16) << 8) | (code_u8(g, k + 1) as u16)) as i16, len: 2 }
        } else {
            Operand { value: g.vm.regs[b as int], len: 1 }
        }
    } else {
        Operand { value: ((b as u16) | (((opcode & 0x10) as u16) << 4)) as i16, len: 1 }
    }
}

/// The y operand of a shape instruction, at byte `k` of the code: a 16-bit
/// constant if bits 3 and 2 of the opcode are clear, a register if only bit
/// 2 is set, else an 8-bit constant.
pub open spec fn shape_y(g: GameView, opcode: u8, k: int) -> Operand {
    let b = code_u8(g, k);
    if opcode & 0x08 == 0 {
        if opcode & 0x04 == 0 {
            Operand { value: (((b as u16) << 8) | (code_u8(g, k + 1) as u16)) as i16, len: 2 }
        } else {
            Operand { value: g.vm.regs[b as int], len: 1 }
        }
    } else {
        Operand { value: b as i16, len: 1 }
    }
}

/// Whether a shape instruction has a zoom operand: bits 1 and 0 of the
/// opcode differ.
pub open spec fn shape_has_zoom(opcode: u8) -> bool {
    (opcode & 0x02 == 0) != (opcode & 0x01 == 0)
}

/// The zoom of a shape instruction whose zoom operand would be at byte `k`
/// of the code: a register if only bit 0 of the opcode is set, an 8-bit
/// constant if only bit 1 is, else 64.
pub open spec fn shape_zoom(g: GameView, opcode: u8, k: int) -> u16 {
    let b = code_u8(g, k);
    if opcode & 0x02 == 0 {
        if opcode & 0x01 == 0 {
            0x40u16
        } else {
            g.vm.regs[b as int] as u16
        }
    } else if opcode & 0x01 != 0 {
        0x40u16
    } else {
        b as u16
    }
}

/// The machine with the data counter at `dc` of the first or second video
/// segment.
pub open spec fn with_dc(g: GameView, dc: u16, use_seg2: bool) -> GameView {
    GameView { video: VideoView { dc, use_seg2, ..g.video }, ..g }
}

/// An opcode with bit 7 set: the shape at twice the 15 bits that the
/// opcode and the next byte hold is drawn, from the first video segment, at
/// the place that two more bytes give. A place below line 199 is moved up
/// to it and as far to the right.
pub open spec fn short_shape_done(g: GameView, opcode: u8) -> Result<GameView, Error> {
    if !code_avail(g, 3) {
        Err(Error::Corrupt)
    } else {
        let offset = ((((opcode as u16) << 8) | (code_u8(g, 0) as u16)) << 1);
        let place = short_shape_place(code_u8(g, 1), code_u8(g, 2));
        video::with_shape(skipped(with_dc(g, offset, false), 3), place.0, place.1, 0x40, 0xFF)
    }
}

/// An opcode with bit 6 set and bit 7 clear: the shape at twice the word
/// that follows is drawn at the place and with the zoom that the operands
/// give. With bits 1 and 0 both set the shape comes from the second video
/// segment. A byte must follow the y operand even where no zoom is read.
pub open spec fn long_shape_done(g: GameView, opcode: u8) -> Result<GameView, Error> {
    let offset = code_u16(g, 0) << 1;
    let x = shape_x(g, opcode, 2);
    let y = shape_y(g, opcode, 2 + x.len);
    let kz = 2 + x.len + y.len;
    let len = if shape_has_zoom(opcode) {
        kz + 1
    } else {
        kz
    };
    if !code_avail(g, kz + 1) {
        Err(Error::Corrupt)
    } else {
        video::with_shape(
            skipped(with_dc(g, offset, opcode & 0x02 != 0 && opcode & 0x01 != 0), len),
            x.value,
            y.value,
            shape_zoom(g, opcode, kz),
            0xFF,
        )
    }
}

/// An opcode with bit 7 or 6 set draws a shape.
pub open spec fn draw_shape_done(g: GameView, opcode: u8) -> Result<GameView, Error> {
    if opcode & 0x80 != 0 {
        short_shape_done(g, opcode)
    } else {
        long_shape_done(g, opcode)
    }
}

/// Fetches the x operand of a shape instruction.
fn fetch_shape_x(g: &mut Game, opcode: u8) -> (r: Result<i16, Error>)
    requires
        old(g).wf(),
    ensures
        final(g).wf(),
        match r {
            Ok(x) => {
                &&& code_avail(old(g)@, shape_x(old(g)@, opcode, 0).len)
                &&& x == shape_x(old(g)@, opcode, 0).value
                &&& final(g)@ == skipped(old(g)@, shape_x(old(g)@, opcode, 0).len)
            },
            Err(e) => e == Error::Corrupt && !code_avail(old(g)@, shape_x(old(g)@, opcode, 0).len),
        },
{
    let x = fetch_u8(g)?;
    if (opcode & 0x20) == 0 {
        if (opcode & 0x10) == 0 {
            let lo = fetch_u8(g)?;
            Ok((((x as u16) << 8) | (lo as u16)) as i16)
        } else {
            Ok(g.vm.regs[x as usize])
        }
    } else {
        Ok(((x as u16) | (((opcode & 0x10) as u16) << 4)) as i16)
    }
}

/// Fetches the y operand of a shape instruction.
fn fetch_shape_y(g: &mut Game, opcode: u8) -> (r: Result<i16, Error>)
    requires
        old(g).wf(),
    ensures
        final(g).wf(),
        match r {
            Ok(y) => {
                &&& code_avail(old(g)@, shape_y(old(g)@, opcode, 0).len)
                &&& y == shape_y(old(g)@, opcode, 0).value
                &&& final(g)@ == skipped(old(g)@, shape_y(old(g)@, opcode, 0).len)
            },
            Err(e) => e == Error::Corrupt && !code_avail(old(g)@, shape_y(old(g)@, opcode, 0).len),
        },
{
    let y = fetch_u8(g)?;
    if (opcode & 0x08) == 0 {
        if (opcode & 0x04) == 0 {
            let lo = fetch_u8(g)?;
            Ok((((y as u16) << 8) | (lo as u16)) as i16)
        } else {
            Ok(g.vm.regs[y as usize])
        }
    } else {
        Ok(y as i16)
    }
}

/// Fetches the zoom operand of a shape instruction, if it has one; a byte
/// must be there in any case.
fn fetch_shape_zoom(g: &mut Game, opcode: u8) -> (r: Result<u16, Error>)
    requires
        old(g).wf(),
    ensures
        final(g).wf(),
        match r {
            Ok(zoom) => {
                &&& code_avail(old(g)@, 1)
                &&& zoom == shape_zoom(old(g)@, opcode, 0)
                &&& final(g)@ == skipped(
                    old(g)@,
                    if shape_has_zoom(opcode) {
                        1
                    } else {
                        0
                    },
                )
            },
            Err(e) => e == Error::Corrupt && !code_avail(old(g)@, 1),
        },
{
    let zoom = fetch_u8(g)?;
    if (opcode & 0x02) == 0 {
        if (opcode & 0x01) == 0 {
            g.vm.pc = g.vm.pc - 1;
            Ok(0x40)
        } else {
            Ok(g.vm.regs[zoom as usize] as u16)
        }
    } else if (opcode & 0x01) != 0 {
        g.vm.pc = g.vm.pc - 1;
        Ok(0x40)
    } else {
        Ok(zoom as u16)
    }
}

/// Where a short shape instruction draws: a place below line 199 is moved
/// up to it and as far to the right.
pub open spec fn short_shape_place(x0: u8, y0: u8) -> (i16, i16) {
    if y0 > 199 {
        ((x0 + (y0 - 199)) as i16, 199i16)
    } else {
        (x0 as i16, y0 as i16)
    }
}

/// Fetches the operands of a short shape instruction and sets the data
/// counter: returns the place.
#[verifier::rlimit(40)]
fn short_shape_operands(g: &mut Game, opcode: u8) -> (r: Result<(i16, i16), Error>)
    requires
        old(g).wf(),
    ensures
        final(g).wf(),
        match r {
            Ok(place) => {
                &&& code_avail(old(g)@, 3)
                &&& place == short_shape_place(code_u8(old(g)@, 1), code_u8(old(g)@, 2))
                &&& final(g)@ == skipped(
                    with_dc(
                        old(g)@,
                        ((((opcode as u16) << 8) | (code_u8(old(g)@, 0) as u16)) << 1),
                        false,
                    ),
                    3,
                )
            },
            Err(e) => e == Error::Corrupt && !code_avail(old(g)@, 3),
        },
{
    let lo = fetch_u8(g)?;
    let offset = (((opcode as u16) << 8) | (lo as u16)) << 1;
    let x0 = fetch_u8(g)?;
    let y0 = fetch_u8(g)?;
    g.video.set_dc(offset, false);
    if y0 > 199 {
        Ok((x0 as i16 + (y0 as i16 - 199), 199))
    } else {
        Ok((x0 as i16, y0 as i16))
    }
}

fn draw_short_shape(g: &mut Game, opcode: u8) -> (r: Result<(), Error>)
    requires
        old(g).wf(),
    ensures
        final(g).wf(),
        agrees(r, final(g)@, short_shape_done(old(g)@, opcode)),
{
    let (x, y) = short_shape_operands(g, opcode)?;
    video::draw_shape(g, x, y, 0x40, 0xFF)
}

/// Fetches the operands of a long shape instruction and sets the data
/// counter: returns the place and the zoom.
#[verifier::rlimit(40)]
fn long_shape_operands(g: &mut Game, opcode: u8) -> (r: Result<(i16, i16, u16), Error>)
    requires
        old(g).wf(),
    ensures
        final(g).wf(),
        match r {
            Ok((x, y, zoom)) => {
                let sx = shape_x(old(g)@, opcode, 2);
                let sy = shape_y(old(g)@, opcode, 2 + sx.len);
                let kz = 2 + sx.len + sy.len;
                &&& code_avail(old(g)@, kz + 1)
                &&& x == sx.value
                &&& y == sy.value
                &&& zoom == shape_zoom(old(g)@, opcode, kz)
                &&& final(g)@ == skipped(
                    with_dc(
                        old(g)@,
                        code_u16(old(g)@, 0) << 1,
                        opcode & 0x02 != 0 && opcode & 0x01 != 0,
                    ),
                    if shape_has_zoom(opcode) {
                        kz + 1
                    } else {
                        kz
                    },
                )
            },
            Err(e) => {
                let sx = shape_x(old(g)@, opcode, 2);
                let sy = shape_y(old(g)@, opcode, 2 + sx.len);
                e == Error::Corrupt && !code_avail(old(g)@, 2 + sx.len + sy.len + 1)
            },
        },
{
    let offset = fetch_u16(g)? << 1;
    let ghost g1 = g@;
    assert(shape_x(g1, opcode, 0) == shape_x(old(g)@, opcode, 2));
    let x = fetch_shape_x(g, opcode)?;
    let ghost g2 = g@;
    let ghost sx = shape_x(old(g)@, opcode, 2);
    assert(shape_y(g2, opcode, 0) == shape_y(old(g)@, opcode, 2 + sx.len));
    let y = fetch_shape_y(g, opcode)?;
    let ghost g3 = g@;
    let ghost sy = shape_y(old(g)@, opcode, 2 + sx.len);
    assert(shape_zoom(g3, opcode, 0) == shape_zoom(old(g)@, opcode, 2 + sx.len + sy.len));
    let zoom = fetch_shape_zoom(g, opcode)?;
    let use_seg2 = (opcode & 0x02) != 0 && (opcode & 0x01) != 0;
    g.video.set_dc(offset, use_seg2);
    Ok((x, y, zoom))
}

fn draw_long_shape(g: &mut Game, opcode: u8) -> (r: Result<(), Error>)
    requires
        old(g).wf(),
    ensures
        final(g).wf(),
        agrees(r, final(g)@, long_shape_done(old(g)@, opcode)),
{
    let (x, y, zoom) = long_shape_operands(g, opcode)?;
    video::draw_shape(g, x, y, zoom, 0xFF)
}

fn op_draw_shape(g: &mut Game, opcode: u8) -> (r: Result<(), Error>)
    requires
        old(g).wf(),
    ensures
        final(g).wf(),
        agrees(r, final(g)@, draw_shape_done(old(g)@, opcode)),
{
    if (opcode & 0x80) != 0 {
        draw_short_shape(g, opcode)
    } else {
        draw_long_shape(g, opcode)
    }
}

/// What the instruction with opcode `opcode` does, the program counter
/// standing behind the opcode.
pub open spec fn insn_done(g: GameView, opcode: u8) -> Result<GameView, Error> {
    if opcode & 0xC0 != 0 {
        draw_shape_done(g, opcode)
    } else if opcode == 0x00 {
        mov_const_done(g)
    } else if opcode == 0x01 {
        mov_done(g)
    } else if opcode == 0x02 {
        add_done(g)
    } else if opcode == 0x03 {
        add_const_done(g)
    } else if opcode == 0x04 {
        call_done(g)
    } else if opcode == 0x05 {
        ret_done(g)
    } else if opcode == 0x06 {
        Ok(yield_done(g))
    } else if opcode == 0x07 {
        jmp_done(g)
    } else if opcode == 0x08 {
        install_task_done(g)
    } else if opcode == 0x09 {
        jmp_if_var_done(g)
    } else if opcode == 0x0A {
        cond_jmp_done(g)
    } else if opcode == 0x0B {
        change_pal_done(g)
    } else if opcode == 0x0C {
        change_tasks_done(g)
    } else if opcode == 0x0D {
        select_page_done(g)
    } else if opcode == 0x0E {
        fill_page_done(g)
    } else if opcode == 0x0F {
        copy_page_done(g)
    } else if opcode == 0x10 {
        update_display_done(g)
    } else if opcode == 0x11 {
        Ok(remove_done(g))
    } else if opcode == 0x12 {
        draw_string_done(g)
    } else if opcode == 0x13 {
        sub_done(g)
    } else if opcode == 0x14 {
        and_const_done(g)
    } else if opcode == 0x15 {
        or_const_done(g)
    } else if opcode == 0x16 {
        shl_const_done(g)
    } else if opcode == 0x17 {
        shr_const_done(g)
    } else if opcode == 0x18 {
        play_sound_done(g)
    } else if opcode == 0x19 {
        update_resources_done(g)
    } else if opcode == 0x1A {
        play_music_done(g)
    } else {
        Err(Error::Corrupt)
    }
}

/// Whether a byte is an opcode.
pub open spec fn known_opcode(opcode: u8) -> bool {
    opcode & 0xC0 != 0 || opcode <= 0x1A
}

/// Opcode of the instruction that updates the display.
pub const OP_UPDATE_DISPLAY: u8 = 0x10;

/// What the instruction at the program counter does.
pub open spec fn stepped(g: GameView) -> Result<GameView, Error> {
    if !code_avail(g, 1) {
        Err(Error::Corrupt)
    } else {
        insn_done(skipped(g, 1), code_u8(g, 0))
    }
}

/// Executes the instruction with opcode `opcode`.
#[verifier::rlimit(40)]
fn execute(g: &mut Game, opcode: u8) -> (r: Result<(), Error>)
    requires
        old(g).wf(),
    ensures
        final(g).wf(),
        agrees(r, final(g)@, insn_done(old(g)@, opcode)),
{
    if (opcode & 0xC0) != 0 {
        op_draw_shape(g, opcode)
    } else if opcode == 0x00 {
        op_mov_const(g)
    } else if opcode == 0x01 {
        op_mov(g)
    } else if opcode == 0x02 {
        op_add(g)
    } else if opcode == 0x03 {
        op_add_const(g)
    } else if opcode == 0x04 {
        op_call(g)
    } else if opcode == 0x05 {
        op_ret(g)
    } else if opcode == 0x06 {
        op_yield_task(g);
        Ok(())
    } else if opcode == 0x07 {
        op_jmp(g)
    } else if opcode == 0x08 {
        op_install_task(g)
    } else if opcode == 0x09 {
        op_jmp_if_var(g)
    } else if opcode == 0x0A {
        op_cond_jmp(g)
    } else if opcode == 0x0B {
        op_change_pal(g)
    } else if opcode == 0x0C {
        op_change_tasks(g)
    } else if opcode == 0x0D {
        op_select_page(g)
    } else if opcode == 0x0E {
        op_fill_page(g)
    } else if opcode == 0x0F {
        op_copy_page(g)
    } else if opcode == 0x10 {
        op_update_display(g)
    } else if opcode == 0x11 {
        op_remove_task(g);
        Ok(())
    } else if opcode == 0x12 {
        op_draw_string(g)
    } else if opcode == 0x13 {
        op_sub(g)
    } else if opcode == 0x14 {
        op_and_const(g)
    } else if opcode == 0x15 {
        op_or_const(g)
    } else if opcode == 0x16 {
        op_shl_const(g)
    } else if opcode == 0x17 {
        op_shr_const(g)
    } else if opcode == 0x18 {
        op_play_sound(g)
    } else if opcode == 0x19 {
        op_update_resources(g)
    } else if opcode == 0x1A {
        op_play_music(g)
    } else {
        Err(Error::Corrupt)
    }
}

/// An instruction whose opcode is unknown stops the machine.
pub proof fn lemma_unknown_opcode_fails(g: GameView)
    requires
        !code_avail(g, 1) || !known_opcode(code_u8(g, 0)),
    ensures
        stepped(g) == Err::<GameView, Error>(Error::Corrupt),
{
    let opcode = code_u8(g, 0);
    assert(opcode & 0xC0 == 0 && opcode > 0x1A ==> opcode != 0x00 && opcode != 0x01) by (bit_vector);
}

/// Why a task's turn is interrupted or over.
#[derive(Clone, Copy, Debug, PartialEq, Eq, Structural)]
pub enum TaskStop {
    /// The task has ended its turn.
    Yielded,
    /// The task has updated the display and goes on when the host has
    /// presented it.
    Present,
    /// The task has used up its budget of instructions and goes on when
    /// called again.
    Suspended,
}

/// What the host is to do before it calls again.
#[derive(Clone, Copy, Debug, PartialEq, Eq, Structural)]
pub enum Progress {
    /// All tasks have had their turn: the frame is over.
    FrameDone,
    /// Page `fb` is to be presented, and `slices` frames' time to pass.
    Present { fb: u8, slices: i16 },
    /// A task has used up its budget of instructions; nothing is to be done.
    Suspended,
}

/// The turn of the task that runs, for `budget` instructions at most: it
/// lasts until the task yields and is interrupted behind each display
/// update.
pub open spec fn task_run(g: GameView, budget: nat) -> Result<(GameView, TaskStop), Error>
    decreases budget,
{
    if g.vm.needs_yield {
        Ok((g, TaskStop::Yielded))
    } else if budget == 0 {
        Ok((g, TaskStop::Suspended))
    } else {
        match stepped(g) {
            Err(e) => Err(e),
            Ok(g1) => if code_u8(g, 0) == OP_UPDATE_DISPLAY {
                Ok((g1, TaskStop::Present))
            } else {
                task_run(g1, (budget - 1) as nat)
            },
        }
    }
}

fn execute_task(g: &mut Game, budget: u32) -> (r: Result<TaskStop, Error>)
    requires
        old(g).wf(),
    ensures
        final(g).wf(),
        match r {
            Ok(stop) => task_run(old(g)@, budget as nat) == Ok::<(GameView, TaskStop), Error>(
                (final(g)@, stop),
            ),
            Err(e) => task_run(old(g)@, budget as nat) == Err::<(GameView, TaskStop), Error>(e),
        },
{
    let mut left = budget;
    loop
        invariant
            g.wf(),
            task_run(g@, left as nat) == task_run(old(g)@, budget as nat),
        decreases left,
    {
        if g.vm.needs_yield {
            return Ok(TaskStop::Yielded);
        }
        if left == 0 {
            return Ok(TaskStop::Suspended);
        }
        let opcode = fetch_u8(g)?;
        execute(g, opcode)?;
        if opcode == OP_UPDATE_DISPLAY {
            return Ok(TaskStop::Present);
        }
        left -= 1;
    }
}

/// The machine with the task whose turn it is at its start.
pub open spec fn task_entered(g: GameView) -> GameView {
    GameView {
        vm: VmView {
            pc: g.vm.tasks[g.vm.cursor as int].pc,
            sp: 0,
            needs_yield: false,
            in_task: true,
            ..g.vm
        },
        ..g
    }
}

/// The machine with the turn of the task whose turn it was over: the task
/// keeps the program counter for its next turn.
pub open spec fn task_left(g: GameView, id: int) -> GameView {
    GameView {
        vm: VmView {
            tasks: g.vm.tasks.update(id, Task { pc: g.vm.pc, ..g.vm.tasks[id] }),
            cursor: (id + 1) as u8,
            in_task: false,
            ..g.vm
        },
        ..g
    }
}

/// The machine with the turn of task `id` interrupted.
pub open spec fn task_held(g: GameView, id: int) -> GameView {
    GameView { vm: VmView { cursor: id as u8, in_task: true, ..g.vm }, ..g }
}

/// The rest of a frame: the tasks from the one whose turn it is on have
/// their turn in order, but those that are halted or frozen. Each turn may
/// take `budget` instructions without interruption.
pub open spec fn tasks_run(g: GameView, budget: nat) -> Result<(GameView, Progress), Error>
    decreases 64 - g.vm.cursor,
{
    let id = g.vm.cursor as int;
    if id >= 64 {
        Ok((GameView { vm: VmView { cursor: 0, in_task: false, ..g.vm }, ..g }, Progress::FrameDone))
    } else if !g.vm.in_task && (g.vm.tasks[id].pc == HALT_PC || g.vm.tasks[id].frozen) {
        tasks_run(GameView { vm: VmView { cursor: (id + 1) as u8, ..g.vm }, ..g }, budget)
    } else {
        let entered = if g.vm.in_task {
            g
        } else {
            task_entered(g)
        };
        match task_run(entered, budget) {
            Err(e) => Err(e),
            Ok((g1, stop)) => match stop {
                TaskStop::Yielded => tasks_run(task_left(g1, id), budget),
                TaskStop::Present => Ok(
                    (
                        task_held(g1, id),
                        Progress::Present {
                            fb: g1.video.fb_xlat[1],
                            slices: g1.vm.regs[REG_PAUSE_SLICES as int],
                        },
                    ),
                ),
                TaskStop::Suspended => Ok((task_held(g1, id), Progress::Suspended)),
            },
        }
    }
}

/// A task that is halted or frozen is passed over: the frame goes on with
/// the next task as if it were not there.
pub proof fn lemma_idle_task_is_skipped(g: GameView, budget: nat)
    requires
        g.vm.cursor < 64,
        !g.vm.in_task,
        g.vm.tasks[g.vm.cursor as int].pc == HALT_PC || g.vm.tasks[g.vm.cursor as int].frozen,
    ensures
        tasks_run(g, budget) == tasks_run(
            GameView { vm: VmView { cursor: (g.vm.cursor + 1) as u8, ..g.vm }, ..g },
            budget,
        ),
{
}

/// A turn that starts in front of a byte that is no opcode, or of no byte
/// at all, stops the machine.
pub proof fn lemma_turn_at_unknown_opcode_fails(g: GameView, budget: nat)
    requires
        !g.vm.needs_yield,
        budget > 0,
        !code_avail(g, 1) || !known_opcode(code_u8(g, 0)),
    ensures
        task_run(g, budget) == Err::<(GameView, TaskStop), Error>(Error::Corrupt),
{
    lemma_unknown_opcode_fails(g);
}

/// When the frame is over, no frame is under way; when the host has
/// something to do, or a task was interrupted, one is.
pub proof fn lemma_frame_ends_clean(g: GameView, budget: nat)
    requires
        g.vm.cursor <= 64,
        tasks_run(g, budget) is Ok,
    ensures
        tasks_run(g, budget)->Ok_0.1 == Progress::FrameDone <==> !tasks_run(
            g,
            budget,
        )->Ok_0.0.vm.mid_frame(),
    decreases 64 - g.vm.cursor,
{
    let id = g.vm.cursor as int;
    if id >= 64 {
    } else if !g.vm.in_task && (g.vm.tasks[id].pc == HALT_PC || g.vm.tasks[id].frozen) {
        lemma_frame_ends_clean(
            GameView { vm: VmView { cursor: (id + 1) as u8, ..g.vm }, ..g },
            budget,
        );
    } else {
        let entered = if g.vm.in_task {
            g
        } else {
            task_entered(g)
        };
        let (g1, stop) = task_run(entered, budget)->Ok_0;
        if stop == TaskStop::Yielded {
            lemma_frame_ends_clean(task_left(g1, id), budget);
        }
    }
}

/// Whether a call reports that the frame is over.
pub open spec fn res_is_frame_done(r: Result<Progress, Error>) -> bool {
    r == Ok::<Progress, Error>(Progress::FrameDone)
}

/// Gives the tasks their turns, from the one whose turn it is on, until the
/// frame is over or the host has something to do.
#[verifier::rlimit(40)]
pub fn run_tasks(g: &mut Game, budget: u32) -> (r: Result<Progress, Error>)
    requires
        old(g).wf(),
    ensures
        final(g).wf(),
        match r {
            Ok(p) => tasks_run(old(g)@, budget as nat) == Ok::<(GameView, Progress), Error>(
                (final(g)@, p),
            ),
            Err(e) => tasks_run(old(g)@, budget as nat) == Err::<(GameView, Progress), Error>(e),
        },
        res_is_frame_done(r) <==> r is Ok && !final(g)@.vm.mid_frame(),
{
    proof {
        if tasks_run(old(g)@, budget as nat) is Ok {
            lemma_frame_ends_clean(old(g)@, budget as nat);
        }
    }
    loop
        invariant
            g.wf(),
            tasks_run(g@, budget as nat) == tasks_run(old(g)@, budget as nat),
            tasks_run(old(g)@, budget as nat) is Ok ==> (tasks_run(old(g)@, budget as nat)->Ok_0.1
                == Progress::FrameDone <==> !tasks_run(
                old(g)@,
                budget as nat,
            )->Ok_0.0.vm.mid_frame()),
        decreases 64 - g.vm.cursor,
    {
        let id = g.vm.cursor as usize;
        if id >= TASK_COUNT {
            g.vm.cursor = 0;
            g.vm.in_task = false;
            return Ok(Progress::FrameDone);
        }
        if !g.vm.in_task {
            if g.vm.tasks[id].pc == HALT_PC || g.vm.tasks[id].frozen {
                g.vm.cursor = g.vm.cursor + 1;
                continue ;
            }
            g.vm.pc = g.vm.tasks[id].pc;
            g.vm.sp = 0;
            g.vm.needs_yield = false;
            g.vm.in_task = true;
        }
        let stop = execute_task(g, budget)?;
        match stop {
            TaskStop::Yielded => {
                g.vm.tasks[id].pc = g.vm.pc;
                g.vm.cursor = (id + 1) as u8;
                g.vm.in_task = false;
            },
            TaskStop::Present => {
                let fb = g.video.front_page();
                let slices = g.vm.regs[REG_PAUSE_SLICES];
                g.vm.cursor = id as u8;
                g.vm.in_task = true;
                return Ok(Progress::Present { fb, slices });
            },
            TaskStop::Suspended => {
                g.vm.cursor = id as u8;
                g.vm.in_task = true;
                return Ok(Progress::Suspended);
            },
        }
    }
}

/// The tasks after staging: each takes over whether it is frozen, and the
/// program counter staged for it, if any, where `PRE_HALT_PC` halts it.
pub open spec fn staged_tasks(tasks: Seq<Task>, pending: Seq<Task>) -> Seq<Task> {
    Seq::new(
        64,
        |i: int|
            Task {
                pc: if pending[i].pc == HALT_PC {
                    tasks[i].pc
                } else if pending[i].pc == PRE_HALT_PC {
                    HALT_PC
                } else {
                    pending[i].pc
                },
                frozen: pending[i].frozen,
            },
    )
}

/// What is staged after staging: no program counter for any task.
pub open spec fn cleared_pending(pending: Seq<Task>) -> Seq<Task> {
    Seq::new(64, |i: int| Task { pc: HALT_PC, frozen: pending[i].frozen })
}

/// The machine made ready for a restart at part `part`: all sound stopped
/// and the registers set that the part's scripts expect.
pub open spec fn restart_prepared(g: GameView, part: u16) -> GameView {
    let g1 = with_reg(sfx::all_stopped(g), 0xE4, 20);
    if part == 16000 {
        with_reg(g1, 0x54, 0x81)
    } else {
        g1
    }
}

/// The machine with every task halted but the first, which starts at
/// address zero, nothing staged, no screen announced and no frame under
/// way. A position that is not negative goes to register 0.
pub open spec fn tasks_reset(g: GameView, pos: i16, now_ms: u64) -> GameView {
    GameView {
        vm: VmView {
            regs: if pos >= 0 {
                g.vm.regs.update(0, pos)
            } else {
                g.vm.regs
            },
            tasks: Seq::new(64, |i: int| idle_task()).update(0, Task { pc: 0, frozen: false }),
            pending_tasks: Seq::new(64, |i: int| idle_task()),
            last_swap_time: now_ms,
            cursor: 0,
            in_task: false,
            ..g.vm
        },
        screen_num: None,
        ..g
    }
}

/// The machine restarted at part `part`: made ready, the part set up, the
/// tasks reset. The password screen, part 16009, gets palette 5 where the
/// palettes need fixing up.
pub open spec fn restarted(g: GameView, part: u16, pos: i16, now_ms: u64) -> Result<
    GameView,
    Error,
> {
    match mem::part_set_up(restart_prepared(g, part), part) {
        Err(e) => Err(e),
        Ok(g1) => {
            let g2 = tasks_reset(g1, pos, now_ms);
            if g2.video.needs_pal_fixup && part == 16009 {
                Ok(video::with_palette(g2, 5))
            } else {
                Ok(g2)
            }
        },
    }
}

fn prepare_restart(g: &mut Game, part: u16)
    requires
        old(g).wf(),
    ensures
        final(g).wf(),
        final(g)@ == restart_prepared(old(g)@, part),
{
    sfx::stop_sound_and_music(g);
    g.vm.regs[0xE4] = 20;
    if part == 16000 {
        g.vm.regs[0x54] = 0x81;
    }
}

fn reset_tasks(g: &mut Game, pos: i16, now_ms: u64)
    requires
        old(g).wf(),
    ensures
        final(g).wf(),
        final(g)@ == tasks_reset(old(g)@, pos, now_ms),
{
    let idle = Task { pc: HALT_PC, frozen: false };
    g.vm.tasks = [idle;64];
    g.vm.pending_tasks = [idle;64];
    g.vm.tasks[0].pc = 0;
    g.screen_num = None;
    if pos >= 0 {
        g.vm.regs[0] = pos;
    }
    g.vm.last_swap_time = now_ms;
    g.vm.cursor = 0;
    g.vm.in_task = false;
    assert(g@.vm.tasks =~= Seq::new(64, |i: int| idle_task()).update(
        0,
        Task { pc: 0, frozen: false },
    ));
    assert(g@.vm.pending_tasks =~= Seq::new(64, |i: int| idle_task()));
}

/// Restarts the machine at part `part`; `now_ms` is the host's time.
pub fn restart_at(g: &mut Game, part: u16, pos: i16, now_ms: u64) -> (r: Result<(), Error>)
    requires
        old(g).wf(),
    ensures
        final(g).wf(),
        agrees(r, final(g)@, restarted(old(g)@, part, pos, now_ms)),
{
    prepare_restart(g, part);
    mem::setup_part(g, part)?;
    reset_tasks(g, pos, now_ms);
    if g.video.needs_pal_fixup() && part == 16009 {
        video::load_pal_mem(g, 5);
    }
    Ok(())
}

/// The machine at the start of a frame: restarted at the part that a script
/// has asked for, if any, and with what was staged for the tasks in force.
pub open spec fn staged(g: GameView, now_ms: u64) -> Result<GameView, Error> {
    let turned = match g.next_part {
        Some(part) => restarted(GameView { next_part: None, ..g }, part, -1i16, now_ms),
        None => Ok(g),
    };
    match turned {
        Err(e) => Err(e),
        Ok(g1) => Ok(
            GameView {
                vm: VmView {
                    tasks: staged_tasks(g1.vm.tasks, g1.vm.pending_tasks),
                    pending_tasks: cleared_pending(g1.vm.pending_tasks),
                    ..g1.vm
                },
                ..g1
            },
        ),
    }
}

/// Starts a frame; `now_ms` is the host's time.
#[verifier::rlimit(40)]
pub fn stage_tasks(g: &mut Game, now_ms: u64) -> (r: Result<(), Error>)
    requires
        old(g).wf(),
    ensures
        final(g).wf(),
        agrees(r, final(g)@, staged(old(g)@, now_ms)),
{
    let next = g.next_part;
    g.next_part = None;
    match next {
        Some(part) => {
            restart_at(g, part, -1, now_ms)?;
        },
        None => {},
    }
    let ghost turned = g@;
    let mut i: usize = 0;
    while i < TASK_COUNT
        invariant
            g.wf(),
            i <= 64,
            turned.vm.wf(),
            g@ == (GameView {
                vm: VmView {
                    tasks: g@.vm.tasks,
                    pending_tasks: g@.vm.pending_tasks,
                    ..turned.vm
                },
                ..turned
            }),
            forall|k: int|
                0 <= k < 64 ==> g@.vm.tasks[k] == if k < i {
                    staged_tasks(turned.vm.tasks, turned.vm.pending_tasks)[k]
                } else {
                    turned.vm.tasks[k]
                },
            forall|k: int|
                0 <= k < 64 ==> g@.vm.pending_tasks[k] == if k < i {
                    cleared_pending(turned.vm.pending_tasks)[k]
                } else {
                    turned.vm.pending_tasks[k]
                },
        decreases 64 - i,
    {
        let pending = g.vm.pending_tasks[i];
        g.vm.tasks[i].frozen = pending.frozen;
        if pending.pc != HALT_PC {
            g.vm.tasks[i].pc = if pending.pc == PRE_HALT_PC {
                HALT_PC
            } else {
                pending.pc
            };
            g.vm.pending_tasks[i].pc = HALT_PC;
        }
        i += 1;
    }
    assert(g@.vm.tasks =~= staged_tasks(turned.vm.tasks, turned.vm.pending_tasks));
    assert(g@.vm.pending_tasks =~= cleared_pending(turned.vm.pending_tasks));
    Ok(())
}

/// The key that the password screen is told of: a valid one as its upper
/// case, zero for anything else.
pub open spec fn key_value(last_char: Option<u8>) -> i16 {
    match last_char {
        Some(c) => if valid_keychar(c) {
            (c & 0xDF) as i16
        } else {
            0i16
        },
        None => 0i16,
    }
}

/// The controls as a number: 1 for right, 2 for left, 4 for down, 8 for up.
pub open spec fn direction_mask(input: Input) -> int {
    (if input.right {
        1int
    } else {
        0int
    }) + (if input.left {
        2int
    } else {
        0int
    }) + (if input.down {
        4int
    } else {
        0int
    }) + (if input.up {
        8int
    } else {
        0int
    })
}

/// The machine after the scripts were told of the controls. The key last
/// pressed is told, and forgotten, on the password screen only.
pub open spec fn input_updated(g: GameView) -> GameView {
    let input = g.input;
    let typing = g.current_part == 16009;
    let regs = if typing {
        g.vm.regs.update(REG_LAST_KEYCHAR as int, key_value(input.last_char))
    } else {
        g.vm.regs
    };
    let mask = direction_mask(input);
    GameView {
        vm: VmView {
            regs: regs.update(
                REG_HERO_POS_LEFT_RIGHT as int,
                direction(input.left, input.right),
            ).update(REG_HERO_POS_UP_DOWN as int, direction(input.up, input.down)).update(
                REG_HERO_POS_JUMP_DOWN as int,
                direction(input.up, input.down),
            ).update(REG_HERO_POS_MASK as int, mask as i16).update(
                REG_HERO_ACTION as int,
                if input.button {
                    1i16
                } else {
                    0i16
                },
            ).update(
                REG_HERO_ACTION_POS_MASK as int,
                (mask + if input.button {
                    128int
                } else {
                    0int
                }) as i16,
            ),
            ..g.vm
        },
        input: if typing {
            Input { last_char: None, ..input }
        } else {
            input
        },
        ..g
    }
}

/// Tells the scripts of the controls.
#[verifier::rlimit(40)]
pub fn update_input(g: &mut Game)
    requires
        old(g).wf(),
    ensures
        final(g).wf(),
        final(g)@ == input_updated(old(g)@),
{
    let input = g.input;
    if g.current_part == 16009 {
        let key: i16 = match input.last_char {
            Some(c) => if is_valid_keychar(c) {
                (c & 0xDF) as i16
            } else {
                0
            },
            None => 0,
        };
        g.input.last_char = None;
        g.vm.regs[REG_LAST_KEYCHAR] = key;
    }
    g.vm.regs[REG_HERO_POS_LEFT_RIGHT] = make_dir(input.left, input.right);
    g.vm.regs[REG_HERO_POS_UP_DOWN] = make_dir(input.up, input.down);
    g.vm.regs[REG_HERO_POS_JUMP_DOWN] = make_dir(input.up, input.down);
    let mut mask: i16 = 0;
    if input.right {
        mask = mask + 1;
    }
    if input.left {
        mask = mask + 2;
    }
    if input.down {
        mask = mask + 4;
    }
    if input.up {
        mask = mask + 8;
    }
    g.vm.regs[REG_HERO_POS_MASK] = mask;
    g.vm.regs[REG_HERO_ACTION] = if input.button {
        1
    } else {
        0
    };
    g.vm.regs[REG_HERO_ACTION_POS_MASK] = if input.button {
        mask + 128
    } else {
        mask
    };
}

} // verus!
