//! What the machine asks of the program around it, and the arithmetic of
//! pacing and of playing a sound at another rate.

use crate::data::MIN_FREQUENCY;
use crate::sfx::{mix_samples, mixed, smoothed, Frac, GAME_RATE};
use crate::{Error, Game, GameView};
use vstd::prelude::*;

verus! {

/// Frames per second of the machine.
pub const FRAME_HZ: i32 = 50;

/// Something for the host to do with one of its four sound channels.
pub enum HostCommand {
    /// Silence the channel.
    StopSound { channel: u8 },
    /// Play `samples`, signed 8-bit mono at `GAME_RATE`, on the channel:
    /// once, or for ever if `looping`.
    PlaySound { channel: u8, volume: u8, samples: Vec<u8>, looping: bool },
}

/// What a `HostCommand` says.
pub enum CommandView {
    StopSound { channel: u8 },
    PlaySound { channel: u8, volume: u8, samples: Seq<u8>, looping: bool },
}

impl View for HostCommand {
    type V = CommandView;

    open spec fn view(&self) -> CommandView {
        match self {
            HostCommand::StopSound { channel } => CommandView::StopSound { channel: *channel },
            HostCommand::PlaySound { channel, volume, samples, looping } => CommandView::PlaySound {
                channel: *channel,
                volume: *volume,
                samples: samples@,
                looping: *looping,
            },
        }
    }
}

/// What a queue of commands says, oldest first.
pub open spec fn commands_view(q: Seq<HostCommand>) -> Seq<CommandView> {
    Seq::new(q.len(), |i: int| q[i]@)
}

/// The step, in 1/65536ths of a sample, at which a sound recorded for
/// `freq` samples per second is read to be played at `GAME_RATE`.
pub open spec fn resample_step(freq: u16) -> int {
    (freq as int * 65536) / (GAME_RATE as int)
}

/// Number of samples that `len` samples become when read at step `inc`.
pub open spec fn resampled_len(len: int, inc: int) -> int {
    (len * 65536 + inc - 1) / inc
}

/// The `len` samples from `start` of `data`, recorded for `freq` samples
/// per second, as they are played at `GAME_RATE`: the nearest sample below
/// each position is taken.
pub open spec fn resampled(data: Seq<u8>, start: int, len: int, freq: u16) -> Seq<u8> {
    let inc = resample_step(freq);
    Seq::new(resampled_len(len, inc) as nat, |n: int| data[start + (n * inc) / 65536])
}

/// Picks the samples of a sound for playing at `GAME_RATE`.
pub fn resample(data: &[u8], start: usize, len: u16, freq: u16) -> (out: Vec<u8>)
    requires
        freq >= MIN_FREQUENCY,
        start + len <= data@.len(),
    ensures
        out@ == resampled(data@, start as int, len as int, freq),
{
    // Calling `len` makes known that the length fits a `usize`.
    let _ = data.len();
    assert((freq as u32) << 16 == freq as u32 * 65536) by (bit_vector);
    let mut pos = Frac::new(freq as u32, GAME_RATE as u32);
    let ghost inc = resample_step(freq);
    assert(13113 <= inc <= 389566) by (nonlinear_arith)
        requires
            inc == (freq as int * 65536) / 11025,
            2206 <= freq <= 65535,
    ;
    let mut out: Vec<u8> = Vec::new();
    let ghost mut n: int = 0;
    loop
        invariant
            pos.inc == inc,
            13113 <= inc <= 389566,
            start + len <= data@.len(),
            data@.len() <= usize::MAX,
            0 <= n,
            pos.offset == n * inc,
            pos.offset <= len * 65536 + inc,
            out@.len() == n,
            forall|k: int| 0 <= k < n ==> out@[k] == data@[start + (k * inc) / 65536],
            n > 0 ==> (n - 1) * inc < len * 65536,
        ensures
            pos.offset / 65536 >= len,
        decreases len * 65536 + inc - pos.offset,
    {
        let offset = pos.offset;
        assert(offset >> 16 == offset / 65536) by (bit_vector);
        let at = pos.int_part();
        if at >= len as u32 {
            break ;
        }
        out.push(data[start + at as usize]);
        pos.inc();
        proof {
            assert((n + 1) * inc == n * inc + inc) by (nonlinear_arith);
            n = n + 1;
        }
    }
    proof {
        let total = len * 65536;
        assert(n * inc >= total);
        assert(resampled_len(len as int, inc) == n) by (nonlinear_arith)
            requires
                inc > 0,
                n >= 0,
                n * inc >= total,
                n > 0 ==> (n - 1) * inc < total,
                total >= 0,
                resampled_len(len as int, inc) == (total + inc - 1) / inc,
        ;
        assert(out@ =~= resampled(data@, start as int, len as int, freq));
    }
    out
}

/// Milliseconds of a frame.
pub open spec fn frame_ms() -> int {
    1000int / (FRAME_HZ as int)
}

/// Milliseconds since the display was last updated, as far as 31 bits
/// count them.
pub fn elapsed_ms(last_swap_ms: u64, now_ms: u64) -> (delay: i32)
    ensures
        delay == if now_ms <= last_swap_ms {
            0
        } else if now_ms - last_swap_ms > i32::MAX {
            i32::MAX as int
        } else {
            now_ms - last_swap_ms
        },
{
    if now_ms <= last_swap_ms {
        0
    } else if now_ms - last_swap_ms > i32::MAX as u64 {
        i32::MAX
    } else {
        (now_ms - last_swap_ms) as i32
    }
}

/// Takes one frame's time off the time that has passed since the display
/// was updated. Returns how long to sleep, which is what the frame's time
/// exceeds it by, and what is left of it.
pub fn pause_slice(delay: i32) -> (r: (u64, i32))
    ensures
        r.0 == if delay < frame_ms() {
            frame_ms() - delay
        } else {
            0
        },
        r.1 == if delay < frame_ms() {
            0
        } else {
            delay - frame_ms()
        },
{
    let left = delay as i64 - (1000 / FRAME_HZ) as i64;
    if left < 0 {
        ((-left) as u64, 0)
    } else {
        (0, left as i32)
    }
}

/// Mixes as much music as the host has room for: `slots_free` samples.
/// Nothing when no music plays.
pub fn produce_music(g: &mut Game, slots_free: usize) -> (r: Result<Vec<i16>, Error>)
    requires
        old(g).wf(),
    ensures
        final(g).wf(),
        old(g)@.music.delay == 0 ==> r is Ok && r->Ok_0@.len() == 0 && final(g)@ == old(g)@,
        old(g)@.music.delay != 0 ==> match mixed(old(g)@, slots_free as nat / 2) {
            Ok((after, samples)) => r is Ok && final(g)@ == after && r->Ok_0@ == smoothed(
                samples + Seq::new((slots_free % 2) as nat, |i: int| 0i16),
            ),
            Err(e) => r == Err::<Vec<i16>, Error>(e),
        },
{
    if g.music.is_end_of_track() {
        return Ok(Vec::new());
    }
    let mut buf = vec![0i16; slots_free];
    assert(buf@.subrange(2 * (slots_free as int / 2), slots_free as int) =~= Seq::new(
        (slots_free % 2) as nat,
        |i: int| 0i16,
    ));
    mix_samples(g, buf.as_mut_slice())?;
    Ok(buf)
}

} // verus!
